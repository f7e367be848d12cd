//! Preparing the index document: normalizing the configured path prefix and
//! rewriting asset references in the pre-rendered index so they resolve
//! under that prefix. The document itself is handed in by the application
//! edge; this module holds the rewriting logic.
use vstd::prelude::*;

verus! {

/// The path separator byte.
pub const SLASH: u8 = 47;

/// `s` with each non-overlapping occurrence of `from`, scanned left to
/// right, replaced by `to`.
pub open spec fn replace_spec(s: Seq<u8>, from: Seq<u8>, to: Seq<u8>) -> Seq<u8>
    decreases s.len(),
{
    if from.len() == 0 || s.len() < from.len() {
        s
    } else if s.subrange(0, from.len() as int) == from {
        to + replace_spec(s.skip(from.len() as int), from, to)
    } else {
        seq![s[0]] + replace_spec(s.skip(1), from, to)
    }
}

/// Whether `from` occurs in `s` at position `i`.
fn matches_at(s: &Vec<u8>, from: &Vec<u8>, i: usize) -> (r: bool)
    requires
        i + from@.len() <= s@.len(),
    ensures
        r == (s@.subrange(i as int, i as int + from@.len() as int) == from@),
{
    let n = s.len();
    let mut j: usize = 0;
    while j < from.len()
        invariant
            n == s@.len(),
            i + from@.len() <= s@.len(),
            j <= from@.len(),
            forall|k: int| 0 <= k < j ==> s@[i + k] == from@[k],
        decreases from@.len() - j,
    {
        if s[i + j] != from[j] {
            proof {
                let sub = s@.subrange(i as int, i as int + from@.len() as int);
                assert(sub[j as int] == s@[i + j]);
            }
            return false;
        }
        j = j + 1;
    }
    proof {
        assert(s@.subrange(i as int, i as int + from@.len() as int) =~= from@);
    }
    true
}

/// Append a copy of `src` to `out`.
fn push_bytes(out: &mut Vec<u8>, src: &Vec<u8>)
    ensures
        final(out)@ == old(out)@ + src@,
{
    let ghost pre = out@;
    let mut k: usize = 0;
    while k < src.len()
        invariant
            k <= src@.len(),
            out@ == pre + src@.take(k as int),
        decreases src@.len() - k,
    {
        out.push(src[k]);
        proof {
            assert(out@ =~= pre + src@.take(k as int + 1));
        }
        k = k + 1;
    }
    proof {
        assert(pre + src@.take(src@.len() as int) =~= pre + src@);
    }
}

/// Replace each non-overlapping occurrence of `from` in `s` by `to`,
/// scanning left to right.
pub fn replace_all(s: &Vec<u8>, from: &Vec<u8>, to: &Vec<u8>) -> (r: Vec<u8>)
    requires
        from@.len() >= 1,
    ensures
        r@ == replace_spec(s@, from@, to@),
{
    let mut out: Vec<u8> = Vec::new();
    let mut i: usize = 0;
    let flen = from.len();
    let slen = s.len();
    proof {
        assert(s@.skip(0) =~= s@);
        assert(out@ + replace_spec(s@, from@, to@) =~= replace_spec(s@, from@, to@));
    }
    if flen <= slen {
        while i <= slen - flen
            invariant
                flen == from@.len(),
                slen == s@.len(),
                flen >= 1,
                flen <= slen,
                i <= slen,
                replace_spec(s@, from@, to@) == out@ + replace_spec(
                    s@.skip(i as int),
                    from@,
                    to@,
                ),
            decreases slen - i,
        {
            let ghost rem = s@.skip(i as int);
            if matches_at(s, from, i) {
                push_bytes(&mut out, to);
                proof {
                    assert(rem.subrange(0, flen as int) =~= s@.subrange(
                        i as int,
                        i as int + flen as int,
                    ));
                    assert(replace_spec(rem, from@, to@) == to@ + replace_spec(
                        rem.skip(flen as int),
                        from@,
                        to@,
                    ));
                    assert(rem.skip(flen as int) =~= s@.skip(i as int + flen as int));
                }
                i = i + flen;
            } else {
                out.push(s[i]);
                proof {
                    assert(rem.subrange(0, flen as int) =~= s@.subrange(
                        i as int,
                        i as int + flen as int,
                    ));
                    assert(replace_spec(rem, from@, to@) == seq![rem[0]] + replace_spec(
                        rem.skip(1),
                        from@,
                        to@,
                    ));
                    assert(rem[0] == s@[i as int]);
                    assert(rem.skip(1) =~= s@.skip(i as int + 1));
                }
                i = i + 1;
            }
        }
    }
    proof {
        assert(s@.skip(i as int).len() < flen as int);
        assert(replace_spec(s@.skip(i as int), from@, to@) == s@.skip(i as int));
    }
    while i < slen
        invariant
            slen == s@.len(),
            i <= slen,
            replace_spec(s@, from@, to@) == out@ + s@.skip(i as int),
        decreases slen - i,
    {
        let ghost pre = out@;
        out.push(s[i]);
        proof {
            assert(s@.skip(i as int) =~= seq![s@[i as int]] + s@.skip(i as int + 1));
            assert(out@ + s@.skip(i as int + 1) =~= pre + s@.skip(i as int));
        }
        i = i + 1;
    }
    proof {
        assert(s@.skip(slen as int) =~= Seq::<u8>::empty());
        assert(out@ + s@.skip(slen as int) =~= out@);
    }
    out
}

/// The given bytes without their leading slashes.
pub open spec fn trim_leading(s: Seq<u8>) -> Seq<u8>
    decreases s.len(),
{
    if s.len() == 0 {
        s
    } else if s[0] == SLASH {
        trim_leading(s.skip(1))
    } else {
        s
    }
}

/// The given bytes without their trailing slashes.
pub open spec fn trim_trailing(s: Seq<u8>) -> Seq<u8>
    decreases s.len(),
{
    if s.len() == 0 {
        s
    } else if s.last() == SLASH {
        trim_trailing(s.drop_last())
    } else {
        s
    }
}

/// The normal form of a configured path prefix: a single leading slash,
/// then the prefix stripped of surrounding slashes. The empty configuration
/// normalizes to the bare slash.
pub open spec fn normalized_prefix(s: Seq<u8>) -> Seq<u8> {
    seq![SLASH] + trim_trailing(trim_leading(s))
}

/// Normalize a configured path prefix.
pub fn normalize_prefix(raw: &Vec<u8>) -> (r: Vec<u8>)
    ensures
        r@ == normalized_prefix(raw@),
{
    let mut a: usize = 0;
    proof {
        assert(raw@.skip(0) =~= raw@);
    }
    while a < raw.len() && raw[a] == SLASH
        invariant
            a <= raw@.len(),
            trim_leading(raw@) == trim_leading(raw@.skip(a as int)),
        decreases raw@.len() - a,
    {
        proof {
            let rem = raw@.skip(a as int);
            assert(rem[0] == SLASH);
            assert(rem.skip(1) =~= raw@.skip(a as int + 1));
        }
        a = a + 1;
    }
    proof {
        let rem = raw@.skip(a as int);
        if a < raw@.len() {
            assert(rem[0] != SLASH);
        }
        assert(trim_leading(rem) == rem);
        assert(rem =~= raw@.subrange(a as int, raw@.len() as int));
    }
    let mut b: usize = raw.len();
    while b > a && raw[b - 1] == SLASH
        invariant
            a <= b <= raw@.len(),
            trim_leading(raw@) == raw@.subrange(a as int, raw@.len() as int),
            trim_trailing(trim_leading(raw@)) == trim_trailing(
                raw@.subrange(a as int, b as int),
            ),
        decreases b,
    {
        proof {
            let cur = raw@.subrange(a as int, b as int);
            assert(cur.last() == SLASH);
            assert(cur.drop_last() =~= raw@.subrange(a as int, b as int - 1));
        }
        b = b - 1;
    }
    proof {
        let cur = raw@.subrange(a as int, b as int);
        if b > a {
            assert(cur.last() == raw@[b - 1]);
            assert(cur.last() != SLASH);
        }
        assert(trim_trailing(cur) == cur);
    }
    let mut out: Vec<u8> = Vec::new();
    out.push(SLASH);
    proof {
        assert(out@ =~= seq![SLASH] + raw@.subrange(a as int, a as int));
    }
    let mut i: usize = a;
    while i < b
        invariant
            a <= i <= b <= raw@.len(),
            out@ == seq![SLASH] + raw@.subrange(a as int, i as int),
        decreases b - i,
    {
        out.push(raw[i]);
        proof {
            assert(out@ =~= seq![SLASH] + raw@.subrange(a as int, i as int + 1));
        }
        i = i + 1;
    }
    out
}

/// What stands in for the prefix inside rewritten references: the bare
/// prefix "/" contributes nothing, any other prefix is taken as is.
pub open spec fn effective_prefix(p: Seq<u8>) -> Seq<u8> {
    if p == seq![SLASH] {
        Seq::<u8>::empty()
    } else {
        p
    }
}

/// The bytes of `href="/`, the start of an absolute asset reference.
pub open spec fn href_needle() -> Seq<u8> {
    seq![104u8, 114u8, 101u8, 102u8, 61u8, 34u8, 47u8]
}

/// The bytes of `href="`, then the effective prefix, then `/static/`.
pub open spec fn href_replacement(p: Seq<u8>) -> Seq<u8> {
    seq![104u8, 114u8, 101u8, 102u8, 61u8, 34u8] + effective_prefix(p) + seq![
        47u8,
        115u8,
        116u8,
        97u8,
        116u8,
        105u8,
        99u8,
        47u8,
    ]
}

/// The bytes of `'/mailcrab-frontend`, the start of the frontend script
/// reference.
pub open spec fn frontend_needle() -> Seq<u8> {
    seq![39u8, 47u8] + frontend_name()
}

/// The bytes of `mailcrab-frontend`.
pub open spec fn frontend_name() -> Seq<u8> {
    seq![
        109u8,
        97u8,
        105u8,
        108u8,
        99u8,
        114u8,
        97u8,
        98u8,
        45u8,
        102u8,
        114u8,
        111u8,
        110u8,
        116u8,
        101u8,
        110u8,
        100u8,
    ]
}

/// The bytes of `'`, then the effective prefix, then `/static/`, then the
/// frontend name.
pub open spec fn frontend_replacement(p: Seq<u8>) -> Seq<u8> {
    seq![39u8] + effective_prefix(p) + seq![47u8, 115u8, 116u8, 97u8, 116u8, 105u8, 99u8, 47u8]
        + frontend_name()
}

/// The index document with both kinds of absolute asset reference rewritten
/// to live under the effective prefix.
pub open spec fn rendered_index(index: Seq<u8>, prefix: Seq<u8>) -> Seq<u8> {
    replace_spec(
        replace_spec(index, href_needle(), href_replacement(prefix)),
        frontend_needle(),
        frontend_replacement(prefix),
    )
}

/// The bytes of `mailcrab-frontend`.
fn frontend_name_bytes() -> (r: Vec<u8>)
    ensures
        r@ == frontend_name(),
{
    let mut v: Vec<u8> = Vec::new();
    v.push(109);
    v.push(97);
    v.push(105);
    v.push(108);
    v.push(99);
    v.push(114);
    v.push(97);
    v.push(98);
    v.push(45);
    v.push(102);
    v.push(114);
    v.push(111);
    v.push(110);
    v.push(116);
    v.push(101);
    v.push(110);
    v.push(100);
    proof {
        assert(v@ =~= frontend_name());
    }
    v
}

/// The bytes of `/static/`.
fn static_segment_bytes() -> (r: Vec<u8>)
    ensures
        r@ == seq![47u8, 115u8, 116u8, 97u8, 116u8, 105u8, 99u8, 47u8],
{
    let mut v: Vec<u8> = Vec::new();
    v.push(47);
    v.push(115);
    v.push(116);
    v.push(97);
    v.push(116);
    v.push(105);
    v.push(99);
    v.push(47);
    proof {
        assert(v@ =~= seq![47u8, 115u8, 116u8, 97u8, 116u8, 105u8, 99u8, 47u8]);
    }
    v
}

/// The effective prefix as bytes.
fn effective_prefix_bytes(prefix: &Vec<u8>) -> (r: Vec<u8>)
    ensures
        r@ == effective_prefix(prefix@),
{
    let mut p: Vec<u8> = Vec::new();
    if prefix.len() == 1 && prefix[0] == SLASH {
        proof {
            assert(prefix@ =~= seq![SLASH]);
        }
    } else {
        proof {
            if prefix@ == seq![SLASH] {
                assert(prefix@.len() == 1 && prefix@[0] == SLASH);
            }
        }
        push_bytes(&mut p, prefix);
        proof {
            assert(p@ =~= prefix@);
        }
    }
    p
}

/// Rewrite the asset references of the index document so they resolve under
/// the configured prefix: `href="/` becomes `href="<prefix>/static/` and
/// `'/mailcrab-frontend` becomes `'<prefix>/static/mailcrab-frontend`,
/// where the bare prefix `/` contributes nothing.
pub fn render_index(index: &Vec<u8>, prefix: &Vec<u8>) -> (r: Vec<u8>)
    ensures
        r@ == rendered_index(index@, prefix@),
{
    let p = effective_prefix_bytes(prefix);
    let stat = static_segment_bytes();
    let name = frontend_name_bytes();

    let mut from1: Vec<u8> = Vec::new();
    from1.push(104);
    from1.push(114);
    from1.push(101);
    from1.push(102);
    from1.push(61);
    from1.push(34);
    from1.push(47);
    proof {
        assert(from1@ =~= href_needle());
    }

    let mut to1: Vec<u8> = Vec::new();
    to1.push(104);
    to1.push(114);
    to1.push(101);
    to1.push(102);
    to1.push(61);
    to1.push(34);
    proof {
        assert(to1@ =~= seq![104u8, 114u8, 101u8, 102u8, 61u8, 34u8]);
    }
    push_bytes(&mut to1, &p);
    push_bytes(&mut to1, &stat);
    proof {
        assert(to1@ == href_replacement(prefix@));
    }

    let mut from2: Vec<u8> = Vec::new();
    from2.push(39);
    from2.push(47);
    proof {
        assert(from2@ =~= seq![39u8, 47u8]);
    }
    push_bytes(&mut from2, &name);
    proof {
        assert(from2@ == frontend_needle());
    }

    let mut to2: Vec<u8> = Vec::new();
    to2.push(39);
    proof {
        assert(to2@ =~= seq![39u8]);
    }
    push_bytes(&mut to2, &p);
    push_bytes(&mut to2, &stat);
    push_bytes(&mut to2, &name);
    proof {
        assert(to2@ == frontend_replacement(prefix@));
    }

    let step1 = replace_all(index, &from1, &to1);
    replace_all(&step1, &from2, &to2)
}

} // verus!

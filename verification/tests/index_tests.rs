use mailcrab_backend::index::normalize_prefix;
use mailcrab_backend::index::render_index;
use mailcrab_backend::index::replace_all;

fn bytes(s: &str) -> Vec<u8> {
    s.as_bytes().to_vec()
}

fn text(v: &[u8]) -> String {
    String::from_utf8(v.to_vec()).unwrap()
}

#[test]
fn replace_all_rewrites_each_occurrence() {
    let out = replace_all(&bytes("abcabca"), &bytes("ab"), &bytes("xy"));
    assert_eq!(text(&out), "xycxyca");
}

#[test]
fn replace_all_scans_without_overlap() {
    let out = replace_all(&bytes("aaaa"), &bytes("aa"), &bytes("a"));
    assert_eq!(text(&out), "aa");
}

#[test]
fn replace_all_leaves_text_without_the_needle_alone() {
    let out = replace_all(&bytes("hello"), &bytes("xyz"), &bytes("!"));
    assert_eq!(text(&out), "hello");
}

#[test]
fn replace_all_grows_the_text_when_needed() {
    let out = replace_all(&bytes("a-b"), &bytes("-"), &bytes("---"));
    assert_eq!(text(&out), "a---b");
}

#[test]
fn prefix_normalization() {
    assert_eq!(text(&normalize_prefix(&bytes(""))), "/");
    assert_eq!(text(&normalize_prefix(&bytes("/"))), "/");
    assert_eq!(text(&normalize_prefix(&bytes("mail"))), "/mail");
    assert_eq!(text(&normalize_prefix(&bytes("/mail/"))), "/mail");
    assert_eq!(text(&normalize_prefix(&bytes("//a//b//"))), "/a//b");
    assert_eq!(text(&normalize_prefix(&bytes("////"))), "/");
}

#[test]
fn index_rewrite_with_bare_prefix_targets_static_root() {
    let index = bytes("<link href=\"/style.css\"><script>'/mailcrab-frontend.js'</script>");
    let out = render_index(&index, &bytes("/"));
    assert_eq!(
        text(&out),
        "<link href=\"/static/style.css\"><script>'/static/mailcrab-frontend.js'</script>"
    );
}

#[test]
fn index_rewrite_with_configured_prefix() {
    let index = bytes("<link href=\"/style.css\"><script>'/mailcrab-frontend.js'</script>");
    let out = render_index(&index, &bytes("/mail"));
    assert_eq!(
        text(&out),
        "<link href=\"/mail/static/style.css\"><script>'/mail/static/mailcrab-frontend.js'</script>"
    );
}

#[test]
fn index_without_references_passes_through() {
    let index = bytes("<html><body>nothing to rewrite</body></html>");
    let out = render_index(&index, &bytes("/mail"));
    assert_eq!(text(&out), "<html><body>nothing to rewrite</body></html>");
}

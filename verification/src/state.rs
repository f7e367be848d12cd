//! Immutable runtime configuration and the shared state container that the
//! services read.
use vstd::prelude::*;

use crate::store::MessageStore;

verus! {

/// Default capacity of the broadcast queue.
pub const DEFAULT_QUEUE_CAPACITY: usize = 32;

/// Default port of the mail-protocol listener.
pub const DEFAULT_SMTP_PORT: u16 = 1025;

/// Default port of the web interface.
pub const DEFAULT_HTTP_PORT: u16 = 1080;

/// Process-wide values resolved once at startup, before any service starts,
/// and read-only afterwards. Bind hosts are carried as the textual addresses
/// the environment supplied; the application edge parses them for its
/// sockets. The path prefix is carried as bytes, already normalized.
pub struct RuntimeConfig {
    pub smtp_host: String,
    pub smtp_port: u16,
    pub http_host: String,
    pub http_port: u16,
    pub queue_capacity: usize,
    pub enable_tls_auth: bool,
    pub prefix: Vec<u8>,
    /// Retention window in seconds; zero disables time-based eviction and
    /// the store then grows for the process lifetime.
    pub retention_period: u64,
}

impl RuntimeConfig {
    /// A queue of capacity zero could buffer nothing; every constructed
    /// configuration carries a positive capacity.
    pub open spec fn wf(self) -> bool {
        self.queue_capacity >= 1
    }

    /// Assemble a configuration from resolved values. A zero queue capacity
    /// falls back to the default rather than constructing a queue that can
    /// hold nothing.
    pub fn new(
        smtp_host: String,
        smtp_port: u16,
        http_host: String,
        http_port: u16,
        queue_capacity: usize,
        enable_tls_auth: bool,
        prefix: Vec<u8>,
        retention_period: u64,
    ) -> (r: RuntimeConfig)
        ensures
            r.wf(),
            r.smtp_host == smtp_host,
            r.smtp_port == smtp_port,
            r.http_host == http_host,
            r.http_port == http_port,
            queue_capacity >= 1 ==> r.queue_capacity == queue_capacity,
            queue_capacity == 0 ==> r.queue_capacity == DEFAULT_QUEUE_CAPACITY,
            r.enable_tls_auth == enable_tls_auth,
            r.prefix == prefix,
            r.retention_period == retention_period,
    {
        RuntimeConfig {
            smtp_host,
            smtp_port,
            http_host,
            http_port,
            queue_capacity: if queue_capacity == 0 {
                DEFAULT_QUEUE_CAPACITY
            } else {
                queue_capacity
            },
            enable_tls_auth,
            prefix,
            retention_period,
        }
    }
}

impl Default for RuntimeConfig {
    /// The configuration used when the environment supplies nothing: listen
    /// for mail on every interface, serve the web interface locally, a
    /// 32-message queue, no TLS or authentication, the bare prefix, and
    /// retention disabled.
    fn default() -> (r: RuntimeConfig)
        ensures
            r.wf(),
            r.smtp_host@ == "0.0.0.0"@,
            r.smtp_port == DEFAULT_SMTP_PORT,
            r.http_host@ == "127.0.0.1"@,
            r.http_port == DEFAULT_HTTP_PORT,
            r.queue_capacity == DEFAULT_QUEUE_CAPACITY,
            !r.enable_tls_auth,
            r.prefix@ == seq![47u8],
            r.retention_period == 0,
    {
        let mut prefix: Vec<u8> = Vec::new();
        prefix.push(47);
        proof {
            assert(prefix@ =~= seq![47u8]);
        }
        RuntimeConfig {
            smtp_host: "0.0.0.0".to_owned(),
            smtp_port: DEFAULT_SMTP_PORT,
            http_host: "127.0.0.1".to_owned(),
            http_port: DEFAULT_HTTP_PORT,
            queue_capacity: DEFAULT_QUEUE_CAPACITY,
            enable_tls_auth: false,
            prefix,
            retention_period: 0,
        }
    }
}

/// The single point of truth the services share: the message store (written
/// only by the storage component), the normalized path prefix, the
/// pre-rendered index document (absent when the asset could not be
/// prepared: the web interface then degrades rather than failing startup),
/// and the retention window. The live broadcast subscription the web layer
/// holds sits beside this container at the application edge.
pub struct AppState {
    pub storage: MessageStore,
    pub prefix: Vec<u8>,
    pub index: Option<Vec<u8>>,
    pub retention_period: u64,
}

impl AppState {
    pub open spec fn wf(self) -> bool {
        self.storage.wf()
    }

    /// Assemble the container with an empty store.
    pub fn new(prefix: Vec<u8>, index: Option<Vec<u8>>, retention_period: u64) -> (r: AppState)
        ensures
            r.wf(),
            r.storage@ == Seq::<crate::message::CapturedMessage>::empty(),
            r.prefix == prefix,
            r.index == index,
            r.retention_period == retention_period,
    {
        AppState { storage: MessageStore::new(), prefix, index, retention_period }
    }
}

/// Marker for the embedded frontend assets. The embedding itself — reading
/// the built frontend into the binary — happens at the application edge;
/// the library only rewrites the index document it is handed.
pub struct Asset;

} // verus!

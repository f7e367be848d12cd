//! Core of a local mail-capture service: an in-memory store of captured
//! messages with a retention policy, a fan-out broadcast queue model with
//! explicit lag semantics, the storage component's control step, a
//! reader/writer-locked store container, and the lifecycle orchestrator's
//! state machine. The asynchronous runtime, network listeners and signal
//! handling live at the application edge; this crate holds the decisions
//! and data structures, each with a verified contract.
pub mod index;
pub mod message;
pub mod orchestrator;
pub mod queue;
pub mod state;
pub mod storage_task;
pub mod store;
pub mod sync_store;

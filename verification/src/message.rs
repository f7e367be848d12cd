//! Captured messages and their identifiers.
use vstd::prelude::*;

verus! {

/// Opaque key of a captured message, assigned at capture time. No two live
/// store entries share an id, and ids are never reused within a process
/// lifetime.
pub type MessageId = u64;

/// A received, fully parsed unit of mail: identifier, sender and recipient
/// metadata, body, and the receipt timestamp (seconds). Immutable once
/// constructed; produced by the protocol engine and never mutated after
/// handoff to the broadcast queue.
#[derive(PartialEq, Eq, Debug)]
pub struct CapturedMessage {
    pub id: MessageId,
    pub sender: String,
    pub recipient: String,
    pub body: String,
    pub timestamp: u64,
}

impl Clone for CapturedMessage {
    fn clone(&self) -> (r: Self)
        ensures
            r == *self,
    {
        CapturedMessage {
            id: self.id,
            sender: self.sender.clone(),
            recipient: self.recipient.clone(),
            body: self.body.clone(),
            timestamp: self.timestamp,
        }
    }
}

impl CapturedMessage {
    /// Construct a message from its parts.
    pub fn new(id: MessageId, sender: String, recipient: String, body: String, timestamp: u64)
        -> (r: CapturedMessage)
        ensures
            r.id == id,
            r.sender == sender,
            r.recipient == recipient,
            r.body == body,
            r.timestamp == timestamp,
    {
        CapturedMessage { id, sender, recipient, body, timestamp }
    }
}

} // verus!

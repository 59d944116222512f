//! The queue attributes stored per queue, each named by its column key.

use vstd::prelude::*;

verus! {

/// A queue attribute: the key it is stored under and the type of its value.
pub trait QueueAttribute {
    type Value;

    /// The key the attribute is stored under.
    spec fn column(&self) -> Seq<char>;

    /// The key the attribute is stored under.
    fn name(&self) -> (r: &str)
        ensures
            r@ == self.column(),
    ;
}

/// Seconds a new message stays hidden before it can be received.
pub struct DelaySeconds;

impl QueueAttribute for DelaySeconds {
    type Value = u64;

    open spec fn column(&self) -> Seq<char> {
        "delay_seconds"@
    }

    fn name(&self) -> (r: &str) {
        "delay_seconds"
    }
}

/// Largest message body the queue accepts, in bytes.
pub struct MaxMessageSize;

impl QueueAttribute for MaxMessageSize {
    type Value = u64;

    open spec fn column(&self) -> Seq<char> {
        "max_message_size"@
    }

    fn name(&self) -> (r: &str) {
        "max_message_size"
    }
}

/// Seconds a message is kept.
pub struct MessageRetentionPeriod;

impl QueueAttribute for MessageRetentionPeriod {
    type Value = u64;

    open spec fn column(&self) -> Seq<char> {
        "message_retention_period"@
    }

    fn name(&self) -> (r: &str) {
        "message_retention_period"
    }
}

/// Default long-poll wait of receives, in seconds.
pub struct ReceiveMessageWaitTimeSeconds;

impl QueueAttribute for ReceiveMessageWaitTimeSeconds {
    type Value = u64;

    open spec fn column(&self) -> Seq<char> {
        "receive_message_wait_time_seconds"@
    }

    fn name(&self) -> (r: &str) {
        "receive_message_wait_time_seconds"
    }
}

/// Seconds a received message stays hidden from other receivers.
pub struct VisibilityTimeout;

impl QueueAttribute for VisibilityTimeout {
    type Value = u64;

    open spec fn column(&self) -> Seq<char> {
        "visibility_timeout"@
    }

    fn name(&self) -> (r: &str) {
        "visibility_timeout"
    }
}

/// The dead-letter policy, as JSON text.
pub struct RedrivePolicy;

impl QueueAttribute for RedrivePolicy {
    type Value = String;

    open spec fn column(&self) -> Seq<char> {
        "redrive_policy"@
    }

    fn name(&self) -> (r: &str) {
        "redrive_policy"
    }
}

/// Any other attribute, stored under its own name.
pub struct Other(pub String);

impl QueueAttribute for Other {
    type Value = String;

    open spec fn column(&self) -> Seq<char> {
        self.0@
    }

    fn name(&self) -> (r: &str) {
        self.0.as_str()
    }
}

} // verus!

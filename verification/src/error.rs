//! Errors of the event system.
use vstd::prelude::*;

verus! {

/// What went wrong in an event operation.
#[derive(Debug, Clone)]
pub enum EventError {
    /// The connection to the server could not be made.
    Connection(String),
    /// An event could not be published to `subject`.
    Publish { subject: String, reason: String },
    /// A subscription to `subject` could not be opened.
    Subscribe { subject: String, reason: String },
    /// A consumer could not be created or deleted.
    Consumer(String),
    /// A stream could not be created, fetched or queried.
    Stream(String),
    /// A JetStream request failed.
    JetStream(String),
    /// An event could not be encoded or decoded.
    Serialization(String),
    /// The operating system's random source could not be read.
    RandomSourceUnavailable,
    /// The system clock reads a time before the Unix epoch.
    ClockBeforeEpoch,
}

/// The result of an event operation.
pub type Result<T> = core::result::Result<T, EventError>;

} // verus!

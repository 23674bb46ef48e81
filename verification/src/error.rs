//! Error taxonomy for the relay core.

use vstd::prelude::*;

verus! {

/// Kinds of failure surfaced by the relay core.  Per-event failures are
/// reported back to clients as `OK` or `NOTICE` frames; storage failures are
/// split into transient (skip and continue) and fatal (halt the writer).
#[derive(Clone, Copy, Debug, PartialEq, Eq, Structural)]
pub enum Error {
    /// A client frame could not be parsed.
    ProtocolParseError,
    /// An event failed structural validation.
    EventMalformedError,
    /// An event's signature did not verify.
    SignatureInvalidError,
    /// A NIP-42 AUTH event was rejected.
    AuthFailure,
    /// A subscription identifier was longer than the maximum.
    SubIdMaxLengthError,
    /// The connection already holds the maximum number of subscriptions.
    SubMaxExceededError,
    /// A rate limit was exhausted.
    RateLimitedError,
    /// The author is not allowed to publish here.
    BlockedError,
    /// The event is already stored.
    DuplicateError,
    /// A storage operation failed but the writer may continue.
    StorageTransientError,
    /// A storage operation failed in a way that halts the writer.
    StorageFatalError,
    /// A query was cancelled; the normal end of an abandoned stream.
    CancelledError,
}

} // verus!

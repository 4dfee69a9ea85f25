use vstd::prelude::*;

pub mod auth;
pub mod fetcher;
pub mod stateres;
pub mod validation;

verus! {

/// Why an inbound event was refused. Each is permanent: the event is never retried.
#[derive(Clone, Copy, Debug, PartialEq, Eq, Structural)]
pub enum RejectReason {
    /// The event does not have the shape its room version asks for.
    InvalidFormat,
    /// The event has no `origin_server_ts`.
    MissingTimestamp,
    /// `origin_server_ts` is not an integer.
    TimestampNotInteger,
    /// `origin_server_ts` lies before the unix epoch.
    TimestampBeforeEpoch,
    /// The origin's signature does not verify.
    BadSignature,
    /// The content hash failed and the event could not be reduced to its redacted form.
    RedactionFailed,
    /// A redacted relabeling of an event already accepted intact.
    RedactedAfterKnown,
    /// The event's auth events lack the room's create event, or name another one.
    MissingCreateEvent,
    /// The room's authorization rules refuse the event.
    AuthCheckFailed,
}

} // verus!

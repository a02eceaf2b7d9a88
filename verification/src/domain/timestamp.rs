//! Points in time, as plain numbers.

use vstd::prelude::*;

verus! {

/// An instant in UTC: whole seconds since 1970-01-01T00:00:00Z and the
/// nanoseconds since the last whole second.
#[derive(Debug, Clone, Copy, PartialEq, Eq, Structural)]
pub struct Timestamp {
    pub seconds: i64,
    pub nanoseconds: u32,
}

impl Timestamp {
    /// The current time, read from `chrono::Utc::now` and taken apart with
    /// `DateTime::timestamp` and `DateTime::timestamp_subsec_nanos`.
    ///
    /// Trusted: the clock never reports a leap second, so the nanoseconds
    /// stay below one second. Nothing else is claimed of the result.
    #[verifier::external_body]
    pub(crate) fn now() -> (now: Timestamp)
        ensures
            now.nanoseconds < 1_000_000_000,
    {
        let now = chrono::Utc::now();
        Timestamp { seconds: now.timestamp(), nanoseconds: now.timestamp_subsec_nanos() }
    }
}

} // verus!

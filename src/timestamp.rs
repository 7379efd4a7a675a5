use vstd::prelude::*;

verus! {

/// Nanoseconds in one second.
pub const NANOS_PER_SECOND: i32 = 1_000_000_000;

/// A UTC instant: whole seconds since the Unix epoch plus a nanosecond part.
#[derive(Clone, Copy, Debug, PartialEq, Eq, Structural)]
pub struct Timestamp {
    pub seconds: i64,
    pub nanos: i32,
}

impl Timestamp {
    /// The nanosecond part lies within one second.
    pub open spec fn wf(self) -> bool {
        0 <= self.nanos < NANOS_PER_SECOND
    }
}

/// Relies on `time::OffsetDateTime::now_utc` for the current instant, and on
/// its `unix_timestamp` and `nanosecond` (documented to lie in `0..1_000_000_000`)
/// to split it.
#[verifier::external_body]
pub(crate) fn now_utc() -> (r: Timestamp)
    ensures
        r.wf(),
{
    let now = time::OffsetDateTime::now_utc();
    Timestamp { seconds: now.unix_timestamp(), nanos: now.nanosecond() as i32 }
}

} // verus!

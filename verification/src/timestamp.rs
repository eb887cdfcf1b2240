//! Points in time.

use vstd::prelude::*;

verus! {

/// Nanoseconds in a second.
pub const NANOS_PER_SECOND: i32 = 1_000_000_000;

/// A point in time: whole seconds since the start of 1970, and nanoseconds counted forward from
/// there.
#[derive(Debug, Clone, Copy, PartialEq, Eq, Structural)]
pub struct Timestamp {
    pub seconds: i64,
    pub nanos: i32,
}

impl View for Timestamp {
    type V = Timestamp;

    open spec fn view(&self) -> Timestamp {
        *self
    }
}

impl Default for Timestamp {
    /// The start of 1970.
    fn default() -> (timestamp: Self)
        ensures
            timestamp == (Timestamp { seconds: 0, nanos: 0 }),
    {
        Timestamp { seconds: 0, nanos: 0 }
    }
}

impl Timestamp {
    /// The time now: `prost_types::Timestamp::from` on what the system clock says. Its nanoseconds
    /// count forward within a second. Which time it is, the clock decides, and is left open.
    #[verifier::external_body]
    pub(crate) fn now() -> (timestamp: Self)
        ensures
            0 <= timestamp.nanos < NANOS_PER_SECOND,
    {
        let now = prost_types::Timestamp::from(std::time::SystemTime::now());
        Timestamp { seconds: now.seconds, nanos: now.nanos }
    }

    /// How far `self` lies behind `earlier`, as seconds and nanoseconds that count separately.
    pub fn since(self, earlier: Timestamp) -> (elapsed: (i64, i32))
        requires
            i64::MIN <= self.seconds - earlier.seconds <= i64::MAX,
            i32::MIN <= self.nanos - earlier.nanos <= i32::MAX,
        ensures
            elapsed.0 == self.seconds - earlier.seconds,
            elapsed.1 == self.nanos - earlier.nanos,
    {
        (self.seconds - earlier.seconds, self.nanos - earlier.nanos)
    }
}

} // verus!

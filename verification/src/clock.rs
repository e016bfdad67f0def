//! The system clock.
use vstd::prelude::*;

verus! {

/// No reading of the clock is as many seconds from the epoch as this, in
/// either direction: the clock holds no instant whose day, counted from the
/// start of the common era, leaves the range of an `i32`, which keeps it
/// within `2^32` days of the epoch.
pub const SECONDS_LIMIT: i64 = 371_085_174_374_400;

/// No reading of the clock is as many milliseconds from the epoch as this, in
/// either direction.
pub const CLOCK_LIMIT: i64 = 371_085_174_374_405_000;

/// A reading of the clock: whole seconds since the Unix epoch, and the
/// nanoseconds since that second began.
#[derive(Clone, Copy, Debug, PartialEq, Eq, Structural)]
pub struct Reading {
    pub seconds: i64,
    pub nanos: u32,
}

impl Reading {
    /// The reading in milliseconds since the epoch, the rest dropped.
    pub open spec fn millis(self) -> int {
        self.seconds * 1000 + self.nanos / 1_000_000
    }

    /// Whether the reading lies at or before the start of the second `at`.
    pub open spec fn not_after(self, at: int) -> bool {
        self.seconds < at || (self.seconds == at && self.nanos == 0)
    }
}

/// The time on the system clock: `timestamp` and `timestamp_subsec_nanos` of
/// the instant that chrono makes of std's `SystemTime::now()`. A clock that
/// stands before the epoch gives seconds below zero. Two readings may differ,
/// and the second may be the earlier one. All that is claimed of a reading is
/// that its seconds lie strictly between `-SECONDS_LIMIT` and `SECONDS_LIMIT`,
/// which holds of every instant that chrono can hold.
#[verifier::external_body]
pub(crate) fn read_clock() -> (reading: Reading)
    ensures
        -SECONDS_LIMIT < reading.seconds < SECONDS_LIMIT,
{
    let now = chrono::DateTime::<chrono::Utc>::from(std::time::SystemTime::now());
    Reading { seconds: now.timestamp(), nanos: now.timestamp_subsec_nanos() }
}

/// The time on the system clock in milliseconds since the Unix epoch.
pub fn now_millis() -> (now: i64)
    ensures
        -CLOCK_LIMIT < now < CLOCK_LIMIT,
{
    let reading = read_clock();
    millis_of(reading)
}

/// A reading in milliseconds since the Unix epoch: a thousand for each second,
/// and one for each million nanoseconds of the second that runs; what is left
/// of the nanoseconds is dropped. The reading has to be one whose milliseconds
/// an `i64` can count.
pub fn millis_of(reading: Reading) -> (millis: i64)
    requires
        i64::MIN <= reading.seconds * 1000,
        reading.millis() <= i64::MAX,
    ensures
        millis == reading.millis(),
{
    reading.seconds * 1000 + (reading.nanos / 1_000_000) as i64
}

} // verus!

//! Instants on the UTC time line, counted in nanoseconds from the Unix
//! epoch, and the one place where the wall clock is read.

use vstd::prelude::*;

verus! {

/// Nanoseconds in a millisecond.
pub const NANOS_PER_MILLI: i128 = 1_000_000;

/// An instant in UTC: nanoseconds since 1970-01-01 00:00:00, negative before.
#[derive(Clone, Copy, Debug, PartialEq, Eq, Structural)]
pub struct Timestamp {
    pub nanos: i128,
}

/// Calls `time::OffsetDateTime::now_utc` and hands its result over as Unix
/// nanoseconds (`unix_timestamp_nanos`). The value is that of the wall clock,
/// so nothing is claimed of it.
#[verifier::external_body]
fn wall_clock_nanos() -> i128 {
    time::OffsetDateTime::now_utc().unix_timestamp_nanos()
}

/// `base + ms` milliseconds in nanoseconds, held at the largest instant
/// that can be written.
pub open spec fn plus_millis(base: int, ms: int) -> int {
    if base + ms * 1_000_000 > i128::MAX {
        i128::MAX as int
    } else {
        base + ms * 1_000_000
    }
}

/// The whole milliseconds in a span of nanoseconds, none for a negative
/// span, held at the largest 64-bit number.
pub open spec fn whole_millis(nanos: int) -> int {
    if nanos < 0 {
        0
    } else if nanos / 1_000_000 > u64::MAX {
        u64::MAX as int
    } else {
        nanos / 1_000_000
    }
}

impl View for Timestamp {
    type V = int;

    open spec fn view(&self) -> int {
        self.nanos as int
    }
}

impl Timestamp {
    /// The instant that lies `nanos` nanoseconds after the Unix epoch.
    pub fn from_unix_nanos(nanos: i128) -> (res: Timestamp)
        ensures
            res@ == nanos,
    {
        Timestamp { nanos }
    }

    /// The Unix epoch.
    pub fn unix_epoch() -> (res: Timestamp)
        ensures
            res@ == 0,
    {
        Timestamp { nanos: 0 }
    }

    /// The wall clock's time. It differs from call to call, and nothing is
    /// promised of it.
    pub fn now_utc() -> Timestamp {
        Timestamp { nanos: wall_clock_nanos() }
    }

    /// Nanoseconds since the Unix epoch.
    pub fn unix_nanos(&self) -> (res: i128)
        ensures
            res == self@,
    {
        self.nanos
    }

    /// The instant `ms` milliseconds after this one.
    pub fn add_millis(&self, ms: u64) -> (res: Timestamp)
        ensures
            res@ == plus_millis(self@, ms as int),
    {
        let span: i128 = (ms as i128) * NANOS_PER_MILLI;
        match self.nanos.checked_add(span) {
            Some(nanos) => Timestamp { nanos },
            None => Timestamp { nanos: i128::MAX },
        }
    }

    /// The instant `ms` milliseconds after the Unix epoch.
    pub fn from_unix_millis(ms: u64) -> (res: Timestamp)
        ensures
            res@ == plus_millis(0, ms as int),
    {
        Timestamp { nanos: 0 }.add_millis(ms)
    }

    /// Whole milliseconds from the Unix epoch to this instant.
    pub fn unix_millis(&self) -> (res: u64)
        ensures
            res == whole_millis(self@),
    {
        Self::millis_of(self.nanos)
    }

    /// Whole milliseconds from this instant to a later one, none when the
    /// other is not later.
    pub fn millis_until(&self, later: Timestamp) -> (res: u64)
        ensures
            res == whole_millis(later@ - self@),
    {
        match later.nanos.checked_sub(self.nanos) {
            Some(span) => Self::millis_of(span),
            None => {
                if later.nanos < self.nanos {
                    0
                } else {
                    u64::MAX
                }
            },
        }
    }

    fn millis_of(nanos: i128) -> (res: u64)
        ensures
            res == whole_millis(nanos as int),
    {
        if nanos < 0 {
            0
        } else {
            let ms: i128 = nanos / NANOS_PER_MILLI;
            if ms > u64::MAX as i128 {
                u64::MAX
            } else {
                ms as u64
            }
        }
    }

    /// Whether this instant is later than the other.
    pub fn is_after(&self, other: Timestamp) -> (res: bool)
        ensures
            res == (self@ > other@),
    {
        self.nanos > other.nanos
    }
}

} // verus!

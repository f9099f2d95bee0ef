//! Instants and durations.
use vstd::arithmetic::div_mod::{lemma_mod_mod, lemma_mod_multiples_vanish};
use vstd::prelude::*;

verus! {

/// Nanoseconds in a second.
pub const NANOS_PER_SEC: i128 = 1_000_000_000;

/// Nanoseconds in a millisecond.
pub const NANOS_PER_MILLI: i128 = 1_000_000;

/// Seconds in a day without a leap second.
pub const SECS_PER_DAY: i64 = 86_400;

/// The first second that an instant can lie in, counted from the Unix epoch.
pub const MIN_SECS: i64 = -8_334_601_228_800;

/// The last second that an instant can lie in, counted from the Unix epoch.
pub const MAX_SECS: i64 = 8_210_266_876_799;

/// An instant in UTC: the second it lies in, counted from the Unix epoch
/// without leap seconds, and the nanoseconds since that second began. In a
/// leap second, which prolongs the last second of a minute, these go on from
/// one thousand million.
#[derive(Clone, Copy, PartialEq, Eq, Structural, Debug)]
pub struct Timestamp {
    pub secs: i64,
    pub nanos: u32,
}

/// A length of time, which may be negative.
#[derive(Clone, Copy, PartialEq, Eq, Structural, Debug)]
pub struct TimeDelta {
    pub nanos: i128,
}

impl TimeDelta {
    /// No time at all.
    pub fn zero() -> (delta: TimeDelta)
        ensures
            delta.nanos == 0,
    {
        TimeDelta { nanos: 0 }
    }

    /// So many seconds.
    pub fn seconds(secs: i64) -> (delta: TimeDelta)
        ensures
            delta.nanos == secs * NANOS_PER_SEC,
    {
        TimeDelta { nanos: secs as i128 * NANOS_PER_SEC }
    }

    /// The length in nanoseconds, where it fits.
    pub fn num_nanoseconds(&self) -> (nanos: Option<i64>)
        ensures
            nanos is Some <==> i64::MIN <= self.nanos <= i64::MAX,
            nanos is Some ==> nanos->0 == self.nanos,
    {
        if i64::MIN as i128 <= self.nanos && self.nanos <= i64::MAX as i128 {
            Some(self.nanos as i64)
        } else {
            None
        }
    }

    /// The length in whole milliseconds; what is left of one is dropped.
    pub fn num_milliseconds(&self) -> (millis: i64)
        requires
            -i64::MAX * NANOS_PER_MILLI <= self.nanos <= i64::MAX * NANOS_PER_MILLI,
        ensures
            self.nanos >= 0 ==> millis == self.nanos as int / NANOS_PER_MILLI as int,
            self.nanos < 0 ==> millis == -(-self.nanos / NANOS_PER_MILLI as int),
    {
        if self.nanos >= 0 {
            (self.nanos / NANOS_PER_MILLI) as i64
        } else {
            -((-self.nanos) / NANOS_PER_MILLI) as i64
        }
    }
}

impl Timestamp {
    /// Whether the fields are those of an instant.
    pub open spec fn wf(self) -> bool {
        &&& MIN_SECS <= self.secs <= MAX_SECS
        &&& self.nanos < 2 * NANOS_PER_SEC
        &&& self.is_leap() ==> self.secs as int % 60 == 59
    }

    /// Whether the instant lies in a leap second.
    pub open spec fn is_leap(self) -> bool {
        self.nanos >= NANOS_PER_SEC
    }

    /// The second of the day that the instant lies in.
    pub open spec fn second_of_day(self) -> int {
        self.secs as int % SECS_PER_DAY as int
    }

    /// Whether the instant is no later than the other.
    pub open spec fn at_most(self, other: Timestamp) -> bool {
        self.secs < other.secs || (self.secs == other.secs && self.nanos <= other.nanos)
    }

    /// The later of the two instants.
    pub open spec fn latest(self, other: Timestamp) -> Timestamp {
        if self.at_most(other) {
            other
        } else {
            self
        }
    }

    /// The nanoseconds from `earlier` to this instant. A leap second counts
    /// where the earlier time of day of the two lies in it.
    pub open spec fn nanos_since(self, earlier: Timestamp) -> int {
        (self.secs - earlier.secs) * NANOS_PER_SEC + (self.nanos - earlier.nanos) + if self.second_of_day()
            > earlier.second_of_day() && earlier.is_leap() {
            NANOS_PER_SEC as int
        } else if self.second_of_day() < earlier.second_of_day() && self.is_leap() {
            -NANOS_PER_SEC
        } else {
            0
        }
    }

    /// The instant with these fields, if there is one.
    pub fn new(secs: i64, nanos: u32) -> (instant: Option<Timestamp>)
        ensures
            instant is Some <==> (Timestamp { secs, nanos }).wf(),
            instant is Some ==> instant->0 == (Timestamp { secs, nanos }),
    {
        if secs < MIN_SECS || secs > MAX_SECS || nanos >= 2_000_000_000 {
            return None;
        }
        let instant = Timestamp { secs, nanos };
        if nanos >= 1_000_000_000 && instant.day_second() % 60 != 59 {
            return None;
        }
        Some(instant)
    }

    /// The second of the day that the instant lies in.
    fn day_second(&self) -> (second: i64)
        requires
            MIN_SECS <= self.secs <= MAX_SECS,
        ensures
            second == self.second_of_day(),
            0 <= second < SECS_PER_DAY,
            second % 60 == self.secs as int % 60,
    {
        proof {
            lemma_mod_multiples_vanish(100_000_000, self.secs as int, SECS_PER_DAY as int);
            lemma_mod_mod(self.secs as int, 60, 1440);
        }
        // A whole number of days, so that no instant is left before the epoch.
        (self.secs + 100_000_000 * SECS_PER_DAY) % SECS_PER_DAY
    }

    /// Whether the instant is no later than the other.
    pub fn not_after(&self, other: Timestamp) -> (not_after: bool)
        ensures
            not_after == self.at_most(other),
    {
        self.secs < other.secs || (self.secs == other.secs && self.nanos <= other.nanos)
    }

    /// The later of the two instants.
    pub fn max(self, other: Timestamp) -> (latest: Timestamp)
        ensures
            latest == self.latest(other),
    {
        if self.not_after(other) {
            other
        } else {
            self
        }
    }

    /// The time from `earlier` to this instant.
    pub fn signed_duration_since(self, earlier: Timestamp) -> (delta: TimeDelta)
        requires
            self.wf(),
            earlier.wf(),
        ensures
            delta.nanos == self.nanos_since(earlier),
    {
        let secs: i128 = self.secs as i128 - earlier.secs as i128;
        let nanos: i128 = self.nanos as i128 - earlier.nanos as i128;
        let here = self.day_second();
        let there = earlier.day_second();
        let leap: i128 = if here > there && earlier.nanos >= 1_000_000_000 {
            1
        } else if here < there && self.nanos >= 1_000_000_000 {
            -1
        } else {
            0
        };
        TimeDelta { nanos: (secs + leap) * NANOS_PER_SEC + nanos }
    }
}

/// What `chrono` writes for the instant with these seconds and nanoseconds, as
/// a date and time in the format of RFC 3339.
pub uninterp spec fn rfc3339_text(secs: i64, nanos: u32) -> Seq<char>;

/// Whether a clock may say this: it is an instant, neither in a leap second nor
/// before the Unix epoch.
pub open spec fn is_clock_reading(now: Timestamp) -> bool {
    now.wf() && !now.is_leap() && 0 <= now.secs
}

/// Calls `chrono::Utc::now`. Whatever the clock says, the result is an instant
/// outside of leap seconds and no earlier than the Unix epoch; which instant it
/// is, nothing is said of. The call panics where the system clock is set to
/// before the Unix epoch.
#[verifier::external_body]
pub(crate) fn utc_now() -> (now: Timestamp)
    ensures
        is_clock_reading(now),
{
    let now = chrono::Utc::now();
    Timestamp { secs: now.timestamp(), nanos: now.timestamp_subsec_nanos() }
}

/// The reported instant, or what the clock says where none is reported. The
/// clock is only read in that case.
pub(crate) fn reported_or_now(reported: Option<Timestamp>) -> (at: Timestamp)
    ensures
        reported is Some ==> at == reported->0,
        reported is None ==> is_clock_reading(at),
{
    match reported {
        Some(at) => at,
        None => utc_now(),
    }
}

/// Calls `to_rfc3339` on the `chrono::DateTime` with the instant's fields. The
/// text depends on these alone.
#[verifier::external_body]
pub(crate) fn to_rfc3339(instant: Timestamp) -> (text: String)
    requires
        instant.wf(),
    ensures
        text@ == rfc3339_text(instant.secs, instant.nanos),
{
    chrono::DateTime::from_timestamp(instant.secs, instant.nanos).unwrap().to_rfc3339()
}

} // verus!

//! Points in civil time: a fixed day number paired with a nanosecond of the
//! day, ordered lexicographically.

use vstd::prelude::*;

verus! {

use crate::calendar::MAX_DAY;
use crate::calendar::MIN_DAY;
use crate::calendar::spec_fixed_from_gregorian;
use crate::calendar::spec_gregorian_from_fixed;
use crate::calendar::valid_civil_date;
use crate::calendar::fixed_from_gregorian;
use crate::calendar::gregorian_from_fixed;
use crate::calendar::lemma_fixed_from_gregorian_round_trip;
use crate::calendar::lemma_gregorian_from_fixed_valid;
use vstd::arithmetic::div_mod::lemma_fundamental_div_mod;
use vstd::arithmetic::div_mod::lemma_div_is_ordered;
use vstd::arithmetic::div_mod::lemma_div_pos_is_pos;
use vstd::arithmetic::div_mod::lemma_mod_bound;

/// Nanoseconds in a second.
pub const NANOS_PER_SECOND: u64 = 1_000_000_000;

/// Nanoseconds in a minute.
pub const NANOS_PER_MINUTE: u64 = 60_000_000_000;

/// Nanoseconds in an hour.
pub const NANOS_PER_HOUR: u64 = 3_600_000_000_000;

/// Nanoseconds in a civil day.
pub const NANOS_PER_DAY: u64 = 86_400_000_000_000;

/// A point in absolute time, to nanosecond precision: a fixed day number
/// and the nanoseconds elapsed since that day's midnight (UTC).
#[derive(Clone, Copy, Debug, PartialEq, Eq, Structural, Hash)]
pub struct Timestamp {
    /// The fixed day number (R.D.) of the civil day.
    pub day: i32,
    /// Nanoseconds since the day's midnight; always below `NANOS_PER_DAY`.
    pub nanos: u64,
}

/// A civil timestamp broken into calendar and clock-of-day fields.
#[derive(Clone, Copy, Debug, PartialEq, Eq, Structural, Hash)]
pub struct CivilTime {
    /// Gregorian year.
    pub year: i32,
    /// Month of the year, 1 through 12.
    pub month: u32,
    /// Day of the month, 1 through the month's length.
    pub day: u32,
    /// Hour of the day, 0 through 23.
    pub hour: u32,
    /// Minute of the hour, 0 through 59.
    pub minute: u32,
    /// Second of the minute, 0 through 59.
    pub second: u32,
    /// Nanosecond of the second.
    pub nanosecond: u32,
}

impl CivilTime {
    /// The fields name an actual instant of the supported timeline.
    pub open spec fn valid(self) -> bool {
        &&& valid_civil_date(self.year as int, self.month as int, self.day as int)
        &&& self.hour < 24
        &&& self.minute < 60
        &&& self.second < 60
        &&& self.nanosecond < 1_000_000_000
    }

    /// The fixed day number named by the calendar fields.
    pub open spec fn day_number(self) -> int {
        spec_fixed_from_gregorian(self.year as int, self.month as int, self.day as int)
    }

    /// The nanosecond of the day named by the clock fields.
    pub open spec fn nanos_of_day(self) -> int {
        (self.hour * 3600 + self.minute * 60 + self.second) * 1_000_000_000 + self.nanosecond
    }
}

impl Timestamp {
    /// The timestamp denotes a representable instant: its day lies in the
    /// supported range and its nanosecond count lies within one day.
    pub open spec fn wf(self) -> bool {
        &&& MIN_DAY <= self.day <= MAX_DAY
        &&& self.nanos < NANOS_PER_DAY
    }

    /// `self` is at or before `other` on the timeline.
    pub open spec fn spec_le(self, other: Timestamp) -> bool {
        self.day < other.day || (self.day == other.day && self.nanos <= other.nanos)
    }

    /// `self` is strictly before `other` on the timeline.
    pub open spec fn spec_lt(self, other: Timestamp) -> bool {
        self.day < other.day || (self.day == other.day && self.nanos < other.nanos)
    }

    /// The timestamp for the given day and nanosecond of day, or `None`
    /// when that instant is not representable.
    pub fn new(day: i32, nanos: u64) -> (r: Option<Timestamp>)
        ensures
            r is Some <==> (Timestamp { day, nanos }).wf(),
            r is Some ==> r->Some_0 == (Timestamp { day, nanos }),
    {
        if MIN_DAY <= day && day <= MAX_DAY && nanos < NANOS_PER_DAY {
            Some(Timestamp { day, nanos })
        } else {
            None
        }
    }

    /// `self <= other` on the timeline.
    pub fn le(&self, other: &Timestamp) -> (r: bool)
        ensures
            r == self.spec_le(*other),
    {
        self.day < other.day || (self.day == other.day && self.nanos <= other.nanos)
    }

    /// The first instant of the given day.
    pub fn day_start(day: i32) -> (r: Timestamp)
        requires
            MIN_DAY <= day <= MAX_DAY,
        ensures
            r == (Timestamp { day, nanos: 0u64 }),
            r.wf(),
    {
        Timestamp { day, nanos: 0 }
    }

    /// The last representable instant of the given day.
    pub fn day_end(day: i32) -> (r: Timestamp)
        requires
            MIN_DAY <= day <= MAX_DAY,
        ensures
            r == (Timestamp { day, nanos: (NANOS_PER_DAY - 1) as u64 }),
            r.wf(),
    {
        Timestamp { day, nanos: NANOS_PER_DAY - 1 }
    }

    /// The earliest representable instant.
    pub fn min_time() -> (r: Timestamp)
        ensures
            r == (Timestamp { day: MIN_DAY, nanos: 0u64 }),
            r.wf(),
    {
        Timestamp { day: MIN_DAY, nanos: 0 }
    }

    /// The latest representable instant.
    pub fn max_time() -> (r: Timestamp)
        ensures
            r == (Timestamp { day: MAX_DAY, nanos: (NANOS_PER_DAY - 1) as u64 }),
            r.wf(),
    {
        Timestamp { day: MAX_DAY, nanos: NANOS_PER_DAY - 1 }
    }

    /// The same instant one civil day later (`positive`) or earlier,
    /// clamped to the extreme representable instant when the shifted day
    /// would leave the supported range.
    pub open spec fn spec_add_day(self, positive: bool) -> Timestamp {
        if positive {
            if self.day < MAX_DAY {
                Timestamp { day: (self.day + 1) as i32, nanos: self.nanos }
            } else {
                Timestamp { day: MAX_DAY, nanos: (NANOS_PER_DAY - 1) as u64 }
            }
        } else {
            if self.day > MIN_DAY {
                Timestamp { day: (self.day - 1) as i32, nanos: self.nanos }
            } else {
                Timestamp { day: MIN_DAY, nanos: 0u64 }
            }
        }
    }

    /// Steps one civil day forward or backward, clamping at the ends of
    /// the representable range.
    pub fn add_day(self, positive: bool) -> (r: Timestamp)
        requires
            self.wf(),
        ensures
            r == self.spec_add_day(positive),
            r.wf(),
    {
        if positive {
            if self.day < MAX_DAY {
                Timestamp { day: self.day + 1, nanos: self.nanos }
            } else {
                Timestamp::max_time()
            }
        } else {
            if self.day > MIN_DAY {
                Timestamp { day: self.day - 1, nanos: self.nanos }
            } else {
                Timestamp::min_time()
            }
        }
    }

    /// The timestamp of the civil instant with the given fields.
    pub fn from_civil(c: &CivilTime) -> (r: Timestamp)
        requires
            c.valid(),
        ensures
            r.day == c.day_number(),
            r.nanos == c.nanos_of_day(),
            r.wf(),
    {
        proof {
            lemma_fixed_from_gregorian_round_trip(
                c.year as int,
                c.month as int,
                c.day as int,
            );
        }
        let day = fixed_from_gregorian(c.year, c.month, c.day);
        let nanos = (c.hour as u64 * 3600 + c.minute as u64 * 60 + c.second as u64)
            * NANOS_PER_SECOND + c.nanosecond as u64;
        Timestamp { day, nanos }
    }

    /// The civil calendar and clock fields of this timestamp. The result is
    /// valid and names this very instant, so converting it back with
    /// [`Timestamp::from_civil`] returns `self`.
    pub fn to_civil(&self) -> (r: CivilTime)
        requires
            self.wf(),
        ensures
            r.valid(),
            r.day_number() == self.day,
            r.nanos_of_day() == self.nanos,
            ({
                let (y, m, d) = spec_gregorian_from_fixed(self.day as int);
                r.year == y && r.month == m && r.day == d
            }),
            r.hour == self.nanos / NANOS_PER_HOUR,
            r.minute == (self.nanos % NANOS_PER_HOUR) / NANOS_PER_MINUTE,
            r.second == (self.nanos % NANOS_PER_MINUTE) / NANOS_PER_SECOND,
            r.nanosecond == self.nanos % NANOS_PER_SECOND,
    {
        proof {
            lemma_gregorian_from_fixed_valid(self.day as int);
            lemma_clock_fields(self.nanos);
        }
        let (year, month, day) = gregorian_from_fixed(self.day);
        let hour = self.nanos / NANOS_PER_HOUR;
        let minute = self.nanos % NANOS_PER_HOUR / NANOS_PER_MINUTE;
        let second = self.nanos % NANOS_PER_MINUTE / NANOS_PER_SECOND;
        let nanosecond = self.nanos % NANOS_PER_SECOND;
        CivilTime {
            year,
            month,
            day,
            hour: hour as u32,
            minute: minute as u32,
            second: second as u32,
            nanosecond: nanosecond as u32,
        }
    }
}

/// Splitting a nanosecond of the day into hours, minutes, seconds, and
/// nanoseconds is exact: the fields are in range and recombine to the
/// original count.
pub proof fn lemma_clock_fields(nanos: u64)
    requires
        nanos < NANOS_PER_DAY,
    ensures
        nanos / NANOS_PER_HOUR < 24,
        (nanos % NANOS_PER_HOUR) / NANOS_PER_MINUTE < 60,
        (nanos % NANOS_PER_MINUTE) / NANOS_PER_SECOND < 60,
        nanos % NANOS_PER_SECOND < 1_000_000_000,
        (nanos / NANOS_PER_HOUR * 3600 + (nanos % NANOS_PER_HOUR) / NANOS_PER_MINUTE * 60 + (nanos
            % NANOS_PER_MINUTE) / NANOS_PER_SECOND) * 1_000_000_000 + nanos % NANOS_PER_SECOND
            == nanos,
        nanos % NANOS_PER_MINUTE == (nanos % NANOS_PER_HOUR) % NANOS_PER_MINUTE,
        nanos % NANOS_PER_SECOND == (nanos % NANOS_PER_MINUTE) % NANOS_PER_SECOND,
{
    let nph = NANOS_PER_HOUR as int;
    let npm = NANOS_PER_MINUTE as int;
    let nps = NANOS_PER_SECOND as int;
    let n = nanos as int;
    let h = n / nph;
    let r1 = n % nph;
    let mi = r1 / npm;
    let r2 = r1 % npm;
    let s = r2 / nps;
    let nn = r2 % nps;
    lemma_fundamental_div_mod(n, nph);
    lemma_mod_bound(n, nph);
    lemma_fundamental_div_mod(r1, npm);
    lemma_mod_bound(r1, npm);
    lemma_fundamental_div_mod(r2, nps);
    lemma_mod_bound(r2, nps);
    lemma_div_pos_is_pos(n, nph);
    lemma_div_is_ordered(n, (NANOS_PER_DAY - 1) as int, nph);
    lemma_div_pos_is_pos(r1, npm);
    lemma_div_is_ordered(r1, nph - 1, npm);
    lemma_div_pos_is_pos(r2, nps);
    lemma_div_is_ordered(r2, npm - 1, nps);
    vstd::arithmetic::div_mod::lemma_fundamental_div_mod_converse(n, npm, h * 60 + mi, r2);
    vstd::arithmetic::div_mod::lemma_fundamental_div_mod_converse(
        n,
        nps,
        (h * 3600 + mi * 60 + s),
        nn,
    );
}

} // verus!

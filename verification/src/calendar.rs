//! Proleptic-Gregorian calendar conversion to and from fixed day numbers.
//!
//! Days are counted in Rata Die: day 1 is Monday, January 1 of year 1 in the
//! proleptic Gregorian calendar. The supported range of days and years
//! mirrors the civil timestamps that the host time library can represent.

use vstd::prelude::*;

verus! {

use vstd::arithmetic::div_mod::lemma_fundamental_div_mod;
use vstd::arithmetic::div_mod::lemma_fundamental_div_mod_converse;
use vstd::arithmetic::div_mod::lemma_div_is_ordered;
use vstd::arithmetic::div_mod::lemma_div_pos_is_pos;
use vstd::arithmetic::div_mod::lemma_hoist_over_denominator;
use vstd::arithmetic::div_mod::lemma_mod_bound;

/// First supported Gregorian year.
pub const MIN_YEAR: i32 = -262144;

/// Last supported Gregorian year.
pub const MAX_YEAR: i32 = 262143;

/// First supported fixed day: January 1 of `MIN_YEAR`.
pub const MIN_DAY: i32 = -95746495;

/// Last supported fixed day: December 31 of `MAX_YEAR`.
pub const MAX_DAY: i32 = 95745764;

/// The Gregorian leap-year rule: every fourth year, except centuries that are
/// not divisible by 400.
pub open spec fn is_leap_year(year: int) -> bool {
    year % 4 == 0 && !(year % 100 == 0 && year % 400 != 0)
}

/// The fixed day number of December 31 of `year`: the count of days in
/// years 1 through `year`, negative for years before the epoch.
pub open spec fn spec_days_through_year(year: int) -> int {
    365 * year + year / 4 - year / 100 + year / 400
}

/// Days of `year` that precede the first day of `month`, counted from the
/// start of the year via the closed-form month formula.
pub open spec fn spec_month_offset(year: int, month: int) -> int {
    (367 * month - 362) / 12 + if month <= 2 {
        0int
    } else if is_leap_year(year) {
        -1int
    } else {
        -2int
    }
}

/// The fixed day number of the civil date (`year`, `month`, `day`).
pub open spec fn spec_fixed_from_gregorian(year: int, month: int, day: int) -> int {
    spec_days_through_year(year - 1) + spec_month_offset(year, month) + day
}

/// Number of days of `month` in `year`.
pub open spec fn spec_days_in_month(year: int, month: int) -> int {
    if month == 2 {
        if is_leap_year(year) {
            29int
        } else {
            28int
        }
    } else if month == 4 || month == 6 || month == 9 || month == 11 {
        30int
    } else {
        31int
    }
}

/// A civil date that names an actual calendar day in the supported range.
pub open spec fn valid_civil_date(year: int, month: int, day: int) -> bool {
    &&& MIN_YEAR <= year <= MAX_YEAR
    &&& 1 <= month <= 12
    &&& 1 <= day <= spec_days_in_month(year, month)
}

/// Whether `year` is a leap year under the Gregorian rule.
pub fn is_gregorian_leap_year(year: i32) -> (r: bool)
    ensures
        r == is_leap_year(year as int),
{
    year.checked_rem_euclid(4).unwrap() == 0 && !(year.checked_rem_euclid(100).unwrap() == 0
        && year.checked_rem_euclid(400).unwrap() != 0)
}

/// Converts a known-nonnegative count to `u32`.
pub fn nonneg(x: i32) -> (r: u32)
    requires
        x >= 0,
    ensures
        r == x,
{
    x as u32
}

/// The fixed day number of the civil date (`year`, `month`, `day`).
///
/// Validity of the combination is the caller's concern: any `day` up to 31 is
/// accepted, and an out-of-month day denotes the correspondingly shifted
/// fixed day, exactly as the closed-form formula has it.
pub fn fixed_from_gregorian(year: i32, month: u32, day: u32) -> (r: i32)
    requires
        MIN_YEAR <= year <= MAX_YEAR,
        1 <= month <= 12,
        1 <= day <= 31,
    ensures
        r == spec_fixed_from_gregorian(year as int, month as int, day as int),
{
    let y1 = year - 1;
    let days = 365 * y1;
    let c4 = y1.checked_div_euclid(4).unwrap();
    let c100 = y1.checked_div_euclid(100).unwrap();
    let c400 = y1.checked_div_euclid(400).unwrap();
    proof {
        lemma_div_is_ordered(y1 as int, 262143, 4);
        lemma_div_is_ordered(-262145, y1 as int, 4);
        lemma_div_is_ordered(y1 as int, 262143, 100);
        lemma_div_is_ordered(-262145, y1 as int, 100);
        lemma_div_is_ordered(y1 as int, 262143, 400);
        lemma_div_is_ordered(-262145, y1 as int, 400);
    }
    let month_days = ((367 * month - 362) / 12) as i32;
    let adjustment: i32 = if month <= 2 {
        0
    } else if is_gregorian_leap_year(year) {
        -1
    } else {
        -2
    };
    days + c4 - c100 + c400 + month_days + adjustment + day as i32
}

/// The year that contains fixed day `date`, recovered by decomposing the
/// day count along the repeating 146097-day (400-year), 36524-day
/// (100-year), 1461-day (4-year), and 365-day cycles.
pub open spec fn spec_gregorian_year_from_fixed(date: int) -> int {
    let d0 = date - 1;
    let n400 = d0 / 146097;
    let d1 = d0 % 146097;
    let n100 = d1 / 36524;
    let d2 = d1 % 36524;
    let n4 = d2 / 1461;
    let d3 = d2 % 1461;
    let n1 = d3 / 365;
    if n100 == 4 || n1 == 4 {
        400 * n400 + 100 * n100 + 4 * n4 + n1
    } else {
        400 * n400 + 100 * n100 + 4 * n4 + n1 + 1
    }
}

/// The day count through year `n` splits along the 400-, 100-, and 4-year
/// cycles of the Gregorian calendar.
proof fn lemma_days_through_year_split(n: int)
    ensures
        spec_days_through_year(n) == 146097 * (n / 400) + 36524 * ((n % 400) / 100) + 1461 * ((n
            % 100) / 4) + 365 * (n % 4),
        n % 100 == (n % 400) % 100,
        n % 4 == (n % 100) % 4,
{
    let a = n / 400;
    let r = n % 400;
    let b = r / 100;
    let s = r % 100;
    let c = s / 4;
    let e = s % 4;
    lemma_fundamental_div_mod(n, 400);
    lemma_mod_bound(n, 400);
    lemma_fundamental_div_mod(r, 100);
    lemma_mod_bound(r, 100);
    lemma_fundamental_div_mod(s, 4);
    lemma_mod_bound(s, 4);
    lemma_fundamental_div_mod_converse(n, 100, 4 * a + b, s);
    lemma_fundamental_div_mod_converse(n, 4, 100 * a + 25 * b + c, e);
}

/// One step of a quotient: dividing `y` rounds down one more step than
/// dividing `y - 1` exactly when `d` divides `y`.
proof fn lemma_quot_step(y: int, d: int)
    requires
        1 < d,
    ensures
        y / d - (y - 1) / d == if y % d == 0 {
            1int
        } else {
            0int
        },
{
    let q = y / d;
    let r = y % d;
    lemma_fundamental_div_mod(y, d);
    lemma_mod_bound(y, d);
    if r == 0 {
        assert((q - 1) * d == q * d - d) by (nonlinear_arith);
        lemma_fundamental_div_mod_converse(y - 1, d, q - 1, d - 1);
    } else {
        lemma_fundamental_div_mod_converse(y - 1, d, q, r - 1);
    }
}

/// Every year has 365 days, 366 when it is a leap year.
pub proof fn lemma_days_in_year(y: int)
    ensures
        spec_days_through_year(y) - spec_days_through_year(y - 1) == if is_leap_year(y) {
            366int
        } else {
            365int
        },
{
    lemma_quot_step(y, 4);
    lemma_quot_step(y, 100);
    lemma_quot_step(y, 400);
    if y % 400 == 0 {
        lemma_fundamental_div_mod(y, 400);
        lemma_fundamental_div_mod_converse(y, 100, 4 * (y / 400), 0);
        lemma_fundamental_div_mod_converse(y, 4, 100 * (y / 400), 0);
    } else if y % 100 == 0 {
        lemma_fundamental_div_mod(y, 100);
        lemma_fundamental_div_mod_converse(y, 4, 25 * (y / 100), 0);
    }
}

/// Later years have larger day counts, growing by at least 364 days per
/// year stepped over.
pub proof fn lemma_days_through_year_ordered(y1: int, y2: int)
    requires
        y1 <= y2,
    ensures
        spec_days_through_year(y1) + 364 * (y2 - y1) <= spec_days_through_year(y2),
{
    lemma_div_is_ordered(y1, y2, 4);
    lemma_div_is_ordered(y1, y2, 400);
    lemma_hoist_over_denominator(y1, y2 - y1, 100);
    lemma_div_is_ordered(y2, y1 + (y2 - y1) * 100, 100);
}

/// The computed year brackets the date: `date` lies after the last day of
/// the preceding year and not after the last day of the computed year.
pub proof fn lemma_year_from_fixed_bounds(date: int)
    ensures
        spec_days_through_year(spec_gregorian_year_from_fixed(date) - 1) < date,
        date <= spec_days_through_year(spec_gregorian_year_from_fixed(date)),
{
    let d0 = date - 1;
    let n400 = d0 / 146097;
    let d1 = d0 % 146097;
    let n100 = d1 / 36524;
    let d2 = d1 % 36524;
    let n4 = d2 / 1461;
    let d3 = d2 % 1461;
    let n1 = d3 / 365;
    lemma_fundamental_div_mod(d0, 146097);
    lemma_mod_bound(d0, 146097);
    lemma_fundamental_div_mod(d1, 36524);
    lemma_mod_bound(d1, 36524);
    lemma_fundamental_div_mod(d2, 1461);
    lemma_mod_bound(d2, 1461);
    lemma_fundamental_div_mod(d3, 365);
    lemma_mod_bound(d3, 365);
    lemma_div_pos_is_pos(d1, 36524);
    lemma_div_is_ordered(d1, 146096, 36524);
    lemma_div_pos_is_pos(d2, 1461);
    lemma_div_is_ordered(d2, 36523, 1461);
    lemma_div_pos_is_pos(d3, 365);
    lemma_div_is_ordered(d3, 1460, 365);
    if n100 == 4 {
        let y = 400 * n400 + 400;
        assert(spec_gregorian_year_from_fixed(date) == y);
        assert(d1 == 146096 && d2 == 0 && n4 == 0 && d3 == 0 && n1 == 0);
        lemma_days_through_year_split(y - 1);
        lemma_fundamental_div_mod_converse(y - 1, 400, n400, 399);
        assert(spec_days_through_year(y - 1) == 146097 * n400 + 145731);
        lemma_days_through_year_split(y);
        lemma_fundamental_div_mod_converse(y, 400, n400 + 1, 0);
        assert(spec_days_through_year(y) == 146097 * (n400 + 1));
    } else if n1 == 4 {
        let y = 400 * n400 + 100 * n100 + 4 * n4 + 4;
        assert(spec_gregorian_year_from_fixed(date) == y);
        assert(d3 == 1460);
        assert(n4 <= 23);
        lemma_days_through_year_split(y - 1);
        lemma_fundamental_div_mod_converse(y - 1, 400, n400, 100 * n100 + 4 * n4 + 3);
        lemma_fundamental_div_mod_converse(100 * n100 + 4 * n4 + 3, 100, n100, 4 * n4 + 3);
        lemma_fundamental_div_mod_converse(4 * n4 + 3, 4, n4, 3);
        assert(spec_days_through_year(y - 1) == 146097 * n400 + 36524 * n100 + 1461 * n4 + 1095);
        lemma_days_through_year_split(y);
        lemma_fundamental_div_mod_converse(y, 400, n400, 100 * n100 + 4 * n4 + 4);
        lemma_fundamental_div_mod_converse(100 * n100 + 4 * n4 + 4, 100, n100, 4 * n4 + 4);
        lemma_fundamental_div_mod_converse(4 * n4 + 4, 4, n4 + 1, 0);
        assert(spec_days_through_year(y) == 146097 * n400 + 36524 * n100 + 1461 * n4 + 1461);
    } else {
        let y = 400 * n400 + 100 * n100 + 4 * n4 + n1 + 1;
        assert(spec_gregorian_year_from_fixed(date) == y);
        lemma_days_through_year_split(y - 1);
        lemma_fundamental_div_mod_converse(y - 1, 400, n400, 100 * n100 + 4 * n4 + n1);
        lemma_fundamental_div_mod_converse(100 * n100 + 4 * n4 + n1, 100, n100, 4 * n4 + n1);
        lemma_fundamental_div_mod_converse(4 * n4 + n1, 4, n4, n1);
        assert(spec_days_through_year(y - 1) == 146097 * n400 + 36524 * n100 + 1461 * n4 + 365
            * n1);
        lemma_days_in_year(y);
    }
}

/// The computed year lies in the supported range whenever the date does.
pub proof fn lemma_year_from_fixed_in_range(date: int)
    requires
        MIN_DAY <= date <= MAX_DAY,
    ensures
        MIN_YEAR <= spec_gregorian_year_from_fixed(date) <= MAX_YEAR,
{
    let y = spec_gregorian_year_from_fixed(date);
    lemma_year_from_fixed_bounds(date);
    assert(spec_days_through_year(MIN_YEAR - 1) == MIN_DAY - 1);
    assert(spec_days_through_year(MAX_YEAR as int) == MAX_DAY);
    if y < MIN_YEAR {
        lemma_days_through_year_ordered(y, MIN_YEAR - 1);
        assert(false);
    }
    if y > MAX_YEAR {
        lemma_days_through_year_ordered(MAX_YEAR as int, y - 1);
        assert(false);
    }
}

/// The year that contains fixed day `date`.
pub fn gregorian_year_from_fixed(date: i32) -> (r: i32)
    requires
        i32::MIN < date,
    ensures
        r == spec_gregorian_year_from_fixed(date as int),
{
    let d0 = date - 1;
    let n400 = d0.checked_div_euclid(146097).unwrap();
    let d1 = d0.checked_rem_euclid(146097).unwrap();
    let n100 = d1.checked_div_euclid(36524).unwrap();
    let d2 = d1.checked_rem_euclid(36524).unwrap();
    let n4 = d2.checked_div_euclid(1461).unwrap();
    let d3 = d2.checked_rem_euclid(1461).unwrap();
    let n1 = d3.checked_div_euclid(365).unwrap();
    proof {
        lemma_div_is_ordered(d0 as int, i32::MAX as int, 146097);
        lemma_div_is_ordered(i32::MIN as int, d0 as int, 146097);
        lemma_mod_bound(d0 as int, 146097);
        lemma_div_pos_is_pos(d1 as int, 36524);
        lemma_div_is_ordered(d1 as int, 146096, 36524);
        lemma_mod_bound(d1 as int, 36524);
        lemma_div_pos_is_pos(d2 as int, 1461);
        lemma_div_is_ordered(d2 as int, 36523, 1461);
        lemma_mod_bound(d2 as int, 1461);
        lemma_div_pos_is_pos(d3 as int, 365);
        lemma_div_is_ordered(d3 as int, 1460, 365);
    }
    let year = 400 * n400 + 100 * n100 + 4 * n4 + n1;
    if n100 == 4 || n1 == 4 {
        year
    } else {
        year + 1
    }
}

/// The civil date (year, month, day) of fixed day `date`, recovered by the
/// inverse cycle decomposition and the closed-form month formula.
pub open spec fn spec_gregorian_from_fixed(date: int) -> (int, int, int) {
    let year = spec_gregorian_year_from_fixed(date);
    let prior_days = date - (spec_days_through_year(year - 1) + 1);
    let correction = if date < spec_fixed_from_gregorian(year, 3, 1) {
        0int
    } else if is_leap_year(year) {
        1int
    } else {
        2int
    };
    let month = (12 * (prior_days + correction) + 373) / 367;
    let day = date - spec_fixed_from_gregorian(year, month, 1) + 1;
    (year, month, day)
}

/// The closed-form month formula recovers the month from a day index that
/// counts February as 30 days.
proof fn lemma_month_formula(m: int, d: int)
    requires
        1 <= m <= 12,
        1 <= d <= 31,
        m == 2 ==> d <= 29,
        m == 4 || m == 6 || m == 9 || m == 11 ==> d <= 30,
    ensures
        (12 * ((367 * m - 362) / 12 + d - 1) + 373) / 367 == m,
{
    let x = (367 * m - 362) / 12 + d - 1;
    if m == 1 {
        lemma_fundamental_div_mod_converse(12 * x + 373, 367, 1, 12 * x + 373 - 367);
    } else if m == 2 {
        lemma_fundamental_div_mod_converse(12 * x + 373, 367, 2, 12 * x + 373 - 734);
    } else if m == 3 {
        lemma_fundamental_div_mod_converse(12 * x + 373, 367, 3, 12 * x + 373 - 1101);
    } else if m == 4 {
        lemma_fundamental_div_mod_converse(12 * x + 373, 367, 4, 12 * x + 373 - 1468);
    } else if m == 5 {
        lemma_fundamental_div_mod_converse(12 * x + 373, 367, 5, 12 * x + 373 - 1835);
    } else if m == 6 {
        lemma_fundamental_div_mod_converse(12 * x + 373, 367, 6, 12 * x + 373 - 2202);
    } else if m == 7 {
        lemma_fundamental_div_mod_converse(12 * x + 373, 367, 7, 12 * x + 373 - 2569);
    } else if m == 8 {
        lemma_fundamental_div_mod_converse(12 * x + 373, 367, 8, 12 * x + 373 - 2936);
    } else if m == 9 {
        lemma_fundamental_div_mod_converse(12 * x + 373, 367, 9, 12 * x + 373 - 3303);
    } else if m == 10 {
        lemma_fundamental_div_mod_converse(12 * x + 373, 367, 10, 12 * x + 373 - 3670);
    } else if m == 11 {
        lemma_fundamental_div_mod_converse(12 * x + 373, 367, 11, 12 * x + 373 - 4037);
    } else {
        lemma_fundamental_div_mod_converse(12 * x + 373, 367, 12, 12 * x + 373 - 4404);
    }
}

/// Within its year, a date's zero-based day of the year lies between the
/// month's offset and the year's length, and falls before March exactly for
/// the first two months.
proof fn lemma_day_of_year_bounds(y: int, m: int, d: int)
    requires
        1 <= m <= 12,
        1 <= d <= spec_days_in_month(y, m),
    ensures
        0 <= spec_month_offset(y, m) + d - 1,
        spec_month_offset(y, m) + d - 1 <= if is_leap_year(y) {
            365int
        } else {
            364int
        },
        (m <= 2) == (spec_month_offset(y, m) + d - 1 < spec_month_offset(y, 3)),
        spec_month_offset(y, m) + d - 1 + (if m <= 2 {
            0int
        } else if is_leap_year(y) {
            1int
        } else {
            2int
        }) == (367 * m - 362) / 12 + d - 1,
{
    assert(spec_month_offset(y, 3) == if is_leap_year(y) {
        60int
    } else {
        59int
    });
}

/// The month bracket found by the month formula covers the given day of the
/// year: for a zero-based day index `doy0` within the year, the formula
/// picks the month whose days contain it.
proof fn lemma_month_cover(y: int, doy0: int)
    requires
        0 <= doy0 <= if is_leap_year(y) {
            365int
        } else {
            364int
        },
    ensures
        ({
            let corr = if doy0 < spec_month_offset(y, 3) {
                0int
            } else if is_leap_year(y) {
                1int
            } else {
                2int
            };
            let m = (12 * (doy0 + corr) + 373) / 367;
            &&& 1 <= m <= 12
            &&& spec_month_offset(y, m) <= doy0
            &&& doy0 < spec_month_offset(y, m) + spec_days_in_month(y, m)
        }),
{
    let mo3 = spec_month_offset(y, 3);
    assert(mo3 == if is_leap_year(y) {
        60int
    } else {
        59int
    });
    let corr = if doy0 < mo3 {
        0int
    } else if is_leap_year(y) {
        1int
    } else {
        2int
    };
    let x = doy0 + corr;
    let m = (12 * x + 373) / 367;
    if doy0 < mo3 {
        if doy0 <= 30 {
            lemma_fundamental_div_mod_converse(12 * x + 373, 367, 1, 12 * x + 373 - 367);
        } else {
            lemma_fundamental_div_mod_converse(12 * x + 373, 367, 2, 12 * x + 373 - 734);
        }
    } else {
        if x <= 91 {
            lemma_fundamental_div_mod_converse(12 * x + 373, 367, 3, 12 * x + 373 - 1101);
        } else if x <= 121 {
            lemma_fundamental_div_mod_converse(12 * x + 373, 367, 4, 12 * x + 373 - 1468);
        } else if x <= 152 {
            lemma_fundamental_div_mod_converse(12 * x + 373, 367, 5, 12 * x + 373 - 1835);
        } else if x <= 182 {
            lemma_fundamental_div_mod_converse(12 * x + 373, 367, 6, 12 * x + 373 - 2202);
        } else if x <= 213 {
            lemma_fundamental_div_mod_converse(12 * x + 373, 367, 7, 12 * x + 373 - 2569);
        } else if x <= 244 {
            lemma_fundamental_div_mod_converse(12 * x + 373, 367, 8, 12 * x + 373 - 2936);
        } else if x <= 274 {
            lemma_fundamental_div_mod_converse(12 * x + 373, 367, 9, 12 * x + 373 - 3303);
        } else if x <= 305 {
            lemma_fundamental_div_mod_converse(12 * x + 373, 367, 10, 12 * x + 373 - 3670);
        } else if x <= 335 {
            lemma_fundamental_div_mod_converse(12 * x + 373, 367, 11, 12 * x + 373 - 4037);
        } else {
            lemma_fundamental_div_mod_converse(12 * x + 373, 367, 12, 12 * x + 373 - 4404);
        }
    }
}

/// Converting a fixed day in the supported range to a civil date yields a
/// valid date that converts back to the same fixed day.
pub proof fn lemma_gregorian_from_fixed_valid(date: int)
    requires
        MIN_DAY <= date <= MAX_DAY,
    ensures
        ({
            let (y, m, d) = spec_gregorian_from_fixed(date);
            &&& valid_civil_date(y, m, d)
            &&& spec_fixed_from_gregorian(y, m, d) == date
        }),
{
    let y = spec_gregorian_year_from_fixed(date);
    lemma_year_from_fixed_bounds(date);
    lemma_year_from_fixed_in_range(date);
    lemma_days_in_year(y);
    let prior = date - (spec_days_through_year(y - 1) + 1);
    lemma_month_cover(y, prior);
    assert(spec_fixed_from_gregorian(y, 3, 1) == spec_days_through_year(y - 1) + 1
        + spec_month_offset(y, 3));
}

/// A valid civil date round-trips through its fixed day number, which lies
/// in the supported range.
pub proof fn lemma_fixed_from_gregorian_round_trip(y: int, m: int, d: int)
    requires
        valid_civil_date(y, m, d),
    ensures
        MIN_DAY <= spec_fixed_from_gregorian(y, m, d) <= MAX_DAY,
        spec_gregorian_from_fixed(spec_fixed_from_gregorian(y, m, d)) == (y, m, d),
{
    let date = spec_fixed_from_gregorian(y, m, d);
    let doy0 = spec_month_offset(y, m) + d - 1;
    lemma_day_of_year_bounds(y, m, d);
    lemma_days_in_year(y);
    assert(spec_days_through_year(y - 1) < date <= spec_days_through_year(y));
    lemma_days_through_year_ordered(MIN_YEAR - 1, y - 1);
    lemma_days_through_year_ordered(y, MAX_YEAR as int);
    assert(spec_days_through_year(MIN_YEAR - 1) == MIN_DAY - 1);
    assert(spec_days_through_year(MAX_YEAR as int) == MAX_DAY);
    let yy = spec_gregorian_year_from_fixed(date);
    lemma_year_from_fixed_bounds(date);
    if yy < y {
        lemma_days_through_year_ordered(yy, y - 1);
        assert(false);
    }
    if yy > y {
        lemma_days_through_year_ordered(y, yy - 1);
        assert(false);
    }
    assert(spec_fixed_from_gregorian(y, 3, 1) == spec_days_through_year(y - 1) + 1
        + spec_month_offset(y, 3));
    lemma_month_formula(m, d);
}

/// The civil date (year, month, day) of fixed day `date`.
pub fn gregorian_from_fixed(date: i32) -> (r: (i32, u32, u32))
    requires
        MIN_DAY <= date <= MAX_DAY,
    ensures
        ({
            let (y, m, d) = spec_gregorian_from_fixed(date as int);
            r.0 == y && r.1 == m && r.2 == d
        }),
{
    proof {
        lemma_year_from_fixed_bounds(date as int);
        lemma_year_from_fixed_in_range(date as int);
        lemma_days_in_year(spec_gregorian_year_from_fixed(date as int));
        lemma_gregorian_from_fixed_valid(date as int);
    }
    let year = gregorian_year_from_fixed(date);
    let prior_days = date - gregorian_new_year(year);
    let correction: i32 = if date < fixed_from_gregorian(year, 3, 1) {
        0
    } else if is_gregorian_leap_year(year) {
        1
    } else {
        2
    };
    let month = nonneg((12 * (prior_days + correction) + 373).checked_div_euclid(367).unwrap());
    let day = nonneg(date - fixed_from_gregorian(year, month, 1) + 1);
    (year, month, day)
}

/// The fixed day number of January 1 of `year`.
pub fn gregorian_new_year(year: i32) -> (r: i32)
    requires
        MIN_YEAR <= year <= MAX_YEAR,
    ensures
        r == spec_fixed_from_gregorian(year as int, 1, 1),
{
    fixed_from_gregorian(year, 1, 1)
}

} // verus!

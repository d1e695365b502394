//! Civil time in the proleptic Gregorian calendar, from a signed count of
//! seconds since 1970-01-01 00:00:00 UTC.
//!
//! The calendar is defined by counting: a date's day number is the number of
//! days in the years before it, plus the days in the months before it, plus the
//! days of its month that have passed. The conversion from a day number back to
//! a date is stated against that definition, and only integer arithmetic with
//! floor division is used, so dates before 1970 are as exact as those after.

use vstd::prelude::*;

verus! {

/// Seconds in a civil day.
pub const SECONDS_PER_DAY: i64 = 86_400;

/// Seconds in an hour.
pub const SECONDS_PER_HOUR: i64 = 3_600;

/// Seconds in a minute.
pub const SECONDS_PER_MINUTE: i64 = 60;

/// Days from 0000-03-01 to 1970-01-01.
pub const DAYS_FROM_MARCH_ZERO: i64 = 719_468;

/// Days in the 400-year cycle of the Gregorian calendar.
pub const DAYS_PER_ERA: i64 = 146_097;

/// Whether `y` is a leap year: divisible by 4, and not by 100 unless by 400.
pub open spec fn is_leap_year(y: int) -> bool {
    y % 4 == 0 && (y % 100 != 0 || y % 400 == 0)
}

/// Number of days in year `y`.
pub open spec fn days_in_year(y: int) -> int {
    if is_leap_year(y) {
        366
    } else {
        365
    }
}

/// Number of days in month `m` (1 is January) of year `y`.
pub open spec fn days_in_month(y: int, m: int) -> int {
    if m == 2 {
        if is_leap_year(y) {
            29
        } else {
            28
        }
    } else if m == 4 || m == 6 || m == 9 || m == 11 {
        30
    } else {
        31
    }
}

/// Leap years among the years `1 ..= y - 1`, continued to earlier years by
/// floor division. Only differences of this count are used.
pub open spec fn leap_years_before(y: int) -> int {
    (y - 1) / 4 - (y - 1) / 100 + (y - 1) / 400
}

/// Days from 1970-01-01 to the first day of year `y`; negative before 1970.
pub open spec fn days_before_year(y: int) -> int {
    365 * (y - 1970) + leap_years_before(y) - leap_years_before(1970)
}

/// Days from the first day of year `y` to the first day of its month `m`: the
/// lengths of the months before `m`, added up.
pub open spec fn days_before_month(y: int, m: int) -> int
    decreases m,
{
    if m <= 1 {
        0
    } else {
        days_before_month(y, m - 1) + days_in_month(y, m - 1)
    }
}

/// Whether year `y`, month `m` and day `d` name a day of the calendar.
pub open spec fn is_civil_date(y: int, m: int, d: int) -> bool {
    1 <= m <= 12 && 1 <= d <= days_in_month(y, m)
}

/// Day number of the date `y`-`m`-`d`: days from 1970-01-01 to it.
pub open spec fn days_from_civil(y: int, m: int, d: int) -> int {
    days_before_year(y) + days_before_month(y, m) + (d - 1)
}

/// A calendar date with a time of day.
#[derive(Clone, Copy, Debug, PartialEq, Eq, Structural)]
pub struct CivilTimestamp {
    pub year: i64,
    pub month: u32,
    pub day: u32,
    pub hour: u32,
    pub minute: u32,
    pub second: u32,
}

impl CivilTimestamp {
    /// The date exists in the calendar and the time of day is within a day.
    pub open spec fn wf(&self) -> bool {
        &&& is_civil_date(self.year as int, self.month as int, self.day as int)
        &&& self.hour < 24
        &&& self.minute < 60
        &&& self.second < 60
    }

    /// Seconds from 1970-01-01 00:00:00 to this timestamp.
    pub open spec fn seconds_since_epoch(&self) -> int {
        days_from_civil(self.year as int, self.month as int, self.day as int) * 86_400
            + self.hour * 3_600 + self.minute * 60 + self.second
    }

    /// Tests `wf`.
    pub fn is_well_formed(&self) -> (b: bool)
        ensures
            b == self.wf(),
    {
        1 <= self.month && self.month <= 12 && 1 <= self.day && self.day <= month_length(
            self.year,
            self.month,
        ) && self.hour < 24 && self.minute < 60 && self.second < 60
    }

    /// The count of seconds since 1970-01-01 00:00:00 that this timestamp
    /// stands for; `None` where the timestamp is not well formed or the count
    /// does not fit in an `i64`.
    pub fn to_unix_seconds(&self) -> (r: Option<i64>)
        ensures
            r == if self.wf() && i64::MIN <= self.seconds_since_epoch() <= i64::MAX {
                Some(self.seconds_since_epoch() as i64)
            } else {
                None
            },
    {
        if self.hour >= 24 || self.minute >= 60 || self.second >= 60 {
            return None;
        }
        match civil_to_days(self.year, self.month, self.day) {
            None => None,
            Some(days) => {
                proof {
                    lemma_day_number_bound(self.year, self.month as int, self.day as int);
                }
                let in_day: i128 = (self.hour as i128) * 3_600 + (self.minute as i128) * 60
                    + self.second as i128;
                let total: i128 = days * 86_400 + in_day;
                if total < i64::MIN as i128 || total > i64::MAX as i128 {
                    None
                } else {
                    Some(total as i64)
                }
            },
        }
    }
}

/// The civil timestamp of the instant `t` seconds after 1970-01-01 00:00:00:
/// the well-formed timestamp whose count of seconds is `t`.
pub open spec fn civil_of(t: int) -> CivilTimestamp {
    choose|c: CivilTimestamp| c.wf() && c.seconds_since_epoch() == t
}

/// Tests `is_leap_year`.
pub fn leap_year(y: i64) -> (b: bool)
    ensures
        b == is_leap_year(y as int),
{
    y % 4 == 0 && (y % 100 != 0 || y % 400 == 0)
}

/// The length of month `m` of year `y`, as `days_in_month` defines it.
pub fn month_length(y: i64, m: u32) -> (n: u32)
    ensures
        n == days_in_month(y as int, m as int),
{
    if m == 2 {
        if leap_year(y) {
            29
        } else {
            28
        }
    } else if m == 4 || m == 6 || m == 9 || m == 11 {
        30
    } else {
        31
    }
}

/// The day number of a date: `None` where year, month and day name no day of
/// the calendar.
pub fn civil_to_days(y: i64, m: u32, d: u32) -> (r: Option<i128>)
    ensures
        match r {
            Some(n) => is_civil_date(y as int, m as int, d as int) && n == days_from_civil(
                y as int,
                m as int,
                d as int,
            ),
            None => !is_civil_date(y as int, m as int, d as int),
        },
{
    if m < 1 || m > 12 || d < 1 || d > month_length(y, m) {
        return None;
    }
    let p: i128 = y as i128 - 1;
    let by_4: i128 = p.checked_div_euclid(4).unwrap();
    let by_100: i128 = p.checked_div_euclid(100).unwrap();
    let by_400: i128 = p.checked_div_euclid(400).unwrap();
    let leaps: i128 = by_4 - by_100 + by_400;
    let mut in_year: i128 = 0;
    let mut k: u32 = 1;
    while k < m
        invariant
            1 <= k <= m <= 12,
            in_year == days_before_month(y as int, k as int),
            0 <= in_year <= 31 * (k - 1),
        decreases m - k,
    {
        in_year = in_year + month_length(y, k) as i128;
        k = k + 1;
    }
    assert(leap_years_before(1970) == 477);
    Some(365 * (y as i128 - 1970) + leaps - 477 + in_year + (d as i128 - 1))
}

/// The date of day number `z` (days since 1970-01-01, negative before it), as
/// year, month and day.
pub fn civil_from_days(z: i64) -> (r: (i64, u32, u32))
    ensures
        is_civil_date(r.0 as int, r.1 as int, r.2 as int),
        days_from_civil(r.0 as int, r.1 as int, r.2 as int) == z,
{
    let shifted: i128 = z as i128 + DAYS_FROM_MARCH_ZERO as i128;
    let era: i128 = shifted.checked_div_euclid(DAYS_PER_ERA as i128).unwrap();
    let doe: i64 = (shifted - era * DAYS_PER_ERA as i128) as i64;
    proof {
        lemma_year_of_era(doe as int);
    }
    let yoe: i64 = (doe - doe / 1460 + doe / 36_524 - doe / 146_096) / 365;
    let doy: i64 = doe - (365 * yoe + yoe / 4 - yoe / 100);
    proof {
        lemma_march_month(doy as int);
    }
    let mp: i64 = (5 * doy + 2) / 153;
    let d: u32 = (doy - (153 * mp + 2) / 5 + 1) as u32;
    let m: u32 = if mp < 10 {
        (mp + 3) as u32
    } else {
        (mp - 9) as u32
    };
    let march_year: i64 = (yoe as i128 + era * 400) as i64;
    let y: i64 = if m <= 2 {
        march_year + 1
    } else {
        march_year
    };
    proof {
        lemma_date_of_day_number(z as int);
    }
    (y, m, d)
}

/// Year, month, day, hour, minute and second of the instant `t` seconds after
/// 1970-01-01 00:00:00 (before it, where `t` is negative): the fields of
/// `civil_of(t)`.
pub fn unix_to_ymdhms(t: i64) -> (r: (i64, u32, u32, u32, u32, u32))
    ensures
        civil_of(t as int) == (CivilTimestamp {
            year: r.0,
            month: r.1,
            day: r.2,
            hour: r.3,
            minute: r.4,
            second: r.5,
        }),
        civil_of(t as int).wf(),
        civil_of(t as int).seconds_since_epoch() == t,
{
    let days: i64 = t.checked_div_euclid(SECONDS_PER_DAY).unwrap();
    let rem: i64 = t.checked_rem_euclid(SECONDS_PER_DAY).unwrap();
    let (y, m, d) = civil_from_days(days);
    let h: u32 = (rem / SECONDS_PER_HOUR) as u32;
    let in_hour: i64 = rem % SECONDS_PER_HOUR;
    let min: u32 = (in_hour / SECONDS_PER_MINUTE) as u32;
    let s: u32 = (in_hour % SECONDS_PER_MINUTE) as u32;
    proof {
        let c = CivilTimestamp { year: y, month: m, day: d, hour: h, minute: min, second: s };
        lemma_civil_round_trip(c);
    }
    (y, m, d, h, min, s)
}

/// The civil timestamp of the instant `t` seconds after 1970-01-01 00:00:00.
/// It is well formed, and its count of seconds is `t` again.
pub fn to_civil(t: i64) -> (c: CivilTimestamp)
    ensures
        c == civil_of(t as int),
        c.wf(),
        c.seconds_since_epoch() == t,
{
    let (year, month, day, hour, minute, second) = unix_to_ymdhms(t);
    CivilTimestamp { year, month, day, hour, minute, second }
}

// Laws of the calendar.

/// A year's first day follows the year before by that year's length, and
/// 1970 begins on day 0.
pub proof fn lemma_year_step(y: int)
    ensures
        days_before_year(y + 1) == days_before_year(y) + days_in_year(y),
        days_before_year(1970) == 0,
{
}

/// A year's months, added up, are the year.
pub proof fn lemma_months_fill_year(y: int)
    ensures
        days_before_month(y, 13) == days_in_year(y),
{
    lemma_days_before_month(y);
}

/// Day numbers tell dates apart: two dates of the calendar with the same day
/// number are the same date.
pub proof fn lemma_days_from_civil_injective(
    y1: int,
    m1: int,
    d1: int,
    y2: int,
    m2: int,
    d2: int,
)
    requires
        is_civil_date(y1, m1, d1),
        is_civil_date(y2, m2, d2),
        days_from_civil(y1, m1, d1) == days_from_civil(y2, m2, d2),
    ensures
        y1 == y2,
        m1 == m2,
        d1 == d2,
{
    lemma_days_before_month(y1);
    lemma_days_before_month(y2);
    if y1 < y2 {
        lemma_years_in_order(y1, y2);
    }
    if y2 < y1 {
        lemma_years_in_order(y2, y1);
    }
}

/// A count of seconds is the count of one well-formed timestamp only.
pub proof fn lemma_civil_unique(a: CivilTimestamp, b: CivilTimestamp)
    requires
        a.wf(),
        b.wf(),
        a.seconds_since_epoch() == b.seconds_since_epoch(),
    ensures
        a == b,
{
    lemma_days_from_civil_injective(
        a.year as int,
        a.month as int,
        a.day as int,
        b.year as int,
        b.month as int,
        b.day as int,
    );
}

/// From seconds to civil time and back: every count of seconds that an `i64`
/// holds has a civil timestamp, and that timestamp's count is the same again.
pub proof fn lemma_seconds_round_trip(t: i64)
    ensures
        civil_of(t as int).wf(),
        civil_of(t as int).seconds_since_epoch() == t,
{
    lemma_timestamp_of_seconds(t);
    let c = timestamp_of_seconds(t as int);
    assert(c.wf() && c.seconds_since_epoch() == t);
}

/// From civil time to seconds and back: the civil timestamp of a well-formed
/// timestamp's count of seconds is that timestamp.
pub proof fn lemma_civil_round_trip(c: CivilTimestamp)
    requires
        c.wf(),
    ensures
        civil_of(c.seconds_since_epoch()) == c,
{
    lemma_civil_unique(c, civil_of(c.seconds_since_epoch()));
}

// How a day number is turned into a date: by cycles of 400 years that
// begin on 1 March, so that the leap day is the last day of a year.

/// Year within the 400-year cycle (counted from 1 March) of the day `doe` of
/// that cycle.
spec fn year_of_era(doe: int) -> int {
    (doe - doe / 1460 + doe / 36_524 - doe / 146_096) / 365
}

/// Days of a 400-year cycle that lie before its year `yoe`.
spec fn era_days_before(yoe: int) -> int {
    365 * yoe + yoe / 4 - yoe / 100
}

/// Day number of 1 March of year `y`.
spec fn march_first(y: int) -> int {
    365 * y + y / 4 - y / 100 + y / 400 - 719_468
}

/// Month index, counted from March as 0, of the day `doy` of a year that
/// begins on 1 March.
spec fn march_month(doy: int) -> int {
    (5 * doy + 2) / 153
}

/// Days of a year that begins on 1 March that lie before its month `mp`.
spec fn march_month_start(mp: int) -> int {
    (153 * mp + 2) / 5
}

proof fn lemma_year_of_era_bounds(doe: int)
    requires
        0 <= doe <= 146_096,
    ensures
        0 <= year_of_era(doe) <= 399,
        era_days_before(year_of_era(doe)) <= doe,
        year_of_era(doe) < 399 ==> doe < era_days_before(year_of_era(doe) + 1),
{
}

/// A year of the cycle, which begins on 1 March, is as long as the civil year
/// in which it ends.
proof fn lemma_era_year_length(yoe: int)
    requires
        0 <= yoe <= 399,
    ensures
        yoe < 399 ==> era_days_before(yoe + 1) - era_days_before(yoe) == days_in_year(yoe + 1),
        yoe == 399 ==> 146_097 - era_days_before(yoe) == days_in_year(yoe + 1),
{
}

proof fn lemma_year_of_era(doe: int)
    requires
        0 <= doe <= 146_096,
    ensures
        0 <= year_of_era(doe) <= 399,
        0 <= doe - era_days_before(year_of_era(doe)) <= 365,
        doe - era_days_before(year_of_era(doe)) == 365 ==> is_leap_year(year_of_era(doe) + 1),
{
    lemma_year_of_era_bounds(doe);
    lemma_era_year_length(year_of_era(doe));
}

proof fn lemma_march_month(doy: int)
    requires
        0 <= doy <= 365,
    ensures
        0 <= march_month(doy) <= 11,
        march_month_start(march_month(doy)) <= doy,
        march_month(doy) < 11 ==> doy < march_month_start(march_month(doy) + 1),
{
}

/// The first days of the months of a year, as running totals.
proof fn lemma_days_before_month(y: int)
    ensures
        days_before_month(y, 1) == 0,
        days_before_month(y, 2) == 31,
        days_before_month(y, 3) == days_in_year(y) - 306,
        days_before_month(y, 4) == days_in_year(y) - 275,
        days_before_month(y, 5) == days_in_year(y) - 245,
        days_before_month(y, 6) == days_in_year(y) - 214,
        days_before_month(y, 7) == days_in_year(y) - 184,
        days_before_month(y, 8) == days_in_year(y) - 153,
        days_before_month(y, 9) == days_in_year(y) - 122,
        days_before_month(y, 10) == days_in_year(y) - 92,
        days_before_month(y, 11) == days_in_year(y) - 61,
        days_before_month(y, 12) == days_in_year(y) - 31,
        days_before_month(y, 13) == days_in_year(y),
{
    reveal_with_fuel(days_before_month, 14);
}

proof fn lemma_march_first(y: int)
    ensures
        days_before_year(y) + days_before_month(y, 3) == march_first(y),
        days_before_year(y + 1) == march_first(y) + 306,
{
    lemma_days_before_month(y);
    lemma_year_step(y);
}

/// The date that lies `doy` days after 1 March of year `march_year`.
proof fn lemma_date_after_march_first(march_year: int, doy: int)
    requires
        0 <= doy <= 365,
        doy == 365 ==> is_leap_year(march_year + 1),
    ensures
        ({
            let mp = march_month(doy);
            let d = doy - march_month_start(mp) + 1;
            let m = if mp < 10 {
                mp + 3
            } else {
                mp - 9
            };
            let y = if m <= 2 {
                march_year + 1
            } else {
                march_year
            };
            is_civil_date(y, m, d) && days_from_civil(y, m, d) == march_first(march_year) + doy
        }),
{
    let mp = march_month(doy);
    lemma_march_month(doy);
    lemma_march_first(march_year);
    if mp < 10 {
        lemma_days_before_month(march_year);
    } else {
        lemma_days_before_month(march_year + 1);
    }
}

/// What `civil_from_days` computes, step by step.
spec fn date_of_day_number(z: int) -> (int, int, int) {
    let shifted = z + 719_468;
    let era = shifted / 146_097;
    let doe = shifted - era * 146_097;
    let yoe = year_of_era(doe);
    let doy = doe - era_days_before(yoe);
    let mp = march_month(doy);
    let d = doy - march_month_start(mp) + 1;
    let m = if mp < 10 {
        mp + 3
    } else {
        mp - 9
    };
    let y = if m <= 2 {
        yoe + era * 400 + 1
    } else {
        yoe + era * 400
    };
    (y, m, d)
}

/// Whole cycles of 400 years change neither the leap years nor the day
/// numbers within a cycle.
proof fn lemma_era_shift(yoe: int, era: int)
    requires
        0 <= yoe <= 399,
    ensures
        is_leap_year(yoe + era * 400 + 1) == is_leap_year(yoe + 1),
        march_first(yoe + era * 400) == era * 146_097 + era_days_before(yoe) - 719_468,
{
    let y = yoe + era * 400;
    assert(y / 4 == yoe / 4 + era * 100);
    assert(y / 100 == yoe / 100 + era * 4);
    assert(y / 400 == era);
}

proof fn lemma_date_of_day_number(z: int)
    ensures
        ({
            let (y, m, d) = date_of_day_number(z);
            is_civil_date(y, m, d) && days_from_civil(y, m, d) == z
        }),
{
    let shifted = z + 719_468;
    let era = shifted / 146_097;
    let doe = shifted - era * 146_097;
    let yoe = year_of_era(doe);
    let doy = doe - era_days_before(yoe);
    lemma_year_of_era(doe);
    lemma_era_shift(yoe, era);
    lemma_date_after_march_first(yoe + era * 400, doy);
}

/// The day numbers of the dates whose year an `i64` holds.
proof fn lemma_day_number_bound(y: i64, m: int, d: int)
    requires
        is_civil_date(y as int, m, d),
    ensures
        -0x8000_0000_0000_0000 * 366 <= days_from_civil(y as int, m, d) <= 0x8000_0000_0000_0000
            * 366,
{
    lemma_days_before_month(y as int);
}

proof fn lemma_years_in_order(a: int, b: int)
    requires
        a < b,
    ensures
        days_before_year(a) + days_in_year(a) <= days_before_year(b),
{
    lemma_year_step(a);
}

/// The timestamp that `unix_to_ymdhms` computes for `t`, step by step.
spec fn timestamp_of_seconds(t: int) -> CivilTimestamp {
    let days = t / 86_400;
    let rem = t % 86_400;
    let (y, m, d) = date_of_day_number(days);
    CivilTimestamp {
        year: y as i64,
        month: m as u32,
        day: d as u32,
        hour: (rem / 3_600) as u32,
        minute: (rem % 3_600 / 60) as u32,
        second: (rem % 3_600 % 60) as u32,
    }
}

proof fn lemma_timestamp_of_seconds(t: i64)
    ensures
        timestamp_of_seconds(t as int).wf(),
        timestamp_of_seconds(t as int).seconds_since_epoch() == t,
{
    let days = t as int / 86_400;
    let shifted = days + 719_468;
    let era = shifted / 146_097;
    let doe = shifted - era * 146_097;
    lemma_year_of_era(doe);
    lemma_march_month(doe - era_days_before(year_of_era(doe)));
    lemma_date_of_day_number(days);
}

} // verus!

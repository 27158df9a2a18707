#![allow(non_snake_case)]
//! Support for SQL-style timestamp, date and time-of-day scalars.
//!
//! A `Timestamp` is a count of milliseconds since the Unix epoch, a
//! `Date` a count of days, a `Time` a count of nanoseconds from
//! midnight.  Field extraction, interval arithmetic and windowing work
//! on those plain counts; where a civil-calendar field is needed the
//! functions go through the named calendar facts of `calendar`.

use vstd::prelude::*;

use crate::calendar::{
    civil_day, civil_iso_week, civil_iso_year, civil_month, civil_ordinal, civil_year,
    div_euclid_i64, lemma_trunc_div_bound, rem_euclid_i64, sec_day_of, sec_iso_week_of,
    sec_iso_year_of, sec_month_of, sec_ordinal_of, sec_year_of, trunc_div, trunc_div_i64,
    trunc_rem, trunc_rem_i64, MAX_CIVIL_SECS,
};

verus! {

/// Milliseconds whose civil date stays inside the calendar range.
pub const MAX_CIVIL_MILLIS: i64 = 8_000_000_000_000_000;

/// A time span counted in milliseconds.
#[derive(Debug, Clone, Copy, PartialEq, Eq, Structural, Hash, PartialOrd, Ord)]
pub struct ShortInterval {
    pub milliseconds: i64,
}

impl ShortInterval {
    pub fn new(milliseconds: i64) -> (r: ShortInterval)
        ensures
            r.milliseconds == milliseconds,
    {
        ShortInterval { milliseconds }
    }

    pub fn milliseconds(&self) -> (r: i64)
        ensures
            r == self.milliseconds,
    {
        self.milliseconds
    }
}

/// A time span counted in whole calendar months.
#[derive(Debug, Clone, Copy, PartialEq, Eq, Structural, Hash, PartialOrd, Ord)]
pub struct LongInterval {
    pub months: i32,
}

impl LongInterval {
    pub fn new(months: i32) -> (r: LongInterval)
        ensures
            r.months == months,
    {
        LongInterval { months }
    }

    pub fn months(&self) -> (r: i32)
        ensures
            r == self.months,
    {
        self.months
    }
}

/// A positive or negative interval between the Unix epoch and a moment,
/// counted in milliseconds.
#[derive(Debug, Clone, Copy, PartialEq, Eq, Structural, Hash, PartialOrd, Ord)]
pub struct Timestamp {
    pub milliseconds: i64,
}

impl Default for Timestamp {
    fn default() -> (r: Timestamp)
        ensures
            r.milliseconds == 0,
    {
        Timestamp { milliseconds: 0 }
    }
}

/// The whole second a timestamp's civil fields are computed from.
pub open spec fn civil_secs(ms: int) -> int {
    trunc_div(ms, 1000)
}

/// The position of a timestamp within its day, in nanoseconds.
pub open spec fn tod_nanos(ms: int) -> int {
    (civil_secs(ms) % 86400) * 1_000_000_000 + trunc_rem(ms, 1000) * 1_000_000
}

impl Timestamp {
    pub fn new(milliseconds: i64) -> (r: Timestamp)
        ensures
            r.milliseconds == milliseconds,
    {
        Timestamp { milliseconds }
    }

    pub fn milliseconds(&self) -> (r: i64)
        ensures
            r == self.milliseconds,
    {
        self.milliseconds
    }

    /// The timestamp has a civil date in the calendar range and a
    /// representable sub-second part (negative timestamps must lie on a
    /// whole second).
    pub open spec fn valid_civil(self) -> bool {
        &&& -MAX_CIVIL_MILLIS <= self.milliseconds <= MAX_CIVIL_MILLIS
        &&& (self.milliseconds >= 0 || trunc_rem(self.milliseconds as int, 1000) == 0)
    }

    /// The whole second this timestamp's civil fields are computed from.
    pub open spec fn spec_secs(self) -> int {
        civil_secs(self.milliseconds as int)
    }
}

/// The whole second of a timestamp, bounded by the calendar range.
fn timestamp_secs(value: Timestamp) -> (s: i64)
    requires
        -MAX_CIVIL_MILLIS <= value.milliseconds <= MAX_CIVIL_MILLIS,
    ensures
        s == value.spec_secs(),
        -MAX_CIVIL_SECS <= s <= MAX_CIVIL_SECS,
{
    proof {
        lemma_trunc_div_bound(value.milliseconds as int, 1000, MAX_CIVIL_MILLIS as int);
    }
    trunc_div_i64(value.milliseconds, 1000)
}

pub fn extract_year_Timestamp(value: Timestamp) -> (r: i64)
    requires
        value.valid_civil(),
    ensures
        r == sec_year_of(value.spec_secs()),
{
    civil_year(timestamp_secs(value)) as i64
}

pub fn extract_month_Timestamp(value: Timestamp) -> (r: i64)
    requires
        value.valid_civil(),
    ensures
        r == sec_month_of(value.spec_secs()),
{
    civil_month(timestamp_secs(value)) as i64
}

pub fn extract_day_Timestamp(value: Timestamp) -> (r: i64)
    requires
        value.valid_civil(),
    ensures
        r == sec_day_of(value.spec_secs()),
{
    civil_day(timestamp_secs(value)) as i64
}

pub fn extract_quarter_Timestamp(value: Timestamp) -> (r: i64)
    requires
        value.valid_civil(),
    ensures
        r == (sec_month_of(value.spec_secs()) - 1) / 3 + 1,
{
    let m = civil_month(timestamp_secs(value));
    ((m - 1) / 3 + 1) as i64
}

pub fn extract_decade_Timestamp(value: Timestamp) -> (r: i64)
    requires
        value.valid_civil(),
    ensures
        r == trunc_div(sec_year_of(value.spec_secs()), 10),
{
    trunc_div_i64(civil_year(timestamp_secs(value)) as i64, 10)
}

pub fn extract_century_Timestamp(value: Timestamp) -> (r: i64)
    requires
        value.valid_civil(),
    ensures
        r == trunc_div(sec_year_of(value.spec_secs()) + 99, 100),
{
    trunc_div_i64(civil_year(timestamp_secs(value)) as i64 + 99, 100)
}

pub fn extract_millennium_Timestamp(value: Timestamp) -> (r: i64)
    requires
        value.valid_civil(),
    ensures
        r == trunc_div(sec_year_of(value.spec_secs()) + 999, 1000),
{
    trunc_div_i64(civil_year(timestamp_secs(value)) as i64 + 999, 1000)
}

pub fn extract_isoyear_Timestamp(value: Timestamp) -> (r: i64)
    requires
        value.valid_civil(),
    ensures
        r == sec_iso_year_of(value.spec_secs()),
{
    civil_iso_year(timestamp_secs(value)) as i64
}

pub fn extract_week_Timestamp(value: Timestamp) -> (r: i64)
    requires
        value.valid_civil(),
    ensures
        r == sec_iso_week_of(value.spec_secs()),
{
    civil_iso_week(timestamp_secs(value)) as i64
}

/// Day of the week with Sunday as day one, per the SQL convention used
/// by `Date::first_day_of_week`.
pub fn extract_dow_Timestamp(value: Timestamp) -> (r: i64)
    requires
        value.valid_civil(),
    ensures
        r == (value.spec_secs() / 86400 + 4) % 7 + 1,
{
    let days = div_euclid_i64(timestamp_secs(value), 86400);
    rem_euclid_i64(days + 4, 7) + 1
}

/// Day of the week with Monday as day one (ISO convention).
pub fn extract_isodow_Timestamp(value: Timestamp) -> (r: i64)
    requires
        value.valid_civil(),
    ensures
        r == (value.spec_secs() / 86400 + 3) % 7 + 1,
{
    let days = div_euclid_i64(timestamp_secs(value), 86400);
    rem_euclid_i64(days + 3, 7) + 1
}

pub fn extract_doy_Timestamp(value: Timestamp) -> (r: i64)
    requires
        value.valid_civil(),
    ensures
        r == sec_ordinal_of(value.spec_secs()),
{
    civil_ordinal(timestamp_secs(value)) as i64
}

/// Whole seconds since the epoch, rounded toward zero.
pub fn extract_epoch_Timestamp(t: Timestamp) -> (r: i64)
    ensures
        r == trunc_div(t.milliseconds as int, 1000),
{
    trunc_div_i64(t.milliseconds, 1000)
}

pub fn extract_millisecond_Timestamp(value: Timestamp) -> (r: i64)
    requires
        value.valid_civil(),
    ensures
        r == (value.spec_secs() % 60) * 1000 + trunc_rem(value.milliseconds as int, 1000),
{
    let secs = timestamp_secs(value);
    rem_euclid_i64(secs, 60) * 1000 + trunc_rem_i64(value.milliseconds, 1000)
}

pub fn extract_microsecond_Timestamp(value: Timestamp) -> (r: i64)
    requires
        value.valid_civil(),
    ensures
        r == (value.spec_secs() % 60) * 1_000_000 + trunc_rem(value.milliseconds as int, 1000)
            * 1000,
{
    let secs = timestamp_secs(value);
    rem_euclid_i64(secs, 60) * 1_000_000 + trunc_rem_i64(value.milliseconds, 1000) * 1000
}

pub fn extract_second_Timestamp(value: Timestamp) -> (r: i64)
    requires
        value.valid_civil(),
    ensures
        r == value.spec_secs() % 60,
{
    rem_euclid_i64(timestamp_secs(value), 60)
}

pub fn extract_minute_Timestamp(value: Timestamp) -> (r: i64)
    requires
        value.valid_civil(),
    ensures
        r == (value.spec_secs() % 86400) / 60 % 60,
{
    let tod = rem_euclid_i64(timestamp_secs(value), 86400);
    rem_euclid_i64(div_euclid_i64(tod, 60), 60)
}

pub fn extract_hour_Timestamp(value: Timestamp) -> (r: i64)
    requires
        value.valid_civil(),
    ensures
        r == (value.spec_secs() % 86400) / 3600,
{
    let tod = rem_euclid_i64(timestamp_secs(value), 86400);
    div_euclid_i64(tod, 3600)
}

pub fn plus_Timestamp_ShortInterval(left: Timestamp, right: ShortInterval) -> (r: Timestamp)
    requires
        i64::MIN <= left.milliseconds + right.milliseconds <= i64::MAX,
    ensures
        r.milliseconds == left.milliseconds + right.milliseconds,
{
    Timestamp { milliseconds: left.milliseconds + right.milliseconds }
}

pub fn minus_Timestamp_Timestamp_ShortInterval(left: Timestamp, right: Timestamp) -> (r:
    ShortInterval)
    requires
        i64::MIN <= left.milliseconds - right.milliseconds <= i64::MAX,
    ensures
        r.milliseconds == left.milliseconds - right.milliseconds,
{
    ShortInterval { milliseconds: left.milliseconds - right.milliseconds }
}

pub fn minus_Timestamp_ShortInterval_Timestamp(left: Timestamp, right: ShortInterval) -> (r:
    Timestamp)
    requires
        i64::MIN <= left.milliseconds - right.milliseconds <= i64::MAX,
    ensures
        r.milliseconds == left.milliseconds - right.milliseconds,
{
    Timestamp { milliseconds: left.milliseconds - right.milliseconds }
}

/// A time of day counted in nanoseconds from midnight.
#[derive(Debug, Clone, Copy, PartialEq, Eq, Structural, Hash, PartialOrd, Ord)]
pub struct Time {
    pub nanoseconds: u64,
}

impl Default for Time {
    fn default() -> (r: Time)
        ensures
            r.nanoseconds == 0,
    {
        Time { nanoseconds: 0 }
    }
}

impl Time {
    pub fn new(nanoseconds: u64) -> (r: Time)
        ensures
            r.nanoseconds == nanoseconds,
    {
        Time { nanoseconds }
    }

    pub fn nanoseconds(&self) -> (r: u64)
        ensures
            r == self.nanoseconds,
    {
        self.nanoseconds
    }
}

/// The calendar months elapsed from the later of two moments back to the
/// earlier, before the sign is applied: full months only, so a not yet
/// completed month at the day or time-of-day level subtracts one.
pub open spec fn months_between(lms: int, rms: int) -> int {
    let ls = civil_secs(lms);
    let rs = civil_secs(rms);
    let adjust = sec_day_of(ls) < sec_day_of(rs) || (sec_day_of(ls) == sec_day_of(rs)
        && tod_nanos(lms) < tod_nanos(rms));
    (sec_year_of(ls) - sec_year_of(rs)) * 12 + sec_month_of(ls) - (sec_month_of(rs) + (if adjust {
        1int
    } else {
        0int
    }))
}

/// Whole calendar months from `right` to `left`, negative when `left`
/// precedes `right`.
pub fn minus_Timestamp_Timestamp_LongInterval(left: Timestamp, right: Timestamp) -> (r:
    LongInterval)
    requires
        left.valid_civil(),
        right.valid_civil(),
    ensures
        r.months == months_between(left.milliseconds as int, right.milliseconds as int),
{
    let lsecs = timestamp_secs(left);
    let rsecs = timestamp_secs(right);
    let ly = civil_year(lsecs) as i64;
    let lm = civil_month(lsecs) as i64;
    let ld = civil_day(lsecs) as i64;
    let ry = civil_year(rsecs) as i64;
    let mut rm = civil_month(rsecs) as i64;
    let rd = civil_day(rsecs) as i64;
    let ltod = rem_euclid_i64(lsecs, 86400) * 1_000_000_000 + trunc_rem_i64(
        left.milliseconds,
        1000,
    ) * 1_000_000;
    let rtod = rem_euclid_i64(rsecs, 86400) * 1_000_000_000 + trunc_rem_i64(
        right.milliseconds,
        1000,
    ) * 1_000_000;
    if ld < rd || (ld == rd && ltod < rtod) {
        rm = rm + 1;
    }
    let months = (ly - ry) * 12 + lm - rm;
    LongInterval { months: months as i32 }
}

/// The midnight starting the week of the given moment, with the week
/// starting on the first day of the week.
pub fn floor_week_Timestamp(value: Timestamp) -> (r: Timestamp)
    requires
        value.valid_civil(),
    ensures
        r.milliseconds == (value.spec_secs() / 86400 - (value.spec_secs() / 86400 + 4) % 7)
            * 86400000,
{
    let days = div_euclid_i64(timestamp_secs(value), 86400);
    let wd = rem_euclid_i64(days + 4, 7);
    Timestamp { milliseconds: (days - wd) * 86400000 }
}

/// Round a timestamp down to the start of its tumbling window of width
/// `i`.
pub fn tumble_Timestamp_ShortInterval(ts: Timestamp, i: ShortInterval) -> (r: Timestamp)
    requires
        i.milliseconds != 0,
        !(ts.milliseconds == i64::MIN && i.milliseconds == -1),
    ensures
        r.milliseconds == ts.milliseconds - trunc_rem(
            ts.milliseconds as int,
            i.milliseconds as int,
        ),
{
    let rem = ts.milliseconds.checked_rem(i.milliseconds).unwrap();
    proof {
        lemma_rem_within(ts.milliseconds as int, i.milliseconds as int);
    }
    Timestamp { milliseconds: ts.milliseconds - rem }
}

/// The truncating remainder lies between zero and the dividend, so
/// subtracting it stays in range.
proof fn lemma_rem_within(a: int, b: int)
    requires
        b != 0,
    ensures
        a >= 0 ==> 0 <= trunc_rem(a, b) <= a,
        a < 0 ==> a <= trunc_rem(a, b) <= 0,
{
    let bb = if b >= 0 {
        b
    } else {
        -b
    };
    if a >= 0 {
        vstd::arithmetic::div_mod::lemma_mod_bound(a, bb);
        vstd::arithmetic::div_mod::lemma_mod_decreases(a as nat, bb as nat);
    } else {
        vstd::arithmetic::div_mod::lemma_mod_bound(-a, bb);
        vstd::arithmetic::div_mod::lemma_mod_decreases((-a) as nat, bb as nat);
    }
}

/// Round a timestamp down to the start of its tumbling window of width
/// `i`, with windows aligned to the time of day `t` rather than
/// midnight.
pub fn tumble_Timestamp_ShortInterval_Time(ts: Timestamp, i: ShortInterval, t: Time) -> (r:
    Timestamp)
    requires
        i.milliseconds != 0,
        i64::MIN <= ts.milliseconds - t.nanoseconds / 1_000_000 <= i64::MAX,
        !(ts.milliseconds - t.nanoseconds / 1_000_000 == i64::MIN && i.milliseconds == -1),
    ensures
        r.milliseconds == ts.milliseconds - trunc_rem(
            ts.milliseconds - t.nanoseconds / 1_000_000,
            i.milliseconds as int,
        ),
{
    let t_ms = (t.nanoseconds / 1_000_000) as i64;
    let shifted = ts.milliseconds - t_ms;
    let rem = shifted.checked_rem(i.milliseconds).unwrap();
    proof {
        lemma_rem_within(shifted as int, i.milliseconds as int);
    }
    let round = shifted - rem;
    Timestamp { milliseconds: round + t_ms }
}

/// A positive or negative interval between the Unix epoch and a civil
/// date, counted in days.
#[derive(Debug, Clone, Copy, PartialEq, Eq, Structural, Hash, PartialOrd, Ord)]
pub struct Date {
    pub days: i32,
}

impl Default for Date {
    fn default() -> (r: Date)
        ensures
            r.days == 0,
    {
        Date { days: 0 }
    }
}

impl Date {
    pub fn new(days: i32) -> (r: Date)
        ensures
            r.days == days,
    {
        Date { days }
    }

    pub fn days(&self) -> (r: i32)
        ensures
            r == self.days,
    {
        self.days
    }

    /// Midnight of this date as a timestamp.
    pub fn to_timestamp(&self) -> (r: Timestamp)
        ensures
            r.milliseconds == self.days * 86400000,
    {
        Timestamp { milliseconds: (self.days as i64) * 86400 * 1000 }
    }

    /// The SQL dialect served here numbers weekdays from Sunday = 1.
    pub fn first_day_of_week() -> (r: i64)
        ensures
            r == 1,
    {
        1
    }

    /// The date stays inside the calendar range.
    pub open spec fn valid_civil(self) -> bool {
        -92_000_000 <= self.days <= 92_000_000
    }

    /// Midnight of this date in epoch seconds.
    pub open spec fn spec_secs(self) -> int {
        self.days * 86400
    }
}

/// Midnight of a date in epoch seconds, bounded by the calendar range.
fn date_secs(value: Date) -> (s: i64)
    requires
        value.valid_civil(),
    ensures
        s == value.spec_secs(),
        -MAX_CIVIL_SECS <= s <= MAX_CIVIL_SECS,
{
    (value.days as i64) * 86400
}

pub fn extract_year_Date(value: Date) -> (r: i64)
    requires
        value.valid_civil(),
    ensures
        r == sec_year_of(value.spec_secs()),
{
    civil_year(date_secs(value)) as i64
}

pub fn extract_month_Date(value: Date) -> (r: i64)
    requires
        value.valid_civil(),
    ensures
        r == sec_month_of(value.spec_secs()),
{
    civil_month(date_secs(value)) as i64
}

pub fn extract_day_Date(value: Date) -> (r: i64)
    requires
        value.valid_civil(),
    ensures
        r == sec_day_of(value.spec_secs()),
{
    civil_day(date_secs(value)) as i64
}

pub fn extract_quarter_Date(value: Date) -> (r: i64)
    requires
        value.valid_civil(),
    ensures
        r == (sec_month_of(value.spec_secs()) - 1) / 3 + 1,
{
    let m = civil_month(date_secs(value));
    ((m - 1) / 3 + 1) as i64
}

pub fn extract_decade_Date(value: Date) -> (r: i64)
    requires
        value.valid_civil(),
    ensures
        r == trunc_div(sec_year_of(value.spec_secs()), 10),
{
    trunc_div_i64(civil_year(date_secs(value)) as i64, 10)
}

pub fn extract_century_Date(value: Date) -> (r: i64)
    requires
        value.valid_civil(),
    ensures
        r == trunc_div(sec_year_of(value.spec_secs()) + 99, 100),
{
    trunc_div_i64(civil_year(date_secs(value)) as i64 + 99, 100)
}

pub fn extract_millennium_Date(value: Date) -> (r: i64)
    requires
        value.valid_civil(),
    ensures
        r == trunc_div(sec_year_of(value.spec_secs()) + 999, 1000),
{
    trunc_div_i64(civil_year(date_secs(value)) as i64 + 999, 1000)
}

pub fn extract_isoyear_Date(value: Date) -> (r: i64)
    requires
        value.valid_civil(),
    ensures
        r == sec_iso_year_of(value.spec_secs()),
{
    civil_iso_year(date_secs(value)) as i64
}

pub fn extract_week_Date(value: Date) -> (r: i64)
    requires
        value.valid_civil(),
    ensures
        r == sec_iso_week_of(value.spec_secs()),
{
    civil_iso_week(date_secs(value)) as i64
}

/// Day of the week with Sunday as day one.
pub fn extract_dow_Date(value: Date) -> (r: i64)
    ensures
        r == (value.days as int + 4) % 7 + 1,
{
    rem_euclid_i64(value.days as i64 + 4, 7) + 1
}

/// Day of the week with Monday as day one (ISO convention).
pub fn extract_isodow_Date(value: Date) -> (r: i64)
    ensures
        r == (value.days as int + 3) % 7 + 1,
{
    rem_euclid_i64(value.days as i64 + 3, 7) + 1
}

pub fn extract_doy_Date(value: Date) -> (r: i64)
    requires
        value.valid_civil(),
    ensures
        r == sec_ordinal_of(value.spec_secs()),
{
    civil_ordinal(date_secs(value)) as i64
}

/// Midnight of the date in epoch seconds.
pub fn extract_epoch_Date(value: Date) -> (r: i64)
    ensures
        r == value.days * 86400,
{
    (value.days as i64) * 86400
}

pub fn extract_second_Date(_value: Date) -> (r: i64)
    ensures
        r == 0,
{
    0
}

pub fn extract_minute_Date(_value: Date) -> (r: i64)
    ensures
        r == 0,
{
    0
}

pub fn extract_hour_Date(_value: Date) -> (r: i64)
    ensures
        r == 0,
{
    0
}

pub fn extract_millisecond_Date(_value: Date) -> (r: i64)
    ensures
        r == 0,
{
    0
}

pub fn extract_microsecond_Date(_value: Date) -> (r: i64)
    ensures
        r == 0,
{
    0
}

/// The calendar months elapsed between two dates at midnight, before the
/// sign is applied.
pub open spec fn date_months_between(lsecs: int, rsecs: int) -> int {
    let adjust = sec_month_of(lsecs) < sec_month_of(rsecs) || (sec_month_of(lsecs)
        == sec_month_of(rsecs) && sec_day_of(lsecs) < sec_day_of(rsecs));
    let years = sec_year_of(lsecs) - sec_year_of(rsecs) - (if adjust {
        1int
    } else {
        0int
    });
    let months = 12 * years + (if adjust {
        12 - (sec_month_of(rsecs) - sec_month_of(lsecs))
    } else {
        sec_month_of(lsecs) - sec_month_of(rsecs)
    });
    if sec_day_of(lsecs) < sec_day_of(rsecs) {
        months - 1
    } else {
        months
    }
}

/// Whole calendar months from `right` to `left`, by the month-counting
/// rule common to SQL engines: count from the earlier date to the later
/// and negate when `left` is the later one.
pub fn minus_Date_Date_LongInterval(left: Date, right: Date) -> (r: LongInterval)
    requires
        left.valid_civil(),
        right.valid_civil(),
    ensures
        left.days > right.days ==> r.months == date_months_between(
            left.spec_secs(),
            right.spec_secs(),
        ),
        left.days <= right.days ==> r.months == -date_months_between(
            right.spec_secs(),
            left.spec_secs(),
        ),
{
    let ld = date_secs(left);
    let rd = date_secs(right);
    let (beg, end, neg): (i64, i64, i64) = if left.days > right.days {
        (rd, ld, 1)
    } else {
        (ld, rd, -1)
    };
    let month_end = civil_month(end) as i64;
    let month_beg = civil_month(beg) as i64;
    let day_end = civil_day(end) as i64;
    let day_beg = civil_day(beg) as i64;
    let adjust = month_end < month_beg || (month_end == month_beg && day_end < day_beg);
    let mut years = civil_year(end) as i64 - civil_year(beg) as i64;
    if adjust {
        years = years - 1;
    }
    let mut months = 12 * years;
    if adjust {
        months = months + 12 - (month_beg - month_end);
    } else {
        months = months + month_end - month_beg;
    }
    if day_end < day_beg {
        months = months - 1;
    }
    proof {
        if left.days > right.days {
            assert(months as int == date_months_between(left.spec_secs(), right.spec_secs()));
        } else {
            assert(months as int == date_months_between(right.spec_secs(), left.spec_secs()));
        }
    }
    let signed = if neg == 1 {
        months
    } else {
        -months
    };
    LongInterval { months: signed as i32 }
}

/// Day difference packed into the month-counted interval type, matching
/// the coarse variant used for nullable operands.
pub fn minus_DateN_Date_LongIntervaNl(left: Option<Date>, right: Date) -> (r: Option<
    LongInterval,
>)
    requires
        left matches Some(l) ==> i32::MIN <= l.days - right.days <= i32::MAX,
    ensures
        left is None ==> r is None,
        left matches Some(l) ==> r matches Some(v) && v.months == l.days - right.days,
{
    match left {
        None => None,
        Some(l) => Some(LongInterval { months: l.days - right.days }),
    }
}

/// Symmetric nullable variant of the day-difference interval.
pub fn minus_Date_DateN_LongInterval(left: Date, right: Option<Date>) -> (r: Option<
    LongInterval,
>)
    requires
        right matches Some(x) ==> i32::MIN <= left.days - x.days <= i32::MAX,
    ensures
        right is None ==> r is None,
        right matches Some(x) ==> r matches Some(v) && v.months == left.days - x.days,
{
    match right {
        None => None,
        Some(x) => Some(LongInterval { months: left.days - x.days }),
    }
}

/// Nullable-on-both-sides variant of the day-difference interval.
pub fn minus_DateN_DateN_LongIntervalN(left: Option<Date>, right: Option<Date>) -> (r: Option<
    LongInterval,
>)
    requires
        left matches Some(l) ==> (right matches Some(x) ==> i32::MIN <= l.days - x.days
            <= i32::MAX),
    ensures
        left is None || right is None ==> r is None,
        left matches Some(l) ==> (right matches Some(x) ==> r matches Some(v) && v.months
            == l.days - x.days),
{
    match (left, right) {
        (None, _) => None,
        (_, None) => None,
        (Some(l), Some(x)) => Some(LongInterval { months: l.days - x.days }),
    }
}

pub fn minus_Date_Date_ShortInterval(left: Date, right: Date) -> (r: ShortInterval)
    ensures
        r.milliseconds == (left.days - right.days) * 86400000,
{
    let ld = left.days as i64;
    let rd = right.days as i64;
    ShortInterval { milliseconds: (ld - rd) * 86400 * 1000 }
}

pub fn minus_DateN_Date_ShortIntervalN(left: Option<Date>, right: Date) -> (r: Option<
    ShortInterval,
>)
    ensures
        left is None ==> r is None,
        left matches Some(l) ==> r matches Some(v) && v.milliseconds == (l.days - right.days)
            * 86400000,
{
    match left {
        None => None,
        Some(l) => Some(minus_Date_Date_ShortInterval(l, right)),
    }
}

pub fn minus_Date_DateN_ShortIntervalN(left: Date, right: Option<Date>) -> (r: Option<
    ShortInterval,
>)
    ensures
        right is None ==> r is None,
        right matches Some(x) ==> r matches Some(v) && v.milliseconds == (left.days - x.days)
            * 86400000,
{
    match right {
        None => None,
        Some(x) => Some(minus_Date_Date_ShortInterval(left, x)),
    }
}

pub fn minus_DateN_DateN_ShortIntervalN(left: Option<Date>, right: Option<Date>) -> (r: Option<
    ShortInterval,
>)
    ensures
        left is None || right is None ==> r is None,
        left matches Some(l) ==> (right matches Some(x) ==> r matches Some(v) && v.milliseconds
            == (l.days - x.days) * 86400000),
{
    match (left, right) {
        (None, _) => None,
        (_, None) => None,
        (Some(l), Some(x)) => Some(minus_Date_Date_ShortInterval(l, x)),
    }
}

pub fn datediff_day_Date_Date(left: Date, right: Date) -> (r: i32)
    requires
        i32::MIN <= left.days - right.days <= i32::MAX,
    ensures
        r == left.days - right.days,
{
    left.days - right.days
}

/// A time of day fits its day: fewer nanoseconds than a day holds.
pub open spec fn time_in_day(t: Time) -> bool {
    t.nanoseconds < 86_400_000_000_000
}

pub fn extract_millisecond_Time(value: Time) -> (r: i64)
    requires
        time_in_day(value),
    ensures
        r == (value.nanoseconds / 1_000_000_000) % 60 * 1000 + (value.nanoseconds
            % 1_000_000_000) / 1_000_000,
{
    let secs = value.nanoseconds / 1_000_000_000;
    ((secs % 60) * 1000 + (value.nanoseconds % 1_000_000_000) / 1_000_000) as i64
}

pub fn extract_microsecond_Time(value: Time) -> (r: i64)
    requires
        time_in_day(value),
    ensures
        r == (value.nanoseconds / 1_000_000_000) % 60 * 1_000_000 + (value.nanoseconds
            % 1_000_000_000) / 1000,
{
    let secs = value.nanoseconds / 1_000_000_000;
    ((secs % 60) * 1_000_000 + (value.nanoseconds % 1_000_000_000) / 1000) as i64
}

pub fn extract_second_Time(value: Time) -> (r: i64)
    requires
        time_in_day(value),
    ensures
        r == (value.nanoseconds / 1_000_000_000) % 60,
{
    ((value.nanoseconds / 1_000_000_000) % 60) as i64
}

pub fn extract_minute_Time(value: Time) -> (r: i64)
    requires
        time_in_day(value),
    ensures
        r == value.nanoseconds / 1_000_000_000 / 60 % 60,
{
    (value.nanoseconds / 1_000_000_000 / 60 % 60) as i64
}

pub fn extract_hour_Time(value: Time) -> (r: i64)
    requires
        time_in_day(value),
    ensures
        r == value.nanoseconds / 1_000_000_000 / 3600,
{
    (value.nanoseconds / 1_000_000_000 / 3600) as i64
}

/// A time of day from a count of microseconds from midnight.
pub fn time_from_micros(micros: u64) -> (r: Time)
    requires
        micros * 1000 <= u64::MAX,
    ensures
        r.nanoseconds == micros * 1000,
{
    Time { nanoseconds: micros * 1000 }
}

/// The microsecond count a time of day serializes to.
pub fn time_to_micros(t: Time) -> (r: u64)
    ensures
        r == t.nanoseconds / 1000,
{
    t.nanoseconds / 1000
}

/// Parse a date-time string under a format into a timestamp.
pub fn timestamp_from_string(s: &str, fmt: &str) -> (r: Option<Timestamp>)
    ensures
        (r is Some) == (crate::calendar::parsed_datetime_millis_of(s@, fmt@) is Some),
        r matches Some(t) ==> crate::calendar::parsed_datetime_millis_of(s@, fmt@) matches Some(
            ms,
        ) && t.milliseconds == ms,
{
    match crate::calendar::parse_datetime_millis(s, fmt) {
        None => None,
        Some(ms) => Some(Timestamp { milliseconds: ms }),
    }
}

/// Parse a date string under a format into a day count.
pub fn date_from_string(s: &str, fmt: &str) -> (r: Option<Date>)
    ensures
        (r is Some) == (crate::calendar::parsed_date_secs_of(s@, fmt@) is Some),
        r matches Some(d) ==> crate::calendar::parsed_date_secs_of(s@, fmt@) matches Some(sec)
            && d.days == trunc_div(sec as int, 86400),
{
    match crate::calendar::parse_date_secs(s, fmt) {
        None => None,
        Some(secs) => {
            proof {
                lemma_trunc_div_bound(secs as int, 86400, 9_000_000_000_000);
            }
            Some(Date { days: trunc_div_i64(secs, 86400) as i32 })
        },
    }
}

/// Parse a time-of-day string under a format into a nanosecond count.
pub fn time_from_string(s: &str, fmt: &str) -> (r: Option<Time>)
    ensures
        (r is Some) == (crate::calendar::parsed_time_of(s@, fmt@) is Some),
        r matches Some(t) ==> crate::calendar::parsed_time_of(s@, fmt@) matches Some(p)
            && t.nanoseconds == p.0 * 1_000_000_000 + p.1,
{
    match crate::calendar::parse_time_parts(s, fmt) {
        None => None,
        Some((secs, nano)) => Some(
            Time { nanoseconds: (secs as u64) * 1_000_000_000 + (nano as u64) },
        ),
    }
}

/// Render a timestamp under a format.  Mirroring the second/nanosecond
/// split of the serialization path, a negative timestamp with a
/// fractional second has no rendering.
pub fn timestamp_to_string(ts: Timestamp, fmt: &str) -> (r: Option<String>)
    ensures
        ts.milliseconds < 0 && trunc_rem(ts.milliseconds as int, 1000) != 0 ==> r is None,
        ts.milliseconds >= 0 || trunc_rem(ts.milliseconds as int, 1000) == 0 ==> {
            &&& (r is Some) == (crate::calendar::formatted_utc_of(
                trunc_div(ts.milliseconds as int, 1000),
                trunc_rem(ts.milliseconds as int, 1000) * 1_000_000,
                fmt@,
            ) is Some)
            &&& (r matches Some(v) ==> crate::calendar::formatted_utc_of(
                trunc_div(ts.milliseconds as int, 1000),
                trunc_rem(ts.milliseconds as int, 1000) * 1_000_000,
                fmt@,
            ) matches Some(w) && v@ == w)
        },
{
    let rem = trunc_rem_i64(ts.milliseconds, 1000);
    if ts.milliseconds < 0 && rem != 0 {
        return None;
    }
    let secs = trunc_div_i64(ts.milliseconds, 1000);
    proof {
        crate::calendar::lemma_trunc_rem_bound(ts.milliseconds as int, 1000);
    }
    crate::calendar::format_utc(secs, (rem * 1_000_000) as u32, fmt)
}

/// Render a date under a format.
pub fn date_to_string(date: Date, fmt: &str) -> (r: Option<String>)
    ensures
        (r is Some) == (crate::calendar::formatted_millis_of(date.days * 86400000, fmt@)
            is Some),
        r matches Some(v) ==> crate::calendar::formatted_millis_of(date.days * 86400000, fmt@)
            matches Some(w) && v@ == w,
{
    let ms = (date.days as i64) * 86400000;
    match crate::calendar::format_millis(ms, fmt) {
        None => None,
        Some(_) => Some(format_date__(fmt.to_owned(), date)),
    }
}

/// Render a date under a format string, on the promise that the
/// rendering exists; `date_to_string` checks that promise first.
pub fn format_date__(format: String, date: Date) -> (r: String)
    requires
        crate::calendar::formatted_millis_of(date.days * 86400000, format@) is Some,
    ensures
        crate::calendar::formatted_millis_of(date.days * 86400000, format@) matches Some(w)
            && r@ == w,
{
    let ms = (date.days as i64) * 86400000;
    crate::calendar::format_millis(ms, format.as_str()).unwrap()
}

/// Render a time of day under a format.
pub fn time_to_string(t: Time, fmt: &str) -> (r: Option<String>)
    requires
        time_in_day(t),
    ensures
        (r is Some) == (crate::calendar::formatted_time_of(
            t.nanoseconds as int / 1_000_000_000,
            t.nanoseconds as int % 1_000_000_000,
            fmt@,
        ) is Some),
        r matches Some(v) ==> crate::calendar::formatted_time_of(
            t.nanoseconds as int / 1_000_000_000,
            t.nanoseconds as int % 1_000_000_000,
            fmt@,
        ) matches Some(w) && v@ == w,
{
    let secs = (t.nanoseconds / 1_000_000_000) as u32;
    let nano = (t.nanoseconds % 1_000_000_000) as u32;
    crate::calendar::format_time(secs, nano, fmt)
}

} // verus!

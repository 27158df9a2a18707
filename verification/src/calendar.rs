//! Civil-calendar facts and the trusted boundary to the calendar
//! library.
//!
//! The scalar date/time functions of this crate work on plain epoch
//! values: milliseconds for timestamps, days for dates, nanoseconds of
//! the day for times.  Time-of-day and weekday arithmetic is plain
//! modular arithmetic and is verified here.  What only a calendar can
//! compute — the year, month and day a given moment falls in, ISO weeks,
//! parsing and formatting — goes through the trusted wrappers below, each
//! of which names its result so callers' contracts stay exact.

use chrono::{Datelike, TimeZone};
use core::fmt::Write;
use vstd::arithmetic::div_mod::{
    lemma_div_is_ordered, lemma_div_pos_is_pos, lemma_fundamental_div_mod,
    lemma_fundamental_div_mod_converse, lemma_mod_bound,
};
use vstd::prelude::*;

verus! {

/// Seconds that stay safely inside the calendar library's supported year
/// range (about 262,000 years on either side of the epoch; this bound is
/// roughly 253,000 years).
pub const MAX_CIVIL_SECS: i64 = 8_000_000_000_000;

/// Rust's truncating division (quotient rounded toward zero), stated over
/// the mathematical integers.
pub open spec fn trunc_div(a: int, b: int) -> int {
    let q = (if a >= 0 {
        a
    } else {
        -a
    }) / (if b >= 0 {
        b
    } else {
        -b
    });
    if (a >= 0) == (b >= 0) {
        q
    } else {
        -q
    }
}

/// Rust's truncating remainder (sign follows the dividend).
pub open spec fn trunc_rem(a: int, b: int) -> int {
    let m = (if a >= 0 {
        a
    } else {
        -a
    }) % (if b >= 0 {
        b
    } else {
        -b
    });
    if a >= 0 {
        m
    } else {
        -m
    }
}

/// Truncating division by a positive divisor.
pub fn trunc_div_i64(a: i64, b: i64) -> (q: i64)
    requires
        b > 0,
    ensures
        q == trunc_div(a as int, b as int),
{
    a.checked_div(b).unwrap()
}

/// Truncating remainder by a positive divisor.
pub fn trunc_rem_i64(a: i64, b: i64) -> (r: i64)
    requires
        b > 0,
    ensures
        r == trunc_rem(a as int, b as int),
{
    a.checked_rem(b).unwrap()
}

/// Truncating division and remainder satisfy the fundamental relation,
/// with the remainder following the dividend's sign.
proof fn lemma_trunc_relation(a: int, b: int)
    requires
        b > 0,
    ensures
        a == b * trunc_div(a, b) + trunc_rem(a, b),
        -b < trunc_rem(a, b) < b,
        a >= 0 ==> trunc_rem(a, b) >= 0,
        a < 0 ==> trunc_rem(a, b) <= 0,
{
    if a >= 0 {
        lemma_fundamental_div_mod(a, b);
        lemma_mod_bound(a, b);
    } else {
        lemma_fundamental_div_mod(-a, b);
        lemma_mod_bound(-a, b);
        let qq = (-a) / b;
        let rr = (-a) % b;
        assert(-a == b * qq + rr);
        assert(a == b * (-qq) + (-rr)) by (nonlinear_arith)
            requires
                -a == b * qq + rr,
        ;
        assert(trunc_div(a, b) == -qq);
        assert(trunc_rem(a, b) == -rr);
    }
}

/// Euclidean (floor) division by a positive divisor.
pub fn div_euclid_i64(a: i64, b: i64) -> (q: i64)
    requires
        b > 0,
    ensures
        q == a as int / b as int,
{
    let qt = a.checked_div(b).unwrap();
    let rt = a.checked_rem(b).unwrap();
    proof {
        assert(qt == trunc_div(a as int, b as int));
        assert(rt == trunc_rem(a as int, b as int));
        lemma_trunc_relation(a as int, b as int);
        assert(a as int == (qt as int) * (b as int) + rt as int) by (nonlinear_arith)
            requires
                a as int == (b as int) * (qt as int) + rt as int,
        ;
        if rt >= 0 {
            lemma_fundamental_div_mod_converse(a as int, b as int, qt as int, rt as int);
        } else {
            assert(qt > i64::MIN) by {
                if qt == i64::MIN {
                    assert(b * (qt as int) <= i64::MIN) by (nonlinear_arith)
                        requires
                            b >= 1,
                            qt == i64::MIN,
                    ;
                }
            }
            assert(a as int == (qt as int - 1) * (b as int) + (rt as int + b as int))
                by (nonlinear_arith)
                requires
                    a as int == (b as int) * (qt as int) + rt as int,
            ;
            lemma_fundamental_div_mod_converse(
                a as int,
                b as int,
                qt as int - 1,
                rt as int + b as int,
            );
        }
    }
    if rt < 0 {
        qt - 1
    } else {
        qt
    }
}

/// Euclidean remainder by a positive divisor.
pub fn rem_euclid_i64(a: i64, b: i64) -> (r: i64)
    requires
        b > 0,
    ensures
        r == a as int % b as int,
        0 <= r < b,
{
    let qt = a.checked_div(b).unwrap();
    let rt = a.checked_rem(b).unwrap();
    proof {
        assert(qt == trunc_div(a as int, b as int));
        assert(rt == trunc_rem(a as int, b as int));
        lemma_trunc_relation(a as int, b as int);
        assert(a as int == (qt as int) * (b as int) + rt as int) by (nonlinear_arith)
            requires
                a as int == (b as int) * (qt as int) + rt as int,
        ;
        if rt >= 0 {
            lemma_fundamental_div_mod_converse(a as int, b as int, qt as int, rt as int);
        } else {
            assert(a as int == (qt as int - 1) * (b as int) + (rt as int + b as int))
                by (nonlinear_arith)
                requires
                    a as int == (b as int) * (qt as int) + rt as int,
            ;
            lemma_fundamental_div_mod_converse(
                a as int,
                b as int,
                qt as int - 1,
                rt as int + b as int,
            );
        }
    }
    if rt < 0 {
        rt + b
    } else {
        rt
    }
}

/// The truncating remainder lies within one divisor of zero, on the
/// dividend's side.
pub proof fn lemma_trunc_rem_bound(a: int, b: int)
    requires
        b > 0,
    ensures
        a >= 0 ==> 0 <= trunc_rem(a, b) < b,
        a < 0 ==> -b < trunc_rem(a, b) <= 0,
{
    if a >= 0 {
        lemma_mod_bound(a, b);
    } else {
        lemma_mod_bound(-a, b);
    }
}

/// The truncating quotient is bounded by the bound of the dividend,
/// divided.
pub proof fn lemma_trunc_div_bound(a: int, b: int, m: int)
    requires
        b > 0,
        0 <= m,
        -m <= a <= m,
    ensures
        -(m / b) <= trunc_div(a, b) <= m / b,
{
    if a >= 0 {
        lemma_div_pos_is_pos(a, b);
        lemma_div_is_ordered(a, m, b);
        lemma_div_pos_is_pos(m, b);
    } else {
        lemma_div_pos_is_pos(-a, b);
        lemma_div_is_ordered(-a, m, b);
        lemma_div_pos_is_pos(m, b);
    }
}

/// Calendar year of the civil date `secs` seconds after the epoch.
pub uninterp spec fn sec_year_of(secs: int) -> int;

/// Calendar month (1 to 12) of that date.
pub uninterp spec fn sec_month_of(secs: int) -> int;

/// Day of the month (1 to 31) of that date.
pub uninterp spec fn sec_day_of(secs: int) -> int;

/// Day of the year (1 to 366) of that date.
pub uninterp spec fn sec_ordinal_of(secs: int) -> int;

/// ISO 8601 week-numbering year of that date.
pub uninterp spec fn sec_iso_year_of(secs: int) -> int;

/// ISO 8601 week number (1 to 53) of that date.
pub uninterp spec fn sec_iso_week_of(secs: int) -> int;

/// Relies on chrono's `TimeZone::timestamp_opt` and `Datelike::year`: the
/// calendar year of a moment, a function of the second alone; years stay
/// within chrono's documented range.
#[verifier::external_body]
pub fn civil_year(secs: i64) -> (r: i32)
    requires
        -MAX_CIVIL_SECS <= secs <= MAX_CIVIL_SECS,
    ensures
        r as int == sec_year_of(secs as int),
        -262143 <= r <= 262143,
{
    chrono::Utc.timestamp_opt(secs, 0).single().unwrap().year()
}

/// Relies on chrono's `Datelike::month`: the month of a moment, between
/// 1 and 12.
#[verifier::external_body]
pub fn civil_month(secs: i64) -> (r: u32)
    requires
        -MAX_CIVIL_SECS <= secs <= MAX_CIVIL_SECS,
    ensures
        r as int == sec_month_of(secs as int),
        1 <= r <= 12,
{
    chrono::Utc.timestamp_opt(secs, 0).single().unwrap().month()
}

/// Relies on chrono's `Datelike::day`: the day of the month, between 1
/// and 31.
#[verifier::external_body]
pub fn civil_day(secs: i64) -> (r: u32)
    requires
        -MAX_CIVIL_SECS <= secs <= MAX_CIVIL_SECS,
    ensures
        r as int == sec_day_of(secs as int),
        1 <= r <= 31,
{
    chrono::Utc.timestamp_opt(secs, 0).single().unwrap().day()
}

/// Relies on chrono's `Datelike::ordinal`: the day of the year, between
/// 1 and 366.
#[verifier::external_body]
pub fn civil_ordinal(secs: i64) -> (r: u32)
    requires
        -MAX_CIVIL_SECS <= secs <= MAX_CIVIL_SECS,
    ensures
        r as int == sec_ordinal_of(secs as int),
        1 <= r <= 366,
{
    chrono::Utc.timestamp_opt(secs, 0).single().unwrap().ordinal()
}

/// Relies on chrono's `Datelike::iso_week`: the ISO week-numbering year,
/// which can differ from the calendar year by one at year boundaries.
#[verifier::external_body]
pub fn civil_iso_year(secs: i64) -> (r: i32)
    requires
        -MAX_CIVIL_SECS <= secs <= MAX_CIVIL_SECS,
    ensures
        r as int == sec_iso_year_of(secs as int),
        -262144 <= r <= 262144,
{
    chrono::Utc.timestamp_opt(secs, 0).single().unwrap().iso_week().year()
}

/// Relies on chrono's `Datelike::iso_week`: the ISO week number, between
/// 1 and 53.
#[verifier::external_body]
pub fn civil_iso_week(secs: i64) -> (r: u32)
    requires
        -MAX_CIVIL_SECS <= secs <= MAX_CIVIL_SECS,
    ensures
        r as int == sec_iso_week_of(secs as int),
        1 <= r <= 53,
{
    chrono::Utc.timestamp_opt(secs, 0).single().unwrap().iso_week().week()
}

/// Epoch milliseconds parsed from a date-time string under a format, or
/// nothing when the string does not match the format.
pub uninterp spec fn parsed_datetime_millis_of(s: Seq<char>, fmt: Seq<char>) -> Option<i64>;

/// Relies on std's `str::trim` and chrono's
/// `NaiveDateTime::parse_from_str`, `NaiveDateTime::and_utc` and
/// `DateTime::timestamp_millis`: the parse of the trimmed date-time
/// string, a function of the string and format alone.
#[verifier::external_body]
pub fn parse_datetime_millis(s: &str, fmt: &str) -> (r: Option<i64>)
    ensures
        r == parsed_datetime_millis_of(s@, fmt@),
{
    match chrono::NaiveDateTime::parse_from_str(s.trim(), fmt) {
        Ok(dt) => Some(dt.and_utc().timestamp_millis()),
        Err(_) => None,
    }
}

/// Epoch seconds of midnight of a date parsed from a string under a
/// format, or nothing when the string does not match the format.
pub uninterp spec fn parsed_date_secs_of(s: Seq<char>, fmt: Seq<char>) -> Option<i64>;

/// Relies on std's `str::trim` and chrono's `NaiveDate::parse_from_str`,
/// `NaiveDate::and_time` and `DateTime::timestamp`: midnight of the
/// parsed (trimmed) date in epoch seconds; the result stays within
/// chrono's documented date range.
#[verifier::external_body]
pub fn parse_date_secs(s: &str, fmt: &str) -> (r: Option<i64>)
    ensures
        r == parsed_date_secs_of(s@, fmt@),
        r matches Some(v) ==> -9_000_000_000_000 <= v <= 9_000_000_000_000,
{
    match chrono::NaiveDate::parse_from_str(s.trim(), fmt) {
        Ok(d) => Some(d.and_time(chrono::NaiveTime::default()).and_utc().timestamp()),
        Err(_) => None,
    }
}

/// Seconds from midnight and nanosecond of a time-of-day parsed from a
/// string under a format.
pub uninterp spec fn parsed_time_of(s: Seq<char>, fmt: Seq<char>) -> Option<(u32, u32)>;

/// Relies on std's `str::trim` and chrono's `NaiveTime::parse_from_str`,
/// `Timelike::num_seconds_from_midnight` and `Timelike::nanosecond`: the
/// seconds (below 86,400) and nanosecond (below 2,000,000,000, to leave
/// room for leap seconds) of the parsed (trimmed) time of day.
#[verifier::external_body]
pub fn parse_time_parts(s: &str, fmt: &str) -> (r: Option<(u32, u32)>)
    ensures
        r == parsed_time_of(s@, fmt@),
        r matches Some(p) ==> p.0 < 86400 && p.1 < 2_000_000_000,
{
    match chrono::NaiveTime::parse_from_str(s.trim(), fmt) {
        Ok(t) => Some((chrono::Timelike::num_seconds_from_midnight(&t), chrono::Timelike::nanosecond(&t))),
        Err(_) => None,
    }
}

/// The rendering of the moment `(secs, nanos)` under a format, or
/// nothing when the moment is out of range or the format is invalid.
pub uninterp spec fn formatted_utc_of(secs: int, nanos: int, fmt: Seq<char>) -> Option<Seq<char>>;

/// Relies on chrono's `DateTime::from_timestamp` and
/// `DateTime::format`: renders a moment under a format; out-of-range
/// moments (including a nanosecond of two billion or more) and invalid
/// formats yield nothing rather than a panic.
#[verifier::external_body]
pub fn format_utc(secs: i64, nanos: u32, fmt: &str) -> (r: Option<String>)
    ensures
        (r is Some) == (formatted_utc_of(secs as int, nanos as int, fmt@) is Some),
        r matches Some(v) ==> formatted_utc_of(secs as int, nanos as int, fmt@) matches Some(w)
            && v@ == w,
        nanos >= 2_000_000_000 ==> r is None,
{
    match chrono::DateTime::<chrono::Utc>::from_timestamp(secs, nanos) {
        None => None,
        Some(dt) => {
            let mut out = String::new();
            match write!(out, "{}", dt.format(fmt)) {
                Ok(_) => Some(out),
                Err(_) => None,
            }
        },
    }
}

/// The rendering of the moment `millis` under a format.
pub uninterp spec fn formatted_millis_of(millis: int, fmt: Seq<char>) -> Option<Seq<char>>;

/// Relies on chrono's `DateTime::from_timestamp_millis` and
/// `DateTime::format`: renders an epoch-millisecond moment under a
/// format; out-of-range moments and invalid formats yield nothing.
#[verifier::external_body]
pub fn format_millis(millis: i64, fmt: &str) -> (r: Option<String>)
    ensures
        (r is Some) == (formatted_millis_of(millis as int, fmt@) is Some),
        r matches Some(v) ==> formatted_millis_of(millis as int, fmt@) matches Some(w) && v@
            == w,
{
    match chrono::DateTime::<chrono::Utc>::from_timestamp_millis(millis) {
        None => None,
        Some(dt) => {
            let mut out = String::new();
            match write!(out, "{}", dt.format(fmt)) {
                Ok(_) => Some(out),
                Err(_) => None,
            }
        },
    }
}

/// The rendering of the time of day `(secs, nano)` under a format.
pub uninterp spec fn formatted_time_of(secs: int, nano: int, fmt: Seq<char>) -> Option<Seq<char>>;

/// Relies on chrono's `NaiveTime::from_num_seconds_from_midnight_opt`
/// and `NaiveTime::format`: renders a time of day under a format;
/// invalid times and formats yield nothing.
#[verifier::external_body]
pub fn format_time(secs: u32, nano: u32, fmt: &str) -> (r: Option<String>)
    ensures
        (r is Some) == (formatted_time_of(secs as int, nano as int, fmt@) is Some),
        r matches Some(v) ==> formatted_time_of(secs as int, nano as int, fmt@) matches Some(w)
            && v@ == w,
{
    match chrono::NaiveTime::from_num_seconds_from_midnight_opt(secs, nano) {
        None => None,
        Some(t) => {
            let mut out = String::new();
            match write!(out, "{}", t.format(fmt)) {
                Ok(_) => Some(out),
                Err(_) => None,
            }
        },
    }
}

} // verus!

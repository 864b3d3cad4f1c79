//! Dates and times: the calendar date of a UNIX timestamp and its HTTP date text.

use vstd::prelude::*;
use vstd::arithmetic::div_mod::lemma_fundamental_div_mod_converse;

use std::time::Duration;

use crate::text::{decimal, decimal2, digit_char, push_decimal, push_decimal2, string_push, string_push_str};

verus! {

/// A date and time (UTC).
#[derive(Clone, Copy, Debug, PartialEq, Eq, Structural)]
pub struct DateTime {
    /// The UNIX timestamp of the date.
    pub timestamp: i64,
    /// The year of the date.
    pub year: u16,
    /// The month of the date, from 0 (January) to 11 (December).
    pub month: u8,
    /// The day of the month of the date, from 1.
    pub day: u8,
    /// The weekday of the date, from 0 (Sunday) to 6 (Saturday).
    pub weekday: u8,
    /// The hour of the date.
    pub hour: u8,
    /// The minute of the date.
    pub minute: u8,
    /// The second of the date.
    pub second: u8,
}

/// The seconds from the UNIX epoch to 1 March 2000.
pub const MARCH_01_2000: i64 = 951868800;

/// Whether a year of the Gregorian calendar is a leap year.
pub open spec fn is_leap_year(y: int) -> bool {
    y % 4 == 0 && (y % 100 != 0 || y % 400 == 0)
}

/// The number of days in a month (0 for January) of a year.
pub open spec fn days_in_month(y: int, m: int) -> int {
    if m == 1 {
        if is_leap_year(y) {
            29
        } else {
            28
        }
    } else if m == 3 || m == 5 || m == 8 || m == 10 {
        30
    } else {
        31
    }
}

/// The number of leap years from year 1 to year `y`, extended to all integers so that
/// consecutive values differ by one exactly at leap years.
pub open spec fn leap_years_through(y: int) -> int {
    y / 4 - y / 100 + y / 400
}

/// The days from 1 January 1970 to 1 January of year `y` (negative before 1970).
pub open spec fn days_before_year(y: int) -> int {
    365 * (y - 1970) + leap_years_through(y - 1) - leap_years_through(1969)
}

/// The days from 1 January of year `y` to the first of month `m` (0 for January).
pub open spec fn days_before_month(y: int, m: int) -> int {
    let before: int = if m == 0 {
        0
    } else if m == 1 {
        31
    } else if m == 2 {
        59
    } else if m == 3 {
        90
    } else if m == 4 {
        120
    } else if m == 5 {
        151
    } else if m == 6 {
        181
    } else if m == 7 {
        212
    } else if m == 8 {
        243
    } else if m == 9 {
        273
    } else if m == 10 {
        304
    } else {
        334
    };
    before + if m >= 2 && is_leap_year(y) {
        1int
    } else {
        0int
    }
}

/// The days from 1 January 1970 to the given day (day 1 is the first of the month).
pub open spec fn day_number(y: int, m: int, d: int) -> int {
    days_before_year(y) + days_before_month(y, m) + d - 1
}

/// Whether `dt` is the date and time of the UNIX timestamp `ts` in year `y` of the
/// Gregorian calendar (the `year` field holds `y` truncated to 16 bits): the month, day,
/// hour, minute and second are in range, the timestamp is that many seconds after the
/// epoch, and the weekday counts from Thursday, 1 January 1970.
pub open spec fn is_date_time_of(dt: DateTime, ts: int, y: int) -> bool {
    &&& dt.timestamp == ts
    &&& dt.year == y as u16
    &&& dt.month < 12
    &&& 1 <= dt.day <= days_in_month(y, dt.month as int)
    &&& dt.hour < 24
    &&& dt.minute < 60
    &&& dt.second < 60
    &&& ts == 86400 * day_number(y, dt.month as int, dt.day as int) + 3600 * dt.hour + 60 * dt.minute
        + dt.second
    &&& dt.weekday as int == (day_number(y, dt.month as int, dt.day as int) + 4) % 7
}

/// A year is one day longer than 365 days exactly when it is a leap year.
pub proof fn lemma_days_before_year_step(y: int)
    ensures
        days_before_year(y + 1) - days_before_year(y) == if is_leap_year(y) {
            366int
        } else {
            365int
        },
{
    lemma_leap_step(y);
}

proof fn lemma_div_step(y: int, n: int)
    requires
        n > 0,
    ensures
        y / n - (y - 1) / n == if y % n == 0 {
            1int
        } else {
            0int
        },
{
    let q = y / n;
    let r = y % n;
    vstd::arithmetic::div_mod::lemma_fundamental_div_mod(y, n);
    vstd::arithmetic::div_mod::lemma_mod_bound(y, n);
    assert(y == n * q + r);
    if r == 0 {
        assert(y - 1 == (q - 1) * n + (n - 1)) by (nonlinear_arith)
            requires
                y == n * q,
        ;
        lemma_fundamental_div_mod_converse(y - 1, n, q - 1, n - 1);
    } else {
        assert(y - 1 == q * n + (r - 1)) by (nonlinear_arith)
            requires
                y == n * q + r,
        ;
        lemma_fundamental_div_mod_converse(y - 1, n, q, r - 1);
    }
}

proof fn lemma_leap_step(y: int)
    ensures
        leap_years_through(y) - leap_years_through(y - 1) == if is_leap_year(y) {
            1int
        } else {
            0int
        },
{
    lemma_div_step(y, 4);
    lemma_div_step(y, 100);
    lemma_div_step(y, 400);
    if y % 100 == 0 {
        assert(y % 4 == 0) by {
            let q = y / 100;
            vstd::arithmetic::div_mod::lemma_fundamental_div_mod(y, 100);
            lemma_fundamental_div_mod_converse(y, 4, 25 * q, 0);
        }
    }
    if y % 400 == 0 {
        assert(y % 100 == 0) by {
            let q = y / 400;
            vstd::arithmetic::div_mod::lemma_fundamental_div_mod(y, 400);
            lemma_fundamental_div_mod_converse(y, 100, 4 * q, 0);
        }
    }
}

/// The days before the first of month `mi` of a year that starts in March (0 for March).
pub open spec fn days_before_march_month(mi: int) -> int {
    if mi == 0 {
        0int
    } else if mi == 1 {
        31
    } else if mi == 2 {
        61
    } else if mi == 3 {
        92
    } else if mi == 4 {
        122
    } else if mi == 5 {
        153
    } else if mi == 6 {
        184
    } else if mi == 7 {
        214
    } else if mi == 8 {
        245
    } else if mi == 9 {
        275
    } else if mi == 10 {
        306
    } else {
        337
    }
}

/// The length of month `mi` of a year that starts in March, with February taken as 29 days.
fn march_month_length(mi: usize) -> (r: i64)
    requires
        mi < 12,
    ensures
        mi < 11 ==> r == days_before_march_month(mi + 1) - days_before_march_month(mi as int),
        mi == 11 ==> r == 29,
{
    match mi {
        0 => 31,
        1 => 30,
        2 => 31,
        3 => 30,
        4 => 31,
        5 => 31,
        6 => 30,
        7 => 31,
        8 => 30,
        9 => 31,
        10 => 31,
        _ => 29,
    }
}

proof fn lemma_cycles(a: int, b: int, c: int, d: int)
    requires
        0 <= b <= 3,
        0 <= c <= 24,
        0 <= d <= 3,
    ensures
        leap_years_through(2000 + 400 * a + 100 * b + 4 * c + d) - leap_years_through(2000) == 97 * a
            + 24 * b + c,
{
    let ym = 2000 + 400 * a + 100 * b + 4 * c + d;
    lemma_fundamental_div_mod_converse(ym, 4, 500 + 100 * a + 25 * b + c, d);
    lemma_fundamental_div_mod_converse(ym, 100, 20 + 4 * a + b, 4 * c + d);
    lemma_fundamental_div_mod_converse(ym, 400, 5 + a, 100 * b + 4 * c + d);
    lemma_fundamental_div_mod_converse(2000, 4, 500, 0);
    lemma_fundamental_div_mod_converse(2000, 100, 20, 0);
    lemma_fundamental_div_mod_converse(2000, 400, 5, 0);
}

/// The day number of day `day` of month `mi` of the March-based year `ym`.
proof fn lemma_march_to_calendar(ym: int, mi: int, day: int)
    requires
        0 <= mi < 12,
    ensures
        ({
            let y = if mi <= 9 {
                ym
            } else {
                ym + 1
            };
            let m = if mi <= 9 {
                mi + 2
            } else {
                mi - 10
            };
            day_number(y, m, day) == 365 * (ym - 2000) + leap_years_through(ym) - leap_years_through(
                2000,
            ) + days_before_march_month(mi) + day - 1 + 11017
        }),
{
    lemma_leap_step(ym);
    lemma_fundamental_div_mod_converse(1969, 4, 492, 1);
    lemma_fundamental_div_mod_converse(1969, 100, 19, 69);
    lemma_fundamental_div_mod_converse(1969, 400, 4, 369);
    lemma_fundamental_div_mod_converse(2000, 4, 500, 0);
    lemma_fundamental_div_mod_converse(2000, 100, 20, 0);
    lemma_fundamental_div_mod_converse(2000, 400, 5, 0);
}

/// The year that ends in February of March-based year `ym` is a leap year when the
/// 400-, 100- and 4-year cycles give a 366th day.
proof fn lemma_leap_end(a: int, b: int, c: int)
    requires
        0 <= b <= 3,
        0 <= c <= 24,
        c < 24 || b == 3,
    ensures
        is_leap_year(2000 + 400 * a + 100 * b + 4 * c + 3 + 1),
{
    let y = 2000 + 400 * a + 100 * b + 4 * c + 4;
    lemma_fundamental_div_mod_converse(y, 4, 500 + 100 * a + 25 * b + c + 1, 0);
    if c < 24 {
        lemma_fundamental_div_mod_converse(y, 100, 20 + 4 * a + b, 4 * c + 4);
    } else {
        lemma_fundamental_div_mod_converse(y, 400, 6 + a, 0);
    }
}

/// Splits the days into a 400-year cycle, counted from 1 March 2000, into whole 100-year
/// cycles, 4-year cycles and years, and the day of the year.
fn split_cycle(r400: i64) -> (r: (i64, i64, i64, i64))
    requires
        0 <= r400 < 146097,
    ensures
        0 <= r.0 <= 3,
        0 <= r.1 <= 24,
        0 <= r.2 <= 3,
        0 <= r.3 < 366,
        r400 == 36524 * r.0 + 1461 * r.1 + 365 * r.2 + r.3,
        r.3 == 365 ==> r.2 == 3 && (r.1 < 24 || r.0 == 3),
{
    let mut remaining_days = r400;
    let mut y100_cycles: i64 = remaining_days / 36524;
    if y100_cycles == 4 {
        y100_cycles -= 1;
    }
    remaining_days -= y100_cycles * 36524;
    assert(0 <= y100_cycles <= 3 && 0 <= remaining_days <= 36524);
    assert(remaining_days == 36524 ==> y100_cycles == 3);
    let mut y4_cycles: i64 = remaining_days / 1461;
    if y4_cycles == 25 {
        y4_cycles -= 1;
    }
    let ghost r100 = remaining_days;
    remaining_days -= y4_cycles * 1461;
    assert(0 <= y4_cycles <= 24 && 0 <= remaining_days < 1461);
    assert(remaining_days == 1460 && y4_cycles == 24 ==> r100 == 36524);
    let mut remaining_years: i64 = remaining_days / 365;
    if remaining_years == 4 {
        remaining_years -= 1;
    }
    let ghost r4 = remaining_days;
    remaining_days -= remaining_years * 365;
    assert(0 <= remaining_years <= 3 && 0 <= remaining_days < 366);
    assert(remaining_days == 365 ==> r4 == 1460 && remaining_years == 3);
    (y100_cycles, y4_cycles, remaining_years, remaining_days)
}

/// Finds the month (0 for March) and the day of the month of a day of a year that starts
/// in March.
fn month_of_march_year(year_days: i64) -> (r: (usize, i64))
    requires
        0 <= year_days < 366,
    ensures
        r.0 < 12,
        1 <= r.1,
        year_days == days_before_march_month(r.0 as int) + r.1 - 1,
        r.0 < 11 ==> r.1 <= days_before_march_month(r.0 + 1) - days_before_march_month(r.0 as int),
        r.0 == 11 ==> r.1 <= 29,
{
    let mut remaining_days = year_days;
    let mut months: usize = 0;
    while march_month_length(months) <= remaining_days
        invariant
            months < 12,
            0 <= remaining_days < 366,
            remaining_days == year_days - days_before_march_month(months as int),
            0 <= year_days < 366,
        decreases 12 - months,
    {
        remaining_days -= march_month_length(months);
        months += 1;
    }
    (months, remaining_days + 1)
}

/// The date of the day `days` after 1 March 2000, where the cycles and the day of the
/// year are as `split_cycle` gives them.
proof fn lemma_date_of_days(
    days: int,
    a: int,
    b: int,
    c: int,
    d: int,
    year_days: int,
    mi: int,
    day: int,
)
    requires
        0 <= b <= 3,
        0 <= c <= 24,
        0 <= d <= 3,
        0 <= year_days < 366,
        year_days == 365 ==> d == 3 && (c < 24 || b == 3),
        days == 146097 * a + 36524 * b + 1461 * c + 365 * d + year_days,
        0 <= mi < 12,
        1 <= day,
        year_days == days_before_march_month(mi) + day - 1,
        mi < 11 ==> day <= days_before_march_month(mi + 1) - days_before_march_month(mi),
        mi == 11 ==> day <= 29,
    ensures
        ({
            let ym = 2000 + 400 * a + 100 * b + 4 * c + d;
            let y = if mi <= 9 {
                ym
            } else {
                ym + 1
            };
            let m = if mi <= 9 {
                mi + 2
            } else {
                mi - 10
            };
            &&& day_number(y, m, day) == days + 11017
            &&& 0 <= m < 12
            &&& day <= days_in_month(y, m)
        }),
{
    let ym = 2000 + 400 * a + 100 * b + 4 * c + d;
    lemma_cycles(a, b, c, d);
    lemma_march_to_calendar(ym, mi, day);
    if mi == 11 && day == 29 {
        lemma_leap_end(a, b, c);
    }
}

impl DateTime {
    /// Converts a UNIX timestamp into a date and time.
    pub fn from_timestamp(timestamp: i64) -> (r: DateTime)
        requires
            timestamp >= i64::MIN + MARCH_01_2000,
        ensures
            exists|y: int| is_date_time_of(r, timestamp as int, y),
    {
        let seconds: i64 = timestamp - MARCH_01_2000;
        let days: i64 = match seconds.checked_div_euclid(86400) {
            Some(d) => d,
            None => 0,
        };
        let remaining_seconds: i64 = match seconds.checked_rem_euclid(86400) {
            Some(s) => s,
            None => 0,
        };
        proof {
            vstd::arithmetic::div_mod::lemma_fundamental_div_mod(seconds as int, 86400);
            vstd::arithmetic::div_mod::lemma_mod_bound(seconds as int, 86400);
        }
        assert(seconds == 86400 * days + remaining_seconds && 0 <= remaining_seconds < 86400);
        let weekday: i64 = match (days + 3).checked_rem_euclid(7) {
            Some(w) => w,
            None => 0,
        };
        proof {
            vstd::arithmetic::div_mod::lemma_fundamental_div_mod(days as int + 3, 7);
            vstd::arithmetic::div_mod::lemma_mod_bound(days as int + 3, 7);
        }
        let y400_cycles: i64 = match days.checked_div_euclid(146097) {
            Some(c) => c,
            None => 0,
        };
        let r400: i64 = match days.checked_rem_euclid(146097) {
            Some(r) => r,
            None => 0,
        };
        proof {
            vstd::arithmetic::div_mod::lemma_fundamental_div_mod(days as int, 146097);
            vstd::arithmetic::div_mod::lemma_mod_bound(days as int, 146097);
        }
        assert(days == 146097 * y400_cycles + r400 && 0 <= r400 < 146097);
        let (y100_cycles, y4_cycles, remaining_years, year_days) = split_cycle(r400);
        let mut year: i64 = (remaining_years + 4 * y4_cycles + 100 * y100_cycles + 400 * y400_cycles)
            + 2000;
        let (months, day) = month_of_march_year(year_days);
        let mut month: usize = months + 2;
        if month >= 12 {
            month -= 12;
            year += 1;
        }
        let hour = remaining_seconds / 3600;
        let minute = remaining_seconds / 60 % 60;
        let second = remaining_seconds % 60;
        let r = DateTime {
            timestamp,
            year: year as u16,
            month: month as u8,
            day: day as u8,
            weekday: weekday as u8,
            hour: hour as u8,
            minute: minute as u8,
            second: second as u8,
        };
        proof {
            lemma_date_of_days(
                days as int,
                y400_cycles as int,
                y100_cycles as int,
                y4_cycles as int,
                remaining_years as int,
                year_days as int,
                months as int,
                day as int,
            );
            let dn = day_number(year as int, month as int, day as int);
            assert(dn == days + 11017);
            assert(remaining_seconds == 3600 * hour + 60 * minute + second);
            lemma_fundamental_div_mod_converse(dn + 4, 7, (days + 3) / 7 + 1574, weekday as int);
            assert(is_date_time_of(r, timestamp as int, year as int));
        }
        r
    }

    /// The date and time now, from the system clock; the UNIX epoch when the clock gives
    /// no usable time.
    pub fn now() -> (r: DateTime)
        ensures
            r.timestamp >= 0,
            exists|y: int| is_date_time_of(r, r.timestamp as int, y),
    {
        let secs: u64 = match time_since_epoch() {
            Some(d) => duration_as_secs(&d),
            None => 0,
        };
        let timestamp: i64 = if secs <= i64::MAX as u64 {
            secs as i64
        } else {
            0
        };
        DateTime::from_timestamp(timestamp)
    }

    /// Returns the UNIX timestamp of the date.
    pub fn get_timestamp(&self) -> (r: i64)
        ensures
            r == self.timestamp,
    {
        self.timestamp
    }
}

/// The time elapsed since the UNIX epoch by the system clock; `None` when the clock is set
/// before the epoch.
///
/// Wraps `SystemTime::elapsed` on `UNIX_EPOCH`, which fails exactly when the clock is
/// earlier than the epoch; nothing is stated of the value, which depends on the clock.
#[verifier::external_body]
fn time_since_epoch() -> Option<Duration> {
    std::time::UNIX_EPOCH.elapsed().ok()
}

/// The number of whole seconds in a duration, as `Duration::as_secs` gives it.
pub uninterp spec fn duration_whole_secs(d: Duration) -> u64;

/// The number of whole seconds in a duration.
///
/// Wraps `Duration::as_secs`, which reads the whole seconds that the duration holds and
/// depends on the duration alone; `Duration` is opaque here, so the result is only named
/// (`duration_whole_secs`), not computed.
#[verifier::external_body]
pub(crate) fn duration_as_secs(d: &Duration) -> (r: u64)
    ensures
        r == duration_whole_secs(*d),
{
    d.as_secs()
}

} // verus!
verus! {

/// The abbreviated name of a weekday (0 for Sunday).
pub open spec fn weekday_name(d: int) -> Seq<char> {
    if d == 0 {
        "Sun"@
    } else if d == 1 {
        "Mon"@
    } else if d == 2 {
        "Tue"@
    } else if d == 3 {
        "Wed"@
    } else if d == 4 {
        "Thu"@
    } else if d == 5 {
        "Fri"@
    } else {
        "Sat"@
    }
}

/// The abbreviated name of a month (0 for January).
pub open spec fn month_name(m: int) -> Seq<char> {
    if m == 0 {
        "Jan"@
    } else if m == 1 {
        "Feb"@
    } else if m == 2 {
        "Mar"@
    } else if m == 3 {
        "Apr"@
    } else if m == 4 {
        "May"@
    } else if m == 5 {
        "Jun"@
    } else if m == 6 {
        "Jul"@
    } else if m == 7 {
        "Aug"@
    } else if m == 8 {
        "Sep"@
    } else if m == 9 {
        "Oct"@
    } else if m == 10 {
        "Nov"@
    } else {
        "Dec"@
    }
}

/// The HTTP date text of a date, e.g. `Thu, 01 Jan 1970 00:00:00 GMT`.
pub open spec fn http_date_text(dt: DateTime) -> Seq<char> {
    weekday_name(dt.weekday as int) + ", "@ + decimal2(dt.day as nat) + seq![' '] + month_name(
        dt.month as int,
    ) + seq![' '] + decimal(dt.year as nat) + seq![' '] + decimal2(dt.hour as nat) + seq![':']
        + decimal2(dt.minute as nat) + seq![':'] + decimal2(dt.second as nat) + " GMT"@
}

fn weekday_str(d: u8) -> (r: &'static str)
    requires
        d < 7,
    ensures
        r@ == weekday_name(d as int),
{
    match d {
        0 => "Sun",
        1 => "Mon",
        2 => "Tue",
        3 => "Wed",
        4 => "Thu",
        5 => "Fri",
        _ => "Sat",
    }
}

fn month_str(m: u8) -> (r: &'static str)
    requires
        m < 12,
    ensures
        r@ == month_name(m as int),
{
    match m {
        0 => "Jan",
        1 => "Feb",
        2 => "Mar",
        3 => "Apr",
        4 => "May",
        5 => "Jun",
        6 => "Jul",
        7 => "Aug",
        8 => "Sep",
        9 => "Oct",
        10 => "Nov",
        _ => "Dec",
    }
}

impl DateTime {
    /// The date as an HTTP date, e.g. `Thu, 01 Jan 1970 00:00:00 GMT`.
    pub fn to_string(&self) -> (r: String)
        requires
            self.weekday < 7,
            self.month < 12,
        ensures
            r@ == http_date_text(*self),
    {
        let mut s = String::new();
        string_push_str(&mut s, weekday_str(self.weekday));
        string_push_str(&mut s, ", ");
        push_decimal2(&mut s, self.day as u64);
        string_push(&mut s, ' ');
        string_push_str(&mut s, month_str(self.month));
        string_push(&mut s, ' ');
        push_decimal(&mut s, self.year as u64);
        string_push(&mut s, ' ');
        push_decimal2(&mut s, self.hour as u64);
        string_push(&mut s, ':');
        push_decimal2(&mut s, self.minute as u64);
        string_push(&mut s, ':');
        push_decimal2(&mut s, self.second as u64);
        string_push_str(&mut s, " GMT");
        assert(s@ =~= http_date_text(*self));
        s
    }
}

} // verus!
verus! {

/// The HTTP date of a timestamp names the weekday counted from Thursday, 1 January 1970:
/// the text starts with the `(t / 86400) % 7`-th of `Thu`, `Fri`, `Sat`, `Sun`, `Mon`,
/// `Tue`, `Wed` for the whole days `t / 86400` since the epoch (rounded down).
pub proof fn lemma_http_date_weekday(dt: DateTime, ts: int, y: int)
    requires
        is_date_time_of(dt, ts, y),
    ensures
        http_date_text(dt).take(3) == seq!["Thu"@, "Fri"@, "Sat"@, "Sun"@, "Mon"@, "Tue"@, "Wed"@][(
        ts / 86400) % 7],
{
    let dn = day_number(y, dt.month as int, dt.day as int);
    let rest = 3600 * dt.hour + 60 * dt.minute + dt.second;
    assert(0 <= rest < 86400);
    lemma_fundamental_div_mod_converse(ts, 86400, dn, rest as int);
    assert(ts / 86400 == dn);
    let k = dn % 7;
    lemma_fundamental_div_mod_converse(dn + 4, 7, if k < 3 { dn / 7 } else { dn / 7 + 1 }, (k + 4)
        % 7);
    assert(dt.weekday as int == (k + 4) % 7);
    reveal_strlit("Sun");
    reveal_strlit("Mon");
    reveal_strlit("Tue");
    reveal_strlit("Wed");
    reveal_strlit("Thu");
    reveal_strlit("Fri");
    reveal_strlit("Sat");
    reveal_strlit(", ");
    let w = weekday_name(dt.weekday as int);
    assert(w.len() == 3);
    assert(http_date_text(dt).take(3) =~= w);
}

/// The HTTP date names the month that the date falls in by its English abbreviation:
/// after the weekday, `, ` and the two-digit day and a space come the three letters of
/// the `m`-th of `Jan` to `Dec` for the month `m` (0 for January).
pub proof fn lemma_http_date_month(dt: DateTime)
    requires
        1 <= dt.day <= 31,
        dt.month < 12,
        dt.weekday < 7,
    ensures
        http_date_text(dt).subrange(8, 11) == seq![
            "Jan"@,
            "Feb"@,
            "Mar"@,
            "Apr"@,
            "May"@,
            "Jun"@,
            "Jul"@,
            "Aug"@,
            "Sep"@,
            "Oct"@,
            "Nov"@,
            "Dec"@,
        ][dt.month as int],
{
    reveal_strlit("Sun");
    reveal_strlit("Mon");
    reveal_strlit("Tue");
    reveal_strlit("Wed");
    reveal_strlit("Thu");
    reveal_strlit("Fri");
    reveal_strlit("Sat");
    reveal_strlit(", ");
    reveal_strlit("Jan");
    reveal_strlit("Feb");
    reveal_strlit("Mar");
    reveal_strlit("Apr");
    reveal_strlit("May");
    reveal_strlit("Jun");
    reveal_strlit("Jul");
    reveal_strlit("Aug");
    reveal_strlit("Sep");
    reveal_strlit("Oct");
    reveal_strlit("Nov");
    reveal_strlit("Dec");
    let d = dt.day as nat;
    if d >= 10 {
        assert(decimal(d / 10) == seq![digit_char(d / 10)]);
        assert(decimal(d).len() == 2);
    }
    assert(decimal2(d).len() == 2);
    let w = weekday_name(dt.weekday as int);
    let m = month_name(dt.month as int);
    assert(w.len() == 3 && m.len() == 3);
    let t = http_date_text(dt);
    let p = w + ", "@ + decimal2(d) + seq![' '];
    assert(p.len() == 8);
    assert(t.subrange(8, 11) =~= m);
}

} // verus!

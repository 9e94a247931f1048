//! A calendar date picker: day, week, month and year moves over the
//! proleptic Gregorian calendar, and the six-week grid around a month.

use vstd::prelude::*;
use vstd::view::View as _;

use crate::bang_core::event::{Event, Key, KeyEvent, Modifiers};
use crate::bang_core::ids::{ViewId, WidgetId};
use crate::bang_core::render::{CalendarDay, CalendarView, CalendarWeek, ListPresentation, Role, Span, View, ViewContext};
use crate::bang_core::value::{days_in_month, days_in_month_spec, is_leap_year_spec, valid_date, Date, Value, ValueModel};
use crate::bang_core::widget::{Context, Reaction, Widget};
use crate::text::{decimal, push_char, push_signed_decimal, push_str, IntoText};

verus! {

/// Floor division by a positive divisor.
pub open spec fn floor_div(n: int, d: int) -> int {
    n / d
}

/// The number of days from 1970-01-01 to a date of the proleptic
/// Gregorian calendar.
pub open spec fn days_from_civil(year: int, month: int, day: int) -> int {
    let y = if month <= 2 {
        year - 1
    } else {
        year
    };
    let era = y / 400;
    let year_of_era = y - era * 400;
    let shifted_month = if month > 2 {
        month - 3
    } else {
        month + 9
    };
    let day_of_year = (153 * shifted_month + 2) / 5 + day - 1;
    let day_of_era = year_of_era * 365 + year_of_era / 4 - year_of_era / 100 + day_of_year;
    era * 146097 + day_of_era - 719468
}

/// The year, month and day of the date `days` days after 1970-01-01.
pub open spec fn civil_from_days(days: int) -> (int, int, int) {
    let z = days + 719468;
    let era = z / 146097;
    let day_of_era = z - era * 146097;
    let year_of_era = (day_of_era - day_of_era / 1460 + day_of_era / 36524 - day_of_era / 146096) / 365;
    let y = year_of_era + era * 400;
    let day_of_year = day_of_era - (365 * year_of_era + year_of_era / 4 - year_of_era / 100);
    let shifted_month = (5 * day_of_year + 2) / 153;
    let day = day_of_year - (153 * shifted_month + 2) / 5 + 1;
    let month = if shifted_month < 10 {
        shifted_month + 3
    } else {
        shifted_month - 9
    };
    (if month <= 2 {
        y + 1
    } else {
        y
    }, month, day)
}

proof fn lemma_year_of_era(yoe: int, doy: int)
    requires
        0 <= yoe <= 399,
        0 <= doy <= 365,
        doy == 365 ==> (yoe + 1) % 4 == 0 && ((yoe + 1) % 100 != 0 || yoe == 399),
    ensures
        ({
            let doe = yoe * 365 + yoe / 4 - yoe / 100 + doy;
            (doe - doe / 1460 + doe / 36524 - doe / 146096) / 365 == yoe
        }),
{
    let doe = yoe * 365 + yoe / 4 - yoe / 100 + doy;
    assert((doe - doe / 1460 + doe / 36524 - doe / 146096) / 365 == yoe) by (nonlinear_arith)
        requires
            0 <= yoe <= 399,
            0 <= doy <= 365,
            doy == 365 ==> (yoe + 1) % 4 == 0 && ((yoe + 1) % 100 != 0 || yoe == 399),
            doe == yoe * 365 + yoe / 4 - yoe / 100 + doy,
    ;
}

/// The length of the month at `shifted_month` of a year that starts in
/// March; February, the last, has `february` days.
pub open spec fn shifted_month_length(shifted_month: int, february: int) -> int {
    if shifted_month == 11 {
        february
    } else if shifted_month == 1 || shifted_month == 3 || shifted_month == 6 || shifted_month == 8 {
        30
    } else {
        31
    }
}

proof fn lemma_month_of_year(shifted_month: int, day: int, february: int)
    requires
        0 <= shifted_month <= 11,
        1 <= day <= shifted_month_length(shifted_month, february),
        february <= 29,
    ensures
        ({
            let doy = (153 * shifted_month + 2) / 5 + day - 1;
            &&& (5 * doy + 2) / 153 == shifted_month
            &&& doy - (153 * shifted_month + 2) / 5 + 1 == day
            &&& 0 <= doy <= 365
            &&& shifted_month < 11 ==> doy < 365
        }),
{
    let doy = (153 * shifted_month + 2) / 5 + day - 1;
    if shifted_month == 0 {
        assert((5 * doy + 2) / 153 == 0);
    } else if shifted_month == 1 {
        assert((5 * doy + 2) / 153 == 1);
    } else if shifted_month == 2 {
        assert((5 * doy + 2) / 153 == 2);
    } else if shifted_month == 3 {
        assert((5 * doy + 2) / 153 == 3);
    } else if shifted_month == 4 {
        assert((5 * doy + 2) / 153 == 4);
    } else if shifted_month == 5 {
        assert((5 * doy + 2) / 153 == 5);
    } else if shifted_month == 6 {
        assert((5 * doy + 2) / 153 == 6);
    } else if shifted_month == 7 {
        assert((5 * doy + 2) / 153 == 7);
    } else if shifted_month == 8 {
        assert((5 * doy + 2) / 153 == 8);
    } else if shifted_month == 9 {
        assert((5 * doy + 2) / 153 == 9);
    } else if shifted_month == 10 {
        assert((5 * doy + 2) / 153 == 10);
    } else {
        assert((5 * doy + 2) / 153 == 11);
    }
}

proof fn lemma_era_year_bounds(doe: u32)
    by (bit_vector)
    requires
        doe <= 146096,
    ensures
        (doe - doe / 1460 + doe / 36524 - doe / 146096) / 365 <= 399,
{
}

proof fn lemma_era_day_bounds(doe: u32, yoe: u32)
    by (bit_vector)
    requires
        doe <= 146096,
        yoe == (doe - doe / 1460 + doe / 36524 - doe / 146096) / 365,
    ensures
        365 * yoe + yoe / 4 - yoe / 100 <= doe,
        doe - (365 * yoe + yoe / 4 - yoe / 100) <= 365,
{
}

proof fn lemma_month_day_bound(doy: u32)
    by (bit_vector)
    requires
        doy <= 365,
    ensures
        doy - (153 * ((5 * doy + 2) / 153) + 2) / 5 <= 30,
{
}

/// Moving a date by `offset` days gives the date whose day count is
/// `offset` more, as long as that count fits the picker's range: a move by
/// one day is the next day, by seven the same weekday a week on.
pub proof fn law_day_moves_count_days(date: Date, offset: int)
    requires
        i32::MIN <= days_from_civil(date.year as int, date.month as int, date.day as int) + offset <= i32::MAX,
    ensures
        ({
            let moved = date_plus_days(date, offset);
            &&& days_from_civil(moved.year as int, moved.month as int, moved.day as int) == days_from_civil(
                date.year as int,
                date.month as int,
                date.day as int,
            ) + offset
            &&& 1 <= moved.month <= 12
            &&& 1 <= moved.day <= 31
        }),
{
    let n = days_from_civil(date.year as int, date.month as int, date.day as int) + offset;
    assert(saturate(n) == n);
    law_days_civil_round_trip(n);
    let z = n + 719468;
    let era = z / 146097;
    let doe = z - era * 146097;
    let yoe = (doe - doe / 1460 + doe / 36524 - doe / 146096) / 365;
    lemma_era_year_bounds(doe as u32);
    lemma_era_day_bounds(doe as u32, yoe as u32);
    let doy = doe - (365 * yoe + yoe / 4 - yoe / 100);
    lemma_month_day_bound(doy as u32);
    assert(-14700 <= era <= 14705);
    let (year, month, day) = civil_from_days(n);
    assert(i32::MIN <= year <= i32::MAX);
    assert(day <= 31);
    assert(year as i32 as int == year);
    assert(month as u8 as int == month);
    assert(day as u8 as int == day);
}

/// Naming the date of a day count and counting its days gives the count
/// back, for every count: the date is a real date, its month from 1 to 12
/// and its day within the month.
pub proof fn law_days_civil_round_trip(days: int)
    ensures
        ({
            let (year, month, day) = civil_from_days(days);
            &&& days_from_civil(year, month, day) == days
            &&& 1 <= month <= 12
            &&& 1 <= day
        }),
{
    let z = days + 719468;
    let era = z / 146097;
    let doe = z - era * 146097;
    assert(0 <= doe < 146097);
    let yoe = (doe - doe / 1460 + doe / 36524 - doe / 146096) / 365;
    lemma_era_year_bounds(doe as u32);
    lemma_era_day_bounds(doe as u32, yoe as u32);
    assert(0 <= yoe <= 399);
    let y = yoe + era * 400;
    let doy = doe - (365 * yoe + yoe / 4 - yoe / 100);
    assert(0 <= doy <= 365);
    let mp = (5 * doy + 2) / 153;
    assert(0 <= mp <= 11);
    let d = doy - (153 * mp + 2) / 5 + 1;
    assert((153 * mp + 2) / 5 <= doy) by (nonlinear_arith)
        requires
            mp == (5 * doy + 2) / 153,
            0 <= doy,
    ;
    let m = if mp < 10 { mp + 3 } else { mp - 9 };
    let (year, month, day) = civil_from_days(days);
    assert(month == m && day == d);
    assert(year == if m <= 2 { y + 1 } else { y });
    assert((yoe + era * 400) / 400 == era);
    assert(days_from_civil(year, month, day) == era * 146097 + doe - 719468);
}

/// Counting the days of a date and naming the date of that count gives the
/// date back, for every date of the proleptic Gregorian calendar.
pub proof fn law_civil_days_round_trip(year: int, month: int, day: int)
    requires
        1 <= month <= 12,
        1 <= day <= days_in_month_spec(year, month),
    ensures
        civil_from_days(days_from_civil(year, month, day)) == (year, month, day),
{
    let y = if month <= 2 {
        year - 1
    } else {
        year
    };
    let era = y / 400;
    let yoe = y - era * 400;
    let shifted_month = if month > 2 {
        month - 3
    } else {
        month + 9
    };
    let february = if is_leap_year_spec(y + 1) {
        29
    } else {
        28
    };
    assert(1 <= day <= shifted_month_length(shifted_month, february));
    lemma_month_of_year(shifted_month, day, february);
    let doy = (153 * shifted_month + 2) / 5 + day - 1;
    assert(0 <= yoe <= 399);
    assert(doy == 365 ==> (yoe + 1) % 4 == 0 && ((yoe + 1) % 100 != 0 || yoe == 399)) by (nonlinear_arith)
        requires
            doy == 365 ==> is_leap_year_spec(y + 1),
            yoe == y - era * 400,
            0 <= yoe <= 399,
    ;
    lemma_year_of_era(yoe, doy);
    let doe = yoe * 365 + yoe / 4 - yoe / 100 + doy;
    assert(0 <= doe < 146097);
    let z = era * 146097 + doe;
    assert(z / 146097 == era && z - era * 146097 == doe) by (nonlinear_arith)
        requires
            z == era * 146097 + doe,
            0 <= doe < 146097,
    ;
    assert(days_from_civil(year, month, day) + 719468 == z);
}

/// A value clamped to the range of `i32`, as saturating arithmetic gives.
pub open spec fn saturate(value: int) -> int {
    if value < i32::MIN {
        i32::MIN as int
    } else if value > i32::MAX {
        i32::MAX as int
    } else {
        value
    }
}

/// The date a day count names, when its year fits.
pub open spec fn date_of_days(days: int) -> Date {
    let (year, month, day) = civil_from_days(days);
    Date { year: year as i32, month: month as u8, day: day as u8 }
}

/// The date `days` days after `date`, the day count saturating at the
/// range of `i32`.
pub open spec fn date_plus_days(date: Date, days: int) -> Date {
    date_of_days(saturate(days_from_civil(date.year as int, date.month as int, date.day as int) + days))
}

/// The date `months` months after `date`: the month count saturates at the
/// range of `i32`, and the day is kept unless the month is shorter.
pub open spec fn date_plus_months(date: Date, months: int) -> Date {
    let total = saturate(saturate(saturate(date.year as int * 12) + (date.month as int - 1)) + months);
    let year = total / 12;
    let month = total % 12 + 1;
    let limit = days_in_month_spec(year, month);
    Date { year: year as i32, month: month as u8, day: if date.day < limit { date.day } else { limit as u8 } }
}

/// The weekday of a date, Monday being 0.
pub open spec fn weekday_from_monday(date: Date) -> int {
    (days_from_civil(date.year as int, date.month as int, date.day as int) + 3) % 7
}

/// Weekdays count from a known Monday: 1 January 2024 was a Monday, so
/// every date's weekday (Monday 0) is the number of days since that date,
/// modulo 7; 1 January 1970 was a Thursday.
pub proof fn law_weekdays_count_from_a_known_monday(date: Date)
    ensures
        days_from_civil(2024, 1, 1) == 19723,
        weekday_from_monday(date) == (days_from_civil(date.year as int, date.month as int, date.day as int)
            - days_from_civil(2024, 1, 1)) % 7,
        weekday_from_monday(Date { year: 2024, month: 1, day: 1 }) == 0,
        weekday_from_monday(Date { year: 1970, month: 1, day: 1 }) == 3,
{
    assert(days_from_civil(2024, 1, 1) == 19723);
    assert(days_from_civil(1970, 1, 1) == 0);
    let x = days_from_civil(date.year as int, date.month as int, date.day as int);
    assert((x + 3) % 7 == (x - 19723) % 7) by (nonlinear_arith);
}

/// A date moved into the calendar: the month into 1 to 12, the day into the
/// days of that month.
pub open spec fn clamped_date(date: Date) -> Date {
    let month: u8 = if date.month < 1 {
        1
    } else if date.month > 12 {
        12
    } else {
        date.month
    };
    let limit = days_in_month_spec(date.year as int, month as int);
    Date { year: date.year, month, day: if date.day < 1 { 1 } else if date.day > limit { limit as u8 } else { date.day } }
}

fn floor_div_i64(n: i64, d: i64) -> (q: i64)
    requires
        d > 0,
        -0x1_0000_0000_0000 <= n <= 0x1_0000_0000_0000,
        d <= 0x1_0000_0000,
    ensures
        q == n / d,
{
    if n >= 0 {
        n / d
    } else {
        let m: i64 = -n;
        let q: i64 = (m + d - 1) / d;
        proof {
            let mi = m as int;
            let di = d as int;
            let qi = q as int;
            vstd::arithmetic::div_mod::lemma_fundamental_div_mod(mi + di - 1, di);
            let r = (mi + di - 1) % di;
            assert(mi + di - 1 == di * qi + r);
            assert(0 <= r < di);
            let rr = di * qi - mi;
            assert(0 <= rr < di);
            assert(n as int == (-qi) * di + rr) by (nonlinear_arith)
                requires
                    n as int == -mi,
                    rr == di * qi - mi,
            ;
            vstd::arithmetic::div_mod::lemma_fundamental_div_mod_converse(n as int, di, -qi, rr);
        }
        -q
    }
}

/// Days from 1970-01-01, for any year of `i32`.
pub fn days_from_civil_exec(year: i32, month: u8, day: u8) -> (days: i64)
    ensures
        days == days_from_civil(year as int, month as int, day as int),
{
    let y: i64 = if month <= 2 {
        year as i64 - 1
    } else {
        year as i64
    };
    let era = floor_div_i64(y, 400);
    let year_of_era = y - era * 400;
    proof {
        vstd::arithmetic::div_mod::lemma_fundamental_div_mod(y as int, 400);
    }
    let shifted_month: i64 = if month > 2 {
        month as i64 - 3
    } else {
        month as i64 + 9
    };
    let day_of_year = (153 * shifted_month + 2) / 5 + day as i64 - 1;
    let day_of_era = year_of_era * 365 + year_of_era / 4 - year_of_era / 100 + day_of_year;
    era * 146097 + day_of_era - 719468
}

/// The year, month and day of a day count.
pub fn civil_from_days_exec(days: i64) -> (date: (i64, i64, i64))
    requires
        -0x1_0000_0000 <= days <= 0x1_0000_0000,
    ensures
        (date.0 as int, date.1 as int, date.2 as int) == civil_from_days(days as int),
{
    let z = days + 719468;
    let era = floor_div_i64(z, 146097);
    proof {
        vstd::arithmetic::div_mod::lemma_fundamental_div_mod(z as int, 146097);
    }
    let day_of_era = z - era * 146097;
    let year_of_era = (day_of_era - day_of_era / 1460 + day_of_era / 36524 - day_of_era / 146096) / 365;
    let y = year_of_era + era * 400;
    let day_of_year = day_of_era - (365 * year_of_era + year_of_era / 4 - year_of_era / 100);
    let shifted_month = (5 * day_of_year + 2) / 153;
    let day = day_of_year - (153 * shifted_month + 2) / 5 + 1;
    let month = if shifted_month < 10 {
        shifted_month + 3
    } else {
        shifted_month - 9
    };
    (if month <= 2 {
        y + 1
    } else {
        y
    }, month, day)
}

fn saturate_i64(value: i64) -> (clamped: i32)
    ensures
        clamped == saturate(value as int),
{
    if value < i32::MIN as i64 {
        i32::MIN
    } else if value > i32::MAX as i64 {
        i32::MAX
    } else {
        value as i32
    }
}

/// The date a day count within `i32` names.
fn date_from_days(days: i32) -> (date: Date)
    ensures
        date == date_of_days(days as int),
{
    let (year, month, day) = civil_from_days_exec(days as i64);
    Date { year: year as i32, month: month as u8, day: day as u8 }
}

/// The date `days` days later (earlier when negative).
pub fn add_days(date: Date, days: i32) -> (moved: Date)
    ensures
        moved == date_plus_days(date, days as int),
{
    let start = days_from_civil_exec(date.year, date.month, date.day);
    proof {
        assert(-0x1_0000_0000_0000 <= start <= 0x1_0000_0000_0000) by (nonlinear_arith)
            requires
                start as int == days_from_civil(date.year as int, date.month as int, date.day as int),
                i32::MIN <= date.year <= i32::MAX,
                0 <= date.month <= 255,
                0 <= date.day <= 255,
        {
        }
    }
    date_from_days(saturate_i64(start + days as i64))
}

/// The date `months` months later (earlier when negative), keeping the day
/// where the month is long enough.
pub fn add_months(date: Date, months: i32) -> (moved: Date)
    ensures
        moved == date_plus_months(date, months as int),
{
    let years = saturate_i64(date.year as i64 * 12);
    let with_month = saturate_i64(years as i64 + (date.month as i64 - 1));
    let total = saturate_i64(with_month as i64 + months as i64);
    let year = floor_div_i64(total as i64, 12) as i32;
    let total_i = total as i64;
    let rest: i64 = total_i - (year as i64) * 12;
    proof {
        vstd::arithmetic::div_mod::lemma_fundamental_div_mod(total as int, 12);
        assert(rest == (total as int) % 12);
    }
    let month = (rest + 1) as u8;
    let limit = days_in_month(year, month);
    let day = if date.day < limit {
        date.day
    } else {
        limit
    };
    Date { year, month, day }
}

/// The weekday of a date, Monday being 0.
pub fn weekday_monday0(date: Date) -> (weekday: u8)
    ensures
        weekday == weekday_from_monday(date),
        weekday < 7,
{
    let days = days_from_civil_exec(date.year, date.month, date.day);
    proof {
        assert(-0x1_0000_0000_0000 <= days <= 0x1_0000_0000_0000) by (nonlinear_arith)
            requires
                days as int == days_from_civil(date.year as int, date.month as int, date.day as int),
                i32::MIN <= date.year <= i32::MAX,
                0 <= date.month <= 255,
                0 <= date.day <= 255,
        {
        }
    }
    let shifted = days + 3;
    let q = floor_div_i64(shifted, 7);
    let r = shifted - q * 7;
    proof {
        vstd::arithmetic::div_mod::lemma_fundamental_div_mod(shifted as int, 7);
    }
    r as u8
}

/// Move a date into the calendar: the month into 1 to 12, the day into the
/// days of that month.
pub fn clamp_date(date: Date) -> (clamped: Date)
    ensures
        clamped == clamped_date(date),
{
    let month: u8 = if date.month < 1 {
        1
    } else if date.month > 12 {
        12
    } else {
        date.month
    };
    let limit = days_in_month(date.year, month);
    let day = if date.day < 1 {
        1
    } else if date.day > limit {
        limit
    } else {
        date.day
    };
    Date { year: date.year, month, day }
}

/// The names of the months.
pub open spec fn month_name(month: int) -> Seq<char> {
    if month == 1 {
        "January"@
    } else if month == 2 {
        "February"@
    } else if month == 3 {
        "March"@
    } else if month == 4 {
        "April"@
    } else if month == 5 {
        "May"@
    } else if month == 6 {
        "June"@
    } else if month == 7 {
        "July"@
    } else if month == 8 {
        "August"@
    } else if month == 9 {
        "September"@
    } else if month == 10 {
        "October"@
    } else if month == 11 {
        "November"@
    } else {
        "December"@
    }
}

fn month_label_of(month: u8) -> (name: &'static str)
    ensures
        name@ == month_name(month as int),
{
    if month == 1 {
        "January"
    } else if month == 2 {
        "February"
    } else if month == 3 {
        "March"
    } else if month == 4 {
        "April"
    } else if month == 5 {
        "May"
    } else if month == 6 {
        "June"
    } else if month == 7 {
        "July"
    } else if month == 8 {
        "August"
    } else if month == 9 {
        "September"
    } else if month == 10 {
        "October"
    } else if month == 11 {
        "November"
    } else {
        "December"
    }
}

/// The first day shown in the month's grid: the Monday on or before the
/// first of the month.
pub open spec fn grid_start(selected: Date) -> Date {
    let first = Date { year: selected.year, month: selected.month, day: 1 };
    date_plus_days(first, -weekday_from_monday(first))
}

/// The month's grid starts on a Monday, the first of the month or one of
/// the six days before it.
pub proof fn law_grid_starts_on_a_monday(selected: Date)
    requires
        i32::MIN + 6 <= days_from_civil(selected.year as int, selected.month as int, 1) <= i32::MAX,
    ensures
        ({
            let start = grid_start(selected);
            let first = days_from_civil(selected.year as int, selected.month as int, 1);
            let counted = days_from_civil(start.year as int, start.month as int, start.day as int);
            &&& weekday_from_monday(start) == 0
            &&& first - 6 <= counted <= first
        }),
{
    let first = Date { year: selected.year, month: selected.month, day: 1 };
    let w = weekday_from_monday(first);
    let n = days_from_civil(selected.year as int, selected.month as int, 1);
    assert(0 <= w <= 6);
    law_day_moves_count_days(first, -w);
    assert((n - w + 3) % 7 == 0) by (nonlinear_arith)
        requires
            w == (n + 3) % 7,
    ;
}

/// What a key does to a picker: a move to another date, a submit or a
/// cancel.
pub enum PickerIntent {
    To(Date),
    Submit,
    Cancel,
    Ignore,
}

/// Arrows and `h`/`l`/`k`/`j` move by a day or a week, Home and End to the
/// ends of the month, the page keys by a month, or a year with Shift.
pub open spec fn picker_intent(selected: Date, key: KeyEvent) -> PickerIntent {
    let plain = key.modifiers.0 == 0;
    let shift = key.modifiers.0 & 1u8 == 1u8;
    let limit = days_in_month_spec(selected.year as int, selected.month as int);
    match key.key {
        Key::Left => PickerIntent::To(date_plus_days(selected, -1)),
        Key::Right => PickerIntent::To(date_plus_days(selected, 1)),
        Key::Up => PickerIntent::To(date_plus_days(selected, -7)),
        Key::Down => PickerIntent::To(date_plus_days(selected, 7)),
        Key::Home => PickerIntent::To(Date { day: if 1 < limit { 1 } else { limit as u8 }, ..selected }),
        Key::End => PickerIntent::To(Date { day: limit as u8, ..selected }),
        Key::PageUp => PickerIntent::To(date_plus_months(selected, if shift { -12 } else { -1 })),
        Key::PageDown => PickerIntent::To(date_plus_months(selected, if shift { 12 } else { 1 })),
        Key::Char(c) => if plain && (c == 'h' || c == 'H') {
            PickerIntent::To(date_plus_days(selected, -1))
        } else if plain && (c == 'l' || c == 'L') {
            PickerIntent::To(date_plus_days(selected, 1))
        } else if plain && (c == 'k' || c == 'K') {
            PickerIntent::To(date_plus_days(selected, -7))
        } else if plain && (c == 'j' || c == 'J') {
            PickerIntent::To(date_plus_days(selected, 7))
        } else {
            PickerIntent::Ignore
        },
        Key::Enter => PickerIntent::Submit,
        Key::Esc => PickerIntent::Cancel,
        _ => PickerIntent::Ignore,
    }
}

/// The picker keys: Left and `h` go back a day, Right and `l` forward a
/// day, Up and `k` back a week, Down and `j` forward a week, Page Up and
/// Page Down a month back and forward, a year with Shift held; Home and
/// End go to the first and last day of the month; Enter submits and Esc
/// cancels.
pub proof fn law_picker_keys(selected: Date)
    ensures
        ({
            let key = |k: Key| picker_intent(selected, KeyEvent { key: k, modifiers: Modifiers(0) });
            let letter = |c: char| picker_intent(selected, KeyEvent { key: Key::Char(c), modifiers: Modifiers(0) });
            let shifted = |k: Key| picker_intent(selected, KeyEvent { key: k, modifiers: Modifiers(1) });
            &&& key(Key::Left) == PickerIntent::To(date_plus_days(selected, -1))
            &&& letter('h') == PickerIntent::To(date_plus_days(selected, -1))
            &&& key(Key::Right) == PickerIntent::To(date_plus_days(selected, 1))
            &&& letter('l') == PickerIntent::To(date_plus_days(selected, 1))
            &&& key(Key::Up) == PickerIntent::To(date_plus_days(selected, -7))
            &&& letter('k') == PickerIntent::To(date_plus_days(selected, -7))
            &&& key(Key::Down) == PickerIntent::To(date_plus_days(selected, 7))
            &&& letter('j') == PickerIntent::To(date_plus_days(selected, 7))
            &&& key(Key::PageUp) == PickerIntent::To(date_plus_months(selected, -1))
            &&& key(Key::PageDown) == PickerIntent::To(date_plus_months(selected, 1))
            &&& shifted(Key::PageUp) == PickerIntent::To(date_plus_months(selected, -12))
            &&& shifted(Key::PageDown) == PickerIntent::To(date_plus_months(selected, 12))
            &&& key(Key::Home) matches PickerIntent::To(first) && first.year == selected.year && first.month
                == selected.month && (days_in_month_spec(selected.year as int, selected.month as int) >= 1 ==> first.day
                == 1)
            &&& key(Key::End) matches PickerIntent::To(last) && last.year == selected.year && last.month
                == selected.month && last.day == days_in_month_spec(selected.year as int, selected.month as int)
            &&& key(Key::Enter) == PickerIntent::Submit
            &&& key(Key::Esc) == PickerIntent::Cancel
        }),
{
    assert(1u8 & 1u8 == 1u8) by (bit_vector);
    assert(0u8 & 1u8 == 0u8) by (bit_vector);
}

/// A picker of calendar dates.
#[derive(Debug)]
pub struct DatePicker {
    id: WidgetId,
    selected: Date,
    today: Option<Date>,
}

impl DatePicker {
    pub closed spec fn identity_text(&self) -> Seq<char> {
        self.id@
    }

    pub closed spec fn selection(&self) -> Date {
        self.selected
    }

    pub closed spec fn today_mark(&self) -> Option<Date> {
        self.today
    }

    /// A picker at `selected`, moved into the calendar.
    pub fn new<T: IntoText>(id: T, selected: Date) -> (picker: Self)
        ensures
            picker.identity_text() == id.text_chars(),
            picker.selection() == clamped_date(selected),
            picker.today_mark() is None,
    {
        DatePicker { id: WidgetId::owned(id), selected: clamp_date(selected), today: None }
    }

    /// Mark `today`, moved into the calendar.
    pub fn with_today(self, today: Date) -> (picker: Self)
        ensures
            picker.today_mark() == Some(clamped_date(today)),
            picker.selection() == self.selection(),
            picker.identity_text() == self.identity_text(),
    {
        DatePicker { today: Some(clamp_date(today)), ..self }
    }

    pub fn selected(&self) -> (date: Date)
        ensures
            date == self.selection(),
    {
        self.selected
    }

    fn move_to(&mut self, next: Date) -> (reaction: Reaction)
        ensures
            next == old(self).selection() ==> reaction is Ignored && final(self).selection() == old(self).selection(),
            next != old(self).selection() ==> reaction is Changed && final(self).selection() == next,
            final(self).today_mark() == old(self).today_mark(),
            final(self).identity_text() == old(self).identity_text(),
    {
        if next == self.selected {
            return Reaction::Ignored;
        }
        self.selected = next;
        Reaction::Changed
    }

    /// The six weeks around the selected month, Monday first.
    pub fn calendar_view(&self) -> (calendar: CalendarView)
        ensures
            calendar.id matches Some(id) && id@ == self.identity_text() + "/calendar"@,
            calendar.weekdays@.map_values(|name: String| name@) == weekday_labels(),
            calendar.help@.len() == 1 && calendar.help@[0].text@ == calendar_help_text()
                && calendar.help@[0].role == Role::Dim,
            calendar.year == self.selection().year,
            calendar.month == self.selection().month,
            calendar.selected == self.selection(),
            calendar.weeks@.len() == 6,
            forall|w: int| 0 <= w < 6 ==> #[trigger] calendar.weeks@[w].days@.len() == 7,
            forall|w: int, d: int|
                0 <= w < 6 && 0 <= d < 7 ==> {
                    let day = #[trigger] calendar.weeks@[w].days@[d];
                    &&& day.date == date_plus_days(grid_start(self.selection()), w * 7 + d)
                    &&& day.in_month == (day.date.month == self.selection().month)
                    &&& day.selected == (day.date == self.selection())
                    &&& day.today == (self.today_mark() == Some(day.date))
                    &&& day.label@ == crate::text::decimal_chars(day.date.day as nat)
                },
            calendar.month_label@ == month_name(self.selection().month as int) + seq![' ']
                + crate::text::signed_decimal_chars(self.selection().year as int),
    {
        let first = Date { year: self.selected.year, month: self.selected.month, day: 1 };
        let offset = weekday_monday0(first);
        let start = add_days(first, -(offset as i32));
        let mut weeks: Vec<CalendarWeek> = Vec::new();
        let mut w: i32 = 0;
        while w < 6
            invariant
                0 <= w <= 6,
                weeks@.len() == w,
                start == grid_start(self.selected),
                forall|i: int| 0 <= i < w ==> #[trigger] weeks@[i].days@.len() == 7,
                forall|i: int, d: int|
                    0 <= i < w && 0 <= d < 7 ==> {
                        let day = #[trigger] weeks@[i].days@[d];
                        &&& day.date == date_plus_days(start, i * 7 + d)
                        &&& day.in_month == (day.date.month == self.selected.month)
                        &&& day.selected == (day.date == self.selected)
                        &&& day.today == (self.today == Some(day.date))
                        &&& day.label@ == crate::text::decimal_chars(day.date.day as nat)
                    },
            decreases 6 - w,
        {
            let mut days: Vec<CalendarDay> = Vec::new();
            let mut d: i32 = 0;
            while d < 7
                invariant
                    0 <= w < 6,
                    0 <= d <= 7,
                    days@.len() == d,
                    forall|k: int| 0 <= k < d ==> {
                        let day = #[trigger] days@[k];
                        &&& day.date == date_plus_days(start, w * 7 + k)
                        &&& day.in_month == (day.date.month == self.selected.month)
                        &&& day.selected == (day.date == self.selected)
                        &&& day.today == (self.today == Some(day.date))
                        &&& day.label@ == crate::text::decimal_chars(day.date.day as nat)
                    },
                decreases 7 - d,
            {
                let date = add_days(start, w * 7 + d);
                let today = match self.today {
                    Some(t) => t == date,
                    None => false,
                };
                days.push(CalendarDay {
                    date,
                    label: decimal(date.day as u64),
                    in_month: date.month == self.selected.month,
                    selected: date == self.selected,
                    today,
                });
                d += 1;
            }
            weeks.push(CalendarWeek { days });
            w += 1;
        }
        let mut month_label = String::new();
        push_str(&mut month_label, month_label_of(self.selected.month));
        push_char(&mut month_label, ' ');
        push_signed_decimal(&mut month_label, self.selected.year as i64);
        let mut weekdays: Vec<String> = Vec::new();
        weekdays.push("Mo".to_owned());
        weekdays.push("Tu".to_owned());
        weekdays.push("We".to_owned());
        weekdays.push("Th".to_owned());
        weekdays.push("Fr".to_owned());
        weekdays.push("Sa".to_owned());
        weekdays.push("Su".to_owned());
        assert(weekdays@.map_values(|name: String| name@) =~= weekday_labels());
        let mut view_id = String::new();
        push_str(&mut view_id, self.id.as_str());
        push_str(&mut view_id, "/calendar");
        let mut help: Vec<Span> = Vec::new();
        help.push(Span::new(
            "arrows move | pgup/pgdn month | home/end month edge | enter submit | esc cancel",
            Role::Dim,
        ));
        CalendarView {
            id: Some(ViewId::owned(view_id)),
            year: self.selected.year,
            month: self.selected.month,
            month_label,
            weekdays,
            weeks,
            selected: self.selected,
            help,
        }
    }
}

/// The weekday row of the calendar, Monday first.
pub open spec fn weekday_labels() -> Seq<Seq<char>> {
    seq!["Mo"@, "Tu"@, "We"@, "Th"@, "Fr"@, "Sa"@, "Su"@]
}

/// The key help under the calendar.
pub open spec fn calendar_help_text() -> Seq<char> {
    "arrows move | pgup/pgdn month | home/end month edge | enter submit | esc cancel"@
}

impl Widget for DatePicker {
    open spec fn identity(&self) -> Seq<char> {
        self.identity_text()
    }

    open spec fn held_value(&self) -> Option<ValueModel> {
        Some(ValueModel::Date(self.selection()))
    }

    /// The day moved to, or the same day.
    open spec fn holds_after(&self, event: Event, layout: Seq<ListPresentation>, value: Option<ValueModel>) -> bool {
        value == Some(
            ValueModel::Date(
                match event {
                    Event::Key(key) => match picker_intent(self.selection(), key) {
                        PickerIntent::To(next) => next,
                        _ => self.selection(),
                    },
                    _ => self.selection(),
                },
            ),
        )
    }

    open spec fn reacts(&self, event: Event, layout: Seq<ListPresentation>, reaction: Reaction) -> bool {
        match event {
            Event::Key(key) => match picker_intent(self.selection(), key) {
                PickerIntent::To(next) => if next == self.selection() {
                    reaction is Ignored
                } else {
                    reaction is Changed
                },
                PickerIntent::Submit => reaction matches Reaction::Submit(v) && v@ == ValueModel::Date(self.selection()),
                PickerIntent::Cancel => reaction is Cancel,
                PickerIntent::Ignore => reaction is Ignored,
            },
            _ => reaction is Ignored,
        }
    }

    fn id(&self) -> (id: WidgetId) {
        self.id.clone()
    }

    /// Move, submit the selected date, or cancel, as [`picker_intent`] says;
    /// a move that stays on the selected date is ignored.
    fn handle(&mut self, event: Event, cx: &mut Context) -> (reaction: Reaction)
        ensures
            final(self).today_mark() == old(self).today_mark(),
            final(self).identity_text() == old(self).identity_text(),
            match event {
                Event::Key(key) => match picker_intent(old(self).selection(), key) {
                    PickerIntent::To(next) => if next == old(self).selection() {
                        reaction is Ignored && final(self).selection() == old(self).selection()
                    } else {
                        reaction is Changed && final(self).selection() == next
                    },
                    PickerIntent::Submit => reaction matches Reaction::Submit(v) && v@ == ValueModel::Date(
                        old(self).selection(),
                    ) && final(self).selection() == old(self).selection(),
                    PickerIntent::Cancel => reaction is Cancel && final(self).selection() == old(self).selection(),
                    PickerIntent::Ignore => reaction is Ignored && final(self).selection() == old(self).selection(),
                },
                _ => reaction is Ignored && final(self).selection() == old(self).selection(),
            },
    {
        let key = match event {
            Event::Key(key) => key,
            _ => return Reaction::Ignored,
        };
        let plain = key.modifiers.0 == 0;
        let shift = key.modifiers.0 & 1u8 == 1u8;
        let selected = self.selected;
        let limit = days_in_month(selected.year, selected.month);
        match key.key {
            Key::Left => self.move_to(add_days(selected, -1)),
            Key::Right => self.move_to(add_days(selected, 1)),
            Key::Up => self.move_to(add_days(selected, -7)),
            Key::Down => self.move_to(add_days(selected, 7)),
            Key::Home => self.move_to(Date {
                day: if 1 < limit {
                    1
                } else {
                    limit
                },
                ..selected
            }),
            Key::End => self.move_to(Date { day: limit, ..selected }),
            Key::PageUp => self.move_to(add_months(selected, if shift {
                -12
            } else {
                -1
            })),
            Key::PageDown => self.move_to(add_months(selected, if shift {
                12
            } else {
                1
            })),
            Key::Char(c) => {
                if plain && (c == 'h' || c == 'H') {
                    self.move_to(add_days(selected, -1))
                } else if plain && (c == 'l' || c == 'L') {
                    self.move_to(add_days(selected, 1))
                } else if plain && (c == 'k' || c == 'K') {
                    self.move_to(add_days(selected, -7))
                } else if plain && (c == 'j' || c == 'J') {
                    self.move_to(add_days(selected, 7))
                } else {
                    Reaction::Ignored
                }
            },
            Key::Enter => Reaction::Submit(Value::Date(self.selected)),
            Key::Esc => Reaction::Cancel,
            _ => Reaction::Ignored,
        }
    }

    /// The calendar of the selected month.
    open spec fn shows(&self, cx: ViewContext, view: View) -> bool {
        view matches View::Calendar(calendar) && calendar.year == self.selection().year && calendar.month
            == self.selection().month && calendar.selected == self.selection() && calendar.weeks@.len() == 6
    }

    fn view(&self, cx: &ViewContext) -> (view: View) {
        View::Calendar(self.calendar_view())
    }

    fn current_value(&self) -> (value: Option<Value>) {
        Some(Value::Date(self.selected))
    }
}

} // verus!

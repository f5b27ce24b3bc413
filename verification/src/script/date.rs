//! Calendar dates of scripts: ISO 8601 texts and milliseconds since 1970.
use crate::text::{chars_of, i64_of_text, parse_i64, string_of};
use vstd::arithmetic::div_mod::lemma_fundamental_div_mod_converse;
use vstd::prelude::*;

verus! {

broadcast use vstd::string::group_string_axioms;

/// A date and time of day, and the milliseconds since 1970 that it is.
#[derive(Debug, Clone, Copy, PartialEq, Eq, Structural)]
pub struct DateParts {
    pub year: i64,
    pub month: i64,
    pub day: i64,
    pub hour: i64,
    pub minute: i64,
    pub second: i64,
    pub epoch_ms: i64,
}

/// The quotient, rounded towards zero.
pub open spec fn quot(a: int, b: int) -> int {
    if a >= 0 {
        a / b
    } else {
        -((-a) / b)
    }
}

/// The number of days from 1970-01-01 to a date of the Gregorian calendar. A
/// year is counted from March, so that a leap day is its last day; 400 years
/// have 146097 days.
pub open spec fn days_from_civil(year: int, month: int, day: int) -> int {
    let y = if month <= 2 {
        year - 1
    } else {
        year
    };
    let m = if month <= 2 {
        month + 9
    } else {
        month - 3
    };
    let yoe = y % 400;
    (y / 400) * 146097 + (yoe * 365 + yoe / 4 - yoe / 100 + quot(153 * m + 2, 5) + day - 1) - 719468
}

/// The year, month and day of the day that is `days` days behind 1970-01-01.
pub open spec fn civil_from_days(days: int) -> (int, int, int) {
    let z = days + 719468;
    let doe = z % 146097;
    let yoe = (doe - doe / 1460 + doe / 36524 - doe / 146096) / 365;
    let doy = doe - (365 * yoe + yoe / 4 - yoe / 100);
    let mp = (5 * doy + 2) / 153;
    let m = if mp < 10 {
        mp + 3
    } else {
        mp - 9
    };
    let y = yoe + (z / 146097) * 400;
    (
        if m <= 2 {
            y + 1
        } else {
            y
        },
        m,
        doy - (153 * mp + 2) / 5 + 1,
    )
}

/// Whether a year has a leap day.
pub open spec fn is_leap(year: int) -> bool {
    (year % 4 == 0 && year % 100 != 0) || year % 400 == 0
}

/// The milliseconds since 1970 of a date and time.
pub open spec fn epoch_ms_of(
    year: int,
    month: int,
    day: int,
    hour: int,
    minute: int,
    second: int,
) -> int {
    days_from_civil(year, month, day) * 86_400_000 + hour * 3_600_000 + minute * 60_000 + second
        * 1_000
}

proof fn lemma_civil_bounds(days: int)
    ensures
        ({
            let z = days + 719468;
            let doe = z % 146097;
            let yoe = (doe - doe / 1460 + doe / 36524 - doe / 146096) / 365;
            let doy = doe - (365 * yoe + yoe / 4 - yoe / 100);
            let mp = (5 * doy + 2) / 153;
            &&& 0 <= doe < 146097
            &&& 0 <= yoe <= 399
            &&& 0 <= doy <= 365
            &&& 0 <= mp <= 11
        }),
{
}

/// The date of a day, taken back to a day, is that day; and it is a date with
/// a month from 1 to 12 and a day from 1 to 31.
pub proof fn days_from_civil_from_days(days: int)
    ensures
        ({
            let (y, m, d) = civil_from_days(days);
            days_from_civil(y, m, d) == days && 1 <= m <= 12 && 1 <= d <= 31
        }),
{
    lemma_civil_bounds(days);
    let z = days + 719468;
    let doe = z % 146097;
    let yoe = (doe - doe / 1460 + doe / 36524 - doe / 146096) / 365;
    let doy = doe - (365 * yoe + yoe / 4 - yoe / 100);
    let mp = (5 * doy + 2) / 153;
    let (y, m, d) = civil_from_days(days);
    let y0 = yoe + (z / 146097) * 400;
    assert(y0 % 400 == yoe && y0 / 400 == z / 146097) by (nonlinear_arith)
        requires
            0 <= yoe < 400,
            y0 == yoe + (z / 146097) * 400,
    ;
}

/// The parts of a moment given in milliseconds since 1970, those before 1970
/// too.
pub open spec fn parts_of_epoch(ms: int) -> DateParts {
    let secs = ms / 1000;
    let tod = secs % 86400;
    let (y, m, d) = civil_from_days(secs / 86400);
    DateParts {
        year: y as i64,
        month: m as i64,
        day: d as i64,
        hour: (tod / 3600) as i64,
        minute: (tod % 3600 / 60) as i64,
        second: (tod % 60) as i64,
        epoch_ms: ms as i64,
    }
}

/// The number in a part of a text, or a default where there is none.
pub open spec fn number_at(s: Seq<char>, from: int, to: int, default: i64) -> i64 {
    match i64_of_text(s.subrange(from, to)) {
        Some(n) => n,
        None => default,
    }
}

/// The parts of a text such as `2025-03-15T10:30:00Z` or `2025-03-15`. Where a
/// part spells no number, a default stands for it.
pub open spec fn parts_of_text(s: Seq<char>) -> DateParts {
    let year = number_at(s, 0, 4, 1970);
    let month = number_at(s, 5, 7, 1);
    let day = number_at(s, 8, 10, 1);
    let timed = s.len() >= 19;
    let hour = if timed {
        number_at(s, 11, 13, 0)
    } else {
        0
    };
    let minute = if timed {
        number_at(s, 14, 16, 0)
    } else {
        0
    };
    let second = if timed {
        number_at(s, 17, 19, 0)
    } else {
        0
    };
    DateParts {
        year,
        month,
        day,
        hour,
        minute,
        second,
        epoch_ms: epoch_ms_of(
            year as int,
            month as int,
            day as int,
            hour as int,
            minute as int,
            second as int,
        ) as i64,
    }
}

/// The days of a year before a month.
pub open spec fn days_before(month: int, leap: bool) -> int {
    let extra: int = if leap {
        1
    } else {
        0
    };
    if month == 1 {
        0
    } else if month == 2 {
        31
    } else if month == 3 {
        59 + extra
    } else if month == 4 {
        90 + extra
    } else if month == 5 {
        120 + extra
    } else if month == 6 {
        151 + extra
    } else if month == 7 {
        181 + extra
    } else if month == 8 {
        212 + extra
    } else if month == 9 {
        243 + extra
    } else if month == 10 {
        273 + extra
    } else if month == 11 {
        304 + extra
    } else {
        334 + extra
    }
}

/// The days before a year that is counted from March.
spec fn days_before_march(y: int) -> int {
    (y / 400) * 146097 + (y % 400) * 365 + (y % 400) / 4 - (y % 400) / 100
}

proof fn lemma_step(a: int, n: int)
    requires
        0 < a,
        n == 4 || n == 100,
    ensures
        a / n - (a - 1) / n == (if a % n == 0 {
            1int
        } else {
            0
        }),
{
}

proof fn lemma_years_of_era(q: int, a: int)
    requires
        0 <= a < 400,
    ensures
        (400 * q + a) / 400 == q,
        (400 * q + a) % 400 == a,
        (400 * q + a) % 4 == a % 4,
        (400 * q + a) % 100 == a % 100,
{
    lemma_fundamental_div_mod_converse(400 * q + a, 400, q, a);
    lemma_fundamental_div_mod_converse(400 * q + a, 4, 100 * q + a / 4, a % 4);
    lemma_fundamental_div_mod_converse(400 * q + a, 100, 4 * q + a / 100, a % 100);
}

proof fn lemma_year_length(y: int)
    ensures
        days_before_march(y) - days_before_march(y - 1) == (if is_leap(y) {
            366int
        } else {
            365
        }),
{
    let q = y / 400;
    let a = y % 400;
    assert(y == 400 * q + a);
    lemma_years_of_era(q, a);
    if a == 0 {
        lemma_years_of_era(q - 1, 399);
    } else {
        lemma_years_of_era(q, a - 1);
        lemma_step(a, 4);
        lemma_step(a, 100);
    }
}

/// The days of a year before a month are the days between its first of January
/// and the first of that month.
#[verifier::spinoff_prover]
pub proof fn days_before_counts_days(year: int, month: int)
    requires
        1 <= month <= 12,
    ensures
        days_before(month, is_leap(year)) == days_from_civil(year, month, 1) - days_from_civil(
            year,
            1,
            1,
        ),
{
    lemma_year_length(year);
    assert(quot(1532, 5) == 306 && quot(1685, 5) == 337);
    if month > 2 {
        let m = month - 3;
        assert(quot(153 * m + 2, 5) == days_before(month, false) - 59) by {
            assert(m == 0 || m == 1 || m == 2 || m == 3 || m == 4 || m == 5 || m == 6 || m == 7
                || m == 8 || m == 9);
        }
        assert(days_from_civil(year, month, 1) == days_before_march(year) + quot(153 * m + 2, 5)
            - 719468);
    }
    assert(days_from_civil(year, 1, 1) == days_before_march(year - 1) + 306 - 719468);
}

/// The parts of a moment are a date and a time of day, and denote the second
/// that the moment lies in.
#[verifier::spinoff_prover]
pub proof fn parts_denote_their_second(ms: i64)
    ensures
        ({
            let p = parts_of_epoch(ms as int);
            &&& 1 <= p.month <= 12 && 1 <= p.day <= 31
            &&& 0 <= p.hour < 24 && 0 <= p.minute < 60 && 0 <= p.second < 60
            &&& epoch_ms_of(
                p.year as int,
                p.month as int,
                p.day as int,
                p.hour as int,
                p.minute as int,
                p.second as int,
            ) == ms - ms as int % 1000
        }),
{
    let secs = ms as int / 1000;
    let days = secs / 86400;
    days_from_civil_from_days(days);
    lemma_civil_bounds(days);
    let (y, m, d) = civil_from_days(days);
    assert(i64::MIN <= y <= i64::MAX);
}

/// The day of the week, from Monday, 1, to Sunday, 7.
pub open spec fn day_of_week(epoch_ms: int) -> int {
    (epoch_ms / 86_400_000 + 3) % 7 + 1
}

#[verifier::spinoff_prover]
pub fn date_to_epoch_ms(
    year: i64,
    month: i64,
    day: i64,
    hour: i64,
    minute: i64,
    second: i64,
) -> (r: i64)
    requires
        i64::MIN <= epoch_ms_of(
            year as int,
            month as int,
            day as int,
            hour as int,
            minute as int,
            second as int,
        ) <= i64::MAX,
    ensures
        r == epoch_ms_of(
            year as int,
            month as int,
            day as int,
            hour as int,
            minute as int,
            second as int,
        ),
{
    let y: i128 = if month <= 2 {
        year as i128 - 1
    } else {
        year as i128
    };
    let m: i128 = if month <= 2 {
        month as i128 + 9
    } else {
        month as i128 - 3
    };
    let era: i128 = (if y >= 0 {
        y
    } else {
        y - 399
    }) / 400;
    assert(era == y as int / 400);
    let yoe: i128 = y - era * 400;
    assert(yoe == y as int % 400);
    let doy: i128 = (153 * m + 2) / 5 + day as i128 - 1;
    let doe: i128 = yoe * 365 + yoe / 4 - yoe / 100 + doy;
    let days: i128 = era * 146097 + doe - 719468;
    (days * 86_400_000 + hour as i128 * 3_600_000 + minute as i128 * 60_000 + second as i128
        * 1_000) as i64
}

/// The quotient, rounded down.
fn floor_div(a: i64, b: i64) -> (r: i64)
    requires
        b > 1,
    ensures
        r == a as int / b as int,
{
    if a >= 0 {
        return a / b;
    }
    let q: i64 = (-1 - a) / b;
    proof {
        let x = -1 - a;
        let rest = x as int % b as int;
        assert(x == q * b + rest && 0 <= rest < b) by {
            vstd::arithmetic::div_mod::lemma_fundamental_div_mod(x as int, b as int);
            assert(b * q == q * b) by (nonlinear_arith);
        }
        assert(a == (-1 - q) * b + (b - 1 - rest)) by (nonlinear_arith)
            requires
                -1 - a == q * b + rest,
        ;
        lemma_fundamental_div_mod_converse(a as int, b as int, -1 - q, b - 1 - rest);
    }
    -1 - q
}

/// The parts of a moment given in milliseconds since 1970.
#[verifier::spinoff_prover]
pub fn date_of_epoch(epoch_ms: i64) -> (r: DateParts)
    ensures
        r == parts_of_epoch(epoch_ms as int),
        1 <= r.day <= 31,
{
    let secs: i64 = floor_div(epoch_ms, 1000);
    let days: i64 = floor_div(secs, 86400);
    let time_of_day: i64 = secs - days * 86400;
    let hour: i64 = time_of_day / 3600;
    let rest: i64 = time_of_day - hour * 3600;
    let minute: i64 = rest / 60;
    let second: i64 = time_of_day - (time_of_day / 60) * 60;
    proof {
        lemma_civil_bounds(days as int);
    }
    let z: i64 = days + 719468;
    let era: i64 = (if z >= 0 {
        z
    } else {
        z - 146096
    }) / 146097;
    assert(era == z as int / 146097);
    let doe: i64 = z - era * 146097;
    assert(doe == z as int % 146097);
    let yoe: i64 = (doe - doe / 1460 + doe / 36524 - doe / 146096) / 365;
    let y: i64 = yoe + era * 400;
    let doy: i64 = doe - (365 * yoe + yoe / 4 - yoe / 100);
    let mp: i64 = (5 * doy + 2) / 153;
    let d: i64 = doy - (153 * mp + 2) / 5 + 1;
    let m: i64 = if mp < 10 {
        mp + 3
    } else {
        mp - 9
    };
    let year: i64 = if m <= 2 {
        y + 1
    } else {
        y
    };
    DateParts { year, month: m, day: d, hour, minute, second, epoch_ms }
}

proof fn lemma_small_number(s: Seq<char>)
    requires
        s.len() <= 4,
        i64_of_text(s) is Some,
    ensures
        -1000 < i64_of_text(s)->0 < 10000,
        s.len() <= 2 ==> -10 < i64_of_text(s)->0 < 100,
{
    let d = if s[0] == '-' || s[0] == '+' {
        s.subrange(1, s.len() as int)
    } else {
        s
    };
    assert(crate::text::all_digits(d));
    lemma_small_digits(d);
}

proof fn lemma_small_digits(d: Seq<char>)
    requires
        d.len() <= 4,
        crate::text::all_digits(d),
    ensures
        crate::text::digits_value(d) < vstd::arithmetic::power::pow(10, d.len()),
        d.len() == 1 ==> crate::text::digits_value(d) < 10,
        d.len() == 2 ==> crate::text::digits_value(d) < 100,
        d.len() == 3 ==> crate::text::digits_value(d) < 1000,
        d.len() == 4 ==> crate::text::digits_value(d) < 10000,
    decreases d.len(),
{
    reveal(vstd::arithmetic::power::pow);
    if d.len() > 0 {
        assert(crate::text::all_digits(d.drop_last()));
        assert(crate::text::is_digit(d.last()));
        lemma_small_digits(d.drop_last());
    }
}

fn number_in(c: &Vec<char>, from: usize, to: usize, default: i64) -> (r: i64)
    requires
        from <= to <= c@.len(),
        to - from <= 4,
        -10 < default < 2000,
        to - from <= 2 ==> default < 100,
    ensures
        r == number_at(c@, from as int, to as int, default),
        -1000 < r < 10000,
        to - from <= 2 ==> -10 < r < 100,
{
    proof {
        if i64_of_text(c@.subrange(from as int, to as int)) is Some {
            lemma_small_number(c@.subrange(from as int, to as int));
        }
    }
    match parse_i64(&string_of(c.as_slice(), from, to)) {
        Some(n) => n,
        None => default,
    }
}

#[verifier::spinoff_prover]
proof fn lemma_days_fit(year: int, month: int, day: int)
    requires
        -1000 < year < 10000,
        -10 < month < 100,
        -10 < day < 100,
    ensures
        -2_000_000 < days_from_civil(year, month, day) < 5_000_000,
{
    let y = if month <= 2 {
        year - 1
    } else {
        year
    };
    let m = if month <= 2 {
        month + 9
    } else {
        month - 3
    };
    let era = y / 400;
    let yoe = y % 400;
    assert(y == 400 * era + yoe && 0 <= yoe < 400);
    assert(-3 <= era <= 25);
    assert(0 <= yoe / 4 < 100 && 0 <= yoe / 100 < 4);
    assert(-10 < m < 100);
    assert(-400 < quot(153 * m + 2, 5) < 4000);
}

#[verifier::spinoff_prover]
proof fn lemma_epoch_fits(year: int, month: int, day: int, hour: int, minute: int, second: int)
    requires
        -1000 < year < 10000,
        -10 < month < 100,
        -10 < day < 100,
        -10 < hour < 100,
        -10 < minute < 100,
        -10 < second < 100,
    ensures
        i64::MIN <= epoch_ms_of(year, month, day, hour, minute, second) <= i64::MAX,
{
    lemma_days_fit(year, month, day);
    let d = days_from_civil(year, month, day);
    assert(-2_000_000 * 86_400_000 <= d * 86_400_000 <= 5_000_000 * 86_400_000);
}

/// The parts of a text of at least ten characters.
#[verifier::spinoff_prover]
pub fn date_of_text(s: &str) -> (r: DateParts)
    requires
        s@.len() >= 10,
    ensures
        r == parts_of_text(s@),
        -10 < r.day < 100,
{
    let c = chars_of(s);
    let year = number_in(&c, 0, 4, 1970);
    let month = number_in(&c, 5, 7, 1);
    let day = number_in(&c, 8, 10, 1);
    let timed = c.len() >= 19;
    let hour: i64 = if timed {
        number_in(&c, 11, 13, 0)
    } else {
        0
    };
    let minute: i64 = if timed {
        number_in(&c, 14, 16, 0)
    } else {
        0
    };
    let second: i64 = if timed {
        number_in(&c, 17, 19, 0)
    } else {
        0
    };
    proof {
        lemma_epoch_fits(
            year as int,
            month as int,
            day as int,
            hour as int,
            minute as int,
            second as int,
        );
    }
    let epoch_ms = date_to_epoch_ms(year, month, day, hour, minute, second);
    DateParts { year, month, day, hour, minute, second, epoch_ms }
}

fn has_leap_day(year: i64) -> (r: bool)
    ensures
        r == is_leap(year as int),
{
    (year.checked_rem_euclid(4) == Some(0i64) && year.checked_rem_euclid(100) != Some(0i64))
        || year.checked_rem_euclid(400) == Some(0i64)
}

/// The day of the year of a date with a month from 1 to 12.
pub fn day_of_year(year: i64, month: i64, day: i64) -> (r: i64)
    requires
        1 <= month <= 12,
        day <= i64::MAX - 335,
    ensures
        r == days_before(month as int, is_leap(year as int)) + day,
{
    let extra: i64 = if has_leap_day(year) {
        1
    } else {
        0
    };
    let before: i64 = match month {
        1 => 0,
        2 => 31,
        3 => 59 + extra,
        4 => 90 + extra,
        5 => 120 + extra,
        6 => 151 + extra,
        7 => 181 + extra,
        8 => 212 + extra,
        9 => 243 + extra,
        10 => 273 + extra,
        11 => 304 + extra,
        _ => 334 + extra,
    };
    before + day
}

#[verifier::spinoff_prover]
pub fn weekday(epoch_ms: i64) -> (r: i64)
    ensures
        r == day_of_week(epoch_ms as int),
{
    let days: i64 = floor_div(epoch_ms, 86_400_000) + 3;
    days - floor_div(days, 7) * 7 + 1
}

} // verus!

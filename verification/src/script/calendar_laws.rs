//! Laws of the calendar: how long months and years are, and how dates are
//! written and read.
use crate::cli::build_info::{padded, utc_text, zeros};
use crate::script::date::{
    civil_from_days, days_before_counts_days, days_from_civil, days_from_civil_from_days,
    number_at, parts_of_text, quot,
};
use crate::text::{all_digits, digit_char, digits_value, lemma_digits_push, nat_text};
use vstd::arithmetic::div_mod::lemma_mod_multiples_vanish;
use vstd::prelude::*;

verus! {

broadcast use vstd::string::group_string_axioms;

/// The days of a month in a year of the Gregorian calendar.
pub open spec fn month_length(year: int, month: int) -> int {
    if month == 4 || month == 6 || month == 9 || month == 11 {
        30
    } else if month != 2 {
        31
    } else if year % 400 == 0 || (year % 4 == 0 && year % 100 != 0) {
        29
    } else {
        28
    }
}

/// Days are counted from the first of January 1970, one after another; a month
/// begins when the days of the one before it have gone by, and a year when
/// December has.
#[verifier::spinoff_prover]
pub proof fn days_follow_the_calendar(year: int, month: int, day: int)
    requires
        1 <= month <= 12,
    ensures
        days_from_civil(1970, 1, 1) == 0,
        days_from_civil(year, month, day + 1) == days_from_civil(year, month, day) + 1,
        month < 12 ==> days_from_civil(year, month + 1, 1) == days_from_civil(year, month, 1)
            + month_length(year, month),
        days_from_civil(year + 1, 1, 1) == days_from_civil(year, 12, 1) + 31,
{
    days_before_counts_days(year, month);
    if month < 12 {
        days_before_counts_days(year, month + 1);
    }
    assert(quot(1532, 5) == 306);
    assert(quot(1379, 5) == 275);
}

/// The day of 400 years that lies `c` hundreds, `q` fours and `r` years behind
/// their first is counted to the year that begins with it.
proof fn lemma_first_day(c: int, q: int, r: int)
    requires
        0 <= c <= 3,
        0 <= q <= 24,
        0 <= r <= 3,
    ensures
        ({
            let doe = 36524 * c + 1461 * q + 365 * r;
            (doe - doe / 1460 + doe / 36524 - doe / 146096) / 365 == 100 * c + 4 * q + r
        }),
{
    let doe = 36524 * c + 1461 * q + 365 * r;
    assert(doe / 36524 == c);
    assert(doe / 1460 == 25 * c + q);
    assert(doe / 146096 == 0);
}

/// Within 400 years, only a year that ends with a leap day has 366 days.
proof fn lemma_last_day(doe: int)
    requires
        0 <= doe < 146097,
    ensures
        ({
            let yoe = (doe - doe / 1460 + doe / 36524 - doe / 146096) / 365;
            let doy = doe - (365 * yoe + yoe / 4 - yoe / 100);
            &&& 0 <= yoe <= 399
            &&& 0 <= doy <= 365
            &&& (yoe + 1 == 400 || ((yoe + 1) % 4 == 0 && (yoe + 1) % 100 != 0)) || doy <= 364
        }),
{
    let yoe = (doe - doe / 1460 + doe / 36524 - doe / 146096) / 365;
    let doy = doe - (365 * yoe + yoe / 4 - yoe / 100);
    assert(0 <= yoe <= 399);
    assert(0 <= doy <= 365);
    let k = yoe + 1;
    if doy == 365 && k < 400 && (k % 4 != 0 || k % 100 == 0) {
        let c = k / 100;
        let q = k % 100 / 4;
        let r = k % 4;
        assert(k == 100 * c + 4 * q + r);
        assert(k / 4 - yoe / 4 == k / 100 - yoe / 100);
        assert(k / 4 == 25 * c + q);
        assert(doe == 365 * k + k / 4 - k / 100);
        lemma_first_day(c, q, r);
        assert(false);
    }
}

/// A day has a date that its month has.
#[verifier::spinoff_prover]
pub proof fn dates_lie_in_their_month(days: int)
    ensures
        ({
            let (y, m, d) = civil_from_days(days);
            &&& days_from_civil(y, m, d) == days
            &&& 1 <= m <= 12
            &&& 1 <= d <= month_length(y, m)
        }),
{
    days_from_civil_from_days(days);
    let z = days + 719468;
    let doe = z % 146097;
    let era = z / 146097;
    lemma_last_day(doe);
    let yoe = (doe - doe / 1460 + doe / 36524 - doe / 146096) / 365;
    let doy = doe - (365 * yoe + yoe / 4 - yoe / 100);
    lemma_month(yoe, era, doy);
}

proof fn lemma_month(yoe: int, era: int, doy: int)
    requires
        0 <= yoe <= 399,
        0 <= doy <= 365,
        (yoe + 1 == 400 || ((yoe + 1) % 4 == 0 && (yoe + 1) % 100 != 0)) || doy <= 364,
    ensures
        ({
            let mp = (5 * doy + 2) / 153;
            let m = if mp < 10 {
                mp + 3
            } else {
                mp - 9
            };
            let y = yoe + era * 400;
            let d = doy - (153 * mp + 2) / 5 + 1;
            1 <= d <= month_length(
                if m <= 2 {
                    y + 1
                } else {
                    y
                },
                m,
            )
        }),
{
    let mp = (5 * doy + 2) / 153;
    assert(0 <= mp <= 11);
    let d = doy - (153 * mp + 2) / 5 + 1;
    if mp == 11 {
        let y = yoe + era * 400 + 1;
        lemma_same_rule(yoe + 1, era);
        assert(month_length(y, 2) == 29 || doy <= 364);
        assert((153 * mp + 2) / 5 == 337);
    } else {
        lemma_short_month(mp, doy);
    }
}

proof fn lemma_same_rule(a: int, era: int)
    ensures
        (a + era * 400) % 400 == a % 400,
        (a + era * 400) % 100 == a % 100,
        (a + era * 400) % 4 == a % 4,
{
    lemma_mod_multiples_vanish(era, a, 400);
    lemma_mod_multiples_vanish(era * 4, a, 100);
    lemma_mod_multiples_vanish(era * 100, a, 4);
}

proof fn lemma_short_month(mp: int, doy: int)
    requires
        0 <= mp <= 10,
        mp == (5 * doy + 2) / 153,
    ensures
        1 <= doy - (153 * mp + 2) / 5 + 1 <= (if mp == 1 || mp == 3 || mp == 6 || mp == 8 {
            30int
        } else {
            31
        }),
{
    if mp == 0 {
        assert((153 * mp + 2) / 5 == 0);
        assert(0 <= doy < 31);
    }
    if mp == 1 {
        assert((153 * mp + 2) / 5 == 31);
        assert(31 <= doy < 61);
    }
    if mp == 2 {
        assert((153 * mp + 2) / 5 == 61);
        assert(61 <= doy < 92);
    }
    if mp == 3 {
        assert((153 * mp + 2) / 5 == 92);
        assert(92 <= doy < 122);
    }
    if mp == 4 {
        assert((153 * mp + 2) / 5 == 122);
        assert(122 <= doy < 153);
    }
    if mp == 5 {
        assert((153 * mp + 2) / 5 == 153);
        assert(153 <= doy < 184);
    }
    if mp == 6 {
        assert((153 * mp + 2) / 5 == 184);
        assert(184 <= doy < 214);
    }
    if mp == 7 {
        assert((153 * mp + 2) / 5 == 214);
        assert(214 <= doy < 245);
    }
    if mp == 8 {
        assert((153 * mp + 2) / 5 == 245);
        assert(245 <= doy < 275);
    }
    if mp == 9 {
        assert((153 * mp + 2) / 5 == 275);
        assert(275 <= doy < 306);
    }
    if mp == 10 {
        assert((153 * mp + 2) / 5 == 306);
        assert(306 <= doy < 337);
    }
}

/// The character that stands for a digit.
pub open spec fn numeral(d: int) -> char {
    "0123456789"@[d]
}

/// A number below a hundred in two digits.
pub open spec fn two_digits(n: int) -> Seq<char> {
    seq![numeral(n / 10), numeral(n % 10)]
}

/// A date and a time of day, as `2025-03-15T10:30:00Z`.
pub open spec fn date_text(y: int, m: int, d: int, h: int, n: int, s: int) -> Seq<char> {
    two_digits(y / 100) + two_digits(y % 100) + seq!['-'] + two_digits(m) + seq!['-'] + two_digits(
        d,
    ) + seq!['T'] + two_digits(h) + seq![':'] + two_digits(n) + seq![':'] + two_digits(s) + seq![
        'Z',
    ]
}

proof fn lemma_numeral(d: int)
    requires
        0 <= d <= 9,
    ensures
        numeral(d) == digit_char(d),
        numeral(d) as int == d + '0' as int,
{
    reveal_strlit("0123456789");
}

proof fn lemma_two(n: int, s: Seq<char>, at: int, default: i64)
    requires
        0 <= n < 100,
        0 <= at,
        at + 2 <= s.len(),
        s[at] == numeral(n / 10),
        s[at + 1] == numeral(n % 10),
    ensures
        number_at(s, at, at + 2, default) == n,
{
    lemma_numeral(n / 10);
    lemma_numeral(n % 10);
    let e = Seq::<char>::empty();
    let t = s.subrange(at, at + 2);
    assert(t =~= e.push(t[0]).push(t[1]));
    lemma_digits_push(e, t[0]);
    lemma_digits_push(e.push(t[0]), t[1]);
    assert(all_digits(t));
    assert(digits_value(t) == n);
}

proof fn lemma_four(n: int, s: Seq<char>, default: i64)
    requires
        0 <= n < 10000,
        4 <= s.len(),
        s[0] == numeral(n / 100 / 10),
        s[1] == numeral(n / 100 % 10),
        s[2] == numeral(n % 100 / 10),
        s[3] == numeral(n % 100 % 10),
    ensures
        number_at(s, 0, 4, default) == n,
{
    lemma_numeral(n / 100 / 10);
    lemma_numeral(n / 100 % 10);
    lemma_numeral(n % 100 / 10);
    lemma_numeral(n % 100 % 10);
    let e = Seq::<char>::empty();
    let t = s.subrange(0, 4);
    let a = e.push(t[0]);
    let b = a.push(t[1]);
    let c = b.push(t[2]);
    assert(t =~= c.push(t[3]));
    lemma_digits_push(e, t[0]);
    lemma_digits_push(a, t[1]);
    lemma_digits_push(b, t[2]);
    lemma_digits_push(c, t[3]);
    assert(all_digits(t));
    assert(digits_value(t) == n);
}

/// A date that is written out is read back: year, month, day, hour, minute and
/// second, each from its place, and with them the moment.
#[verifier::spinoff_prover]
pub proof fn written_dates_are_read(y: int, m: int, d: int, h: int, n: int, s: int)
    requires
        0 <= y < 10000,
        0 <= m < 100,
        0 <= d < 100,
        0 <= h < 100,
        0 <= n < 100,
        0 <= s < 100,
    ensures
        ({
            let p = parts_of_text(date_text(y, m, d, h, n, s));
            &&& p.year == y && p.month == m && p.day == d
            &&& p.hour == h && p.minute == n && p.second == s
            &&& p.epoch_ms == (days_from_civil(y, m, d) * 86400 + h * 3600 + n * 60 + s) * 1000
        }),
        ({
            let p = parts_of_text(date_text(y, m, d, h, n, s).take(10));
            &&& p.year == y && p.month == m && p.day == d
            &&& p.hour == 0 && p.minute == 0 && p.second == 0
            &&& p.epoch_ms == days_from_civil(y, m, d) * 86400 * 1000
        }),
{
    let t = date_text(y, m, d, h, n, s);
    let u = t.take(10);
    assert(t.len() == 20);
    lemma_four(y, t, 1970);
    lemma_two(m, t, 5, 1);
    lemma_two(d, t, 8, 1);
    lemma_two(h, t, 11, 0);
    lemma_two(n, t, 14, 0);
    lemma_two(s, t, 17, 0);
    lemma_four(y, u, 1970);
    lemma_two(m, u, 5, 1);
    lemma_two(d, u, 8, 1);
    assert(-800_000 < days_from_civil(y, m, d) < 4_000_000);
}

proof fn lemma_padded_two(n: nat)
    requires
        n < 100,
    ensures
        padded(n, 2) == two_digits(n as int),
{
    lemma_numeral(n as int / 10);
    lemma_numeral(n as int % 10);
    assert(nat_text(n / 10) == seq![digit_char(n as int / 10)]);
    if n < 10 {
        assert(padded(n, 2) =~= zeros(1) + nat_text(n));
        assert(numeral(0) == '0') by {
            lemma_numeral(0);
        }
    }
    assert(padded(n, 2) =~= two_digits(n as int));
}

proof fn lemma_padded_four(n: nat)
    requires
        1000 <= n < 10000,
    ensures
        padded(n, 4) == two_digits(n as int / 100) + two_digits(n as int % 100),
{
    lemma_numeral(n as int / 100 / 10);
    lemma_numeral(n as int / 100 % 10);
    lemma_numeral(n as int % 100 / 10);
    lemma_numeral(n as int % 100 % 10);
    assert(nat_text(n / 1000) == seq![digit_char(n as int / 1000)]);
    assert(n / 100 / 10 == n / 1000);
    assert(nat_text(n / 100) == nat_text(n / 1000).push(digit_char(n as int / 100 % 10)));
    assert(n / 10 / 10 == n / 100);
    assert(nat_text(n / 10) == nat_text(n / 100).push(digit_char(n as int / 10 % 10)));
    assert(n as int / 10 % 10 == n as int % 100 / 10);
    assert(n as int % 100 % 10 == n as int % 10);
    assert(padded(n, 4) =~= two_digits(n as int / 100) + two_digits(n as int % 100));
}

proof fn lemma_years(days: int)
    requires
        0 <= days < days_from_civil(10000, 1, 1),
    ensures
        1970 <= civil_from_days(days).0 <= 9999,
{
    let z = days + 719468;
    let doe = z % 146097;
    lemma_last_day(doe);
    assert(quot(1532, 5) == 306);
    assert(days_from_civil(10000, 1, 1) == 2932897);
    let era = z / 146097;
    let yoe = (doe - doe / 1460 + doe / 36524 - doe / 146096) / 365;
    let doy = doe - (365 * yoe + yoe / 4 - yoe / 100);
    let mp = (5 * doy + 2) / 153;
    assert(4 <= era <= 24);
    if era == 4 {
        assert(doe >= 135080);
        assert(yoe >= 369);
        if yoe == 369 {
            assert(doy >= 306);
            assert(mp >= 10);
        }
    }
    if era == 24 && yoe == 399 {
        assert(doe < 146037);
        assert(doy < 306);
        assert(mp < 10);
    }
}

proof fn lemma_written(y: nat, m: nat, d: nat, h: nat, n: nat, s: nat)
    requires
        1000 <= y < 10000,
        m < 100,
        d < 100,
        h < 100,
        n < 100,
        s < 100,
    ensures
        padded(y, 4) + "-"@ + padded(m, 2) + "-"@ + padded(d, 2) + "T"@ + padded(h, 2) + ":"@
            + padded(n, 2) + ":"@ + padded(s, 2) + "Z"@ == date_text(
            y as int,
            m as int,
            d as int,
            h as int,
            n as int,
            s as int,
        ),
{
    lemma_padded_four(y);
    lemma_padded_two(m);
    lemma_padded_two(d);
    lemma_padded_two(h);
    lemma_padded_two(n);
    lemma_padded_two(s);
    reveal_strlit("-");
    reveal_strlit("T");
    reveal_strlit(":");
    reveal_strlit("Z");
    assert("-"@ =~= seq!['-']);
    assert("T"@ =~= seq!['T']);
    assert(":"@ =~= seq![':']);
    assert("Z"@ =~= seq!['Z']);
}

/// The moment of a build is written as the date and the time of day that it
/// has in the calendar, up to the year 9999.
#[verifier::spinoff_prover]
pub proof fn moments_are_written_as_dates(secs: nat)
    requires
        secs < days_from_civil(10000, 1, 1) * 86400,
    ensures
        exists|y: int, m: int, d: int, h: int, n: int, s: int|
            {
                &&& #[trigger] date_text(y, m, d, h, n, s) == utc_text(secs)
                &&& 1970 <= y <= 9999 && 1 <= m <= 12 && 1 <= d <= month_length(y, m)
                &&& 0 <= h < 24 && 0 <= n < 60 && 0 <= s < 60
                &&& days_from_civil(y, m, d) * 86400 + h * 3600 + n * 60 + s == secs
            },
{
    let days = (secs / 86400) as int;
    let tod = secs % 86400;
    let (y, m, d) = civil_from_days(days);
    dates_lie_in_their_month(days);
    lemma_years(days);
    let h = tod / 3600;
    let n = (tod % 3600) / 60;
    let s = tod % 60;
    lemma_written(y as nat, m as nat, d as nat, h, n, s);
    let t = date_text(y, m, d, h as int, n as int, s as int);
    assert(t == utc_text(secs));
}

} // verus!

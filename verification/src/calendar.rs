//! Days and dates of the Gregorian calendar, and the clock text of an instant.

use vstd::prelude::*;
use vstd::string::*;

use crate::numbers;
use crate::numbers::push_padded;

verus! {

/// Whether `y` has a 29th of February.
pub open spec fn is_leap(y: int) -> bool {
    y % 4 == 0 && (y % 100 != 0 || y % 400 == 0)
}

pub open spec fn days_in_month(y: int, m: int) -> int {
    if m == 2 {
        if is_leap(y) {
            29
        } else {
            28
        }
    } else if m == 4 || m == 6 || m == 9 || m == 11 {
        30
    } else {
        31
    }
}

pub open spec fn valid_date(y: int, m: int, d: int) -> bool {
    1 <= m <= 12 && 1 <= d <= days_in_month(y, m)
}

/// Days of year `y` before its month `m`.
pub open spec fn days_before_month(y: int, m: int) -> int
    decreases m,
{
    if m <= 1 {
        0
    } else {
        days_before_month(y, m - 1) + days_in_month(y, m - 1)
    }
}

/// Days from the first of January 1970 to the first of January of year `y`.
pub open spec fn days_before_year(y: int) -> int {
    365 * (y - 1970) + ((y - 1) / 4 - (y - 1) / 100 + (y - 1) / 400) - 477
}

/// Days from the first of January 1970 to the given date.
pub open spec fn day_number(y: int, m: int, d: int) -> int {
    days_before_year(y) + days_before_month(y, m) + d - 1
}

/// The date that follows, as (year, month, day).
pub open spec fn next_date(y: int, m: int, d: int) -> (int, int, int) {
    if d < days_in_month(y, m) {
        (y, m, d + 1)
    } else if m < 12 {
        (y, m + 1, 1)
    } else {
        (y + 1, 1, 1)
    }
}

/// `YYYY-MM-DD HH:MM`.
pub open spec fn stamp(y: int, m: int, d: int, hh: int, mm: int) -> Seq<char> {
    numbers::padded_signed(y, 4) + seq!['-'] + numbers::padded(m as nat, 2) + seq!['-']
        + numbers::padded(d as nat, 2) + seq![' '] + numbers::padded(hh as nat, 2) + seq![':']
        + numbers::padded(mm as nat, 2)
}

/// `s` shows the minute in which the instant `unix` (seconds since 1970) falls.
pub open spec fn shows_instant(s: Seq<char>, unix: int) -> bool {
    exists|y: int, m: int, d: int|
        #![trigger day_number(y, m, d)]
        valid_date(y, m, d) && day_number(y, m, d) == unix / 86400 && s == stamp(
            y,
            m,
            d,
            (unix % 86400) / 3600,
            (unix % 86400) / 60 % 60,
        )
}

/// The epoch is the first of January 1970.
pub proof fn law_epoch()
    ensures
        day_number(1970, 1, 1) == 0,
{
}

proof fn lemma_months(y: int)
    ensures
        days_before_month(y, 1) == 0,
        days_before_month(y, 2) == 31,
        days_before_month(y, 3) == 31 + days_in_month(y, 2),
        days_before_month(y, 4) == 62 + days_in_month(y, 2),
        days_before_month(y, 5) == 92 + days_in_month(y, 2),
        days_before_month(y, 6) == 123 + days_in_month(y, 2),
        days_before_month(y, 7) == 153 + days_in_month(y, 2),
        days_before_month(y, 8) == 184 + days_in_month(y, 2),
        days_before_month(y, 9) == 215 + days_in_month(y, 2),
        days_before_month(y, 10) == 245 + days_in_month(y, 2),
        days_before_month(y, 11) == 276 + days_in_month(y, 2),
        days_before_month(y, 12) == 306 + days_in_month(y, 2),
{
    reveal_with_fuel(days_before_month, 13);
}

/// Each date is one day after the date before it.
pub proof fn law_next_date(y: int, m: int, d: int)
    requires
        valid_date(y, m, d),
    ensures
        valid_date(next_date(y, m, d).0, next_date(y, m, d).1, next_date(y, m, d).2),
        day_number(next_date(y, m, d).0, next_date(y, m, d).1, next_date(y, m, d).2) == day_number(
            y,
            m,
            d,
        ) + 1,
{
    lemma_months(y);
    lemma_months(y + 1);
}

/// No two dates have the same day number.
pub proof fn law_day_number_injective(y1: int, m1: int, d1: int, y2: int, m2: int, d2: int)
    requires
        valid_date(y1, m1, d1),
        valid_date(y2, m2, d2),
        day_number(y1, m1, d1) == day_number(y2, m2, d2),
    ensures
        y1 == y2 && m1 == m2 && d1 == d2,
{
    lemma_months(y1);
    lemma_months(y2);
    if y1 < y2 {
        lemma_year_order(y1, y2);
    } else if y2 < y1 {
        lemma_year_order(y2, y1);
    }
}

/// Every date of an earlier year comes before the first day of a later one.
proof fn lemma_year_order(y1: int, y2: int)
    requires
        y1 < y2,
    ensures
        days_before_year(y1) + 365 + (if is_leap(y1) { 1int } else { 0 }) <= days_before_year(y2),
    decreases y2 - y1,
{
    if y2 > y1 + 1 {
        lemma_year_order(y1, y2 - 1);
        lemma_one_year(y2 - 1);
    } else {
        lemma_one_year(y1);
    }
}

proof fn lemma_one_year(y: int)
    ensures
        days_before_year(y + 1) == days_before_year(y) + 365 + (if is_leap(y) { 1int } else { 0 }),
{
}

/// Year and day of year within a cycle of 400 years that starts on a first of March.
proof fn lemma_year_of_cycle(doe: int, yoe: int)
    requires
        0 <= doe <= 146_096,
        yoe == (doe - doe / 1_460 + doe / 36_524 - doe / 146_096) / 365,
    ensures
        0 <= yoe <= 399,
        0 <= doe - (365 * yoe + yoe / 4 - yoe / 100) <= 365,
        doe - (365 * yoe + yoe / 4 - yoe / 100) == 365 ==> (yoe + 1) % 4 == 0 && ((yoe + 1) % 100 != 0
            || yoe == 399),
{
    let c = doe / 36_524;
    let b = doe / 1_460;
    assert(0 <= c <= 4);
    assert(0 <= b <= 100);
}

/// The date worked out from a day count is the date with that day number.
proof fn lemma_date(days: int, era: int, doe: int, yoe: int, doy: int, mp: int, d: int, m: int, y: int)
    requires
        days + 719_468 == 146_097 * era + doe,
        0 <= doe <= 146_096,
        yoe == (doe - doe / 1_460 + doe / 36_524 - doe / 146_096) / 365,
        doy == doe - (365 * yoe + yoe / 4 - yoe / 100),
        mp == (5 * doy + 2) / 153,
        d == doy - (153 * mp + 2) / 5 + 1,
        m == (if mp < 10 { mp + 3 } else { mp - 9 }),
        y == yoe + era * 400 + (if m <= 2 { 1int } else { 0 }),
    ensures
        valid_date(y, m, d),
        day_number(y, m, d) == days,
{
    lemma_year_of_cycle(doe, yoe);
    lemma_months(y);
    let v = yoe + era * 400;
    assert(0 <= mp <= 11);
    assert(v / 4 == yoe / 4 + 100 * era);
    assert(v / 100 == yoe / 100 + 4 * era);
    assert(v / 400 == era);
    assert(v % 4 == yoe % 4 && v % 100 == yoe % 100 && v % 400 == yoe);
    if m <= 2 {
        assert(y - 1 == v);
    } else {
        assert((y - 1) / 4 + (if y % 4 == 0 { 1int } else { 0 }) == y / 4);
        assert((y - 1) / 100 + (if y % 100 == 0 { 1int } else { 0 }) == y / 100);
        assert((y - 1) / 400 + (if y % 400 == 0 { 1int } else { 0 }) == y / 400);
    }
}

fn push_year(s: &mut String, y: i64)
    requires
        -1_000_000_000_000 < y < 1_000_000_000_000,
    ensures
        final(s)@ == old(s)@ + numbers::padded_signed(y as int, 4),
{
    if y < 0 {
        s.push('-');
        push_padded(s, (-y) as u64, 3);
        proof {
            assert(s@ =~= old(s)@ + numbers::padded_signed(y as int, 4));
        }
    } else {
        push_padded(s, y as u64, 4);
    }
}

/// The date of a day count, as (year, month, day).
pub fn civil_from_days(days: i64) -> (r: (i64, i64, i64))
    requires
        -200_000_000_000_000 < days < 200_000_000_000_000,
    ensures
        valid_date(r.0 as int, r.1 as int, r.2 as int),
        day_number(r.0 as int, r.1 as int, r.2 as int) == days,
        -1_000_000_000_000 < r.0 < 1_000_000_000_000,
{
    let z: i64 = days + 719_468;
    let era: i64 = z.checked_div_euclid(146_097).unwrap();
    let doe: i64 = z - era * 146_097;
    let yoe: i64 = (doe - doe / 1_460 + doe / 36_524 - doe / 146_096) / 365;
    proof {
        lemma_year_of_cycle(doe as int, yoe as int);
    }
    let doy: i64 = doe - (365 * yoe + yoe / 4 - yoe / 100);
    let mp: i64 = (5 * doy + 2) / 153;
    let d: i64 = doy - (153 * mp + 2) / 5 + 1;
    let m: i64 = if mp < 10 {
        mp + 3
    } else {
        mp - 9
    };
    let first: i64 = yoe + era * 400;
    let y: i64 = if m <= 2 {
        first + 1
    } else {
        first
    };
    proof {
        lemma_date(days as int, era as int, doe as int, yoe as int, doy as int, mp as int, d as int, m as int, y as int);
    }
    (y, m, d)
}

fn stamp_of(y: i64, m: i64, d: i64, hh: i64, mm: i64) -> (s: String)
    requires
        -1_000_000_000_000 < y < 1_000_000_000_000,
        0 <= m,
        0 <= d,
        0 <= hh,
        0 <= mm,
    ensures
        s@ == stamp(y as int, m as int, d as int, hh as int, mm as int),
{
    let mut s = String::new();
    push_year(&mut s, y);
    s.push('-');
    push_padded(&mut s, m as u64, 2);
    s.push('-');
    push_padded(&mut s, d as u64, 2);
    s.push(' ');
    push_padded(&mut s, hh as u64, 2);
    s.push(':');
    push_padded(&mut s, mm as u64, 2);
    proof {
        assert(s@ =~= stamp(y as int, m as int, d as int, hh as int, mm as int));
    }
    s
}

/// Seconds since the epoch, in universal time, as `YYYY-MM-DD HH:MM`.
pub fn format_time_utc(unix: i64) -> (r: String)
    ensures
        shows_instant(r@, unix as int),
{
    let days: i64 = unix.checked_div_euclid(86_400).unwrap();
    let secs_of_day: i64 = unix.checked_rem_euclid(86_400).unwrap();
    let (y, m, d) = civil_from_days(days);
    let hh: i64 = secs_of_day / 3_600;
    let mm: i64 = (secs_of_day / 60) % 60;
    let s = stamp_of(y, m, d, hh, mm);
    proof {
        assert(day_number(y as int, m as int, d as int) == unix as int / 86400);
    }
    s
}

/// Two texts that show the same instant are the same text: the instant fixes the text.
pub proof fn law_instant_text_unique(a: Seq<char>, b: Seq<char>, unix: int)
    requires
        shows_instant(a, unix),
        shows_instant(b, unix),
    ensures
        a == b,
{
    let (y1, m1, d1) = choose|y: int, m: int, d: int|
        #![trigger day_number(y, m, d)]
        valid_date(y, m, d) && day_number(y, m, d) == unix / 86400 && a == stamp(
            y,
            m,
            d,
            (unix % 86400) / 3600,
            (unix % 86400) / 60 % 60,
        );
    let (y2, m2, d2) = choose|y: int, m: int, d: int|
        #![trigger day_number(y, m, d)]
        valid_date(y, m, d) && day_number(y, m, d) == unix / 86400 && b == stamp(
            y,
            m,
            d,
            (unix % 86400) / 3600,
            (unix % 86400) / 60 % 60,
        );
    law_day_number_injective(y1, m1, d1, y2, m2, d2);
}

} // verus!

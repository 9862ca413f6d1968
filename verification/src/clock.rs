//! Wall-clock arithmetic: a moment as a date and a time of day, in UTC.
use vstd::prelude::*;

verus! {

/// Whether a year of the Gregorian calendar has a 29 February.
pub open spec fn is_leap_year(year: int) -> bool {
    (year % 4 == 0 && year % 100 != 0) || year % 400 == 0
}

/// The days of a month.
pub open spec fn days_in_month(year: int, month: int) -> int {
    if month == 2 {
        if is_leap_year(year) {
            29
        } else {
            28
        }
    } else if month == 4 || month == 6 || month == 9 || month == 11 {
        30
    } else {
        31
    }
}

/// The days of a year before one of its months.
pub open spec fn days_before_month(year: int, month: int) -> int
    decreases month,
{
    if month <= 1 {
        0
    } else {
        days_before_month(year, month - 1) + days_in_month(year, month - 1)
    }
}

/// The days between the first of January of year one and that of another year.
pub open spec fn days_before_year(year: int) -> int {
    let y = year - 1;
    365 * y + y / 4 - y / 100 + y / 400
}

/// Whether a date is on the calendar.
pub open spec fn valid_date(year: int, month: int, day: int) -> bool {
    1 <= month <= 12 && 1 <= day <= days_in_month(year, month)
}

/// The number of a date, counted in days from 1 January 1970.
pub open spec fn day_number(year: int, month: int, day: int) -> int {
    days_before_year(year) - days_before_year(1970) + days_before_month(year, month) + day - 1
}

/// The days before each month.
proof fn lemma_days_before_month(year: int)
    ensures
        days_before_month(year, 1) == 0,
        days_before_month(year, 2) == 31,
        ({
            let f = days_in_month(year, 2);
            &&& days_before_month(year, 3) == 31 + f
            &&& days_before_month(year, 4) == 62 + f
            &&& days_before_month(year, 5) == 92 + f
            &&& days_before_month(year, 6) == 123 + f
            &&& days_before_month(year, 7) == 153 + f
            &&& days_before_month(year, 8) == 184 + f
            &&& days_before_month(year, 9) == 215 + f
            &&& days_before_month(year, 10) == 245 + f
            &&& days_before_month(year, 11) == 276 + f
            &&& days_before_month(year, 12) == 306 + f
        }),
{
    reveal_with_fuel(days_before_month, 13);
}

/// One more than a number has one more multiple of `d` behind it where it is such a multiple.
proof fn lemma_multiples(n: int, d: int)
    requires
        d > 1,
    ensures
        n / d == (n - 1) / d + (if n % d == 0 {
            1int
        } else {
            0
        }),
{
    vstd::arithmetic::div_mod::lemma_fundamental_div_mod(n, d);
    vstd::arithmetic::div_mod::lemma_fundamental_div_mod(n - 1, d);
    vstd::arithmetic::div_mod::lemma_mod_bound(n, d);
    let q = n / d;
    let r = n % d;
    assert(n - 1 == q * d + (r - 1)) by (nonlinear_arith)
        requires
            n == d * q + r,
    ;
    if r == 0 {
        assert(n - 1 == d * (q - 1) + (d - 1)) by (nonlinear_arith)
            requires
                n == d * q,
        ;
        vstd::arithmetic::div_mod::lemma_fundamental_div_mod_converse(n - 1, d, q - 1, d - 1);
    } else {
        vstd::arithmetic::div_mod::lemma_fundamental_div_mod_converse(n - 1, d, q, r - 1);
    }
}

/// The days before a year grow by the length of the year before it.
proof fn lemma_year_length(year: int)
    ensures
        days_before_year(year + 1) == days_before_year(year) + 365 + (if is_leap_year(year) {
            1int
        } else {
            0
        }),
{
    lemma_multiples(year, 4);
    lemma_multiples(year, 100);
    lemma_multiples(year, 400);
    assert(year % 400 == 0 ==> year % 100 == 0);
    assert(year % 100 == 0 ==> year % 4 == 0);
}

/// Later years start later.
proof fn lemma_years_grow(a: int, b: int)
    requires
        a <= b,
    ensures
        days_before_year(b) >= days_before_year(a) + 365 * (b - a),
    decreases b - a,
{
    if a < b {
        lemma_years_grow(a, b - 1);
        lemma_year_length(b - 1);
    }
}

/// A date comes before the end of its year, and a later month starts after an earlier one has ended.
proof fn lemma_months_grow(year: int, a: int, b: int)
    requires
        1 <= a < b <= 13,
    ensures
        days_before_month(year, a) + days_in_month(year, a) <= days_before_month(year, b),
    decreases b - a,
{
    if a + 1 < b {
        lemma_months_grow(year, a, b - 1);
    }
}

/// Dates are numbered in calendar order: an earlier date has a smaller number.
pub proof fn law_dates_are_numbered_in_order(
    y1: int,
    m1: int,
    d1: int,
    y2: int,
    m2: int,
    d2: int,
)
    requires
        valid_date(y1, m1, d1),
        valid_date(y2, m2, d2),
        y1 < y2 || (y1 == y2 && (m1 < m2 || (m1 == m2 && d1 < d2))),
    ensures
        day_number(y1, m1, d1) < day_number(y2, m2, d2),
{
    lemma_days_before_month(y1);
    lemma_days_before_month(y2);
    if y1 < y2 {
        lemma_year_length(y1);
        lemma_years_grow(y1 + 1, y2);
        reveal_with_fuel(days_before_month, 2);
        assert(days_before_month(y1, 13) == days_before_month(y1, 12) + 31);
        lemma_months_grow(y1, m1, 13);
        if m2 > 1 {
            lemma_months_grow(y2, 1, m2);
        }
    } else if m1 < m2 {
        lemma_months_grow(y1, m1, m2);
    }
}

/// Every day has one date.
pub proof fn law_a_day_has_one_date(y1: int, m1: int, d1: int, y2: int, m2: int, d2: int)
    requires
        valid_date(y1, m1, d1),
        valid_date(y2, m2, d2),
        day_number(y1, m1, d1) == day_number(y2, m2, d2),
    ensures
        y1 == y2 && m1 == m2 && d1 == d2,
{
    if y1 < y2 || (y1 == y2 && (m1 < m2 || (m1 == m2 && d1 < d2))) {
        law_dates_are_numbered_in_order(y1, m1, d1, y2, m2, d2);
    } else if y2 < y1 || (y1 == y2 && (m2 < m1 || (m1 == m2 && d2 < d1))) {
        law_dates_are_numbered_in_order(y2, m2, d2, y1, m1, d1);
    }
}

/// The number of the first of March, in terms of the years since the last one divisible by 400.
proof fn lemma_first_of_march(era: int, century: int, cycle: int, rest: int)
    requires
        0 <= century <= 3,
        0 <= cycle <= 24,
        0 <= rest <= 3,
    ensures
        ({
            let year = 400 * era + 100 * century + 4 * cycle + rest;
            day_number(year, 3, 1) == 146_097 * era + 36_524 * century + 1_461 * cycle + 365 * rest
                - 719_468
        }),
{
    let year = 400 * era + 100 * century + 4 * cycle + rest;
    lemma_days_before_month(year);
    lemma_year_length(year);
    // The first of March is as far from the next new year as in a year without a leap day.
    assert(day_number(year, 3, 1) == days_before_year(year + 1) - days_before_year(1970) - 306);
    assert(days_before_year(year + 1) == 365 * year + year / 4 - year / 100 + year / 400);
    assert(year / 4 == 100 * era + 25 * century + cycle);
    assert(year / 100 == 4 * era + century);
    assert(year / 400 == era);
    assert(days_before_year(1970) == 719_162);
}

/// A day of the 400-year cycle that starts in March, as the centuries, the four-year cycles, the
/// years and the days before it.
fn split_cycle(day_of_cycle: i64) -> (parts: (i64, i64, i64, i64))
    requires
        0 <= day_of_cycle < 146_097,
    ensures
        ({
            let (century, cycle, rest, day) = parts;
            &&& 0 <= century <= 3
            &&& 0 <= cycle <= 24
            &&& 0 <= rest <= 3
            &&& 0 <= day <= 365
            &&& day == 365 ==> rest == 3 && (cycle < 24 || century == 3)
            &&& day_of_cycle == 36_524 * century + 1_461 * cycle + 365 * rest + day
        }),
{
    let mut day: i64 = day_of_cycle;
    let century: i64 = if day / 36_524 > 3 {
        3
    } else {
        day / 36_524
    };
    day = day - century * 36_524;
    assert(0 <= day <= 36_524 && (century < 3 ==> day < 36_524));
    let cycle: i64 = day / 1_461;
    assert(day <= 36_524 ==> cycle <= 24);
    day = day - cycle * 1_461;
    assert(0 <= day < 1_461);
    assert(cycle == 24 && century < 3 ==> day < 1_460);
    let rest: i64 = if day / 365 > 3 {
        3
    } else {
        day / 365
    };
    day = day - rest * 365;
    (century, cycle, rest, day)
}

/// Whether the year after a March-based one has a leap day at the end of it.
#[verifier::rlimit(40)]
proof fn lemma_leap_at_the_end(era: int, century: int, cycle: int)
    requires
        0 <= century <= 3,
        0 <= cycle <= 24,
        cycle < 24 || century == 3,
    ensures
        is_leap_year(400 * era + 100 * century + 4 * cycle + 4),
{
    let next = 400 * era + 100 * century + 4 * cycle + 4;
    if cycle < 24 {
        assert(next % 4 == 0);
        assert(next % 100 == 4 * cycle + 4);
    } else {
        assert(next == 400 * (era + 1));
        assert(next % 400 == 0);
    }
}

/// The date of a day, counted from the first of March.
fn date_from_march(march_year: i64, day: i64) -> (date: (i64, i64, i64))
    requires
        -100_000_000_000_000_000 <= march_year <= 100_000_000_000_000_000,
        0 <= day <= 365,
        day == 365 ==> is_leap_year(march_year + 1),
    ensures
        valid_date(date.0 as int, date.1 as int, date.2 as int),
        day_number(date.0 as int, date.1 as int, date.2 as int) == day_number(
            march_year as int,
            3,
            1,
        ) + day,
{
    proof {
        lemma_days_before_month(march_year as int);
        lemma_days_before_month(march_year + 1);
        lemma_year_length(march_year as int);
    }
    if day < 31 {
        (march_year, 3, day + 1)
    } else if day < 61 {
        (march_year, 4, day - 30)
    } else if day < 92 {
        (march_year, 5, day - 60)
    } else if day < 122 {
        (march_year, 6, day - 91)
    } else if day < 153 {
        (march_year, 7, day - 121)
    } else if day < 184 {
        (march_year, 8, day - 152)
    } else if day < 214 {
        (march_year, 9, day - 183)
    } else if day < 245 {
        (march_year, 10, day - 213)
    } else if day < 275 {
        (march_year, 11, day - 244)
    } else if day < 306 {
        (march_year, 12, day - 274)
    } else if day < 337 {
        (march_year + 1, 1, day - 305)
    } else {
        (march_year + 1, 2, day - 336)
    }
}

/// The date of a day, counted from 1 January 1970.
pub fn civil_date_from_unix_days(days: i64) -> (date: (i64, i64, i64))
    requires
        days <= i64::MAX - 719_468,
    ensures
        valid_date(date.0 as int, date.1 as int, date.2 as int),
        day_number(date.0 as int, date.1 as int, date.2 as int) == days,
{
    // Years that start in March end with the leap day, and their 400-year cycle has a fixed length.
    let shifted: i64 = days + 719_468;
    let mut era: i64 = shifted / 146_097;
    let mut day_of_cycle: i64 = shifted % 146_097;
    if day_of_cycle < 0 {
        era = era - 1;
        day_of_cycle = day_of_cycle + 146_097;
    }
    assert(shifted == era * 146_097 + day_of_cycle);
    assert(0 <= day_of_cycle < 146_097);
    let (century, cycle, rest, day) = split_cycle(day_of_cycle);
    let march_year: i64 = era * 400 + century * 100 + cycle * 4 + rest;
    proof {
        lemma_first_of_march(era as int, century as int, cycle as int, rest as int);
        if day == 365 {
            lemma_leap_at_the_end(era as int, century as int, cycle as int);
        }
    }
    date_from_march(march_year, day)
}

/// The whole seconds of a moment, as far as they can be counted.
pub open spec fn whole_seconds(unix_micros: u128) -> int {
    if unix_micros / 1_000_000 > i64::MAX {
        i64::MAX as int
    } else {
        (unix_micros / 1_000_000) as int
    }
}

/// Whether parts are those of a moment.
pub open spec fn are_parts_of(
    parts: (i64, i64, i64, i64, i64, i64, u32),
    unix_micros: u128,
) -> bool {
    let seconds = whole_seconds(unix_micros);
    &&& valid_date(parts.0 as int, parts.1 as int, parts.2 as int)
    &&& day_number(parts.0 as int, parts.1 as int, parts.2 as int) == seconds / 86_400
    &&& 1970 <= parts.0 <= 1_000_000_000_000
    &&& 0 <= parts.3 < 24
    &&& 0 <= parts.4 < 60
    &&& 0 <= parts.5 < 60
    &&& 3_600 * parts.3 + 60 * parts.4 + parts.5 == seconds % 86_400
    &&& parts.6 == unix_micros % 1_000_000 / 1_000
}

/// The parts of a moment.
pub open spec fn parts_at(unix_micros: u128) -> (i64, i64, i64, i64, i64, i64, u32) {
    choose|parts: (i64, i64, i64, i64, i64, i64, u32)| are_parts_of(parts, unix_micros)
}

/// A moment has one set of parts.
pub proof fn law_a_moment_has_one_set_of_parts(
    a: (i64, i64, i64, i64, i64, i64, u32),
    b: (i64, i64, i64, i64, i64, i64, u32),
    unix_micros: u128,
)
    requires
        are_parts_of(a, unix_micros),
        are_parts_of(b, unix_micros),
    ensures
        a == b,
{
    law_a_day_has_one_date(
        a.0 as int,
        a.1 as int,
        a.2 as int,
        b.0 as int,
        b.1 as int,
        b.2 as int,
    );
}

/// The year of a moment after 1969 is not before 1970, and no later than its days allow.
proof fn lemma_year_range(year: int, month: int, day: int)
    requires
        valid_date(year, month, day),
        0 <= day_number(year, month, day) <= 200_000_000_000_000,
    ensures
        1970 <= year <= 1_000_000_000_000,
{
    lemma_days_before_month(year);
    if year < 1970 {
        lemma_years_grow(year + 1, 1970);
        lemma_year_length(year);
        assert(days_before_month(year, month) + day <= 366);
        law_dates_are_numbered_in_order(year, month, day, 1970, 1, 1);
        lemma_days_before_month(1970);
    }
    if year > 1_000_000_000_000 {
        lemma_years_grow(1970, year);
    }
}

/// The hour, minute and second of a number of seconds since midnight.
fn time_of_day(seconds: i64) -> (time: (i64, i64, i64))
    requires
        0 <= seconds < 86_400,
    ensures
        0 <= time.0 < 24,
        0 <= time.1 < 60,
        0 <= time.2 < 60,
        3_600 * time.0 + 60 * time.1 + time.2 == seconds,
{
    let hour: i64 = seconds / 3_600;
    let minutes: i64 = (seconds - hour * 3_600) / 60;
    (hour, minutes, seconds - hour * 3_600 - minutes * 60)
}

/// Splits a moment, in microseconds since the Unix epoch, into its parts in UTC.
pub fn utc_parts(unix_micros: u128) -> (parts: (i64, i64, i64, i64, i64, i64, u32))
    ensures
        are_parts_of(parts, unix_micros),
        parts == parts_at(unix_micros),
{
    let whole: u128 = unix_micros / 1_000_000;
    let seconds: i64 = if whole > i64::MAX as u128 {
        i64::MAX
    } else {
        whole as i64
    };
    let millis: u32 = ((unix_micros % 1_000_000) / 1_000) as u32;
    let days: i64 = seconds / 86_400;
    let seconds_of_day: i64 = seconds % 86_400;
    let (year, month, day) = civil_date_from_unix_days(days);
    proof {
        lemma_year_range(year as int, month as int, day as int);
    }
    let (hour, minute, second) = time_of_day(seconds_of_day);
    let parts = (year, month, day, hour, minute, second, millis);
    proof {
        assert(are_parts_of(parts, unix_micros));
        law_a_moment_has_one_set_of_parts(parts, parts_at(unix_micros), unix_micros);
    }
    parts
}

/// Every day from 1 January 1970 on has a date.
proof fn lemma_a_day_has_a_date(days: nat) -> (date: (int, int, int))
    ensures
        valid_date(date.0, date.1, date.2),
        day_number(date.0, date.1, date.2) == days,
    decreases days,
{
    if days == 0 {
        lemma_days_before_month(1970);
        (1970, 1, 1)
    } else {
        let (year, month, day) = lemma_a_day_has_a_date((days - 1) as nat);
        lemma_days_before_month(year);
        lemma_days_before_month(year + 1);
        lemma_year_length(year);
        if day < days_in_month(year, month) {
            (year, month, day + 1)
        } else if month < 12 {
            (year, month + 1, 1)
        } else {
            (year + 1, 1, 1)
        }
    }
}

/// Every moment has its parts.
pub proof fn law_every_moment_has_parts(unix_micros: u128)
    ensures
        are_parts_of(parts_at(unix_micros), unix_micros),
{
    let seconds = whole_seconds(unix_micros);
    let (year, month, day) = lemma_a_day_has_a_date((seconds / 86_400) as nat);
    lemma_year_range(year, month, day);
    let rest = seconds % 86_400;
    let (hour, minute, second) = (rest / 3_600, rest % 3_600 / 60, rest % 60);
    let millis = (unix_micros % 1_000_000 / 1_000) as u32;
    let parts = (
        year as i64,
        month as i64,
        day as i64,
        hour as i64,
        minute as i64,
        second as i64,
        millis,
    );
    assert(are_parts_of(parts, unix_micros));
}

/// Whether parts come before others: the first that differ decide.
pub open spec fn earlier_parts(
    a: (i64, i64, i64, i64, i64, i64, u32),
    b: (i64, i64, i64, i64, i64, i64, u32),
) -> bool {
    a.0 < b.0 || a.0 == b.0 && (a.1 < b.1 || a.1 == b.1 && (a.2 < b.2 || a.2 == b.2 && (a.3 < b.3
        || a.3 == b.3 && (a.4 < b.4 || a.4 == b.4 && (a.5 < b.5 || a.5 == b.5 && a.6 < b.6)))))
}

/// A later millisecond has later parts, as long as its seconds can be counted.
pub proof fn law_later_moments_have_later_parts(earlier: u128, later: u128)
    requires
        earlier / 1_000 < later / 1_000,
        later / 1_000_000 <= i64::MAX,
    ensures
        earlier_parts(parts_at(earlier), parts_at(later)),
{
    law_every_moment_has_parts(earlier);
    law_every_moment_has_parts(later);
    let (a, b) = (parts_at(earlier), parts_at(later));
    let (s, t) = (whole_seconds(earlier), whole_seconds(later));
    assert(s <= t);
    if s / 86_400 == t / 86_400 {
        law_a_day_has_one_date(
            a.0 as int,
            a.1 as int,
            a.2 as int,
            b.0 as int,
            b.1 as int,
            b.2 as int,
        );
        assert(s % 86_400 <= t % 86_400);
        if s == t {
            assert(earlier % 1_000_000 / 1_000 < later % 1_000_000 / 1_000);
        }
    } else if !earlier_parts(a, b) {
        let (d, e) = (s / 86_400, t / 86_400);
        assert(d < e);
        if (a.0, a.1, a.2) != (b.0, b.1, b.2) {
            law_dates_are_numbered_in_order(
                b.0 as int,
                b.1 as int,
                b.2 as int,
                a.0 as int,
                a.1 as int,
                a.2 as int,
            );
        }
    }
}

/// A moment before the year 10000 has a year of four digits.
pub proof fn lemma_four_digit_year(unix_micros: u128)
    requires
        unix_micros < 253_402_300_800_000_000,
    ensures
        1970 <= parts_at(unix_micros).0 <= 9_999,
{
    law_every_moment_has_parts(unix_micros);
    let parts = parts_at(unix_micros);
    if parts.0 >= 10_000 {
        lemma_years_grow(10_000, parts.0 as int);
        lemma_days_before_month(parts.0 as int);
        assert(days_before_month(parts.0 as int, parts.1 as int) >= 0);
        assert(days_before_year(10_000) - days_before_year(1970) == 2_932_897);
    }
}

/// The parts of a moment add up to it, to the millisecond: its days since 1 January 1970, its hours,
/// its minutes, its seconds and its milliseconds.
pub proof fn law_parts_add_up_to_their_moment(unix_micros: u128)
    requires
        unix_micros / 1_000_000 <= i64::MAX,
    ensures
        ({
            let (year, month, day, hour, minute, second, millis) = parts_at(unix_micros);
            let days = day_number(year as int, month as int, day as int);
            &&& 0 <= hour < 24 && 0 <= minute < 60 && 0 <= second < 60 && millis < 1_000
            &&& (((days * 24 + hour) * 60 + minute) * 60 + second) * 1_000 + millis == unix_micros
                / 1_000
        }),
{
    law_every_moment_has_parts(unix_micros);
    let seconds = whole_seconds(unix_micros);
    assert(seconds == 86_400 * (seconds / 86_400) + seconds % 86_400);
    assert(unix_micros / 1_000 == (unix_micros / 1_000_000) * 1_000 + unix_micros % 1_000_000
        / 1_000);
}

/// The calendar counts on from 1 January 1970, which is its first day: the day after one is the next
/// of its month, and the day after the last of a month the first of the next. April, June, September
/// and November have 30 days, February has 28 or in a leap year 29, and the others have 31. A year is
/// a leap year if four divides it, unless a hundred does and four hundred does not.
pub proof fn law_the_calendar_counts_on(year: int, month: int, day: int)
    requires
        1 <= month <= 12,
    ensures
        day_number(1970, 1, 1) == 0,
        day_number(year, month, day + 1) == day_number(year, month, day) + 1,
        ({
            let leap = year % 400 == 0 || year % 4 == 0 && year % 100 != 0;
            let length = if month == 2 {
                if leap {
                    29int
                } else {
                    28
                }
            } else if month == 4 || month == 6 || month == 9 || month == 11 {
                30
            } else {
                31
            };
            &&& valid_date(year, month, day) <==> 1 <= day <= length
            &&& month < 12 ==> day_number(year, month + 1, 1) == day_number(year, month, length) + 1
            &&& month == 12 ==> day_number(year + 1, 1, 1) == day_number(year, 12, 31) + 1
        }),
{
    lemma_days_before_month(1970);
    lemma_days_before_month(year);
    lemma_days_before_month(year + 1);
    lemma_year_length(year);
}

} // verus!

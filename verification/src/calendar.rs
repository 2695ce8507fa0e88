//! Proleptic Gregorian calendar model.
//!
//! Dates are triples of year, month and day with year 0 through 9999; a date
//! is also measured as the number of days since 0000-01-01 (day 0, a
//! Saturday). Instants add a time of day with second precision.

use crate::text::{four_digit_chars, push_four_digits, push_two_digits, two_digit_chars};
use vstd::arithmetic::div_mod::{
    lemma_fundamental_div_mod, lemma_fundamental_div_mod_converse, lemma_mod_mod,
};
use vstd::prelude::*;
use vstd::string::*;

verus! {

/// Largest representable year.
pub const MAX_YEAR: u64 = 9999;

/// Number of days from 0000-01-01 through 9999-12-31, exclusive upper bound.
pub const DAY_COUNT: u64 = 3652425;

/// A calendar date in the proleptic Gregorian calendar.
#[derive(Clone, Copy, Debug, PartialEq, Eq, Structural)]
pub struct Date {
    pub year: u64,
    pub month: u64,
    pub day: u64,
}

/// Whether year `y` is a leap year.
pub open spec fn is_leap_year(y: int) -> bool {
    (y % 4 == 0 && y % 100 != 0) || y % 400 == 0
}

/// Number of leap years in the range `[0, y)`.
pub open spec fn leap_years_before(y: int) -> int {
    (y + 3) / 4 - (y + 99) / 100 + (y + 399) / 400
}

/// Number of days in all years before year `y`, counting from year 0.
pub open spec fn days_before_year(y: int) -> int {
    365 * y + leap_years_before(y)
}

/// Number of days in month `m` of year `y`.
pub open spec fn spec_days_in_month(y: int, m: int) -> int {
    if m == 2 {
        if is_leap_year(y) {
            29
        } else {
            28
        }
    } else if m == 4 || m == 6 || m == 9 || m == 11 {
        30
    } else {
        31
    }
}

/// Number of days in the months of year `y` that precede month `m`.
pub open spec fn days_before_month(y: int, m: int) -> int {
    let base: int = if m == 1 {
        0
    } else if m == 2 {
        31
    } else if m == 3 {
        59
    } else if m == 4 {
        90
    } else if m == 5 {
        120
    } else if m == 6 {
        151
    } else if m == 7 {
        181
    } else if m == 8 {
        212
    } else if m == 9 {
        243
    } else if m == 10 {
        273
    } else if m == 11 {
        304
    } else {
        334
    };
    if m > 2 && is_leap_year(y) {
        base + 1
    } else {
        base
    }
}

impl Date {
    /// A structurally well-formed date: month and day within range for the year.
    pub open spec fn valid(self) -> bool {
        0 <= self.year <= MAX_YEAR && 1 <= self.month <= 12 && 1 <= self.day
            <= spec_days_in_month(self.year as int, self.month as int)
    }

    /// Days since 0000-01-01.
    pub open spec fn day_number(self) -> int {
        days_before_year(self.year as int) + days_before_month(
            self.year as int,
            self.month as int,
        ) + self.day - 1
    }
}

/// Whether year `y` is a leap year.
pub fn is_leap_year_exec(y: u64) -> (r: bool)
    ensures
        r == is_leap_year(y as int),
{
    (y % 4 == 0 && y % 100 != 0) || y % 400 == 0
}

/// Number of days in month `m` of year `y`.
pub fn days_in_month(y: u64, m: u64) -> (r: u64)
    requires
        1 <= m <= 12,
    ensures
        r == spec_days_in_month(y as int, m as int),
{
    if m == 2 {
        if is_leap_year_exec(y) {
            29
        } else {
            28
        }
    } else if m == 4 || m == 6 || m == 9 || m == 11 {
        30
    } else {
        31
    }
}

/// Stepping the numerator of a ceiling division by one changes the quotient
/// exactly when the step crosses a multiple of the divisor.
proof fn lemma_ceil_div_step(n: int, d: int)
    requires
        0 <= n,
        0 < d,
    ensures
        (n + d) / d - (n + d - 1) / d == if n % d == 0 {
            1int
        } else {
            0int
        },
{
    let q = n / d;
    let r = n % d;
    lemma_fundamental_div_mod(n, d);
    assert(n == d * q + r);
    assert((q + 1) * d == q * d + d) by (nonlinear_arith);
    assert(q * d == d * q) by (nonlinear_arith);
    lemma_fundamental_div_mod_converse(n + d, d, q + 1, r);
    if r == 0 {
        lemma_fundamental_div_mod_converse(n + d - 1, d, q, d - 1);
    } else {
        lemma_fundamental_div_mod_converse(n + d - 1, d, q + 1, r - 1);
    }
}

/// A year divisible by 400 is divisible by 100 and by 4, and one divisible
/// by 100 is divisible by 4.
proof fn lemma_divisibility_chain(y: int)
    requires
        0 <= y,
    ensures
        y % 400 == 0 ==> y % 100 == 0,
        y % 400 == 0 ==> y % 4 == 0,
        y % 100 == 0 ==> y % 4 == 0,
{
    lemma_mod_mod(y, 4, 100);
    lemma_mod_mod(y, 100, 4);
    lemma_mod_mod(y, 25, 4);
}

/// Extending the year range by one adds one leap year exactly when the added
/// year is a leap year.
proof fn lemma_leap_years_before_step(y: int)
    requires
        0 <= y,
    ensures
        leap_years_before(y + 1) == leap_years_before(y) + if is_leap_year(y) {
            1int
        } else {
            0int
        },
{
    lemma_ceil_div_step(y, 4);
    lemma_ceil_div_step(y, 100);
    lemma_ceil_div_step(y, 400);
    lemma_divisibility_chain(y);
}

/// Number of days in year `y`.
pub open spec fn year_days(y: int) -> int {
    if is_leap_year(y) {
        366
    } else {
        365
    }
}

/// Extending the year range by one adds that year's day count.
pub proof fn lemma_days_before_year_step(y: int)
    requires
        0 <= y,
    ensures
        days_before_year(y + 1) == days_before_year(y) + year_days(y),
{
    lemma_leap_years_before_step(y);
}

/// Day totals of year prefixes grow between 365 and 366 days per year.
pub proof fn lemma_days_before_year_mono(a: int, b: int)
    requires
        0 <= a <= b,
    ensures
        days_before_year(a) + 365 * (b - a) <= days_before_year(b),
        days_before_year(b) <= days_before_year(a) + 366 * (b - a),
    decreases b - a,
{
    if a < b {
        lemma_days_before_year_mono(a, b - 1);
        lemma_days_before_year_step(b - 1);
    }
}

/// Month prefix totals step by the month's length.
pub proof fn lemma_days_before_month_step(y: int, m: int)
    requires
        1 <= m <= 11,
    ensures
        days_before_month(y, m + 1) == days_before_month(y, m) + spec_days_in_month(y, m),
{
}

/// The months of year `y` sum to the length of year `y`.
pub proof fn lemma_months_cover_year(y: int)
    ensures
        days_before_month(y, 12) + spec_days_in_month(y, 12) == year_days(y),
{
}

/// A valid date's day number lies within its year's day range.
pub proof fn lemma_day_number_bounds(d: Date)
    requires
        d.valid(),
    ensures
        days_before_year(d.year as int) <= d.day_number(),
        d.day_number() < days_before_year(d.year as int + 1),
        0 <= d.day_number() < DAY_COUNT,
{
    lemma_days_before_year_step(d.year as int);
    lemma_days_before_year_mono(0, d.year as int);
    lemma_days_before_year_mono(d.year as int + 1, 1 + MAX_YEAR as int);
    assert(days_before_year(10000) == DAY_COUNT);
}

/// No two distinct valid dates share a day number.
pub proof fn lemma_day_number_injective(d1: Date, d2: Date)
    requires
        d1.valid(),
        d2.valid(),
        d1.day_number() == d2.day_number(),
    ensures
        d1 == d2,
{
    lemma_day_number_bounds(d1);
    lemma_day_number_bounds(d2);
    if d1.year < d2.year {
        lemma_days_before_year_mono(d1.year as int + 1, d2.year as int);
    }
    if d2.year < d1.year {
        lemma_days_before_year_mono(d2.year as int + 1, d1.year as int);
    }
    assert(d1.year == d2.year);
}

/// The day after `d`.
pub open spec fn spec_next_day(d: Date) -> Date {
    if d.day < spec_days_in_month(d.year as int, d.month as int) {
        Date { year: d.year, month: d.month, day: (d.day + 1) as u64 }
    } else if d.month < 12 {
        Date { year: d.year, month: (d.month + 1) as u64, day: 1 }
    } else {
        Date { year: (d.year + 1) as u64, month: 1, day: 1 }
    }
}

/// The date `n` days after 0000-01-01.
pub open spec fn date_of_day_number(n: nat) -> Date
    decreases n,
{
    if n == 0 {
        Date { year: 0, month: 1, day: 1 }
    } else {
        spec_next_day(date_of_day_number((n - 1) as nat))
    }
}

/// Stepping to the next day preserves validity and raises the day number by one.
pub proof fn lemma_next_day(d: Date)
    requires
        d.valid(),
        d.day_number() + 1 < DAY_COUNT,
    ensures
        spec_next_day(d).valid(),
        spec_next_day(d).day_number() == d.day_number() + 1,
{
    let y = d.year as int;
    let m = d.month as int;
    if d.day < spec_days_in_month(y, m) {
    } else if d.month < 12 {
        lemma_days_before_month_step(y, m);
    } else {
        lemma_months_cover_year(y);
        lemma_days_before_year_step(y);
        if y == MAX_YEAR as int {
            lemma_day_number_bounds(d);
            assert(days_before_year(10000) == DAY_COUNT);
            assert(false);
        }
    }
}

/// `date_of_day_number` inverts `day_number` on the representable range.
pub proof fn lemma_date_of_day_number(n: nat)
    requires
        n < DAY_COUNT,
    ensures
        date_of_day_number(n).valid(),
        date_of_day_number(n).day_number() == n,
    decreases n,
{
    if n == 0 {
    } else {
        lemma_date_of_day_number((n - 1) as nat);
        lemma_next_day(date_of_day_number((n - 1) as nat));
    }
}

/// Number of days in all years before year `y`, counting from year 0.
pub fn days_before_year_exec(y: u64) -> (r: u64)
    requires
        y <= 10000,
    ensures
        r == days_before_year(y as int),
{
    365 * y + (y + 3) / 4 - (y + 99) / 100 + (y + 399) / 400
}

/// Number of days in the months of year `y` that precede month `m`.
pub fn days_before_month_exec(y: u64, m: u64) -> (r: u64)
    requires
        1 <= m <= 12,
    ensures
        r == days_before_month(y as int, m as int),
{
    let base: u64 = if m == 1 {
        0
    } else if m == 2 {
        31
    } else if m == 3 {
        59
    } else if m == 4 {
        90
    } else if m == 5 {
        120
    } else if m == 6 {
        151
    } else if m == 7 {
        181
    } else if m == 8 {
        212
    } else if m == 9 {
        243
    } else if m == 10 {
        273
    } else if m == 11 {
        304
    } else {
        334
    };
    if m > 2 && is_leap_year_exec(y) {
        base + 1
    } else {
        base
    }
}

impl Date {
    /// Days since 0000-01-01.
    pub fn to_day_number(&self) -> (n: u64)
        requires
            self.valid(),
        ensures
            n == self.day_number(),
    {
        proof {
            lemma_day_number_bounds(*self);
        }
        days_before_year_exec(self.year) + days_before_month_exec(self.year, self.month) + self.day
            - 1
    }

    /// The date `n` days after 0000-01-01.
    pub fn from_day_number(n: u64) -> (d: Date)
        requires
            n < DAY_COUNT,
        ensures
            d.valid(),
            d.day_number() == n,
            d == date_of_day_number(n as nat),
    {
        proof {
            lemma_days_before_year_mono(0, 10000);
            assert(days_before_year(10000) == DAY_COUNT);
        }
        let mut y: u64 = 0;
        while days_before_year_exec(y + 1) <= n
            invariant
                y <= MAX_YEAR,
                n < DAY_COUNT,
                days_before_year(y as int) <= n,
            decreases MAX_YEAR - y,
        {
            proof {
                if y + 1 > MAX_YEAR {
                    lemma_days_before_year_mono(10000, y as int + 1);
                    assert(days_before_year(10000) == DAY_COUNT);
                    assert(false);
                }
            }
            y = y + 1;
        }
        let offset = n - days_before_year_exec(y);
        proof {
            lemma_days_before_year_step(y as int);
            lemma_months_cover_year(y as int);
        }
        let mut m: u64 = 1;
        while m < 12 && days_before_month_exec(y, m + 1) <= offset
            invariant
                1 <= m <= 12,
                offset < year_days(y as int),
                days_before_month(y as int, m as int) <= offset,
            decreases 12 - m,
        {
            proof {
                lemma_days_before_month_step(y as int, m as int);
            }
            m = m + 1;
        }
        proof {
            if m < 12 {
                lemma_days_before_month_step(y as int, m as int);
            }
        }
        let day = offset - days_before_month_exec(y, m) + 1;
        let d = Date { year: y, month: m, day };
        proof {
            lemma_date_of_day_number(n as nat);
            lemma_day_number_injective(d, date_of_day_number(n as nat));
        }
        d
    }
}

/// Day of the week of `d`, counted as days from Monday (Monday = 0,
/// Sunday = 6). Day 0, 0000-01-01, is a Saturday.
pub open spec fn spec_day_of_week(d: Date) -> int {
    (d.day_number() + 5) % 7
}

/// Day of the week of `d`, counted as days from Monday.
pub fn day_of_week(d: &Date) -> (w: u64)
    requires
        d.valid(),
    ensures
        w == spec_day_of_week(*d),
        w < 7,
{
    (d.to_day_number() + 5) % 7
}

/// Last representable second: 9999-12-31 23:59:59, counted from
/// 0000-01-01 00:00:00.
pub const MAX_SECONDS: u64 = 3652425 * 86400 - 1;

/// A caller-supplied "now": a local calendar date plus a time of day,
/// at second precision.
#[derive(Clone, Copy, Debug, PartialEq, Eq, Structural)]
pub struct ReferenceInstant {
    pub date: Date,
    pub hour: u64,
    pub minute: u64,
    pub second: u64,
}

impl ReferenceInstant {
    /// A structurally well-formed instant.
    pub open spec fn valid(self) -> bool {
        self.date.valid() && self.hour < 24 && self.minute < 60 && self.second < 60
    }

    /// Seconds since 0000-01-01 00:00:00.
    pub open spec fn seconds(self) -> int {
        self.date.day_number() * 86400 + self.hour * 3600 + self.minute * 60 + self.second
    }

    /// Seconds since 0000-01-01 00:00:00.
    pub fn to_seconds(&self) -> (s: u64)
        requires
            self.valid(),
        ensures
            s == self.seconds(),
            s <= MAX_SECONDS,
    {
        proof {
            lemma_day_number_bounds(self.date);
        }
        self.date.to_day_number() * 86400 + self.hour * 3600 + self.minute * 60 + self.second
    }
}

/// Seconds since 0000-01-01 00:00:00 of a date at a given wall-clock
/// minute.
pub open spec fn minute_seconds(d: Date, hour: int, minute: int) -> int {
    d.day_number() * 86400 + hour * 3600 + minute * 60
}

/// The ten characters `YYYY-MM-DD` of a date, zero-padded.
pub open spec fn spec_format_date(d: Date) -> Seq<char> {
    four_digit_chars(d.year as int) + seq!['-'] + two_digit_chars(d.month as int) + seq!['-']
        + two_digit_chars(d.day as int)
}

/// The sixteen characters `YYYY-MM-DD HH:MM` of a date and wall-clock
/// minute, zero-padded.
pub open spec fn spec_format_datetime(d: Date, hour: int, minute: int) -> Seq<char> {
    spec_format_date(d) + seq![' '] + two_digit_chars(hour) + seq![':'] + two_digit_chars(minute)
}

/// The `YYYY-MM-DD HH:MM` form of a second count, truncated to the minute.
pub open spec fn spec_format_seconds(t: int) -> Seq<char> {
    spec_format_datetime(
        date_of_day_number((t / 86400) as nat),
        (t % 86400) / 3600,
        ((t % 86400) % 3600) / 60,
    )
}

/// Renders `d` as zero-padded `YYYY-MM-DD`.
pub fn format_date(d: &Date) -> (s: String)
    requires
        d.valid(),
    ensures
        s@ == spec_format_date(*d),
{
    let mut s = String::new();
    push_four_digits(&mut s, d.year);
    s.append("-");
    push_two_digits(&mut s, d.month);
    s.append("-");
    push_two_digits(&mut s, d.day);
    proof {
        reveal_strlit("-");
        assert("-"@ =~= seq!['-']);
        assert(s@ =~= spec_format_date(*d));
    }
    s
}

/// Renders a date and wall-clock minute as zero-padded `YYYY-MM-DD HH:MM`.
pub fn format_datetime(d: &Date, hour: u64, minute: u64) -> (s: String)
    requires
        d.valid(),
        hour < 24,
        minute < 60,
    ensures
        s@ == spec_format_datetime(*d, hour as int, minute as int),
{
    let mut s = format_date(d);
    s.append(" ");
    push_two_digits(&mut s, hour);
    s.append(":");
    push_two_digits(&mut s, minute);
    proof {
        reveal_strlit(" ");
        reveal_strlit(":");
        assert(" "@ =~= seq![' ']);
        assert(":"@ =~= seq![':']);
        assert(s@ =~= spec_format_datetime(*d, hour as int, minute as int));
    }
    s
}

/// Renders a second count as `YYYY-MM-DD HH:MM`, truncating to the minute.
pub fn format_seconds(t: u64) -> (s: String)
    requires
        t <= MAX_SECONDS,
    ensures
        s@ == spec_format_seconds(t as int),
{
    proof {
        lemma_fundamental_div_mod(t as int, 86400);
        if t as int / 86400 >= DAY_COUNT {
            assert(86400 * (t as int / 86400) >= 86400 * (DAY_COUNT as int)) by (nonlinear_arith)
                requires
                    t as int / 86400 >= DAY_COUNT as int,
            ;
            assert(false);
        }
    }
    let day = t / 86400;
    let rem = t % 86400;
    let d = Date::from_day_number(day);
    format_datetime(&d, rem / 3600, (rem % 3600) / 60)
}

} // verus!

//! Absolute date and time token parsing: full ISO dates, year-less
//! month-day forms, 24-hour clock times and 12-hour suffix forms.

use crate::calendar::{
    spec_days_in_month, days_in_month, spec_format_date, spec_format_datetime, format_date,
    format_datetime, Date, ReferenceInstant, MAX_YEAR,
};
use crate::errors::{ErrView, ParseError};
use crate::text::{
    digit_val, four_digit_chars, has_no_space, is_digit_char, is_space_char, two_digit_chars,
};
use vstd::arithmetic::div_mod::{lemma_div_denominator, lemma_fundamental_div_mod};
use vstd::prelude::*;

verus! {

/// Value of a one- or two-digit numeric field.
pub open spec fn field2_val(s: Seq<char>) -> Option<int> {
    if s.len() == 1 && is_digit_char(s[0]) {
        Some(digit_val(s[0]))
    } else if s.len() == 2 && is_digit_char(s[0]) && is_digit_char(s[1]) {
        Some(10 * digit_val(s[0]) + digit_val(s[1]))
    } else {
        None
    }
}

/// The date with the given parts, when they form a valid calendar date.
pub open spec fn make_valid_date(y: int, m: int, d: int) -> Option<Date> {
    if 0 <= y <= MAX_YEAR && 1 <= m <= 12 && 1 <= d <= spec_days_in_month(y, m) {
        Some(Date { year: y as u64, month: m as u64, day: d as u64 })
    } else {
        None
    }
}

/// The date a `YYYY-MM-DD` token denotes: a four-digit year, then month and
/// day of one or two digits each, separated by `-`, forming a valid date.
pub open spec fn spec_parse_date_token(t: Seq<char>) -> Option<Date> {
    if 8 <= t.len() <= 10 && is_digit_char(t[0]) && is_digit_char(t[1]) && is_digit_char(t[2])
        && is_digit_char(t[3]) && t[4] == '-' {
        let y = 1000 * digit_val(t[0]) + 100 * digit_val(t[1]) + 10 * digit_val(t[2]) + digit_val(
            t[3],
        );
        let p: int = if t[6] == '-' {
            6
        } else {
            7
        };
        if p < t.len() && t[p] == '-' {
            match (field2_val(t.subrange(5, p)), field2_val(t.subrange(p + 1, t.len() as int))) {
                (Some(m), Some(d)) => make_valid_date(y, m, d),
                _ => None,
            }
        } else {
            None
        }
    } else {
        None
    }
}

/// The date an `MM-DD` token denotes within the year `y`: month and day of
/// one or two digits each, separated by `-`, forming a valid date.
pub open spec fn spec_parse_md_token(t: Seq<char>, y: int) -> Option<Date> {
    if 3 <= t.len() <= 5 {
        let p: int = if t[1] == '-' {
            1
        } else {
            2
        };
        if p < t.len() && t[p] == '-' {
            match (field2_val(t.subrange(0, p)), field2_val(t.subrange(p + 1, t.len() as int))) {
                (Some(m), Some(d)) => make_valid_date(y, m, d),
                _ => None,
            }
        } else {
            None
        }
    } else {
        None
    }
}

/// The wall-clock minute an `HH:MM` token denotes: hour and minute of one
/// or two digits each, separated by `:`, hour below 24, minute below 60.
pub open spec fn spec_parse_time_token(t: Seq<char>) -> Option<(int, int)> {
    if 3 <= t.len() <= 5 {
        let p: int = if t[1] == ':' {
            1
        } else {
            2
        };
        if p < t.len() && t[p] == ':' {
            match (field2_val(t.subrange(0, p)), field2_val(t.subrange(p + 1, t.len() as int))) {
                (Some(h), Some(m)) => if h < 24 && m < 60 {
                    Some((h, m))
                } else {
                    None
                },
                _ => None,
            }
        } else {
            None
        }
    } else {
        None
    }
}

/// The wall-clock minute an `HH:MMam`/`HH:MMpm` token denotes: the time
/// before the suffix read on the 24-hour clock, then shifted by twelve
/// hours by the standard rules, with hour 12 as the noon and midnight
/// boundary.
pub open spec fn spec_parse_time12_token(t: Seq<char>) -> Option<(int, int)> {
    if t.len() >= 2 && (t[t.len() - 2] == 'a' || t[t.len() - 2] == 'p') && t[t.len() - 1] == 'm' {
        let is_pm = t[t.len() - 2] == 'p';
        match spec_parse_time_token(t.subrange(0, t.len() - 2)) {
            Option::None => None,
            Option::Some((h, m)) => if is_pm && h < 12 {
                Some((h + 12, m))
            } else if !is_pm && h == 12 {
                Some((0, m))
            } else {
                Some((h, m))
            },
        }
    } else {
        None
    }
}

/// Reads a one- or two-digit numeric field from `t[from..to]`.
fn read_field2(t: &Vec<char>, from: usize, to: usize) -> (r: Option<u64>)
    requires
        from <= to <= t@.len(),
    ensures
        match r {
            Some(x) => field2_val(t@.subrange(from as int, to as int)) == Some(x as int) && x < 100,
            None => field2_val(t@.subrange(from as int, to as int)) is None,
        },
{
    let ghost f = t@.subrange(from as int, to as int);
    if to - from == 1 {
        let c = t[from];
        if '0' <= c && c <= '9' {
            Some((c as u8 - 48) as u64)
        } else {
            None
        }
    } else if to - from == 2 {
        let c0 = t[from];
        let c1 = t[from + 1];
        if '0' <= c0 && c0 <= '9' && '0' <= c1 && c1 <= '9' {
            Some(10 * ((c0 as u8 - 48) as u64) + ((c1 as u8 - 48) as u64))
        } else {
            None
        }
    } else {
        None
    }
}

/// Builds the date with the given parts when they form a valid calendar
/// date.
fn try_make_date(y: u64, m: u64, d: u64) -> (r: Option<Date>)
    ensures
        r == make_valid_date(y as int, m as int, d as int),
{
    if y <= MAX_YEAR && 1 <= m && m <= 12 && 1 <= d && d <= days_in_month(y, m) {
        Some(Date { year: y, month: m, day: d })
    } else {
        None
    }
}

/// Parses a full `YYYY-MM-DD` token.
pub fn parse_date_token(t: &Vec<char>) -> (r: Option<Date>)
    ensures
        r == spec_parse_date_token(t@),
        r is Some ==> r.unwrap().valid(),
{
    if t.len() < 8 || t.len() > 10 {
        return None;
    }
    let c0 = t[0];
    let c1 = t[1];
    let c2 = t[2];
    let c3 = t[3];
    if !('0' <= c0 && c0 <= '9' && '0' <= c1 && c1 <= '9' && '0' <= c2 && c2 <= '9' && '0' <= c3
        && c3 <= '9' && t[4] == '-') {
        return None;
    }
    let y = 1000 * ((c0 as u8 - 48) as u64) + 100 * ((c1 as u8 - 48) as u64) + 10 * ((c2 as u8 - 48)
        as u64) + ((c3 as u8 - 48) as u64);
    let p: usize = if t[6] == '-' {
        6
    } else {
        7
    };
    if !(p < t.len() && t[p] == '-') {
        return None;
    }
    let m = match read_field2(t, 5, p) {
        Option::None => {
            return None;
        },
        Option::Some(m) => m,
    };
    let d = match read_field2(t, p + 1, t.len()) {
        Option::None => {
            return None;
        },
        Option::Some(d) => d,
    };
    try_make_date(y, m, d)
}

/// Parses an `MM-DD` token within the year `y`.
pub fn parse_md_token(t: &Vec<char>, y: u64) -> (r: Option<Date>)
    ensures
        r == spec_parse_md_token(t@, y as int),
        r is Some ==> r.unwrap().valid(),
{
    if t.len() < 3 || t.len() > 5 {
        return None;
    }
    let p: usize = if t[1] == '-' {
        1
    } else {
        2
    };
    if !(p < t.len() && t[p] == '-') {
        return None;
    }
    let m = match read_field2(t, 0, p) {
        Option::None => {
            return None;
        },
        Option::Some(m) => m,
    };
    let d = match read_field2(t, p + 1, t.len()) {
        Option::None => {
            return None;
        },
        Option::Some(d) => d,
    };
    try_make_date(y, m, d)
}

/// Parses an `HH:MM` token.
pub fn parse_time_token(t: &Vec<char>) -> (r: Option<(u64, u64)>)
    ensures
        match r {
            Some((h, m)) => spec_parse_time_token(t@) == Some((h as int, m as int)) && h < 24 && m
                < 60,
            None => spec_parse_time_token(t@) is None,
        },
{
    if t.len() < 3 || t.len() > 5 {
        return None;
    }
    let p: usize = if t[1] == ':' {
        1
    } else {
        2
    };
    if !(p < t.len() && t[p] == ':') {
        return None;
    }
    let h = match read_field2(t, 0, p) {
        Option::None => {
            return None;
        },
        Option::Some(h) => h,
    };
    let m = match read_field2(t, p + 1, t.len()) {
        Option::None => {
            return None;
        },
        Option::Some(m) => m,
    };
    if h < 24 && m < 60 {
        Some((h, m))
    } else {
        None
    }
}

/// Parses an `HH:MMam`/`HH:MMpm` token, normalizing to the 24-hour clock.
pub fn parse_time12_token(t: &Vec<char>) -> (r: Option<(u64, u64)>)
    ensures
        match r {
            Some((h, m)) => spec_parse_time12_token(t@) == Some((h as int, m as int)) && h < 24 && m
                < 60,
            None => spec_parse_time12_token(t@) is None,
        },
{
    if t.len() < 2 {
        return None;
    }
    let ca = t[t.len() - 2];
    let cm = t[t.len() - 1];
    if !((ca == 'a' || ca == 'p') && cm == 'm') {
        return None;
    }
    let is_pm = ca == 'p';
    let mut base: Vec<char> = Vec::new();
    let mut i: usize = 0;
    while i < t.len() - 2
        invariant
            t@.len() >= 2,
            i <= t@.len() - 2,
            base@.len() == i,
            forall|j: int| 0 <= j < i ==> base@[j] == t@[j],
        decreases t@.len() - 2 - i,
    {
        base.push(t[i]);
        i = i + 1;
    }
    proof {
        assert(base@ =~= t@.subrange(0, t@.len() - 2));
    }
    match parse_time_token(&base) {
        Option::None => None,
        Option::Some((h, m)) => {
            if is_pm && h < 12 {
                Some((h + 12, m))
            } else if !is_pm && h == 12 {
                Some((0, m))
            } else {
                Some((h, m))
            }
        },
    }
}

/// Outcome of a lone token read as an absolute date or time: a full date,
/// then a month-day in the reference year, then a 24-hour time today, then
/// a 12-hour time today, the first success winning.
pub open spec fn spec_date_or_time(t: Seq<char>, now: ReferenceInstant) -> Result<
    Seq<char>,
    ErrView,
> {
    if spec_parse_date_token(t) is Some {
        Ok(spec_format_date(spec_parse_date_token(t).unwrap()))
    } else if spec_parse_md_token(t, now.date.year as int) is Some {
        Ok(spec_format_date(spec_parse_md_token(t, now.date.year as int).unwrap()))
    } else if spec_parse_time_token(t) is Some {
        let (h, m) = spec_parse_time_token(t).unwrap();
        Ok(spec_format_datetime(now.date, h, m))
    } else if spec_parse_time12_token(t) is Some {
        let (h, m) = spec_parse_time12_token(t).unwrap();
        Ok(spec_format_datetime(now.date, h, m))
    } else {
        Err(ErrView::InvalidDateOrTime)
    }
}

/// Reads a lone token as an absolute date or time, anchored at the
/// reference instant.
pub fn try_parse_date_or_time(t: &Vec<char>, now: &ReferenceInstant) -> (r: Result<
    String,
    ParseError,
>)
    requires
        now.valid(),
    ensures
        match r {
            Ok(s) => spec_date_or_time(t@, *now) == Ok::<Seq<char>, ErrView>(s@),
            Err(e) => spec_date_or_time(t@, *now) == Err::<Seq<char>, ErrView>(e@),
        },
{
    if let Option::Some(d) = parse_date_token(t) {
        return Ok(format_date(&d));
    }
    if let Option::Some(d) = parse_md_token(t, now.date.year) {
        return Ok(format_date(&d));
    }
    if let Option::Some((h, m)) = parse_time_token(t) {
        return Ok(format_datetime(&now.date, h, m));
    }
    if let Option::Some((h, m)) = parse_time12_token(t) {
        return Ok(format_datetime(&now.date, h, m));
    }
    Err(ParseError::InvalidDateOrTime)
}

/// Outcome of a `date time` token pair: both halves must parse in their
/// ISO forms, each failure reported by its own rejection.
pub open spec fn spec_date_time_combo(t0: Seq<char>, t1: Seq<char>) -> Result<Seq<char>, ErrView> {
    match spec_parse_date_token(t0) {
        Option::None => Err(ErrView::InvalidDateFormat),
        Option::Some(d) => match spec_parse_time_token(t1) {
            Option::None => Err(ErrView::InvalidTimeFormat),
            Option::Some((h, m)) => Ok(spec_format_datetime(d, h, m)),
        },
    }
}

/// Reads a `date time` token pair as an absolute instant.
pub fn parse_date_time_combo(t0: &Vec<char>, t1: &Vec<char>) -> (r: Result<String, ParseError>)
    ensures
        match r {
            Ok(s) => spec_date_time_combo(t0@, t1@) == Ok::<Seq<char>, ErrView>(s@),
            Err(e) => spec_date_time_combo(t0@, t1@) == Err::<Seq<char>, ErrView>(e@),
        },
{
    let d = match parse_date_token(t0) {
        Option::None => {
            return Err(ParseError::InvalidDateFormat);
        },
        Option::Some(d) => d,
    };
    match parse_time_token(t1) {
        Option::None => Err(ParseError::InvalidTimeFormat),
        Option::Some((h, m)) => Ok(format_datetime(&d, h, m)),
    }
}

/// A value below ten thousand is recovered from its four decimal digits.
proof fn lemma_four_digit_recompose(y: int)
    requires
        0 <= y < 10000,
    ensures
        1000 * (y / 1000) + 100 * ((y / 100) % 10) + 10 * ((y / 10) % 10) + y % 10 == y,
        0 <= y / 1000 <= 9,
        0 <= (y / 100) % 10 <= 9,
        0 <= (y / 10) % 10 <= 9,
        0 <= y % 10 <= 9,
{
    lemma_fundamental_div_mod(y, 10);
    lemma_fundamental_div_mod(y / 10, 10);
    lemma_fundamental_div_mod(y / 100, 10);
    lemma_div_denominator(y, 10, 10);
    lemma_div_denominator(y, 100, 10);
    lemma_fundamental_div_mod(y, 1000);
    lemma_fundamental_div_mod(y, 100);
}

/// A value below one hundred is recovered from its zero-padded two-digit
/// form.
pub proof fn lemma_two_digit_field_roundtrip(x: int)
    requires
        0 <= x < 100,
    ensures
        field2_val(two_digit_chars(x)) == Some(x),
        two_digit_chars(x).len() == 2,
        is_digit_char(two_digit_chars(x)[0]),
        is_digit_char(two_digit_chars(x)[1]),
{
    lemma_fundamental_div_mod(x, 10);
}

/// A valid date is recovered from its zero-padded `YYYY-MM-DD` form.
pub proof fn lemma_date_roundtrip(d: Date)
    requires
        d.valid(),
    ensures
        spec_parse_date_token(spec_format_date(d)) == Some(d),
{
    let t = spec_format_date(d);
    let y = d.year as int;
    lemma_four_digit_recompose(y);
    lemma_two_digit_field_roundtrip(d.month as int);
    lemma_two_digit_field_roundtrip(d.day as int);
    assert(t.len() == 10);
    assert(t[0] == four_digit_chars(y)[0]);
    assert(t[1] == four_digit_chars(y)[1]);
    assert(t[2] == four_digit_chars(y)[2]);
    assert(t[3] == four_digit_chars(y)[3]);
    assert(t[4] == '-');
    assert(t[5] == two_digit_chars(d.month as int)[0]);
    assert(t[6] == two_digit_chars(d.month as int)[1]);
    assert(t[7] == '-');
    assert(t[8] == two_digit_chars(d.day as int)[0]);
    assert(t[9] == two_digit_chars(d.day as int)[1]);
    assert(t.subrange(5, 7) =~= two_digit_chars(d.month as int));
    assert(t.subrange(8, 10) =~= two_digit_chars(d.day as int));
    assert(1000 * digit_val(t[0]) + 100 * digit_val(t[1]) + 10 * digit_val(t[2]) + digit_val(t[3])
        == y);
}

/// The `YYYY-MM-DD` form of a valid date contains no whitespace.
pub proof fn lemma_format_date_plain(d: Date)
    requires
        d.valid(),
    ensures
        has_no_space(spec_format_date(d)),
        spec_format_date(d).len() == 10,
{
    let t = spec_format_date(d);
    lemma_four_digit_recompose(d.year as int);
    lemma_two_digit_field_roundtrip(d.month as int);
    lemma_two_digit_field_roundtrip(d.day as int);
    assert(t.len() == 10);
    assert forall|i: int| 0 <= i < t.len() implies !is_space_char(t[i]) by {
        assert(t[0] == four_digit_chars(d.year as int)[0]);
        assert(t[1] == four_digit_chars(d.year as int)[1]);
        assert(t[2] == four_digit_chars(d.year as int)[2]);
        assert(t[3] == four_digit_chars(d.year as int)[3]);
        assert(t[4] == '-');
        assert(t[5] == two_digit_chars(d.month as int)[0]);
        assert(t[6] == two_digit_chars(d.month as int)[1]);
        assert(t[7] == '-');
        assert(t[8] == two_digit_chars(d.day as int)[0]);
        assert(t[9] == two_digit_chars(d.day as int)[1]);
    }
}

/// The `HH:MM` tail of a date-time rendering contains no whitespace, and
/// the rendering splits as date, space, time.
pub proof fn lemma_format_datetime_split(d: Date, h: int, mi: int)
    requires
        d.valid(),
        0 <= h < 24,
        0 <= mi < 60,
    ensures
        spec_format_datetime(d, h, mi) == spec_format_date(d) + seq![' '] + (two_digit_chars(h)
            + seq![':'] + two_digit_chars(mi)),
        has_no_space(two_digit_chars(h) + seq![':'] + two_digit_chars(mi)),
{
    let tp = two_digit_chars(h) + seq![':'] + two_digit_chars(mi);
    lemma_two_digit_field_roundtrip(h);
    lemma_two_digit_field_roundtrip(mi);
    assert(spec_format_datetime(d, h, mi) =~= spec_format_date(d) + seq![' '] + tp);
    assert forall|i: int| 0 <= i < tp.len() implies !is_space_char(tp[i]) by {
        assert(tp[0] == two_digit_chars(h)[0]);
        assert(tp[1] == two_digit_chars(h)[1]);
        assert(tp[2] == ':');
        assert(tp[3] == two_digit_chars(mi)[0]);
        assert(tp[4] == two_digit_chars(mi)[1]);
    }
}

/// A wall-clock minute is recovered from its zero-padded `HH:MM` form.
pub proof fn lemma_time_roundtrip(h: int, mi: int)
    requires
        0 <= h < 24,
        0 <= mi < 60,
    ensures
        spec_parse_time_token(two_digit_chars(h) + seq![':'] + two_digit_chars(mi)) == Some(
            (h, mi),
        ),
{
    let t = two_digit_chars(h) + seq![':'] + two_digit_chars(mi);
    lemma_two_digit_field_roundtrip(h);
    lemma_two_digit_field_roundtrip(mi);
    assert(t.len() == 5);
    assert(t[0] == two_digit_chars(h)[0]);
    assert(t[1] == two_digit_chars(h)[1]);
    assert(t[2] == ':');
    assert(t[3] == two_digit_chars(mi)[0]);
    assert(t[4] == two_digit_chars(mi)[1]);
    assert(t.subrange(0, 2) =~= two_digit_chars(h));
    assert(t.subrange(3, 5) =~= two_digit_chars(mi));
}

} // verus!

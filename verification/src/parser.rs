//! The due-date phrase dispatcher.
//!
//! The input is lowercased and split on whitespace, the token shape picks
//! a grammar arm, and every successful arm's candidate runs through the
//! past-date guard before it is returned.

use crate::absolute::{
    parse_date_time_combo, parse_time_token, spec_date_or_time, spec_date_time_combo,
    spec_parse_time_token, try_parse_date_or_time,
};
use crate::calendar::{
    date_of_day_number, spec_format_date, spec_format_datetime, format_date, format_datetime,
    lemma_date_of_day_number, lemma_day_number_bounds, Date, ReferenceInstant, DAY_COUNT,
};
use crate::duration::{
    parse_compound_offset, parse_offset, spec_compound_offset_result, spec_offset_result,
};
use crate::errors::{ErrView, ParseError};
use crate::guard::{spec_guard, validate_not_past};
use crate::text::{
    chars_eq_str, is_int_token, is_int_token_exec, lower_chars, lower_seq, spec_tokens,
    split_tokens, str_to_chars,
};
use crate::weekday::{
    days_until_next_weekday, days_until_this_week, days_until_weekday, is_weekday,
    parse_weekday_name, spec_days_until_next_weekday, spec_days_until_this_week,
    spec_days_until_weekday, spec_is_weekday, spec_weekday_of_name, weekday_index,
};
use crate::calendar::spec_day_of_week;
use vstd::prelude::*;
use vstd::string::*;

verus! {

/// The date `k` days after `d`, when it stays on the calendar.
pub open spec fn spec_date_plus(d: Date, k: int) -> Result<Seq<char>, ErrView> {
    if d.day_number() + k >= DAY_COUNT {
        Err(ErrView::MalformedCandidate)
    } else {
        Ok(spec_format_date(date_of_day_number((d.day_number() + k) as nat)))
    }
}

/// The date `k` days after `today`, when it stays on the calendar.
fn date_after_days(today: &Date, k: u64) -> (r: Option<Date>)
    requires
        today.valid(),
        k <= 400,
    ensures
        match r {
            Some(d) => today.day_number() + k < DAY_COUNT && d == date_of_day_number(
                (today.day_number() + k) as nat,
            ) && d.valid(),
            None => today.day_number() + k >= DAY_COUNT,
        },
{
    proof {
        lemma_day_number_bounds(*today);
    }
    let n = today.to_day_number();
    if n + k >= DAY_COUNT {
        None
    } else {
        proof {
            lemma_date_of_day_number((n + k) as nat);
        }
        Some(Date::from_day_number(n + k))
    }
}

/// Renders the date `k` days after `today`, when it stays on the calendar.
fn shifted_date_string(today: &Date, k: u64) -> (r: Result<String, ParseError>)
    requires
        today.valid(),
        k <= 400,
    ensures
        match r {
            Ok(s) => spec_date_plus(*today, k as int) == Ok::<Seq<char>, ErrView>(s@),
            Err(e) => spec_date_plus(*today, k as int) == Err::<Seq<char>, ErrView>(e@),
        },
{
    match date_after_days(today, k) {
        Option::None => Err(ParseError::MalformedCandidate),
        Option::Some(d) => Ok(format_date(&d)),
    }
}

/// Outcome of a bare weekday name: the next strictly future occurrence.
pub open spec fn spec_parse_weekday(day: Seq<char>, today: Date) -> Result<Seq<char>, ErrView> {
    match spec_weekday_of_name(day) {
        Option::None => Err(ErrView::InvalidWeekday),
        Option::Some(w) => spec_date_plus(
            today,
            spec_days_until_weekday(spec_day_of_week(today), weekday_index(w)),
        ),
    }
}

/// Resolves a bare weekday name against `today`.
pub fn parse_weekday(day: &Vec<char>, today: &Date) -> (r: Result<String, ParseError>)
    requires
        today.valid(),
    ensures
        match r {
            Ok(s) => spec_parse_weekday(day@, *today) == Ok::<Seq<char>, ErrView>(s@),
            Err(e) => spec_parse_weekday(day@, *today) == Err::<Seq<char>, ErrView>(e@),
        },
{
    match parse_weekday_name(day) {
        Option::None => Err(ParseError::InvalidWeekday),
        Option::Some(w) => shifted_date_string(today, days_until_weekday(today, w)),
    }
}

/// Outcome of `next` plus a weekday name: the occurrence in the following
/// week.
pub open spec fn spec_parse_next_weekday(day: Seq<char>, today: Date) -> Result<Seq<char>, ErrView> {
    match spec_weekday_of_name(day) {
        Option::None => Err(ErrView::InvalidWeekday),
        Option::Some(w) => spec_date_plus(
            today,
            spec_days_until_next_weekday(spec_day_of_week(today), weekday_index(w)),
        ),
    }
}

/// Resolves `next` plus a weekday name against `today`.
pub fn parse_next_weekday(day: &Vec<char>, today: &Date) -> (r: Result<String, ParseError>)
    requires
        today.valid(),
    ensures
        match r {
            Ok(s) => spec_parse_next_weekday(day@, *today) == Ok::<Seq<char>, ErrView>(s@),
            Err(e) => spec_parse_next_weekday(day@, *today) == Err::<Seq<char>, ErrView>(e@),
        },
{
    match parse_weekday_name(day) {
        Option::None => Err(ParseError::InvalidWeekday),
        Option::Some(w) => shifted_date_string(today, days_until_next_weekday(today, w)),
    }
}

/// Outcome of `this` plus a weekday name: the occurrence in the current
/// week, today included.
pub open spec fn spec_parse_this_weekday(day: Seq<char>, today: Date) -> Result<Seq<char>, ErrView> {
    match spec_weekday_of_name(day) {
        Option::None => Err(ErrView::InvalidWeekday),
        Option::Some(w) => spec_date_plus(
            today,
            spec_days_until_this_week(spec_day_of_week(today), weekday_index(w)),
        ),
    }
}

/// Resolves `this` plus a weekday name against `today`.
pub fn parse_this_weekday(day: &Vec<char>, today: &Date) -> (r: Result<String, ParseError>)
    requires
        today.valid(),
    ensures
        match r {
            Ok(s) => spec_parse_this_weekday(day@, *today) == Ok::<Seq<char>, ErrView>(s@),
            Err(e) => spec_parse_this_weekday(day@, *today) == Err::<Seq<char>, ErrView>(e@),
        },
{
    match parse_weekday_name(day) {
        Option::None => Err(ParseError::InvalidWeekday),
        Option::Some(w) => shifted_date_string(today, days_until_this_week(today, w)),
    }
}

/// The weekday date under offset `off`, carrying a wall-clock minute.
pub open spec fn spec_weekday_at_time(today: Date, off: int, h: int, m: int) -> Result<
    Seq<char>,
    ErrView,
> {
    if today.day_number() + off >= DAY_COUNT {
        Err(ErrView::MalformedCandidate)
    } else {
        Ok(spec_format_datetime(date_of_day_number((today.day_number() + off) as nat), h, m))
    }
}

/// Outcome of a bare weekday name with a trailing `HH:MM` time.
pub open spec fn spec_parse_weekday_time(day: Seq<char>, time: Seq<char>, today: Date) -> Result<
    Seq<char>,
    ErrView,
> {
    match spec_weekday_of_name(day) {
        Option::None => Err(ErrView::InvalidWeekday),
        Option::Some(w) => match spec_parse_time_token(time) {
            Option::None => Err(ErrView::InvalidTimeFormat),
            Option::Some((h, m)) => spec_weekday_at_time(
                today,
                spec_days_until_weekday(spec_day_of_week(today), weekday_index(w)),
                h,
                m,
            ),
        },
    }
}

/// Resolves a bare weekday name with a trailing time against `today`.
pub fn parse_weekday_time(day: &Vec<char>, time: &Vec<char>, today: &Date) -> (r: Result<
    String,
    ParseError,
>)
    requires
        today.valid(),
    ensures
        match r {
            Ok(s) => spec_parse_weekday_time(day@, time@, *today) == Ok::<Seq<char>, ErrView>(s@),
            Err(e) => spec_parse_weekday_time(day@, time@, *today) == Err::<Seq<char>, ErrView>(
                e@,
            ),
        },
{
    let w = match parse_weekday_name(day) {
        Option::None => {
            return Err(ParseError::InvalidWeekday);
        },
        Option::Some(w) => w,
    };
    let (h, m) = match parse_time_token(time) {
        Option::None => {
            return Err(ParseError::InvalidTimeFormat);
        },
        Option::Some(hm) => hm,
    };
    match date_after_days(today, days_until_weekday(today, w)) {
        Option::None => Err(ParseError::MalformedCandidate),
        Option::Some(d) => Ok(format_datetime(&d, h, m)),
    }
}

/// Outcome of `next` plus a weekday name with a trailing `HH:MM` time.
pub open spec fn spec_parse_next_weekday_time(
    day: Seq<char>,
    time: Seq<char>,
    today: Date,
) -> Result<Seq<char>, ErrView> {
    match spec_weekday_of_name(day) {
        Option::None => Err(ErrView::InvalidWeekday),
        Option::Some(w) => match spec_parse_time_token(time) {
            Option::None => Err(ErrView::InvalidTimeFormat),
            Option::Some((h, m)) => spec_weekday_at_time(
                today,
                spec_days_until_next_weekday(spec_day_of_week(today), weekday_index(w)),
                h,
                m,
            ),
        },
    }
}

/// Resolves `next` plus a weekday name with a trailing time against
/// `today`.
pub fn parse_next_weekday_time(day: &Vec<char>, time: &Vec<char>, today: &Date) -> (r: Result<
    String,
    ParseError,
>)
    requires
        today.valid(),
    ensures
        match r {
            Ok(s) => spec_parse_next_weekday_time(day@, time@, *today) == Ok::<Seq<char>, ErrView>(
                s@,
            ),
            Err(e) => spec_parse_next_weekday_time(day@, time@, *today) == Err::<
                Seq<char>,
                ErrView,
            >(e@),
        },
{
    let w = match parse_weekday_name(day) {
        Option::None => {
            return Err(ParseError::InvalidWeekday);
        },
        Option::Some(w) => w,
    };
    let (h, m) = match parse_time_token(time) {
        Option::None => {
            return Err(ParseError::InvalidTimeFormat);
        },
        Option::Some(hm) => hm,
    };
    match date_after_days(today, days_until_next_weekday(today, w)) {
        Option::None => Err(ParseError::MalformedCandidate),
        Option::Some(d) => Ok(format_datetime(&d, h, m)),
    }
}

/// Outcome of `this` plus a weekday name with a trailing `HH:MM` time.
pub open spec fn spec_parse_this_weekday_time(
    day: Seq<char>,
    time: Seq<char>,
    today: Date,
) -> Result<Seq<char>, ErrView> {
    match spec_weekday_of_name(day) {
        Option::None => Err(ErrView::InvalidWeekday),
        Option::Some(w) => match spec_parse_time_token(time) {
            Option::None => Err(ErrView::InvalidTimeFormat),
            Option::Some((h, m)) => spec_weekday_at_time(
                today,
                spec_days_until_this_week(spec_day_of_week(today), weekday_index(w)),
                h,
                m,
            ),
        },
    }
}

/// Resolves `this` plus a weekday name with a trailing time against
/// `today`.
pub fn parse_this_weekday_time(day: &Vec<char>, time: &Vec<char>, today: &Date) -> (r: Result<
    String,
    ParseError,
>)
    requires
        today.valid(),
    ensures
        match r {
            Ok(s) => spec_parse_this_weekday_time(day@, time@, *today) == Ok::<Seq<char>, ErrView>(
                s@,
            ),
            Err(e) => spec_parse_this_weekday_time(day@, time@, *today) == Err::<
                Seq<char>,
                ErrView,
            >(e@),
        },
{
    let w = match parse_weekday_name(day) {
        Option::None => {
            return Err(ParseError::InvalidWeekday);
        },
        Option::Some(w) => w,
    };
    let (h, m) = match parse_time_token(time) {
        Option::None => {
            return Err(ParseError::InvalidTimeFormat);
        },
        Option::Some(hm) => hm,
    };
    match date_after_days(today, days_until_this_week(today, w)) {
        Option::None => Err(ParseError::MalformedCandidate),
        Option::Some(d) => Ok(format_datetime(&d, h, m)),
    }
}

/// Raw outcome of a single-token phrase, before the past-date guard.
/// `yesterday` resolves directly to the past-date rejection: its calendar
/// date always lies strictly before today's.
pub open spec fn spec_one_token(t: Seq<char>, now: ReferenceInstant) -> Result<Seq<char>, ErrView> {
    if t == "now"@ {
        Ok(spec_format_datetime(now.date, now.hour as int, now.minute as int))
    } else if t == "today"@ {
        Ok(spec_format_date(now.date))
    } else if t == "tomorrow"@ || t == "tmr"@ {
        spec_date_plus(now.date, 1)
    } else if t == "yesterday"@ {
        Err(ErrView::PastDueDate)
    } else if spec_is_weekday(t) {
        spec_parse_weekday(t, now.date)
    } else if t == "week"@ {
        spec_date_plus(now.date, 7)
    } else if t == "month"@ {
        spec_date_plus(now.date, 30)
    } else if t == "year"@ {
        spec_date_plus(now.date, 365)
    } else {
        spec_date_or_time(t, now)
    }
}

/// Raw outcome of a two-token phrase, before the past-date guard.
pub open spec fn spec_two_tokens(t0: Seq<char>, t1: Seq<char>, now: ReferenceInstant) -> Result<
    Seq<char>,
    ErrView,
> {
    if t0 == "next"@ && spec_is_weekday(t1) {
        spec_parse_next_weekday(t1, now.date)
    } else if t0 == "this"@ && spec_is_weekday(t1) {
        spec_parse_this_weekday(t1, now.date)
    } else if t0 == "next"@ && t1 == "week"@ {
        spec_date_plus(now.date, 7)
    } else if t0 == "next"@ && t1 == "month"@ {
        spec_date_plus(now.date, 30)
    } else if t0 == "next"@ && t1 == "year"@ {
        spec_date_plus(now.date, 365)
    } else if is_int_token(t0) {
        spec_offset_result(t0, t1, now)
    } else if spec_is_weekday(t0) {
        spec_parse_weekday_time(t0, t1, now.date)
    } else {
        spec_date_time_combo(t0, t1)
    }
}

/// Raw outcome of a three-token phrase, before the past-date guard.
pub open spec fn spec_three_tokens(
    t0: Seq<char>,
    t1: Seq<char>,
    t2: Seq<char>,
    now: ReferenceInstant,
) -> Result<Seq<char>, ErrView> {
    if t0 == "in"@ {
        spec_offset_result(t1, t2, now)
    } else if t0 == "next"@ && spec_is_weekday(t1) {
        spec_parse_next_weekday_time(t1, t2, now.date)
    } else if t0 == "this"@ && spec_is_weekday(t1) {
        spec_parse_this_weekday_time(t1, t2, now.date)
    } else {
        Err(ErrView::UnrecognizedFormat)
    }
}

/// Raw outcome of the dispatch over the token shapes, before the
/// past-date guard.
pub open spec fn spec_dispatch(toks: Seq<Seq<char>>, now: ReferenceInstant) -> Result<
    Seq<char>,
    ErrView,
> {
    if toks.len() == 1 {
        spec_one_token(toks[0], now)
    } else if toks.len() == 2 {
        spec_two_tokens(toks[0], toks[1], now)
    } else if toks.len() == 3 {
        spec_three_tokens(toks[0], toks[1], toks[2], now)
    } else if toks.len() == 4 {
        if is_int_token(toks[0]) {
            spec_compound_offset_result(toks[0], toks[1], toks[2], toks[3], now)
        } else {
            Err(ErrView::UnrecognizedFormat)
        }
    } else if toks.len() == 5 {
        if toks[0] == "in"@ {
            spec_compound_offset_result(toks[1], toks[2], toks[3], toks[4], now)
        } else {
            Err(ErrView::UnrecognizedFormat)
        }
    } else {
        Err(ErrView::UnrecognizedFormat)
    }
}

/// Outcome of a whole due-date phrase: the input is lowercased and split
/// on whitespace, the first matching token shape produces a candidate,
/// and the past-date guard has the last word. Whitespace-only input is
/// rejected as empty.
pub open spec fn spec_parse_due_date(input: Seq<char>, now: ReferenceInstant) -> Result<
    Seq<char>,
    ErrView,
> {
    let toks = spec_tokens(lower_seq(input));
    if toks.len() == 0 {
        Err(ErrView::EmptyInput)
    } else {
        match spec_dispatch(toks, now) {
            Err(e) => Err(e),
            Ok(raw) => spec_guard(raw, now),
        }
    }
}

/// Parses a free-text due-date phrase against the reference instant,
/// returning the normalized `YYYY-MM-DD` or `YYYY-MM-DD HH:MM` string.
pub fn parse_due_date(input: &str, now: &ReferenceInstant) -> (r: Result<String, ParseError>)
    requires
        now.valid(),
    ensures
        match r {
            Ok(s) => spec_parse_due_date(input@, *now) == Ok::<Seq<char>, ErrView>(s@),
            Err(e) => spec_parse_due_date(input@, *now) == Err::<Seq<char>, ErrView>(e@),
        },
{
    let chars = str_to_chars(input);
    let low = lower_chars(&chars);
    let toks = split_tokens(&low);
    if toks.len() == 0 {
        return Err(ParseError::EmptyInput);
    }
    proof {
        assert(forall|j: int|
            0 <= j < toks@.len() ==> toks.deep_view()[j] == #[trigger] toks@[j]@);
    }
    let raw = if toks.len() == 1 {
        dispatch_one(&toks[0], now)
    } else if toks.len() == 2 {
        dispatch_two(&toks[0], &toks[1], now)
    } else if toks.len() == 3 {
        dispatch_three(&toks[0], &toks[1], &toks[2], now)
    } else if toks.len() == 4 {
        if is_int_token_exec(&toks[0]) {
            parse_compound_offset(&toks[0], &toks[1], &toks[2], &toks[3], now)
        } else {
            Err(ParseError::UnrecognizedFormat)
        }
    } else if toks.len() == 5 {
        if chars_eq_str(&toks[0], "in") {
            parse_compound_offset(&toks[1], &toks[2], &toks[3], &toks[4], now)
        } else {
            Err(ParseError::UnrecognizedFormat)
        }
    } else {
        Err(ParseError::UnrecognizedFormat)
    };
    match raw {
        Err(e) => Err(e),
        Ok(s) => validate_not_past(s.as_str(), now),
    }
}

/// Dispatches a single-token phrase.
fn dispatch_one(t: &Vec<char>, now: &ReferenceInstant) -> (r: Result<String, ParseError>)
    requires
        now.valid(),
    ensures
        match r {
            Ok(s) => spec_one_token(t@, *now) == Ok::<Seq<char>, ErrView>(s@),
            Err(e) => spec_one_token(t@, *now) == Err::<Seq<char>, ErrView>(e@),
        },
{
    if chars_eq_str(t, "now") {
        Ok(format_datetime(&now.date, now.hour, now.minute))
    } else if chars_eq_str(t, "today") {
        Ok(format_date(&now.date))
    } else if chars_eq_str(t, "tomorrow") || chars_eq_str(t, "tmr") {
        shifted_date_string(&now.date, 1)
    } else if chars_eq_str(t, "yesterday") {
        Err(ParseError::PastDueDate)
    } else if is_weekday(t) {
        parse_weekday(t, &now.date)
    } else if chars_eq_str(t, "week") {
        shifted_date_string(&now.date, 7)
    } else if chars_eq_str(t, "month") {
        shifted_date_string(&now.date, 30)
    } else if chars_eq_str(t, "year") {
        shifted_date_string(&now.date, 365)
    } else {
        try_parse_date_or_time(t, now)
    }
}

/// Dispatches a two-token phrase.
fn dispatch_two(t0: &Vec<char>, t1: &Vec<char>, now: &ReferenceInstant) -> (r: Result<
    String,
    ParseError,
>)
    requires
        now.valid(),
    ensures
        match r {
            Ok(s) => spec_two_tokens(t0@, t1@, *now) == Ok::<Seq<char>, ErrView>(s@),
            Err(e) => spec_two_tokens(t0@, t1@, *now) == Err::<Seq<char>, ErrView>(e@),
        },
{
    let t0_next = chars_eq_str(t0, "next");
    if t0_next && is_weekday(t1) {
        parse_next_weekday(t1, &now.date)
    } else if chars_eq_str(t0, "this") && is_weekday(t1) {
        parse_this_weekday(t1, &now.date)
    } else if t0_next && chars_eq_str(t1, "week") {
        shifted_date_string(&now.date, 7)
    } else if t0_next && chars_eq_str(t1, "month") {
        shifted_date_string(&now.date, 30)
    } else if t0_next && chars_eq_str(t1, "year") {
        shifted_date_string(&now.date, 365)
    } else if is_int_token_exec(t0) {
        parse_offset(t0, t1, now)
    } else if is_weekday(t0) {
        parse_weekday_time(t0, t1, &now.date)
    } else {
        parse_date_time_combo(t0, t1)
    }
}

/// Dispatches a three-token phrase.
fn dispatch_three(t0: &Vec<char>, t1: &Vec<char>, t2: &Vec<char>, now: &ReferenceInstant) -> (r:
    Result<String, ParseError>)
    requires
        now.valid(),
    ensures
        match r {
            Ok(s) => spec_three_tokens(t0@, t1@, t2@, *now) == Ok::<Seq<char>, ErrView>(s@),
            Err(e) => spec_three_tokens(t0@, t1@, t2@, *now) == Err::<Seq<char>, ErrView>(e@),
        },
{
    if chars_eq_str(t0, "in") {
        parse_offset(t1, t2, now)
    } else if chars_eq_str(t0, "next") && is_weekday(t1) {
        parse_next_weekday_time(t1, t2, &now.date)
    } else if chars_eq_str(t0, "this") && is_weekday(t1) {
        parse_this_weekday_time(t1, t2, &now.date)
    } else {
        Err(ParseError::UnrecognizedFormat)
    }
}

} // verus!

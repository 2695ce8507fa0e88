//! The past-date guard: re-parses a normalized candidate string and
//! rejects it when it lies before the reference instant.

use crate::absolute::{
    lemma_date_roundtrip, lemma_format_date_plain, lemma_format_datetime_split,
    lemma_time_roundtrip, parse_date_token, parse_time_token, spec_parse_date_token,
    spec_parse_time_token,
};
use crate::calendar::{
    date_of_day_number, lemma_date_of_day_number, minute_seconds, spec_format_date,
    spec_format_datetime, spec_format_seconds, Date, ReferenceInstant, DAY_COUNT, MAX_SECONDS,
};
use crate::errors::{ErrView, ParseError};
use crate::text::{
    lemma_tokens_pair, lemma_tokens_single, spec_tokens, split_tokens, str_to_chars,
    two_digit_chars,
};
use vstd::arithmetic::div_mod::{lemma_fundamental_div_mod, lemma_mod_mod};
use vstd::prelude::*;
use vstd::string::*;

verus! {

/// Outcome of the guard on candidate `s`: a date-time candidate compares
/// by full instant, a date-only candidate by calendar date alone, and a
/// candidate in neither shape is rejected as malformed.
pub open spec fn spec_guard(s: Seq<char>, now: ReferenceInstant) -> Result<Seq<char>, ErrView> {
    let toks = spec_tokens(s);
    if toks.len() == 1 {
        match spec_parse_date_token(toks[0]) {
            Option::Some(d) => if d.day_number() < now.date.day_number() {
                Err(ErrView::PastDueDate)
            } else {
                Ok(s)
            },
            Option::None => Err(ErrView::MalformedCandidate),
        }
    } else if toks.len() == 2 {
        match (spec_parse_date_token(toks[0]), spec_parse_time_token(toks[1])) {
            (Option::Some(d), Option::Some((h, m))) => if minute_seconds(d, h, m) < now.seconds() {
                Err(ErrView::PastDueDate)
            } else {
                Ok(s)
            },
            _ => Err(ErrView::MalformedCandidate),
        }
    } else {
        Err(ErrView::MalformedCandidate)
    }
}

/// Re-parses the candidate `s` and returns it unchanged unless it lies
/// before the reference instant.
pub fn validate_not_past(s: &str, now: &ReferenceInstant) -> (r: Result<String, ParseError>)
    requires
        now.valid(),
    ensures
        match r {
            Ok(out) => spec_guard(s@, *now) == Ok::<Seq<char>, ErrView>(out@) && out@ == s@,
            Err(e) => spec_guard(s@, *now) == Err::<Seq<char>, ErrView>(e@),
        },
{
    let chars = str_to_chars(s);
    let toks = split_tokens(&chars);
    if toks.len() == 1 {
        proof {
            assert(toks.deep_view()[0] == toks@[0]@);
        }
        match parse_date_token(&toks[0]) {
            Option::Some(d) => {
                if d.to_day_number() < now.date.to_day_number() {
                    Err(ParseError::PastDueDate)
                } else {
                    Ok(s.to_owned())
                }
            },
            Option::None => Err(ParseError::MalformedCandidate),
        }
    } else if toks.len() == 2 {
        proof {
            assert(toks.deep_view()[0] == toks@[0]@);
            assert(toks.deep_view()[1] == toks@[1]@);
        }
        let d = match parse_date_token(&toks[0]) {
            Option::None => {
                return Err(ParseError::MalformedCandidate);
            },
            Option::Some(d) => d,
        };
        match parse_time_token(&toks[1]) {
            Option::None => Err(ParseError::MalformedCandidate),
            Option::Some((h, m)) => {
                if d.to_day_number() * 86400 + h * 3600 + m * 60 < now.to_seconds() {
                    Err(ParseError::PastDueDate)
                } else {
                    Ok(s.to_owned())
                }
            },
        }
    } else {
        Err(ParseError::MalformedCandidate)
    }
}

/// On a rendered date the guard compares calendar dates: it rejects
/// exactly the dates before today's.
pub proof fn lemma_guard_of_date(d: Date, now: ReferenceInstant)
    requires
        d.valid(),
    ensures
        spec_guard(spec_format_date(d), now) == if d.day_number() < now.date.day_number() {
            Err::<Seq<char>, ErrView>(ErrView::PastDueDate)
        } else {
            Ok::<Seq<char>, ErrView>(spec_format_date(d))
        },
{
    let t = spec_format_date(d);
    lemma_format_date_plain(d);
    lemma_tokens_single(t);
    lemma_date_roundtrip(d);
}

/// On a rendered date-time the guard compares full instants: it rejects
/// exactly the wall-clock minutes before the reference instant.
pub proof fn lemma_guard_of_datetime(d: Date, h: int, mi: int, now: ReferenceInstant)
    requires
        d.valid(),
        0 <= h < 24,
        0 <= mi < 60,
    ensures
        spec_guard(spec_format_datetime(d, h, mi), now) == if minute_seconds(d, h, mi)
            < now.seconds() {
            Err::<Seq<char>, ErrView>(ErrView::PastDueDate)
        } else {
            Ok::<Seq<char>, ErrView>(spec_format_datetime(d, h, mi))
        },
{
    let dp = spec_format_date(d);
    let tp = two_digit_chars(h) + seq![':'] + two_digit_chars(mi);
    lemma_format_date_plain(d);
    lemma_format_datetime_split(d, h, mi);
    lemma_tokens_pair(dp, tp);
    lemma_date_roundtrip(d);
    lemma_time_roundtrip(h, mi);
}

/// On a rendered second count the guard compares the count truncated to
/// its minute against the reference instant.
pub proof fn lemma_guard_of_seconds(t: int, now: ReferenceInstant)
    requires
        now.valid(),
        0 <= t <= MAX_SECONDS,
    ensures
        spec_guard(spec_format_seconds(t), now) == if t - t % 60 < now.seconds() {
            Err::<Seq<char>, ErrView>(ErrView::PastDueDate)
        } else {
            Ok::<Seq<char>, ErrView>(spec_format_seconds(t))
        },
{
    let dd = date_of_day_number((t / 86400) as nat);
    let r = t % 86400;
    let h = r / 3600;
    let mi = (r % 3600) / 60;
    lemma_fundamental_div_mod(t, 86400);
    assert(t / 86400 < DAY_COUNT) by {
        if t / 86400 >= DAY_COUNT {
            assert(86400 * (t / 86400) >= 86400 * (DAY_COUNT as int)) by (nonlinear_arith)
                requires
                    t / 86400 >= DAY_COUNT as int,
            ;
        }
    }
    lemma_date_of_day_number((t / 86400) as nat);
    lemma_fundamental_div_mod(r, 3600);
    lemma_fundamental_div_mod(r % 3600, 60);
    lemma_mod_mod(t, 1440, 60);
    lemma_mod_mod(r, 60, 60);
    assert(minute_seconds(dd, h, mi) == t - t % 60);
    lemma_guard_of_datetime(dd, h, mi, now);
}

/// Whether a stored due-date string lies strictly before the reference
/// instant; strings in neither normalized shape are never overdue.
pub open spec fn spec_is_overdue(s: Seq<char>, now: ReferenceInstant) -> bool {
    let toks = spec_tokens(s);
    if toks.len() == 1 {
        match spec_parse_date_token(toks[0]) {
            Option::Some(d) => d.day_number() < now.date.day_number(),
            Option::None => false,
        }
    } else if toks.len() == 2 {
        match (spec_parse_date_token(toks[0]), spec_parse_time_token(toks[1])) {
            (Option::Some(d), Option::Some((h, m))) => minute_seconds(d, h, m) < now.seconds(),
            _ => false,
        }
    } else {
        false
    }
}

/// Whether a stored due-date string lies strictly before the reference
/// instant.
pub fn is_overdue(s: &str, now: &ReferenceInstant) -> (r: bool)
    requires
        now.valid(),
    ensures
        r == spec_is_overdue(s@, *now),
{
    let chars = str_to_chars(s);
    let toks = split_tokens(&chars);
    if toks.len() == 1 {
        proof {
            assert(toks.deep_view()[0] == toks@[0]@);
        }
        match parse_date_token(&toks[0]) {
            Option::Some(d) => d.to_day_number() < now.date.to_day_number(),
            Option::None => false,
        }
    } else if toks.len() == 2 {
        proof {
            assert(toks.deep_view()[0] == toks@[0]@);
            assert(toks.deep_view()[1] == toks@[1]@);
        }
        let d = match parse_date_token(&toks[0]) {
            Option::None => {
                return false;
            },
            Option::Some(d) => d,
        };
        match parse_time_token(&toks[1]) {
            Option::None => false,
            Option::Some((h, m)) => {
                d.to_day_number() * 86400 + h * 3600 + m * 60 < now.to_seconds()
            },
        }
    } else {
        false
    }
}

} // verus!

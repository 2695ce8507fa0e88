//! Duration amounts and units, and offsets from the reference instant.
//!
//! A duration is a non-negative amount and a unit from a closed vocabulary;
//! each unit has a fixed length in seconds (a month is 30 days and a year
//! 365 days, calendar-naive by design).

use crate::calendar::{spec_format_seconds, format_seconds, ReferenceInstant, MAX_SECONDS};
use crate::errors::{ErrView, ParseError};
use crate::text::{
    chars_eq_str, chars_to_string, is_int_token, is_int_token_exec, int_token_value,
    lemma_pow10_pos, pow10, token_amount, token_negative,
};
use vstd::arithmetic::div_mod::lemma_fundamental_div_mod;
use vstd::prelude::*;

verus! {

/// A duration unit from the closed vocabulary.
#[derive(Clone, Copy, Debug, PartialEq, Eq, Structural)]
pub enum TimeUnit {
    Second,
    Minute,
    Hour,
    Day,
    Week,
    Month,
    Year,
}

/// Fixed length of a unit in seconds.
pub open spec fn unit_seconds(u: TimeUnit) -> int {
    match u {
        TimeUnit::Second => 1,
        TimeUnit::Minute => 60,
        TimeUnit::Hour => 3600,
        TimeUnit::Day => 86400,
        TimeUnit::Week => 604800,
        TimeUnit::Month => 2592000,
        TimeUnit::Year => 31536000,
    }
}

/// The unit a (lowercased) token denotes, with all accepted synonyms.
pub open spec fn spec_unit_of(t: Seq<char>) -> Option<TimeUnit> {
    if t == "second"@ || t == "seconds"@ || t == "sec"@ || t == "s"@ {
        Some(TimeUnit::Second)
    } else if t == "minute"@ || t == "minutes"@ || t == "min"@ || t == "m"@ {
        Some(TimeUnit::Minute)
    } else if t == "hour"@ || t == "hours"@ || t == "hr"@ || t == "h"@ {
        Some(TimeUnit::Hour)
    } else if t == "day"@ || t == "days"@ || t == "d"@ {
        Some(TimeUnit::Day)
    } else if t == "week"@ || t == "weeks"@ || t == "w"@ {
        Some(TimeUnit::Week)
    } else if t == "month"@ || t == "months"@ {
        Some(TimeUnit::Month)
    } else if t == "year"@ || t == "years"@ {
        Some(TimeUnit::Year)
    } else {
        None
    }
}

/// Resolves a (lowercased) token to the unit it names.
pub fn unit_of(t: &Vec<char>) -> (r: Option<TimeUnit>)
    ensures
        r == spec_unit_of(t@),
{
    if chars_eq_str(t, "second") || chars_eq_str(t, "seconds") || chars_eq_str(t, "sec")
        || chars_eq_str(t, "s") {
        Some(TimeUnit::Second)
    } else if chars_eq_str(t, "minute") || chars_eq_str(t, "minutes") || chars_eq_str(t, "min")
        || chars_eq_str(t, "m") {
        Some(TimeUnit::Minute)
    } else if chars_eq_str(t, "hour") || chars_eq_str(t, "hours") || chars_eq_str(t, "hr")
        || chars_eq_str(t, "h") {
        Some(TimeUnit::Hour)
    } else if chars_eq_str(t, "day") || chars_eq_str(t, "days") || chars_eq_str(t, "d") {
        Some(TimeUnit::Day)
    } else if chars_eq_str(t, "week") || chars_eq_str(t, "weeks") || chars_eq_str(t, "w") {
        Some(TimeUnit::Week)
    } else if chars_eq_str(t, "month") || chars_eq_str(t, "months") {
        Some(TimeUnit::Month)
    } else if chars_eq_str(t, "year") || chars_eq_str(t, "years") {
        Some(TimeUnit::Year)
    } else {
        None
    }
}

/// Fixed length of a unit in seconds.
pub fn unit_seconds_exec(u: TimeUnit) -> (s: u64)
    ensures
        s == unit_seconds(u),
        1 <= s <= 31536000,
{
    match u {
        TimeUnit::Second => 1,
        TimeUnit::Minute => 60,
        TimeUnit::Hour => 3600,
        TimeUnit::Day => 86400,
        TimeUnit::Week => 604800,
        TimeUnit::Month => 2592000,
        TimeUnit::Year => 31536000,
    }
}

/// Seconds denoted by an amount token and a unit token: the amount must be
/// a non-negative integer, the unit known, and the total representable.
pub open spec fn spec_duration_component(num: Seq<char>, unit: Seq<char>) -> Result<int, ErrView> {
    if !is_int_token(num) {
        Err(ErrView::InvalidDuration)
    } else if int_token_value(num) < 0 {
        Err(ErrView::InvalidDuration)
    } else {
        match spec_unit_of(unit) {
            Option::None => Err(ErrView::UnsupportedUnit(unit)),
            Option::Some(u) => {
                let d = int_token_value(num) * unit_seconds(u);
                if d > MAX_SECONDS {
                    Err(ErrView::InvalidDuration)
                } else {
                    Ok(d)
                }
            },
        }
    }
}

/// Parses one `amount unit` pair into its length in seconds.
pub fn parse_duration_component(num: &Vec<char>, unit: &Vec<char>) -> (r: Result<u64, ParseError>)
    ensures
        match r {
            Ok(d) => spec_duration_component(num@, unit@) == Ok::<int, ErrView>(d as int) && d
                <= MAX_SECONDS,
            Err(e) => spec_duration_component(num@, unit@) == Err::<int, ErrView>(e@),
        },
{
    if !is_int_token_exec(num) {
        return Err(ParseError::InvalidDuration);
    }
    if token_negative(num) {
        return Err(ParseError::InvalidDuration);
    }
    let u = match unit_of(unit) {
        Option::None => {
            return Err(ParseError::UnsupportedUnit(chars_to_string(unit)));
        },
        Option::Some(u) => u,
    };
    let us = unit_seconds_exec(u);
    let ghost v = int_token_value(num@);
    match token_amount(num) {
        Option::None => {
            proof {
                lemma_pow10_pos(12);
                assert(pow10(12) == 1000000000000) by {
                    reveal_with_fuel(pow10, 14);
                }
                assert(v * unit_seconds(u) >= v * 1) by (nonlinear_arith)
                    requires
                        v >= 0,
                        unit_seconds(u) >= 1,
                ;
            }
            Err(ParseError::InvalidDuration)
        },
        Option::Some(a) => {
            let q = MAX_SECONDS / us;
            proof {
                lemma_fundamental_div_mod(MAX_SECONDS as int, us as int);
            }
            if a > q {
                proof {
                    assert(a as int * us as int >= (q + 1) as int * us as int) by (nonlinear_arith)
                        requires
                            a as int >= q + 1,
                            us >= 1,
                    ;
                    assert((q + 1) as int * us as int == q as int * us as int + us as int)
                        by (nonlinear_arith);
                    assert(us as int * q as int == q as int * us as int) by (nonlinear_arith);
                }
                Err(ParseError::InvalidDuration)
            } else {
                proof {
                    assert(a as int * us as int <= q as int * us as int) by (nonlinear_arith)
                        requires
                            0 <= a as int <= q as int,
                            us >= 1,
                    ;
                    assert(us as int * q as int == q as int * us as int) by (nonlinear_arith);
                }
                Ok(a * us)
            }
        },
    }
}

/// Outcome of `amount unit` applied to the reference instant: the shifted
/// instant rendered as `YYYY-MM-DD HH:MM`, or the first rejection.
pub open spec fn spec_offset_result(num: Seq<char>, unit: Seq<char>, now: ReferenceInstant) -> Result<
    Seq<char>,
    ErrView,
> {
    match spec_duration_component(num, unit) {
        Err(e) => Err(e),
        Ok(d) => {
            let t = now.seconds() + d;
            if t > MAX_SECONDS {
                Err(ErrView::InvalidDuration)
            } else {
                Ok(spec_format_seconds(t))
            }
        },
    }
}

/// Parses `amount unit` relative to the reference instant.
pub fn parse_offset(num: &Vec<char>, unit: &Vec<char>, now: &ReferenceInstant) -> (r: Result<
    String,
    ParseError,
>)
    requires
        now.valid(),
    ensures
        match r {
            Ok(s) => spec_offset_result(num@, unit@, *now) == Ok::<Seq<char>, ErrView>(s@),
            Err(e) => spec_offset_result(num@, unit@, *now) == Err::<Seq<char>, ErrView>(e@),
        },
{
    let d = match parse_duration_component(num, unit) {
        Err(e) => {
            return Err(e);
        },
        Ok(d) => d,
    };
    let t = now.to_seconds() + d;
    if t > MAX_SECONDS {
        Err(ParseError::InvalidDuration)
    } else {
        Ok(format_seconds(t))
    }
}

/// Outcome of two summed `amount unit` pairs applied to the reference
/// instant, the pairs validated left to right.
pub open spec fn spec_compound_offset_result(
    num1: Seq<char>,
    unit1: Seq<char>,
    num2: Seq<char>,
    unit2: Seq<char>,
    now: ReferenceInstant,
) -> Result<Seq<char>, ErrView> {
    match spec_duration_component(num1, unit1) {
        Err(e) => Err(e),
        Ok(d1) => match spec_duration_component(num2, unit2) {
            Err(e) => Err(e),
            Ok(d2) => {
                let t = now.seconds() + d1 + d2;
                if t > MAX_SECONDS {
                    Err(ErrView::InvalidDuration)
                } else {
                    Ok(spec_format_seconds(t))
                }
            },
        },
    }
}

/// Parses `amount unit amount unit`, summing both deltas, relative to the
/// reference instant.
pub fn parse_compound_offset(
    num1: &Vec<char>,
    unit1: &Vec<char>,
    num2: &Vec<char>,
    unit2: &Vec<char>,
    now: &ReferenceInstant,
) -> (r: Result<String, ParseError>)
    requires
        now.valid(),
    ensures
        match r {
            Ok(s) => spec_compound_offset_result(num1@, unit1@, num2@, unit2@, *now) == Ok::<
                Seq<char>,
                ErrView,
            >(s@),
            Err(e) => spec_compound_offset_result(num1@, unit1@, num2@, unit2@, *now) == Err::<
                Seq<char>,
                ErrView,
            >(e@),
        },
{
    let d1 = match parse_duration_component(num1, unit1) {
        Err(e) => {
            return Err(e);
        },
        Ok(d) => d,
    };
    let d2 = match parse_duration_component(num2, unit2) {
        Err(e) => {
            return Err(e);
        },
        Ok(d) => d,
    };
    let t = now.to_seconds() + d1 + d2;
    if t > MAX_SECONDS {
        Err(ParseError::InvalidDuration)
    } else {
        Ok(format_seconds(t))
    }
}

} // verus!

//! Weekday names and the three day-offset policies.

use crate::calendar::{day_of_week, spec_day_of_week, Date};
use crate::text::chars_eq_str;
use vstd::prelude::*;

verus! {

/// One of the seven weekdays, ordered from Monday.
#[derive(Clone, Copy, Debug, PartialEq, Eq, Structural)]
pub enum Weekday {
    Monday,
    Tuesday,
    Wednesday,
    Thursday,
    Friday,
    Saturday,
    Sunday,
}

/// Days from Monday: Monday is 0, Sunday is 6.
pub open spec fn weekday_index(w: Weekday) -> int {
    match w {
        Weekday::Monday => 0,
        Weekday::Tuesday => 1,
        Weekday::Wednesday => 2,
        Weekday::Thursday => 3,
        Weekday::Friday => 4,
        Weekday::Saturday => 5,
        Weekday::Sunday => 6,
    }
}

/// The weekday a (lowercased) name or three-letter abbreviation denotes.
pub open spec fn spec_weekday_of_name(t: Seq<char>) -> Option<Weekday> {
    if t == "monday"@ || t == "mon"@ {
        Some(Weekday::Monday)
    } else if t == "tuesday"@ || t == "tue"@ {
        Some(Weekday::Tuesday)
    } else if t == "wednesday"@ || t == "wed"@ {
        Some(Weekday::Wednesday)
    } else if t == "thursday"@ || t == "thu"@ {
        Some(Weekday::Thursday)
    } else if t == "friday"@ || t == "fri"@ {
        Some(Weekday::Friday)
    } else if t == "saturday"@ || t == "sat"@ {
        Some(Weekday::Saturday)
    } else if t == "sunday"@ || t == "sun"@ {
        Some(Weekday::Sunday)
    } else {
        None
    }
}

/// Whether `t` spells a known weekday name.
pub open spec fn spec_is_weekday(t: Seq<char>) -> bool {
    spec_weekday_of_name(t) is Some
}

/// Resolves a (lowercased) token to the weekday it names.
pub fn parse_weekday_name(t: &Vec<char>) -> (r: Option<Weekday>)
    ensures
        r == spec_weekday_of_name(t@),
{
    if chars_eq_str(t, "monday") || chars_eq_str(t, "mon") {
        Some(Weekday::Monday)
    } else if chars_eq_str(t, "tuesday") || chars_eq_str(t, "tue") {
        Some(Weekday::Tuesday)
    } else if chars_eq_str(t, "wednesday") || chars_eq_str(t, "wed") {
        Some(Weekday::Wednesday)
    } else if chars_eq_str(t, "thursday") || chars_eq_str(t, "thu") {
        Some(Weekday::Thursday)
    } else if chars_eq_str(t, "friday") || chars_eq_str(t, "fri") {
        Some(Weekday::Friday)
    } else if chars_eq_str(t, "saturday") || chars_eq_str(t, "sat") {
        Some(Weekday::Saturday)
    } else if chars_eq_str(t, "sunday") || chars_eq_str(t, "sun") {
        Some(Weekday::Sunday)
    } else {
        None
    }
}

/// Whether the token spells a known weekday name.
pub fn is_weekday(t: &Vec<char>) -> (r: bool)
    ensures
        r == spec_is_weekday(t@),
{
    parse_weekday_name(t).is_some()
}

/// Days from Monday: Monday is 0, Sunday is 6.
pub fn days_from_monday(w: Weekday) -> (n: u64)
    ensures
        n == weekday_index(w),
{
    match w {
        Weekday::Monday => 0,
        Weekday::Tuesday => 1,
        Weekday::Wednesday => 2,
        Weekday::Thursday => 3,
        Weekday::Friday => 4,
        Weekday::Saturday => 5,
        Weekday::Sunday => 6,
    }
}

/// Bare-name policy: the next strictly future occurrence of the target
/// weekday; the current weekday itself resolves to a full week ahead.
pub open spec fn spec_days_until_weekday(cur: int, tgt: int) -> int {
    let d = tgt - cur;
    if d <= 0 {
        d + 7
    } else {
        d
    }
}

/// "next" policy: one week past the bare-name resolution whenever the
/// target still lies ahead in the current week.
pub open spec fn spec_days_until_next_weekday(cur: int, tgt: int) -> int {
    let d = tgt - cur;
    if d <= 0 {
        d + 7
    } else {
        d + 7
    }
}

/// "this" policy: the occurrence within the current week, with the current
/// day itself resolving to today.
pub open spec fn spec_days_until_this_week(cur: int, tgt: int) -> int {
    let d = tgt - cur;
    if d < 0 {
        0
    } else {
        d
    }
}

/// Day offset from `from` to the next strictly future `target` weekday.
pub fn days_until_weekday(from: &Date, target: Weekday) -> (n: u64)
    requires
        from.valid(),
    ensures
        n == spec_days_until_weekday(spec_day_of_week(*from), weekday_index(target)),
        1 <= n <= 7,
{
    let cur = day_of_week(from);
    let tgt = days_from_monday(target);
    if tgt > cur {
        tgt - cur
    } else {
        tgt + 7 - cur
    }
}

/// Day offset from `from` to the `target` weekday of the following week.
pub fn days_until_next_weekday(from: &Date, target: Weekday) -> (n: u64)
    requires
        from.valid(),
    ensures
        n == spec_days_until_next_weekday(spec_day_of_week(*from), weekday_index(target)),
        1 <= n <= 13,
{
    let cur = day_of_week(from);
    let tgt = days_from_monday(target);
    tgt + 7 - cur
}

/// Day offset from `from` to the `target` weekday of the current week,
/// clamped to today when the day has already passed.
pub fn days_until_this_week(from: &Date, target: Weekday) -> (n: u64)
    requires
        from.valid(),
    ensures
        n == spec_days_until_this_week(spec_day_of_week(*from), weekday_index(target)),
        n <= 6,
{
    let cur = day_of_week(from);
    let tgt = days_from_monday(target);
    if tgt >= cur {
        tgt - cur
    } else {
        0
    }
}

} // verus!

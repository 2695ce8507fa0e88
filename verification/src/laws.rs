//! Library-wide laws of the due-date parser, stated over the same spec
//! functions that the public contracts use.

use crate::calendar::{
    date_of_day_number, lemma_date_of_day_number, lemma_day_number_bounds, minute_seconds,
    lemma_day_number_injective, spec_day_of_week, spec_format_date, spec_format_seconds, Date,
    ReferenceInstant, DAY_COUNT, MAX_SECONDS,
};
use crate::duration::{
    spec_compound_offset_result, spec_duration_component, spec_offset_result, spec_unit_of,
    unit_seconds,
};
use crate::errors::ErrView;
use crate::guard::{lemma_guard_of_date, lemma_guard_of_datetime, lemma_guard_of_seconds, spec_guard};
use crate::absolute::{
    field2_val, spec_parse_date_token, spec_parse_md_token, spec_parse_time12_token,
    spec_parse_time_token,
};
use crate::parser::{
    spec_date_plus, spec_one_token, spec_three_tokens, spec_parse_due_date, spec_parse_next_weekday,
    spec_parse_this_weekday, spec_parse_weekday, spec_two_tokens, spec_weekday_at_time,
};
use crate::text::{
    all_digits, digit_val, has_no_space, is_digit_char, int_token_value, is_int_token, is_space_char,
    lemma_tokens_append_word, lemma_tokens_blank, lemma_tokens_pair, lemma_tokens_single,
    lower_seq, spec_tokens, to_lower_char,
};
use crate::weekday::{
    spec_days_until_next_weekday, spec_days_until_this_week, spec_days_until_weekday,
    spec_is_weekday, spec_weekday_of_name, weekday_index,
};
use vstd::arithmetic::div_mod::{lemma_fundamental_div_mod, lemma_mod_mod};
use vstd::prelude::*;

verus! {

/// A word of lowercase ASCII letters has no whitespace and is its own
/// lowercase image.
proof fn lemma_lowercase_word_plain(s: Seq<char>)
    ensures
        (forall|i: int| 0 <= i < s.len() ==> 'a' <= #[trigger] s[i] && s[i] <= 'z') ==> (
        has_no_space(s) && lower_seq(s) == s),
{
    if forall|i: int| 0 <= i < s.len() ==> 'a' <= #[trigger] s[i] && s[i] <= 'z' {
        assert(lower_seq(s) =~= s) by {
            assert(forall|i: int|
                0 <= i < s.len() ==> #[trigger] lower_seq(s)[i] == to_lower_char(s[i]));
        }
    }
}

/// Parsing `yesterday` fails as past for every reference instant: its
/// calendar date lies strictly before today's by construction.
pub proof fn lemma_yesterday_always_past(now: ReferenceInstant)
    requires
        now.valid(),
    ensures
        spec_parse_due_date("yesterday"@, now) == Err::<Seq<char>, ErrView>(ErrView::PastDueDate),
{
    let t = "yesterday"@;
    reveal_strlit("yesterday");
    lemma_lowercase_word_plain(t);
    lemma_tokens_single(t);
    reveal_strlit("now");
    reveal_strlit("today");
    reveal_strlit("tomorrow");
    reveal_strlit("tmr");
}

/// Empty or whitespace-only input is rejected as empty, whatever the
/// reference instant.
pub proof fn lemma_blank_input_rejected(input: Seq<char>, now: ReferenceInstant)
    requires
        forall|i: int| 0 <= i < input.len() ==> is_space_char(input[i]),
    ensures
        spec_parse_due_date(input, now) == Err::<Seq<char>, ErrView>(ErrView::EmptyInput),
{
    assert(forall|i: int|
        0 <= i < input.len() ==> is_space_char(#[trigger] lower_seq(input)[i]));
    lemma_tokens_blank(lower_seq(input));
}

/// Every known weekday name is a whitespace-free lowercase word.
proof fn lemma_weekday_name_plain(name: Seq<char>)
    requires
        spec_weekday_of_name(name) is Some,
    ensures
        has_no_space(name),
        lower_seq(name) == name,
        name.len() > 0,
{
    reveal_strlit("monday");
    reveal_strlit("mon");
    reveal_strlit("tuesday");
    reveal_strlit("tue");
    reveal_strlit("wednesday");
    reveal_strlit("wed");
    reveal_strlit("thursday");
    reveal_strlit("thu");
    reveal_strlit("friday");
    reveal_strlit("fri");
    reveal_strlit("saturday");
    reveal_strlit("sat");
    reveal_strlit("sunday");
    reveal_strlit("sun");
    lemma_lowercase_word_plain(name);
}

/// No weekday name collides with another keyword of the grammar.
proof fn lemma_weekday_name_not_keyword(name: Seq<char>)
    requires
        spec_weekday_of_name(name) is Some,
    ensures
        name != "now"@,
        name != "today"@,
        name != "tomorrow"@,
        name != "tmr"@,
        name != "yesterday"@,
{
    reveal_strlit("monday");
    reveal_strlit("mon");
    reveal_strlit("tuesday");
    reveal_strlit("tue");
    reveal_strlit("wednesday");
    reveal_strlit("wed");
    reveal_strlit("thursday");
    reveal_strlit("thu");
    reveal_strlit("friday");
    reveal_strlit("fri");
    reveal_strlit("saturday");
    reveal_strlit("sat");
    reveal_strlit("sunday");
    reveal_strlit("sun");
    reveal_strlit("now");
    reveal_strlit("today");
    reveal_strlit("tomorrow");
    reveal_strlit("tmr");
    reveal_strlit("yesterday");
    assert("monday"@.len() == 6);
    assert("mon"@.len() == 3);
    assert("tuesday"@.len() == 7);
    assert("tue"@.len() == 3);
    assert("wednesday"@.len() == 9);
    assert("wed"@.len() == 3);
    assert("thursday"@.len() == 8);
    assert("thu"@.len() == 3);
    assert("friday"@.len() == 6);
    assert("fri"@.len() == 3);
    assert("saturday"@.len() == 8);
    assert("sat"@.len() == 3);
    assert("sunday"@.len() == 6);
    assert("sun"@.len() == 3);
    assert("now"@.len() == 3);
    assert("today"@.len() == 5);
    assert("tomorrow"@.len() == 8);
    assert("tmr"@.len() == 3);
    assert("yesterday"@.len() == 9);
    assert("mon"@ != "now"@) by {
        assert("mon"@[0] == 'm');
        assert("now"@[0] == 'n');
    }
    assert("mon"@ != "tmr"@) by {
        assert("mon"@[0] == 'm');
        assert("tmr"@[0] == 't');
    }
    assert("tue"@ != "now"@) by {
        assert("tue"@[0] == 't');
        assert("now"@[0] == 'n');
    }
    assert("tue"@ != "tmr"@) by {
        assert("tue"@[1] == 'u');
        assert("tmr"@[1] == 'm');
    }
    assert("wed"@ != "now"@) by {
        assert("wed"@[0] == 'w');
        assert("now"@[0] == 'n');
    }
    assert("wed"@ != "tmr"@) by {
        assert("wed"@[0] == 'w');
        assert("tmr"@[0] == 't');
    }
    assert("thu"@ != "now"@) by {
        assert("thu"@[0] == 't');
        assert("now"@[0] == 'n');
    }
    assert("thu"@ != "tmr"@) by {
        assert("thu"@[1] == 'h');
        assert("tmr"@[1] == 'm');
    }
    assert("fri"@ != "now"@) by {
        assert("fri"@[0] == 'f');
        assert("now"@[0] == 'n');
    }
    assert("fri"@ != "tmr"@) by {
        assert("fri"@[0] == 'f');
        assert("tmr"@[0] == 't');
    }
    assert("sat"@ != "now"@) by {
        assert("sat"@[0] == 's');
        assert("now"@[0] == 'n');
    }
    assert("sat"@ != "tmr"@) by {
        assert("sat"@[0] == 's');
        assert("tmr"@[0] == 't');
    }
    assert("sun"@ != "now"@) by {
        assert("sun"@[0] == 's');
        assert("now"@[0] == 'n');
    }
    assert("sun"@ != "tmr"@) by {
        assert("sun"@[0] == 's');
        assert("tmr"@[0] == 't');
    }
    assert("thursday"@ != "tomorrow"@) by {
        assert("thursday"@[1] == 'h');
        assert("tomorrow"@[1] == 'o');
    }
    assert("saturday"@ != "tomorrow"@) by {
        assert("saturday"@[0] == 's');
        assert("tomorrow"@[0] == 't');
    }
    assert("wednesday"@ != "yesterday"@) by {
        assert("wednesday"@[0] == 'w');
        assert("yesterday"@[0] == 'y');
    }
}

/// The three weekday policies told apart on the boundary case: when the
/// named day is today's own weekday, the bare name and `next` both resolve
/// to seven days ahead, while `this` resolves to today itself.
#[verifier::rlimit(100)]
pub proof fn lemma_weekday_policies(name: Seq<char>, now: ReferenceInstant)
    requires
        now.valid(),
        spec_weekday_of_name(name) is Some,
        weekday_index(spec_weekday_of_name(name).unwrap()) == spec_day_of_week(now.date),
        now.date.day_number() + 7 < DAY_COUNT,
    ensures
        spec_parse_due_date(name, now) == Ok::<Seq<char>, ErrView>(
            spec_format_date(date_of_day_number((now.date.day_number() + 7) as nat)),
        ),
        spec_parse_due_date("next"@ + seq![' '] + name, now) == spec_parse_due_date(name, now),
        spec_parse_due_date("this"@ + seq![' '] + name, now) == Ok::<Seq<char>, ErrView>(
            spec_format_date(now.date),
        ),
{
    let n = now.date.day_number();
    lemma_weekday_name_plain(name);
    lemma_weekday_name_not_keyword(name);
    lemma_day_number_bounds(now.date);
    let target = date_of_day_number((n + 7) as nat);
    lemma_date_of_day_number((n + 7) as nat);
    lemma_guard_of_date(target, now);

    // The bare name: its lone token dispatches to the bare weekday arm.
    lemma_tokens_single(name);
    assert(spec_tokens(lower_seq(name)) == seq![name]);
    assert(spec_one_token(name, now) == spec_parse_weekday(name, now.date));
    assert(spec_parse_weekday(name, now.date) == Ok::<Seq<char>, ErrView>(
        spec_format_date(target),
    ));
    assert(spec_parse_due_date(name, now) == Ok::<Seq<char>, ErrView>(spec_format_date(target)));

    // `next` plus the name resolves through the same offset of seven.
    reveal_strlit("next");
    lemma_lowercase_word_plain("next"@);
    lemma_tokens_pair("next"@, name);
    assert(spec_tokens(lower_seq("next"@ + seq![' '] + name)) =~~= seq!["next"@, name]) by {
        assert(lower_seq("next"@ + seq![' '] + name) =~= "next"@ + seq![' '] + name);
    }
    assert(spec_two_tokens("next"@, name, now) == spec_parse_next_weekday(name, now.date));
    assert(spec_parse_next_weekday(name, now.date) == Ok::<Seq<char>, ErrView>(
        spec_format_date(target),
    ));

    // `this` plus the name clamps to today.
    reveal_strlit("this");
    lemma_lowercase_word_plain("this"@);
    lemma_tokens_pair("this"@, name);
    assert(spec_tokens(lower_seq("this"@ + seq![' '] + name)) =~~= seq!["this"@, name]) by {
        assert(lower_seq("this"@ + seq![' '] + name) =~= "this"@ + seq![' '] + name);
    }
    reveal_strlit("next");
    assert("this"@ != "next"@);
    lemma_date_of_day_number(n as nat);
    lemma_day_number_injective(now.date, date_of_day_number(n as nat));
    assert(spec_two_tokens("this"@, name, now) == spec_parse_this_weekday(name, now.date));
    assert(spec_parse_this_weekday(name, now.date) == Ok::<Seq<char>, ErrView>(
        spec_format_date(now.date),
    ));
    lemma_guard_of_date(now.date, now);
}

/// Round-trip of an absolute date: `2099-01-01` parses back to exactly
/// itself under every reference instant whose date lies before it.
#[verifier::rlimit(100)]
pub proof fn lemma_absolute_date_roundtrip(now: ReferenceInstant)
    requires
        now.valid(),
        now.date.day_number() < (Date { year: 2099, month: 1, day: 1 }).day_number(),
    ensures
        spec_parse_due_date("2099-01-01"@, now) == Ok::<Seq<char>, ErrView>("2099-01-01"@),
{
    let t = "2099-01-01"@;
    let d = Date { year: 2099, month: 1, day: 1 };
    reveal_strlit("2099-01-01");
    assert(t.len() == 10);
    assert(lower_seq(t) =~= t) by {
        assert(forall|i: int| 0 <= i < t.len() ==> #[trigger] lower_seq(t)[i] == to_lower_char(t[i]));
    }
    assert(has_no_space(t));
    lemma_tokens_single(t);

    // No grammar keyword has ten characters, so the token reaches the
    // absolute date arm.
    reveal_strlit("now");
    reveal_strlit("today");
    reveal_strlit("tomorrow");
    reveal_strlit("tmr");
    reveal_strlit("yesterday");
    reveal_strlit("week");
    reveal_strlit("month");
    reveal_strlit("year");
    reveal_strlit("monday");
    reveal_strlit("mon");
    reveal_strlit("tuesday");
    reveal_strlit("tue");
    reveal_strlit("wednesday");
    reveal_strlit("wed");
    reveal_strlit("thursday");
    reveal_strlit("thu");
    reveal_strlit("friday");
    reveal_strlit("fri");
    reveal_strlit("saturday");
    reveal_strlit("sat");
    reveal_strlit("sunday");
    reveal_strlit("sun");
    assert("now"@.len() == 3);
    assert("today"@.len() == 5);
    assert("tomorrow"@.len() == 8);
    assert("tmr"@.len() == 3);
    assert("yesterday"@.len() == 9);
    assert("week"@.len() == 4);
    assert("month"@.len() == 5);
    assert("year"@.len() == 4);
    assert("monday"@.len() == 6);
    assert("mon"@.len() == 3);
    assert("tuesday"@.len() == 7);
    assert("tue"@.len() == 3);
    assert("wednesday"@.len() == 9);
    assert("wed"@.len() == 3);
    assert("thursday"@.len() == 8);
    assert("thu"@.len() == 3);
    assert("friday"@.len() == 6);
    assert("fri"@.len() == 3);
    assert("saturday"@.len() == 8);
    assert("sat"@.len() == 3);
    assert("sunday"@.len() == 6);
    assert("sun"@.len() == 3);
    assert(!spec_is_weekday(t));

    // The token parses as the full date 2099-01-01 and is re-rendered
    // unchanged.
    assert(spec_parse_date_token(t) == Some(d)) by {
        assert(t[6] == '1' && t[6] != '-' && t[7] == '-');
        assert(t.subrange(5, 7)[0] == '0' && t.subrange(5, 7)[1] == '1');
        assert(t.subrange(5, 7).len() == 2);
        assert(field2_val(t.subrange(5, 7)) == Some(1int));
        assert(t.subrange(8, 10)[0] == '0' && t.subrange(8, 10)[1] == '1');
        assert(t.subrange(8, 10).len() == 2);
        assert(field2_val(t.subrange(8, 10)) == Some(1int));
        assert(1000 * digit_val(t[0]) + 100 * digit_val(t[1]) + 10 * digit_val(t[2]) + digit_val(
            t[3],
        ) == 2099);
    }
    assert(spec_format_date(d) =~= t);
    assert(spec_one_token(t, now) == Ok::<Seq<char>, ErrView>(t));
    lemma_guard_of_date(d, now);
}

/// Lowercasing distributes over concatenation.
proof fn lemma_lower_add(a: Seq<char>, b: Seq<char>)
    ensures
        lower_seq(a + b) == lower_seq(a) + lower_seq(b),
{
    assert(lower_seq(a + b) =~= lower_seq(a) + lower_seq(b)) by {
        assert(forall|i: int|
            0 <= i < (a + b).len() ==> #[trigger] lower_seq(a + b)[i] == to_lower_char(
                (a + b)[i],
            ));
        assert(forall|i: int|
            0 <= i < a.len() ==> #[trigger] lower_seq(a)[i] == to_lower_char(a[i]));
        assert(forall|i: int|
            0 <= i < b.len() ==> #[trigger] lower_seq(b)[i] == to_lower_char(b[i]));
    }
}

/// An integer token is a whitespace-free word that lowercasing keeps.
proof fn lemma_int_token_plain(s: Seq<char>)
    requires
        is_int_token(s),
    ensures
        has_no_space(s),
        lower_seq(s) == s,
        s.len() > 0,
{
    assert forall|i: int| 0 <= i < s.len() implies (is_digit_char(#[trigger] s[i]) || s[i] == '+'
        || s[i] == '-') by {
        if !all_digits(s) && i >= 1 {
            assert(is_digit_char(s.subrange(1, s.len() as int)[i - 1]));
        }
    }
    assert(lower_seq(s) =~= s) by {
        assert(forall|i: int|
            0 <= i < s.len() ==> #[trigger] lower_seq(s)[i] == to_lower_char(s[i]));
    }
}

/// Every known unit name is a whitespace-free lowercase word.
proof fn lemma_unit_name_plain(unit: Seq<char>)
    requires
        spec_unit_of(unit) is Some,
    ensures
        has_no_space(unit),
        lower_seq(unit) == unit,
        unit.len() > 0,
{
    reveal_strlit("second");
    reveal_strlit("seconds");
    reveal_strlit("sec");
    reveal_strlit("s");
    reveal_strlit("minute");
    reveal_strlit("minutes");
    reveal_strlit("min");
    reveal_strlit("m");
    reveal_strlit("hour");
    reveal_strlit("hours");
    reveal_strlit("hr");
    reveal_strlit("h");
    reveal_strlit("day");
    reveal_strlit("days");
    reveal_strlit("d");
    reveal_strlit("week");
    reveal_strlit("weeks");
    reveal_strlit("w");
    reveal_strlit("month");
    reveal_strlit("months");
    reveal_strlit("year");
    reveal_strlit("years");
    lemma_lowercase_word_plain(unit);
}

/// A single-unit duration phrase advances the reference instant by
/// exactly the amount times the unit's fixed delta and renders it as a
/// date-time. The last premise is the past-date guard's due: the rendered
/// result is truncated to the minute, so the delta must cover the seconds
/// lost to truncation; every delta of a minute or more does.
#[verifier::rlimit(100)]
pub proof fn lemma_single_unit_duration(num: Seq<char>, unit: Seq<char>, now: ReferenceInstant)
    requires
        now.valid(),
        is_int_token(num),
        int_token_value(num) >= 0,
        spec_unit_of(unit) is Some,
        now.seconds() + int_token_value(num) * unit_seconds(spec_unit_of(unit).unwrap())
            <= MAX_SECONDS,
        (now.seconds() + int_token_value(num) * unit_seconds(spec_unit_of(unit).unwrap())) % 60
            <= int_token_value(num) * unit_seconds(spec_unit_of(unit).unwrap()),
    ensures
        spec_parse_due_date(num + seq![' '] + unit, now) == Ok::<Seq<char>, ErrView>(
            spec_format_seconds(
                now.seconds() + int_token_value(num) * unit_seconds(spec_unit_of(unit).unwrap()),
            ),
        ),
{
    let v = int_token_value(num);
    let us = unit_seconds(spec_unit_of(unit).unwrap());
    let t = now.seconds() + v * us;
    lemma_int_token_plain(num);
    lemma_unit_name_plain(unit);
    lemma_day_number_bounds(now.date);

    // The phrase splits into exactly the two tokens.
    lemma_tokens_pair(num, unit);
    lemma_lower_add(num + seq![' '], unit);
    lemma_lower_add(num, seq![' ']);
    assert(lower_seq(seq![' ']) =~= seq![' ']) by {
        assert(lower_seq(seq![' '])[0] == to_lower_char(' '));
    }
    assert(spec_tokens(lower_seq(num + seq![' '] + unit)) == seq![num, unit]);

    // An integer token starts with a digit or a sign, so the phrase
    // reaches the duration arm.
    reveal_strlit("next");
    reveal_strlit("this");
    assert(num != "next"@) by {
        assert("next"@[0] == 'n');
    }
    assert(num != "this"@) by {
        assert("this"@[0] == 't');
    }
    assert(spec_two_tokens(num, unit, now) == spec_offset_result(num, unit, now));

    // The duration component is exactly `v` times the unit length.
    assert(v * us <= MAX_SECONDS);
    assert(spec_offset_result(num, unit, now) == Ok::<Seq<char>, ErrView>(spec_format_seconds(t)));

    // The rendered result truncates `t` to its minute; the guard accepts
    // it exactly because the delta covers the truncated seconds.
    lemma_guard_of_seconds(t, now);
    assert(spec_guard(spec_format_seconds(t), now) == Ok::<Seq<char>, ErrView>(
        spec_format_seconds(t),
    ));
}

/// Two summed duration pairs commute: `in A B` and `in B A` resolve to
/// the same outcome whenever both pairs are well-formed amount/unit
/// pairs, because the two deltas are summed before the single shift.
#[verifier::rlimit(100)]
pub proof fn lemma_compound_offset_commutes(
    n1: Seq<char>,
    u1: Seq<char>,
    n2: Seq<char>,
    u2: Seq<char>,
    now: ReferenceInstant,
)
    requires
        now.valid(),
        is_int_token(n1),
        int_token_value(n1) >= 0,
        spec_unit_of(u1) is Some,
        is_int_token(n2),
        int_token_value(n2) >= 0,
        spec_unit_of(u2) is Some,
    ensures
        spec_parse_due_date(
            "in"@ + seq![' '] + n1 + seq![' '] + u1 + seq![' '] + n2 + seq![' '] + u2,
            now,
        ) == spec_parse_due_date(
            "in"@ + seq![' '] + n2 + seq![' '] + u2 + seq![' '] + n1 + seq![' '] + u1,
            now,
        ),
{
    lemma_int_token_plain(n1);
    lemma_int_token_plain(n2);
    lemma_unit_name_plain(u1);
    lemma_unit_name_plain(u2);
    reveal_strlit("in");
    lemma_lowercase_word_plain("in"@);
    lemma_five_word_tokens("in"@, n1, u1, n2, u2);
    lemma_five_word_tokens("in"@, n2, u2, n1, u1);
    assert(spec_compound_offset_result(n1, u1, n2, u2, now) == spec_compound_offset_result(
        n2,
        u2,
        n1,
        u1,
        now,
    )) by {
        let d1 = int_token_value(n1) * unit_seconds(spec_unit_of(u1).unwrap());
        let d2 = int_token_value(n2) * unit_seconds(spec_unit_of(u2).unwrap());
        assert(spec_duration_component(n1, u1) == if d1 > MAX_SECONDS {
            Err::<int, ErrView>(ErrView::InvalidDuration)
        } else {
            Ok::<int, ErrView>(d1)
        });
        assert(spec_duration_component(n2, u2) == if d2 > MAX_SECONDS {
            Err::<int, ErrView>(ErrView::InvalidDuration)
        } else {
            Ok::<int, ErrView>(d2)
        });
    }
}

/// The tokens of five nonempty whitespace-free words joined by single
/// spaces are exactly those five words, and lowercasing keeps the phrase
/// when it keeps each word.
proof fn lemma_five_word_tokens(
    w0: Seq<char>,
    w1: Seq<char>,
    w2: Seq<char>,
    w3: Seq<char>,
    w4: Seq<char>,
)
    requires
        w0.len() > 0 && has_no_space(w0) && lower_seq(w0) == w0,
        w1.len() > 0 && has_no_space(w1) && lower_seq(w1) == w1,
        w2.len() > 0 && has_no_space(w2) && lower_seq(w2) == w2,
        w3.len() > 0 && has_no_space(w3) && lower_seq(w3) == w3,
        w4.len() > 0 && has_no_space(w4) && lower_seq(w4) == w4,
    ensures
        spec_tokens(
            lower_seq(w0 + seq![' '] + w1 + seq![' '] + w2 + seq![' '] + w3 + seq![' '] + w4),
        ) == seq![w0, w1, w2, w3, w4],
{
    let sp = seq![' '];
    let full = w0 + sp + w1 + sp + w2 + sp + w3 + sp + w4;
    assert(lower_seq(sp) =~= sp) by {
        assert(lower_seq(sp)[0] == to_lower_char(' '));
    }
    lemma_lower_add(w0 + sp + w1 + sp + w2 + sp + w3 + sp, w4);
    lemma_lower_add(w0 + sp + w1 + sp + w2 + sp + w3, sp);
    lemma_lower_add(w0 + sp + w1 + sp + w2 + sp, w3);
    lemma_lower_add(w0 + sp + w1 + sp + w2, sp);
    lemma_lower_add(w0 + sp + w1 + sp, w2);
    lemma_lower_add(w0 + sp + w1, sp);
    lemma_lower_add(w0 + sp, w1);
    lemma_lower_add(w0, sp);
    assert(lower_seq(full) == full);
    lemma_tokens_single(w0);
    lemma_tokens_append_word(w0, w1);
    lemma_tokens_append_word(w0 + sp + w1, w2);
    lemma_tokens_append_word(w0 + sp + w1 + sp + w2, w3);
    lemma_tokens_append_word(w0 + sp + w1 + sp + w2 + sp + w3, w4);
    assert(spec_tokens(full) =~~= seq![w0, w1, w2, w3, w4]);
}

/// A parsed time token always lies on the 24-hour clock.
proof fn lemma_time_token_bounds(t: Seq<char>)
    ensures
        spec_parse_time_token(t) matches Some(hm) ==> 0 <= hm.0 < 24 && 0 <= hm.1 < 60,
{
}

/// A parsed 12-hour token normalizes onto the 24-hour clock.
proof fn lemma_time12_token_bounds(t: Seq<char>)
    ensures
        spec_parse_time12_token(t) matches Some(hm) ==> 0 <= hm.0 < 24 && 0 <= hm.1 < 60,
{
    if t.len() >= 2 {
        lemma_time_token_bounds(t.subrange(0, t.len() - 2));
    }
}

/// A parsed date token is a valid calendar date.
proof fn lemma_date_token_valid(t: Seq<char>)
    ensures
        spec_parse_date_token(t) matches Some(d) ==> d.valid(),
        forall|y: int| #[trigger] spec_parse_md_token(t, y) matches Some(d) ==> d.valid(),
{
}

/// Under a reference at least a year before the calendar's end, shifting
/// today by up to a year stays on the calendar, and the shifted date's
/// rendering passes the guard or is merely past, never malformed.
proof fn lemma_date_plus_clean(d: Date, k: int, now: ReferenceInstant)
    requires
        now.valid(),
        d == now.date,
        0 <= k <= 365,
        now.date.day_number() + 365 < DAY_COUNT,
    ensures
        spec_date_plus(d, k) matches Ok(raw) && spec_guard(raw, now) != Err::<Seq<char>, ErrView>(
            ErrView::MalformedCandidate,
        ),
{
    lemma_day_number_bounds(d);
    lemma_date_of_day_number((d.day_number() + k) as nat);
    lemma_guard_of_date(date_of_day_number((d.day_number() + k) as nat), now);
}

/// The same for a shifted date carrying a wall-clock minute.
proof fn lemma_weekday_at_time_clean(d: Date, k: int, h: int, mi: int, now: ReferenceInstant)
    requires
        now.valid(),
        d == now.date,
        0 <= k <= 365,
        0 <= h < 24,
        0 <= mi < 60,
        now.date.day_number() + 365 < DAY_COUNT,
    ensures
        spec_weekday_at_time(d, k, h, mi) matches Ok(raw) && spec_guard(raw, now) != Err::<
            Seq<char>,
            ErrView,
        >(ErrView::MalformedCandidate),
{
    lemma_day_number_bounds(d);
    lemma_date_of_day_number((d.day_number() + k) as nat);
    lemma_guard_of_datetime(date_of_day_number((d.day_number() + k) as nat), h, mi, now);
}

/// A duration offset outcome is a rendered second count or a duration
/// rejection, and its rendering never strikes the guard as malformed.
proof fn lemma_offset_clean(num: Seq<char>, unit: Seq<char>, now: ReferenceInstant)
    requires
        now.valid(),
    ensures
        spec_offset_result(num, unit, now) matches Ok(raw) ==> spec_guard(raw, now) != Err::<
            Seq<char>,
            ErrView,
        >(ErrView::MalformedCandidate),
        spec_offset_result(num, unit, now) != Err::<Seq<char>, ErrView>(
            ErrView::MalformedCandidate,
        ),
{
    lemma_day_number_bounds(now.date);
    if spec_offset_result(num, unit, now) is Ok {
        let t = now.seconds() + spec_duration_component(num, unit)->Ok_0;
        lemma_guard_of_seconds(t, now);
    }
}

/// The same for two summed duration pairs.
proof fn lemma_compound_clean(
    n1: Seq<char>,
    u1: Seq<char>,
    n2: Seq<char>,
    u2: Seq<char>,
    now: ReferenceInstant,
)
    requires
        now.valid(),
    ensures
        spec_compound_offset_result(n1, u1, n2, u2, now) matches Ok(raw) ==> spec_guard(raw, now)
            != Err::<Seq<char>, ErrView>(ErrView::MalformedCandidate),
        spec_compound_offset_result(n1, u1, n2, u2, now) != Err::<Seq<char>, ErrView>(
            ErrView::MalformedCandidate,
        ),
{
    lemma_day_number_bounds(now.date);
    if spec_compound_offset_result(n1, u1, n2, u2, now) is Ok {
        let t = now.seconds() + spec_duration_component(n1, u1)->Ok_0 + spec_duration_component(
            n2,
            u2,
        )->Ok_0;
        lemma_guard_of_seconds(t, now);
    }
}

/// A single-token phrase never produces a malformed candidate.
#[verifier::rlimit(100)]
proof fn lemma_one_token_clean(t: Seq<char>, now: ReferenceInstant)
    requires
        now.valid(),
        now.date.day_number() + 365 < DAY_COUNT,
    ensures
        match spec_one_token(t, now) {
            Err(e) => e != ErrView::MalformedCandidate,
            Ok(raw) => spec_guard(raw, now) != Err::<Seq<char>, ErrView>(
                ErrView::MalformedCandidate,
            ),
        },
{
    lemma_day_number_bounds(now.date);
    if t == "now"@ {
        lemma_guard_of_datetime(now.date, now.hour as int, now.minute as int, now);
    } else if t == "today"@ {
        lemma_guard_of_date(now.date, now);
    } else if t == "tomorrow"@ || t == "tmr"@ {
        lemma_date_plus_clean(now.date, 1, now);
    } else if t == "yesterday"@ {
    } else if spec_is_weekday(t) {
        let cur = spec_day_of_week(now.date);
        let tgt = weekday_index(spec_weekday_of_name(t).unwrap());
        assert(0 <= cur < 7);
        assert(0 <= tgt <= 6);
        lemma_date_plus_clean(now.date, spec_days_until_weekday(cur, tgt), now);
    } else if t == "week"@ {
        lemma_date_plus_clean(now.date, 7, now);
    } else if t == "month"@ {
        lemma_date_plus_clean(now.date, 30, now);
    } else if t == "year"@ {
        lemma_date_plus_clean(now.date, 365, now);
    } else {
        lemma_date_token_valid(t);
        lemma_time_token_bounds(t);
        lemma_time12_token_bounds(t);
        if spec_parse_date_token(t) is Some {
            lemma_guard_of_date(spec_parse_date_token(t).unwrap(), now);
        } else if spec_parse_md_token(t, now.date.year as int) is Some {
            lemma_guard_of_date(spec_parse_md_token(t, now.date.year as int).unwrap(), now);
        } else if spec_parse_time_token(t) is Some {
            let (h, mi) = spec_parse_time_token(t).unwrap();
            lemma_guard_of_datetime(now.date, h, mi, now);
        } else if spec_parse_time12_token(t) is Some {
            let (h, mi) = spec_parse_time12_token(t).unwrap();
            lemma_guard_of_datetime(now.date, h, mi, now);
        }
    }
}

/// A two-token phrase never produces a malformed candidate.
#[verifier::rlimit(100)]
proof fn lemma_two_token_clean(t0: Seq<char>, t1: Seq<char>, now: ReferenceInstant)
    requires
        now.valid(),
        now.date.day_number() + 365 < DAY_COUNT,
    ensures
        match spec_two_tokens(t0, t1, now) {
            Err(e) => e != ErrView::MalformedCandidate,
            Ok(raw) => spec_guard(raw, now) != Err::<Seq<char>, ErrView>(
                ErrView::MalformedCandidate,
            ),
        },
{
    lemma_day_number_bounds(now.date);
    let cur = spec_day_of_week(now.date);
    assert(0 <= cur < 7);
    if t0 == "next"@ && spec_is_weekday(t1) {
        let tgt = weekday_index(spec_weekday_of_name(t1).unwrap());
        lemma_date_plus_clean(now.date, spec_days_until_next_weekday(cur, tgt), now);
    } else if t0 == "this"@ && spec_is_weekday(t1) {
        let tgt = weekday_index(spec_weekday_of_name(t1).unwrap());
        lemma_date_plus_clean(now.date, spec_days_until_this_week(cur, tgt), now);
    } else if t0 == "next"@ && t1 == "week"@ {
        lemma_date_plus_clean(now.date, 7, now);
    } else if t0 == "next"@ && t1 == "month"@ {
        lemma_date_plus_clean(now.date, 30, now);
    } else if t0 == "next"@ && t1 == "year"@ {
        lemma_date_plus_clean(now.date, 365, now);
    } else if is_int_token(t0) {
        lemma_offset_clean(t0, t1, now);
    } else if spec_is_weekday(t0) {
        lemma_time_token_bounds(t1);
        if spec_parse_time_token(t1) is Some {
            let (h, mi) = spec_parse_time_token(t1).unwrap();
            let tgt = weekday_index(spec_weekday_of_name(t0).unwrap());
            lemma_weekday_at_time_clean(
                now.date,
                spec_days_until_weekday(cur, tgt),
                h,
                mi,
                now,
            );
        }
    } else {
        lemma_date_token_valid(t0);
        lemma_time_token_bounds(t1);
        if spec_parse_date_token(t0) is Some && spec_parse_time_token(t1) is Some {
            let (h, mi) = spec_parse_time_token(t1).unwrap();
            lemma_guard_of_datetime(spec_parse_date_token(t0).unwrap(), h, mi, now);
        }
    }
}

/// A three-token phrase never produces a malformed candidate.
#[verifier::rlimit(100)]
proof fn lemma_three_token_clean(
    t0: Seq<char>,
    t1: Seq<char>,
    t2: Seq<char>,
    now: ReferenceInstant,
)
    requires
        now.valid(),
        now.date.day_number() + 365 < DAY_COUNT,
    ensures
        match spec_three_tokens(t0, t1, t2, now) {
            Err(e) => e != ErrView::MalformedCandidate,
            Ok(raw) => spec_guard(raw, now) != Err::<Seq<char>, ErrView>(
                ErrView::MalformedCandidate,
            ),
        },
{
    lemma_day_number_bounds(now.date);
    let cur = spec_day_of_week(now.date);
    assert(0 <= cur < 7);
    if t0 == "in"@ {
        lemma_offset_clean(t1, t2, now);
    } else if (t0 == "next"@ || t0 == "this"@) && spec_is_weekday(t1) {
        lemma_time_token_bounds(t2);
        if spec_parse_time_token(t2) is Some {
            let (h, mi) = spec_parse_time_token(t2).unwrap();
            let tgt = weekday_index(spec_weekday_of_name(t1).unwrap());
            if t0 == "next"@ {
                lemma_weekday_at_time_clean(
                    now.date,
                    spec_days_until_next_weekday(cur, tgt),
                    h,
                    mi,
                    now,
                );
            } else {
                lemma_weekday_at_time_clean(
                    now.date,
                    spec_days_until_this_week(cur, tgt),
                    h,
                    mi,
                    now,
                );
            }
        }
    }
}

/// The guard's defensive rejection is unreachable through the parser:
/// for every input, a reference instant at least a year before the
/// calendar's end never sees `MalformedCandidate`. The parser only hands
/// the guard candidates it rendered itself, and those always read back.
pub proof fn lemma_guard_defensive_case_unreachable(input: Seq<char>, now: ReferenceInstant)
    requires
        now.valid(),
        now.date.day_number() + 365 < DAY_COUNT,
    ensures
        spec_parse_due_date(input, now) != Err::<Seq<char>, ErrView>(ErrView::MalformedCandidate),
{
    let toks = spec_tokens(lower_seq(input));
    if toks.len() == 1 {
        lemma_one_token_clean(toks[0], now);
    } else if toks.len() == 2 {
        lemma_two_token_clean(toks[0], toks[1], now);
    } else if toks.len() == 3 {
        lemma_three_token_clean(toks[0], toks[1], toks[2], now);
    } else if toks.len() == 4 {
        if is_int_token(toks[0]) {
            lemma_compound_clean(toks[0], toks[1], toks[2], toks[3], now);
        }
    } else if toks.len() == 5 {
        if toks[0] == "in"@ {
            lemma_compound_clean(toks[1], toks[2], toks[3], toks[4], now);
        }
    }
}

} // verus!


//! Character-level text helpers: ASCII case folding, whitespace
//! tokenization, digit strings and zero-padded decimal formatting.

use vstd::prelude::*;

verus! {

/// Whitespace characters recognized by the tokenizer.
pub open spec fn is_space_char(c: char) -> bool {
    c == ' ' || c == '\t' || c == '\n' || c == '\r'
}

/// ASCII decimal digit.
pub open spec fn is_digit_char(c: char) -> bool {
    '0' <= c && c <= '9'
}

/// Numeric value of an ASCII digit.
pub open spec fn digit_val(c: char) -> int {
    c as int - '0' as int
}

/// ASCII digit for a value below ten.
pub open spec fn digit_char(x: int) -> char {
    ('0' as int + x) as char
}

/// ASCII lowercase image of a character; everything outside `A`..`Z` is kept.
pub open spec fn to_lower_char(c: char) -> char {
    if 'A' <= c && c <= 'Z' {
        (c as int + 32) as char
    } else {
        c
    }
}

/// Pointwise ASCII lowercase image of a character sequence.
pub open spec fn lower_seq(s: Seq<char>) -> Seq<char> {
    s.map_values(|c: char| to_lower_char(c))
}

/// The whitespace-separated tokens of `s`, in order.
pub open spec fn spec_tokens(s: Seq<char>) -> Seq<Seq<char>>
    decreases s.len(),
{
    if s.len() == 0 {
        Seq::empty()
    } else {
        let pre = spec_tokens(s.drop_last());
        let c = s.last();
        if is_space_char(c) {
            pre
        } else if s.len() >= 2 && !is_space_char(s[s.len() - 2]) && pre.len() > 0 {
            pre.update(pre.len() - 1, pre.last().push(c))
        } else {
            pre.push(seq![c])
        }
    }
}

/// The characters of `s`, in order.
pub fn str_to_chars(s: &str) -> (v: Vec<char>)
    ensures
        v@ == s@,
{
    let n = s.unicode_len();
    let mut v: Vec<char> = Vec::new();
    let mut i: usize = 0;
    while i < n
        invariant
            i <= n,
            n == s@.len(),
            v@.len() == i,
            forall|j: int| 0 <= j < i ==> v@[j] == s@[j],
        decreases n - i,
    {
        v.push(s.get_char(i));
        i = i + 1;
    }
    assert(v@ =~= s@);
    v
}

/// ASCII lowercase image of a character vector.
pub fn lower_chars(v: &Vec<char>) -> (r: Vec<char>)
    ensures
        r@ == lower_seq(v@),
{
    let mut r: Vec<char> = Vec::new();
    let mut i: usize = 0;
    while i < v.len()
        invariant
            i <= v@.len(),
            r@.len() == i,
            forall|j: int| 0 <= j < i ==> r@[j] == to_lower_char(v@[j]),
        decreases v@.len() - i,
    {
        let c = v[i];
        if 'A' <= c && c <= 'Z' {
            r.push((((c as u8) + 32) as char));
        } else {
            r.push(c);
        }
        i = i + 1;
    }
    assert(r@ =~= lower_seq(v@));
    r
}

/// Splits a character vector into its whitespace-separated tokens.
pub fn split_tokens(v: &Vec<char>) -> (toks: Vec<Vec<char>>)
    ensures
        toks.deep_view() == spec_tokens(v@),
{
    let mut toks: Vec<Vec<char>> = Vec::new();
    let mut cur: Vec<char> = Vec::new();
    let mut i: usize = 0;
    while i < v.len()
        invariant
            i <= v@.len(),
            cur@.len() > 0 <==> (i > 0 && !is_space_char(v@[i - 1])),
            cur@.len() == 0 ==> spec_tokens(v@.subrange(0, i as int)) == toks.deep_view(),
            cur@.len() > 0 ==> spec_tokens(v@.subrange(0, i as int)) == toks.deep_view().push(
                cur@,
            ),
        decreases v@.len() - i,
    {
        let ghost p = v@.subrange(0, i + 1);
        proof {
            assert(p.drop_last() =~= v@.subrange(0, i as int));
        }
        let c = v[i];
        if c == ' ' || c == '\t' || c == '\n' || c == '\r' {
            if cur.len() > 0 {
                let ghost old_toks = toks.deep_view();
                let ghost curv = cur@;
                toks.push(cur);
                proof {
                    assert(toks.deep_view() =~~= old_toks.push(curv));
                }
                cur = Vec::new();
            }
        } else {
            let ghost pre = spec_tokens(v@.subrange(0, i as int));
            let ghost oldcur = cur@;
            cur.push(c);
            proof {
                if oldcur.len() == 0 {
                    assert(cur@ =~= seq![c]);
                    assert(spec_tokens(p) == pre.push(cur@));
                } else {
                    assert(pre == toks.deep_view().push(oldcur));
                    assert(pre.last() == oldcur);
                    assert(pre.update(pre.len() - 1, oldcur.push(c)) =~~= toks.deep_view().push(
                        cur@,
                    ));
                }
            }
        }
        i = i + 1;
    }
    if cur.len() > 0 {
        let ghost old_toks = toks.deep_view();
        let ghost curv = cur@;
        toks.push(cur);
        proof {
            assert(toks.deep_view() =~~= old_toks.push(curv));
        }
    }
    proof {
        assert(v@.subrange(0, v@.len() as int) =~= v@);
    }
    toks
}

/// Whether the characters of `t` spell exactly the string `s`.
pub fn chars_eq_str(t: &Vec<char>, s: &str) -> (r: bool)
    ensures
        r == (t@ == s@),
{
    let n = s.unicode_len();
    if t.len() != n {
        return false;
    }
    let mut i: usize = 0;
    while i < n
        invariant
            i <= n,
            n == s@.len(),
            t@.len() == n,
            forall|j: int| 0 <= j < i ==> t@[j] == s@[j],
        decreases n - i,
    {
        if t[i] != s.get_char(i) {
            return false;
        }
        i = i + 1;
    }
    assert(t@ =~= s@);
    true
}

/// Relies on `String::push` from std: appends one character to the string.
#[verifier::external_body]
pub(crate) fn push_char(s: &mut String, c: char)
    ensures
        final(s)@ == old(s)@.push(c),
{
    s.push(c);
}

/// Relies on `String::pop` from std: removes the last character, if any.
#[verifier::external_body]
pub(crate) fn pop_char(s: &mut String)
    ensures
        final(s)@ == if old(s)@.len() == 0 {
            old(s)@
        } else {
            old(s)@.drop_last()
        },
{
    s.pop();
}

/// The string is empty or all whitespace.
pub open spec fn is_blank(s: Seq<char>) -> bool {
    forall|i: int| 0 <= i < s.len() ==> is_space_char(s[i])
}

/// Whether the string is empty or all whitespace.
pub fn str_is_blank(s: &str) -> (r: bool)
    ensures
        r == is_blank(s@),
{
    let n = s.unicode_len();
    let mut i: usize = 0;
    while i < n
        invariant
            i <= n,
            n == s@.len(),
            forall|j: int| 0 <= j < i ==> is_space_char(s@[j]),
        decreases n - i,
    {
        let c = s.get_char(i);
        if !(c == ' ' || c == '\t' || c == '\n' || c == '\r') {
            return false;
        }
        i = i + 1;
    }
    true
}

/// `needle` occurs contiguously somewhere in `hay`.
pub open spec fn contains_sub(hay: Seq<char>, needle: Seq<char>) -> bool {
    exists|i: int|
        0 <= i <= hay.len() - needle.len() && #[trigger] hay.subrange(i, i + needle.len())
            == needle
}

/// Whether `needle` occurs contiguously in `hay`.
pub fn contains_chars(hay: &Vec<char>, needle: &Vec<char>) -> (r: bool)
    ensures
        r == contains_sub(hay@, needle@),
{
    let n = needle.len();
    if n > hay.len() {
        return false;
    }
    if n == 0 {
        proof {
            assert(hay@.subrange(0, 0 + needle@.len() as int) =~= needle@);
            assert(contains_sub(hay@, needle@));
        }
        return true;
    }
    let mut i: usize = 0;
    while i <= hay.len() - n
        invariant
            1 <= n == needle@.len() <= hay@.len(),
            0 <= i <= hay@.len() - n + 1,
            forall|k: int|
                0 <= k < i ==> #[trigger] hay@.subrange(k, k + needle@.len()) != needle@,
        decreases hay@.len() + 1 - n - i,
    {
        let mut j: usize = 0;
        let mut matched = true;
        while j < n
            invariant
                1 <= n == needle@.len() <= hay@.len(),
                hay@.len() <= usize::MAX,
                0 <= i <= hay@.len() - n,
                j <= n,
                matched ==> forall|l: int| 0 <= l < j ==> hay@[i + l] == needle@[l],
                !matched ==> hay@.subrange(i as int, i + needle@.len()) != needle@,
            decreases n - j,
        {
            proof {
                assert(i + j < hay@.len());
            }
            if hay[i + j] != needle[j] {
                proof {
                    assert(hay@.subrange(i as int, i + needle@.len())[j as int] == hay@[i + j]);
                }
                matched = false;
                j = n;
            } else {
                j = j + 1;
            }
        }
        if matched {
            proof {
                assert(hay@.subrange(i as int, i + needle@.len()) =~= needle@);
            }
            return true;
        }
        i = i + 1;
    }
    proof {
        assert forall|k: int| 0 <= k <= hay@.len() - needle@.len() implies #[trigger] hay@.subrange(
            k,
            k + needle@.len(),
        ) != needle@ by {}
    }
    false
}

/// A freshly allocated string spelling the characters of `t`.
pub fn chars_to_string(t: &Vec<char>) -> (r: String)
    ensures
        r@ == t@,
{
    let mut r = String::new();
    let mut i: usize = 0;
    while i < t.len()
        invariant
            i <= t@.len(),
            r@ == t@.subrange(0, i as int),
        decreases t@.len() - i,
    {
        push_char(&mut r, t[i]);
        proof {
            assert(t@.subrange(0, i + 1) =~= t@.subrange(0, i as int).push(t@[i as int]));
        }
        i = i + 1;
    }
    proof {
        assert(t@.subrange(0, t@.len() as int) =~= t@);
    }
    r
}

/// No character of `s` is whitespace.
pub open spec fn has_no_space(s: Seq<char>) -> bool {
    forall|i: int| 0 <= i < s.len() ==> !is_space_char(s[i])
}

/// A nonempty whitespace-free string is its own single token.
pub proof fn lemma_tokens_single(s: Seq<char>)
    requires
        s.len() > 0,
        has_no_space(s),
    ensures
        spec_tokens(s) == seq![s],
    decreases s.len(),
{
    if s.len() == 1 {
        assert(s.drop_last().len() == 0);
        assert(spec_tokens(s.drop_last()) =~~= Seq::<Seq<char>>::empty());
        assert(s =~= seq![s.last()]);
        assert(spec_tokens(s) =~~= seq![s]);
    } else {
        assert(has_no_space(s.drop_last())) by {
            assert(forall|i: int|
                0 <= i < s.len() - 1 ==> !is_space_char(#[trigger] s.drop_last()[i]));
        }
        lemma_tokens_single(s.drop_last());
        assert(s.drop_last().push(s.last()) =~= s);
        assert(spec_tokens(s) =~~= seq![s]);
    }
}

/// A trailing space adds no token.
pub proof fn lemma_tokens_push_space(s: Seq<char>, c: char)
    requires
        is_space_char(c),
    ensures
        spec_tokens(s.push(c)) == spec_tokens(s),
{
    assert(s.push(c).drop_last() =~= s);
}

/// Two nonempty whitespace-free strings joined by one space form exactly
/// two tokens.
pub proof fn lemma_tokens_pair(s1: Seq<char>, s2: Seq<char>)
    requires
        s1.len() > 0,
        s2.len() > 0,
        has_no_space(s1),
        has_no_space(s2),
    ensures
        spec_tokens(s1 + seq![' '] + s2) == seq![s1, s2],
    decreases s2.len(),
{
    let w = s1 + seq![' '] + s2;
    if s2.len() == 1 {
        assert(w.drop_last() =~= s1.push(' '));
        lemma_tokens_push_space(s1, ' ');
        lemma_tokens_single(s1);
        assert(w.last() == s2[0]);
        assert(is_space_char(w[w.len() - 2]));
        assert(s2 =~= seq![w.last()]);
        assert(spec_tokens(w) =~~= seq![s1, s2]);
    } else {
        assert(has_no_space(s2.drop_last())) by {
            assert(forall|i: int|
                0 <= i < s2.len() - 1 ==> !is_space_char(#[trigger] s2.drop_last()[i]));
        }
        lemma_tokens_pair(s1, s2.drop_last());
        assert(w.drop_last() =~= s1 + seq![' '] + s2.drop_last());
        assert(w.last() == s2.last());
        assert(w[w.len() - 2] == s2[s2.len() - 2]);
        assert(s2.drop_last().push(s2.last()) =~= s2);
        assert(spec_tokens(w) =~~= seq![s1, s2]);
    }
}

/// A whitespace-only string has no tokens.
pub proof fn lemma_tokens_blank(s: Seq<char>)
    requires
        forall|i: int| 0 <= i < s.len() ==> is_space_char(s[i]),
    ensures
        spec_tokens(s) == Seq::<Seq<char>>::empty(),
    decreases s.len(),
{
    if s.len() > 0 {
        assert(forall|i: int| 0 <= i < s.len() - 1 ==> is_space_char(#[trigger] s.drop_last()[i]));
        lemma_tokens_blank(s.drop_last());
    }
}

/// Joining one more nonempty whitespace-free word with a space appends one
/// more token.
pub proof fn lemma_tokens_append_word(w: Seq<char>, s: Seq<char>)
    requires
        s.len() > 0,
        has_no_space(s),
    ensures
        spec_tokens(w + seq![' '] + s) == spec_tokens(w).push(s),
    decreases s.len(),
{
    let full = w + seq![' '] + s;
    if s.len() == 1 {
        assert(full.drop_last() =~= w.push(' '));
        lemma_tokens_push_space(w, ' ');
        assert(full.last() == s[0]);
        assert(is_space_char(full[full.len() - 2]));
        assert(s =~= seq![full.last()]);
        assert(spec_tokens(full) =~~= spec_tokens(w).push(s));
    } else {
        assert(has_no_space(s.drop_last())) by {
            assert(forall|i: int|
                0 <= i < s.len() - 1 ==> !is_space_char(#[trigger] s.drop_last()[i]));
        }
        lemma_tokens_append_word(w, s.drop_last());
        assert(full.drop_last() =~= w + seq![' '] + s.drop_last());
        assert(full.last() == s.last());
        assert(full[full.len() - 2] == s[s.len() - 2]);
        assert(s.drop_last().push(s.last()) =~= s);
        assert(spec_tokens(full) =~~= spec_tokens(w).push(s));
    }
}

/// Every character of `s` is an ASCII digit.
pub open spec fn all_digits(s: Seq<char>) -> bool {
    forall|i: int| 0 <= i < s.len() ==> is_digit_char(s[i])
}

/// Value of a digit string read in base ten; the empty string reads as zero.
pub open spec fn digits_value(s: Seq<char>) -> int
    decreases s.len(),
{
    if s.len() == 0 {
        0
    } else {
        10 * digits_value(s.drop_last()) + digit_val(s.last())
    }
}

/// An optionally signed run of decimal digits.
pub open spec fn is_int_token(s: Seq<char>) -> bool {
    s.len() > 0 && (all_digits(s) || ((s[0] == '+' || s[0] == '-') && s.len() >= 2 && all_digits(
        s.subrange(1, s.len() as int),
    )))
}

/// Signed value of an integer token.
pub open spec fn int_token_value(s: Seq<char>) -> int {
    if s.len() > 0 && s[0] == '-' {
        -digits_value(s.subrange(1, s.len() as int))
    } else if s.len() > 0 && s[0] == '+' {
        digits_value(s.subrange(1, s.len() as int))
    } else {
        digits_value(s)
    }
}

/// Ten to the power `n`.
pub open spec fn pow10(n: nat) -> int
    decreases n,
{
    if n == 0 {
        1
    } else {
        10 * pow10((n - 1) as nat)
    }
}

pub proof fn lemma_pow10_pos(n: nat)
    ensures
        pow10(n) >= 1,
    decreases n,
{
    if n > 0 {
        lemma_pow10_pos((n - 1) as nat);
    }
}

pub proof fn lemma_pow10_mono(a: nat, b: nat)
    requires
        a <= b,
    ensures
        pow10(a) <= pow10(b),
    decreases b,
{
    if a < b {
        lemma_pow10_mono(a, (b - 1) as nat);
        lemma_pow10_pos((b - 1) as nat);
    }
}

/// A digit string's value is non-negative and below ten to its length.
pub proof fn lemma_digits_value_bounds(s: Seq<char>)
    requires
        all_digits(s),
    ensures
        0 <= digits_value(s) < pow10(s.len() as nat),
    decreases s.len(),
{
    if s.len() > 0 {
        assert(all_digits(s.drop_last())) by {
            assert(forall|i: int|
                0 <= i < s.len() - 1 ==> is_digit_char(#[trigger] s.drop_last()[i]));
        }
        lemma_digits_value_bounds(s.drop_last());
    }
}

/// Leading zeros do not change a digit string's value.
pub proof fn lemma_digits_skip_zeros(s: Seq<char>, k: int)
    requires
        0 <= k <= s.len(),
        forall|i: int| 0 <= i < k ==> s[i] == '0',
    ensures
        digits_value(s) == digits_value(s.subrange(k, s.len() as int)),
    decreases s.len(),
{
    if s.len() == k {
        lemma_digits_all_zero(s);
    } else {
        lemma_digits_skip_zeros(s.drop_last(), k);
        assert(s.drop_last().subrange(k, s.len() - 1) =~= s.subrange(k, s.len() as int).drop_last());
    }
}

/// A string of zeros reads as zero.
pub proof fn lemma_digits_all_zero(s: Seq<char>)
    requires
        forall|i: int| 0 <= i < s.len() ==> s[i] == '0',
    ensures
        digits_value(s) == 0,
    decreases s.len(),
{
    if s.len() > 0 {
        lemma_digits_all_zero(s.drop_last());
    }
}

/// A digit string with a nonzero leading digit reads as at least ten to the
/// power of its remaining length.
pub proof fn lemma_digits_lower_bound(s: Seq<char>)
    requires
        s.len() > 0,
        all_digits(s),
        s[0] != '0',
    ensures
        digits_value(s) >= pow10((s.len() - 1) as nat),
    decreases s.len(),
{
    if s.len() == 1 {
        assert(digits_value(s) == 10 * digits_value(s.drop_last()) + digit_val(s[0]));
        assert(digits_value(s.drop_last()) == 0);
    } else {
        assert(all_digits(s.drop_last())) by {
            assert(forall|i: int|
                0 <= i < s.len() - 1 ==> is_digit_char(#[trigger] s.drop_last()[i]));
        }
        lemma_digits_lower_bound(s.drop_last());
        assert(pow10((s.len() - 1) as nat) == 10 * pow10((s.len() - 2) as nat));
        assert(digit_val(s.last()) >= 0);
    }
}

/// A digit string containing a nonzero digit reads as a positive value.
pub proof fn lemma_digits_positive(s: Seq<char>, w: int)
    requires
        all_digits(s),
        0 <= w < s.len(),
        s[w] != '0',
    ensures
        digits_value(s) > 0,
    decreases s.len(),
{
    assert(all_digits(s.drop_last())) by {
        assert(forall|i: int| 0 <= i < s.len() - 1 ==> is_digit_char(#[trigger] s.drop_last()[i]));
    }
    lemma_digits_value_bounds(s.drop_last());
    if w < s.len() - 1 {
        lemma_digits_positive(s.drop_last(), w);
    }
}

/// Whether the characters of `t` form an optionally signed digit run.
pub fn is_int_token_exec(t: &Vec<char>) -> (r: bool)
    ensures
        r == is_int_token(t@),
{
    if t.len() == 0 {
        return false;
    }
    let c0 = t[0];
    let start: usize = if c0 == '+' || c0 == '-' {
        1
    } else {
        0
    };
    if t.len() == start {
        return false;
    }
    let mut i: usize = start;
    while i < t.len()
        invariant
            start <= i <= t@.len(),
            start == 0 || start == 1,
            start == 1 ==> (t@[0] == '+' || t@[0] == '-'),
            start == 0 ==> !(t@[0] == '+' || t@[0] == '-'),
            t@.len() > start,
            forall|j: int| start <= j < i ==> is_digit_char(t@[j]),
        decreases t@.len() - i,
    {
        let c = t[i];
        if !('0' <= c && c <= '9') {
            proof {
                if start == 1 {
                    assert(!is_digit_char(t@.subrange(1, t@.len() as int)[i - 1]));
                }
            }
            return false;
        }
        i = i + 1;
    }
    proof {
        if start == 1 {
            assert(all_digits(t@.subrange(1, t@.len() as int))) by {
                assert(forall|j: int|
                    0 <= j < t@.len() - 1 ==> is_digit_char(
                        #[trigger] t@.subrange(1, t@.len() as int)[j],
                    ));
            }
        }
    }
    true
}

/// Whether an integer token denotes a strictly negative value.
pub fn token_negative(t: &Vec<char>) -> (r: bool)
    requires
        is_int_token(t@),
    ensures
        r == (int_token_value(t@) < 0),
{
    let ghost digits = t@.subrange(1, t@.len() as int);
    if t[0] != '-' {
        proof {
            if t@[0] == '+' {
                lemma_digits_value_bounds(digits);
            } else {
                lemma_digits_value_bounds(t@);
            }
        }
        return false;
    }
    let mut i: usize = 1;
    while i < t.len()
        invariant
            1 <= i <= t@.len(),
            is_int_token(t@),
            t@[0] == '-',
            digits == t@.subrange(1, t@.len() as int),
            forall|j: int| 1 <= j < i ==> t@[j] == '0',
        decreases t@.len() - i,
    {
        if t[i] != '0' {
            proof {
                assert(!is_digit_char(t@[0]));
                assert(all_digits(digits));
                assert(digits[i - 1] == t@[i as int]);
                lemma_digits_positive(digits, i - 1);
            }
            return true;
        }
        i = i + 1;
    }
    proof {
        assert(forall|j: int| 0 <= j < digits.len() ==> #[trigger] digits[j] == t@[j + 1]);
        lemma_digits_all_zero(digits);
    }
    false
}

/// Magnitude of a non-negative integer token, when it is small enough to
/// take part in any representable offset computation.
pub fn token_amount(t: &Vec<char>) -> (r: Option<u64>)
    requires
        is_int_token(t@),
        int_token_value(t@) >= 0,
    ensures
        match r {
            Some(x) => x as int == int_token_value(t@),
            None => int_token_value(t@) >= pow10(12),
        },
{
    let start: usize = if t[0] == '+' || t[0] == '-' {
        1
    } else {
        0
    };
    let ghost digits = if start == 1 {
        t@.subrange(1, t@.len() as int)
    } else {
        t@
    };
    proof {
        assert(all_digits(digits));
        if t@[0] == '-' {
            lemma_digits_value_bounds(digits);
            assert(forall|j: int| 0 <= j < digits.len() ==> digits[j] == t@[j + 1]);
        }
    }
    let mut z: usize = start;
    while z < t.len() && t[z] == '0'
        invariant
            start <= z <= t@.len(),
            forall|j: int| start <= j < z ==> t@[j] == '0',
        decreases t@.len() - z,
    {
        z = z + 1;
    }
    let ghost sig = t@.subrange(z as int, t@.len() as int);
    proof {
        lemma_digits_skip_zeros(digits, z - start);
        assert(digits.subrange(z - start, digits.len() as int) =~= sig);
        assert(all_digits(sig));
    }
    let k = t.len() - z;
    if k > 12 {
        proof {
            lemma_digits_lower_bound(sig);
            lemma_pow10_mono(12, (sig.len() - 1) as nat);
            if t@[0] == '-' {
                lemma_digits_positive(digits, z - start);
            }
        }
        return None;
    }
    let mut x: u64 = 0;
    let mut i: usize = z;
    proof {
        reveal_with_fuel(pow10, 14);
    }
    while i < t.len()
        invariant
            z <= i <= t@.len(),
            t@.len() - z <= 12,
            sig == t@.subrange(z as int, t@.len() as int),
            all_digits(sig),
            x as int == digits_value(t@.subrange(z as int, i as int)),
            (x as int) < pow10((i - z) as nat),
        decreases t@.len() - i,
    {
        let c = t[i];
        proof {
            assert(is_digit_char(sig[i - z]));
            lemma_pow10_mono((i - z) as nat, 11);
            reveal_with_fuel(pow10, 14);
        }
        let d: u64 = (c as u8 - 48) as u64;
        x = x * 10 + d;
        proof {
            assert(t@.subrange(z as int, i + 1).drop_last() =~= t@.subrange(z as int, i as int));
        }
        i = i + 1;
    }
    proof {
        assert(t@.subrange(z as int, t@.len() as int) == sig);
        if t@[0] == '-' {
            lemma_digits_value_bounds(digits);
        }
    }
    Some(x)
}

/// The two zero-padded decimal digits of a value below one hundred.
pub open spec fn two_digit_chars(x: int) -> Seq<char> {
    seq![digit_char(x / 10), digit_char(x % 10)]
}

/// The four zero-padded decimal digits of a value below ten thousand.
pub open spec fn four_digit_chars(x: int) -> Seq<char> {
    seq![
        digit_char(x / 1000),
        digit_char((x / 100) % 10),
        digit_char((x / 10) % 10),
        digit_char(x % 10),
    ]
}

fn push_digit_char(s: &mut String, x: u64)
    requires
        x < 10,
    ensures
        final(s)@ == old(s)@.push(digit_char(x as int)),
{
    push_char(s, (48 + x as u8) as char);
}

/// Appends the two-digit zero-padded decimal form of `x`.
pub fn push_two_digits(s: &mut String, x: u64)
    requires
        x < 100,
    ensures
        final(s)@ == old(s)@ + two_digit_chars(x as int),
{
    push_digit_char(s, x / 10);
    push_digit_char(s, x % 10);
    proof {
        assert(final(s)@ =~= old(s)@ + two_digit_chars(x as int));
    }
}

/// Appends the four-digit zero-padded decimal form of `x`.
pub fn push_four_digits(s: &mut String, x: u64)
    requires
        x < 10000,
    ensures
        final(s)@ == old(s)@ + four_digit_chars(x as int),
{
    push_digit_char(s, x / 1000);
    push_digit_char(s, (x / 100) % 10);
    push_digit_char(s, (x / 10) % 10);
    push_digit_char(s, x % 10);
    proof {
        assert(final(s)@ =~= old(s)@ + four_digit_chars(x as int));
    }
}

} // verus!

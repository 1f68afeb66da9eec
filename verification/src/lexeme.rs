//! What a lexeme is: the longest run of characters of one class at the
//! head of a text, and the number that a run of digits denotes.
use crate::chars::{decimal_digit_value, is_decimal_digit, is_word_char, is_word_start};
use vstd::prelude::*;

verus! {

/// Whether `c` belongs to a class of lexemes: the numeric class holds the
/// decimal digits, the other one the characters of words.
pub open spec fn in_class(numeric: bool, c: char) -> bool {
    if numeric {
        is_decimal_digit(c)
    } else {
        is_word_char(c)
    }
}

/// The length of the longest prefix of `s` made of characters of the class.
pub open spec fn run_len(s: Seq<char>, numeric: bool) -> nat
    decreases s.len(),
{
    if s.len() > 0 && in_class(numeric, s[0]) {
        1 + run_len(s.drop_first(), numeric)
    } else {
        0
    }
}

/// Whether `s` begins with a decimal digit, which alone decides that the
/// lexeme at its head is numeric.
pub open spec fn starts_number(s: Seq<char>) -> bool {
    s.len() > 0 && is_decimal_digit(s[0])
}

/// The length of the lexeme at the head of `s`; zero when `s` is empty or
/// begins with a character of neither class.
pub open spec fn lexeme_len(s: Seq<char>) -> nat {
    run_len(s, starts_number(s))
}

/// The lexeme at the head of `s`.
pub open spec fn lexeme(s: Seq<char>) -> Seq<char> {
    s.take(lexeme_len(s) as int)
}

/// What follows the lexeme at the head of `s`.
pub open spec fn after_lexeme(s: Seq<char>) -> Seq<char> {
    s.skip(lexeme_len(s) as int)
}

/// Whether `s` is a non-empty run of decimal digits.
pub open spec fn is_digit_run(s: Seq<char>) -> bool {
    s.len() > 0 && forall|i: int| 0 <= i < s.len() ==> is_decimal_digit(#[trigger] s[i])
}

/// Whether `s` is a word: it begins as a word may, and goes on with
/// alphabetic characters, underscores and decimal digits only.
pub open spec fn is_word(s: Seq<char>) -> bool {
    &&& s.len() > 0
    &&& is_word_start(s[0])
    &&& forall|i: int| 0 <= i < s.len() ==> is_word_char(#[trigger] s[i])
}

/// The number that the decimal digits `digits` denote in base ten.
pub open spec fn decimal_value(digits: Seq<char>) -> nat
    decreases digits.len(),
{
    if digits.len() == 0 {
        0
    } else {
        10 * decimal_value(digits.drop_last()) + decimal_digit_value(digits.last())
    }
}

/// A run ends within the text, holds characters of its class only, and is
/// followed by none of them.
pub proof fn lemma_run_len_maximal(s: Seq<char>, numeric: bool)
    ensures
        run_len(s, numeric) <= s.len(),
        forall|i: int| 0 <= i < run_len(s, numeric) ==> in_class(numeric, #[trigger] s[i]),
        run_len(s, numeric) < s.len() ==> !in_class(numeric, s[run_len(s, numeric) as int]),
    decreases s.len(),
{
    if s.len() > 0 && in_class(numeric, s[0]) {
        let tail = s.drop_first();
        lemma_run_len_maximal(tail, numeric);
        assert forall|i: int| 0 <= i < run_len(s, numeric) implies in_class(
            numeric,
            #[trigger] s[i],
        ) by {
            if i > 0 {
                assert(s[i] == tail[i - 1]);
            }
        }
        if run_len(s, numeric) < s.len() {
            assert(s[run_len(s, numeric) as int] == tail[run_len(tail, numeric) as int]);
        }
    }
}

/// The run is the only prefix that holds characters of the class only and
/// is followed by none of them.
pub proof fn lemma_run_len_unique(s: Seq<char>, numeric: bool, n: int)
    requires
        0 <= n <= s.len(),
        forall|i: int| 0 <= i < n ==> in_class(numeric, #[trigger] s[i]),
        n < s.len() ==> !in_class(numeric, s[n]),
    ensures
        run_len(s, numeric) == n,
    decreases s.len(),
{
    if n > 0 {
        let tail = s.drop_first();
        assert(in_class(numeric, s[0]));
        assert forall|i: int| 0 <= i < n - 1 implies in_class(numeric, #[trigger] tail[i]) by {
            assert(tail[i] == s[i + 1]);
        }
        if n - 1 < tail.len() {
            assert(tail[n - 1] == s[n]);
        }
        lemma_run_len_unique(tail, numeric, n - 1);
    }
}

/// The lexeme at the head of a text is empty, a run of digits, or a word,
/// and which of the three is decided by the first character.
pub proof fn lemma_lexeme_shape(s: Seq<char>)
    ensures
        lexeme_len(s) <= s.len(),
        lexeme(s).len() == lexeme_len(s),
        lexeme(s) + after_lexeme(s) == s,
        starts_number(s) ==> is_digit_run(lexeme(s)),
        !starts_number(s) && lexeme_len(s) > 0 ==> is_word(lexeme(s)),
        lexeme_len(s) > 0 <==> s.len() > 0 && (is_decimal_digit(s[0]) || is_word_start(s[0])),
{
    lemma_run_len_maximal(s, starts_number(s));
    assert(lexeme(s) + after_lexeme(s) =~= s);
}

/// A lexeme is never followed by a decimal digit, so no number follows a
/// lexeme directly.
pub proof fn lemma_no_number_after_lexeme(s: Seq<char>)
    requires
        lexeme_len(s) > 0,
    ensures
        !starts_number(after_lexeme(s)),
{
    lemma_run_len_maximal(s, starts_number(s));
    let n = lexeme_len(s) as int;
    if n < s.len() {
        assert(after_lexeme(s)[0] == s[n]);
    }
}

/// A text made of decimal digits only is its own lexeme.
pub proof fn lemma_digit_run_is_lexeme(s: Seq<char>)
    requires
        is_digit_run(s),
    ensures
        starts_number(s),
        lexeme(s) == s,
        after_lexeme(s) == Seq::<char>::empty(),
{
    lemma_run_len_unique(s, true, s.len() as int);
    assert(lexeme(s) =~= s);
    assert(after_lexeme(s) =~= Seq::<char>::empty());
}

/// A word is its own lexeme.
pub proof fn lemma_word_is_lexeme(s: Seq<char>)
    requires
        is_word(s),
    ensures
        !starts_number(s),
        lexeme(s) == s,
        after_lexeme(s) == Seq::<char>::empty(),
{
    lemma_run_len_unique(s, false, s.len() as int);
    assert(lexeme(s) =~= s);
    assert(after_lexeme(s) =~= Seq::<char>::empty());
}

} // verus!

//! Character classes of the lexer.
use vstd::prelude::*;

verus! {

/// Whether `c` is one of the ten ASCII decimal digits.
pub open spec fn is_decimal_digit(c: char) -> bool {
    '0' <= c <= '9'
}

/// The value of the decimal digit `c`.
pub open spec fn decimal_digit_value(c: char) -> nat
    recommends
        is_decimal_digit(c),
{
    if is_decimal_digit(c) {
        (c as int - '0' as int) as nat
    } else {
        0
    }
}

/// The character of the decimal digit of value `d`.
pub open spec fn digit_char(d: nat) -> char
    recommends
        d < 10,
{
    ('0' as nat + d) as char
}

/// The value of `c` read as a digit in a radix of up to 36, where the
/// letters of either case count from ten; 36 when `c` is no such digit.
pub open spec fn radix_digit_value(c: char) -> int {
    if '0' <= c <= '9' {
        c as int - '0' as int
    } else if 'a' <= c <= 'z' {
        c as int - 'a' as int + 10
    } else if 'A' <= c <= 'Z' {
        c as int - 'A' as int + 10
    } else {
        36
    }
}

/// Whether `c` has the Unicode `Alphabetic` property, as
/// `char::is_alphabetic` decides it from the tables of the standard library.
pub uninterp spec fn is_alphabetic_char(c: char) -> bool;

/// Whether `c` may stand in an identifier-like word: alphabetic, an
/// underscore, or a decimal digit.
pub open spec fn is_word_char(c: char) -> bool {
    is_alphabetic_char(c) || c == '_' || is_decimal_digit(c)
}

/// Whether a word can begin with `c`: it is alphabetic or an underscore,
/// and no decimal digit, which would begin a number instead.
pub open spec fn is_word_start(c: char) -> bool {
    !is_decimal_digit(c) && (is_alphabetic_char(c) || c == '_')
}

} // verus!

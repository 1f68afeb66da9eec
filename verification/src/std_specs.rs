//! What this crate takes on trust of the standard library: the contracts
//! below are believed, not proved.
use crate::chars::{is_alphabetic_char, radix_digit_value};
use crate::lexeme::{decimal_value, is_digit_run};
use vstd::prelude::*;
use vstd::utf8::encode_utf8;

verus! {

/// `core::num::ParseIntError`, the error of the standard library's integer
/// parsing: carried through without being looked into.
#[verifier::external_type_specification]
#[verifier::external_body]
pub struct ExParseIntError(core::num::ParseIntError);

/// `char::is_digit`: true exactly for the characters `0-9`, `a-z` and `A-Z`
/// whose digit value is below the radix. The radix must lie in `2..=36`,
/// outside of which the standard library panics.
pub assume_specification[ char::is_digit ](c: char, radix: u32) -> (b: bool)
    requires
        2 <= radix <= 36,
    ensures
        b == (radix_digit_value(c) < radix),
;

/// `char::is_alphabetic`: the result is a function of the character alone,
/// named [`is_alphabetic_char`]; nothing is claimed about which characters
/// it holds for.
pub assume_specification[ char::is_alphabetic ](c: char) -> (b: bool)
    ensures
        b == is_alphabetic_char(c),
;

/// `char::len_utf8`: the number of bytes of the character's UTF-8 encoding,
/// between one and four.
pub assume_specification[ char::len_utf8 ](c: char) -> (n: usize)
    ensures
        n == encode_utf8(seq![c]).len(),
        1 <= n <= 4,
;

/// `String::push`: appends the character to the end of the string.
pub assume_specification[ String::push ](s: &mut String, c: char)
    ensures
        final(s)@ == old(s)@.push(c),
;

/// `str::parse::<i32>` on a non-empty run of decimal digits: it succeeds
/// exactly when the number they denote fits an `i32`, and then returns that
/// number. Nothing is claimed for any other text.
#[verifier::external_body]
pub(crate) fn parse_i32(digits: &str) -> (r: Result<i32, core::num::ParseIntError>)
    ensures
        is_digit_run(digits@) ==> (r is Ok <==> decimal_value(digits@) <= i32::MAX),
        is_digit_run(digits@) ==> (r matches Ok(v) ==> v == decimal_value(digits@)),
{
    digits.parse::<i32>()
}

} // verus!

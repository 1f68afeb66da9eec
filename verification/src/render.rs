//! The text in which tokens and syntax trees are shown.
use crate::chars::{digit_char, is_decimal_digit};
use crate::lexeme::{decimal_value, is_digit_run};
use crate::parser::{Literal, LiteralValue, LiteralValueView, Program};
use crate::token::{TokenValue, TokenValueView};
use vstd::prelude::*;
use vstd::string::*;

verus! {

/// The decimal digits of `n`, the most significant first, without leading
/// zeros; the single digit `0` for zero.
pub open spec fn digits_of(n: nat) -> Seq<char>
    decreases n,
{
    if n < 10 {
        seq![digit_char(n)]
    } else {
        digits_of(n / 10).push(digit_char(n % 10))
    }
}

/// The decimal text of an integer: its digits, after a minus sign where it
/// is negative.
pub open spec fn decimal_text(v: int) -> Seq<char> {
    if v < 0 {
        seq!['-'] + digits_of((-v) as nat)
    } else {
        digits_of(v as nat)
    }
}

/// The text of a token's value: the decimal text of a number, or the text
/// itself.
pub open spec fn token_text(value: TokenValueView) -> Seq<char> {
    match value {
        TokenValueView::Int(v) => decimal_text(v as int),
        TokenValueView::Str(s) => s,
    }
}

/// The text of a literal's value: the name of its variant and, in
/// parentheses, what it holds.
pub open spec fn literal_value_text(value: LiteralValueView) -> Seq<char> {
    match value {
        LiteralValueView::NumberLiteral(v) => "NumberLiteral("@ + decimal_text(v as int) + ")"@,
        LiteralValueView::StringLiteral(s) => "StringLiteral("@ + s + ")"@,
    }
}

/// The text of a literal as it stands, indented, in the text of a program.
pub open spec fn literal_text(value: LiteralValueView) -> Seq<char> {
    "Literal {\n        value: "@ + literal_value_text(value) + "\n    }"@
}

/// The text of a program.
pub open spec fn program_text(body: LiteralValueView) -> Seq<char> {
    "Program {\n    body: "@ + literal_text(body) + "\n}"@
}

/// The digits of a number are a run of decimal digits that denotes it.
pub proof fn lemma_digits_denote(n: nat)
    ensures
        is_digit_run(digits_of(n)),
        decimal_value(digits_of(n)) == n,
    decreases n,
{
    let digits = digits_of(n);
    if n < 10 {
        assert(digits.drop_last() =~= Seq::<char>::empty());
        assert(decimal_value(digits.drop_last()) == 0);
    } else {
        lemma_digits_denote(n / 10);
        assert(digits.drop_last() =~= digits_of(n / 10));
        assert forall|i: int| 0 <= i < digits.len() implies is_decimal_digit(
            #[trigger] digits[i],
        ) by {
            if i < digits.len() - 1 {
                assert(digits[i] == digits_of(n / 10)[i]);
            }
        }
    }
}

/// The decimal digit `d` as a character.
fn digit_to_char(d: u32) -> (c: char)
    requires
        d < 10,
    ensures
        c == digit_char(d as nat),
{
    let code: u8 = 48 + d as u8;
    code as char
}

/// Appends the decimal digits of `n` to `text`.
fn push_digits(text: &mut String, n: u32)
    ensures
        final(text)@ == old(text)@ + digits_of(n as nat),
    decreases n,
{
    if n >= 10 {
        push_digits(text, n / 10);
    }
    text.push(digit_to_char(n % 10));
    proof {
        assert(final(text)@ =~= old(text)@ + digits_of(n as nat));
    }
}

/// Appends the decimal text of `v` to `text`.
fn push_decimal(text: &mut String, v: i32)
    ensures
        final(text)@ == old(text)@ + decimal_text(v as int),
{
    if v < 0 {
        text.push('-');
        let magnitude: i64 = 0 - (v as i64);
        push_digits(text, magnitude as u32);
        proof {
            assert(final(text)@ =~= old(text)@ + decimal_text(v as int));
        }
    } else {
        push_digits(text, v as u32);
    }
}

impl TokenValue {
    /// The text of the value: the decimal text of a number, or the text
    /// itself.
    pub fn to_text(&self) -> (s: String)
        ensures
            s@ == token_text(self@),
    {
        match self {
            TokenValue::Int(v) => {
                let mut text = String::new();
                push_decimal(&mut text, *v);
                text
            },
            TokenValue::Str(s) => s.clone(),
        }
    }
}

impl LiteralValue {
    /// The text of the value: `NumberLiteral(..)` around the decimal text
    /// of a number, or `StringLiteral(..)` around a text as it is.
    pub fn to_text(&self) -> (s: String)
        ensures
            s@ == literal_value_text(self@),
    {
        let mut text = String::new();
        match self {
            LiteralValue::NumberLiteral(v) => {
                text.append("NumberLiteral(");
                push_decimal(&mut text, *v);
            },
            LiteralValue::StringLiteral(s) => {
                text.append("StringLiteral(");
                text.append(s.as_str());
            },
        }
        text.append(")");
        text
    }
}

impl Literal {
    /// The text of the literal as it stands in the text of a program.
    pub fn to_text(&self) -> (s: String)
        ensures
            s@ == literal_text(self@),
    {
        let mut text = String::new();
        text.append("Literal {\n        value: ");
        text.append(self.value.to_text().as_str());
        text.append("\n    }");
        text
    }
}

impl Program {
    /// The text of the program: its body between braces, over three
    /// levels of indentation.
    pub fn to_text(&self) -> (s: String)
        ensures
            s@ == program_text(self@),
    {
        let mut text = String::new();
        text.append("Program {\n    body: ");
        text.append(self.body.to_text().as_str());
        text.append("\n}");
        text
    }
}

} // verus!

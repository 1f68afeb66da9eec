//! What holds of every text that is scanned or parsed.
use crate::chars::{is_decimal_digit, is_word_start};
use crate::error::ParseErrorView;
use crate::lexeme::{
    after_lexeme, decimal_value, is_digit_run, is_word, lemma_digit_run_is_lexeme,
    lemma_lexeme_shape, lemma_no_number_after_lexeme, lemma_word_is_lexeme, lexeme, starts_number,
};
use crate::parser::{
    literal_of, literal_start, literal_step, parse_outcome, primed, state_after_parse,
    LiteralValueView,
};
use crate::render::{decimal_text, lemma_digits_denote, token_text};
use crate::token::{scan, TokenKind, TokenValueView};
use vstd::prelude::*;

verus! {

/// A text made of one or more decimal digits, whose number fits an `i32`,
/// parses to the number literal of that number.
pub proof fn lemma_digits_parse_to_number(text: Seq<char>)
    requires
        is_digit_run(text),
        decimal_value(text) <= i32::MAX,
    ensures
        parse_outcome(text) === Ok(LiteralValueView::NumberLiteral(decimal_value(text) as i32)),
{
    lemma_digit_run_is_lexeme(text);
}

/// A text made of an alphabetic character or an underscore, followed by
/// any number of alphabetic characters, underscores and decimal digits,
/// parses to the string literal of that very text.
pub proof fn lemma_word_parses_to_text(text: Seq<char>)
    requires
        is_word(text),
    ensures
        parse_outcome(text) === Ok(LiteralValueView::StringLiteral(text)),
{
    lemma_word_is_lexeme(text);
}

/// A text that begins with a run of digits whose number is beyond the
/// range of `i32` fails to parse with a numeric overflow.
pub proof fn lemma_large_number_overflows(text: Seq<char>)
    requires
        starts_number(text),
        decimal_value(lexeme(text)) > i32::MAX,
    ensures
        scan(text) === Err(ParseErrorView::NumericOverflow),
        parse_outcome(text) === Err(ParseErrorView::NumericOverflow),
{
    lemma_lexeme_shape(text);
}

/// A number literal is never a wrapped or truncated value: it is exactly
/// the number that the digits at the head of the text denote.
pub proof fn lemma_number_literal_is_exact(text: Seq<char>, value: i32)
    requires
        parse_outcome(text) === Ok(LiteralValueView::NumberLiteral(value)),
    ensures
        starts_number(text),
        is_digit_run(lexeme(text)),
        value == decimal_value(lexeme(text)),
{
    lemma_lexeme_shape(text);
}

/// A string literal is the word at the head of the text.
pub proof fn lemma_string_literal_is_word(text: Seq<char>, word: Seq<char>)
    requires
        parse_outcome(text) === Ok(LiteralValueView::StringLiteral(word)),
    ensures
        word == lexeme(text),
        is_word(word),
{
    lemma_lexeme_shape(text);
}

/// No token is found exactly at the end of a text and before a character
/// that begins neither a number nor a word; nothing is skipped there, and
/// parsing reports the end of the input.
pub proof fn lemma_no_token_iff_no_lexeme_begins(text: Seq<char>)
    ensures
        scan(text) === Ok(None) <==> text.len() == 0 || (!is_decimal_digit(text[0])
            && !is_word_start(text[0])),
        scan(text) === Ok(None) ==> after_lexeme(text) == text,
        scan(text) === Ok(None) ==> parse_outcome(text) === Err(
            ParseErrorView::UnexpectedEndOfInput { expected: literal_start() },
        ),
{
    lemma_lexeme_shape(text);
    if scan(text) === Ok(None) {
        assert(after_lexeme(text) =~= text);
    }
}

/// Every token that is scanned satisfies what is required of token
/// values: a number is not negative and a text is a word.
pub proof fn lemma_scanned_token_is_well_formed(text: Seq<char>, token: TokenValueView)
    requires
        scan(text) === Ok(Some(token)),
    ensures
        token.wf(),
        token.kind() == if starts_number(text) {
            TokenKind::Number
        } else {
            TokenKind::Identifier
        },
{
    lemma_lexeme_shape(text);
}

/// Parsing a text is parsing a literal in the state of a parser that has
/// loaded the text and scanned its first token, unless that scan fails.
/// The token that follows the first is scanned without failure, for it is
/// no number.
pub proof fn lemma_parse_is_literal_of_primed(text: Seq<char>)
    requires
        scan(text) is Ok,
    ensures
        literal_step(primed(text)) == (state_after_parse(text), parse_outcome(text)),
        scan(text)->Ok_0 is Some ==> scan(after_lexeme(text)) is Ok,
{
    lemma_lexeme_shape(text);
    if scan(text)->Ok_0 is Some {
        lemma_no_number_after_lexeme(text);
        lemma_lexeme_shape(after_lexeme(text));
    }
}

/// The text of a token's value parses back to the literal of that token:
/// the decimal text of a number to the number, a word to itself.
pub proof fn lemma_token_text_parses_back(token: TokenValueView)
    requires
        token.wf(),
    ensures
        parse_outcome(token_text(token)) === Ok(literal_of(token)),
{
    match token {
        TokenValueView::Int(v) => {
            lemma_digits_denote(v as nat);
            lemma_digits_parse_to_number(decimal_text(v as int));
        },
        TokenValueView::Str(s) => {
            lemma_word_parses_to_text(s);
        },
    }
}

} // verus!

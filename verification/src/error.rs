//! The ways in which scanning and parsing fail.
use crate::token::{TokenKind, TokenValue, TokenValueView};
use vstd::prelude::*;

verus! {

/// Why a text could not be scanned or parsed. Every failure ends the
/// parse: nothing is recovered and no partial tree is built.
#[derive(Debug, PartialEq, Eq)]
pub enum ParseError {
    /// A token was required and the input had none left.
    UnexpectedEndOfInput { expected: TokenKind },
    /// The token at hand is not of the kind that the grammar asks for.
    UnexpectedTokenKind { expected: TokenKind, actual: TokenValue },
    /// A run of digits denotes a number beyond the range of `i32`.
    NumericOverflow,
}

/// The mathematical content of a [`ParseError`].
pub enum ParseErrorView {
    UnexpectedEndOfInput { expected: TokenKind },
    UnexpectedTokenKind { expected: TokenKind, actual: TokenValueView },
    NumericOverflow,
}

impl View for ParseError {
    type V = ParseErrorView;

    open spec fn view(&self) -> ParseErrorView {
        match self {
            ParseError::UnexpectedEndOfInput { expected } => ParseErrorView::UnexpectedEndOfInput {
                expected: *expected,
            },
            ParseError::UnexpectedTokenKind { expected, actual } => {
                ParseErrorView::UnexpectedTokenKind { expected: *expected, actual: actual@ }
            },
            ParseError::NumericOverflow => ParseErrorView::NumericOverflow,
        }
    }
}

/// The mathematical content of an outcome: that of the value or of the
/// error that it holds.
pub open spec fn outcome_view<T: View, E: View>(r: Result<T, E>) -> Result<T::V, E::V> {
    match r {
        Ok(value) => Ok(value@),
        Err(error) => Err(error@),
    }
}

} // verus!

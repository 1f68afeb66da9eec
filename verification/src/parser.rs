//! The syntax tree and the recursive-descent parser that builds it.
//!
//! The grammar has one production and two kinds of literal:
//!
//! ```text
//! Program → Literal
//! Literal → NUMBER | IDENTIFIER
//! ```
use crate::error::{outcome_view, ParseError, ParseErrorView};
use crate::lexeme::{after_lexeme, lemma_lexeme_shape, lemma_no_number_after_lexeme};
use crate::token::{scan, TokenKind, TokenValue, TokenValueView, Tokenizer};
use vstd::prelude::*;

verus! {

/// The constant that a literal stands for.
#[derive(PartialEq, Eq)]
pub enum LiteralValue {
    NumberLiteral(i32),
    StringLiteral(String),
}

/// The mathematical content of a [`LiteralValue`], and with it of the
/// [`Literal`] and of the [`Program`] that hold one.
pub enum LiteralValueView {
    NumberLiteral(i32),
    StringLiteral(Seq<char>),
}

impl View for LiteralValue {
    type V = LiteralValueView;

    open spec fn view(&self) -> LiteralValueView {
        match self {
            LiteralValue::NumberLiteral(v) => LiteralValueView::NumberLiteral(*v),
            LiteralValue::StringLiteral(s) => LiteralValueView::StringLiteral(s@),
        }
    }
}

/// A leaf of the syntax tree: a constant.
#[derive(PartialEq, Eq)]
pub struct Literal {
    pub value: LiteralValue,
}

impl View for Literal {
    type V = LiteralValueView;

    open spec fn view(&self) -> LiteralValueView {
        self.value@
    }
}

/// The root of the syntax tree. A program always has a body, and the body
/// is one literal.
#[derive(PartialEq, Eq)]
pub struct Program {
    pub body: Literal,
}

impl View for Program {
    type V = LiteralValueView;

    open spec fn view(&self) -> LiteralValueView {
        self.body@
    }
}

/// The literal that a token becomes.
pub open spec fn literal_of(token: TokenValueView) -> LiteralValueView {
    match token {
        TokenValueView::Int(v) => LiteralValueView::NumberLiteral(v),
        TokenValueView::Str(s) => LiteralValueView::StringLiteral(s),
    }
}

/// The kind of token that is reported as missing where a literal should
/// begin and the input has ended: the first alternative of the production.
pub open spec fn literal_start() -> TokenKind {
    TokenKind::Number
}

/// What parsing `text` comes to: the literal of its first token, or the
/// failure to scan or to find one.
pub open spec fn parse_outcome(text: Seq<char>) -> Result<LiteralValueView, ParseErrorView> {
    match scan(text) {
        Ok(Some(token)) => Ok(literal_of(token)),
        Ok(None) => Err(ParseErrorView::UnexpectedEndOfInput { expected: literal_start() }),
        Err(e) => Err(e),
    }
}

/// The mathematical content of a [`Parser`].
pub struct ParserView {
    /// The text that was loaded last.
    pub input: Seq<char>,
    /// The part of it that the tokenizer has not scanned yet.
    pub rest: Seq<char>,
    /// The token that was scanned and not consumed yet.
    pub lookahead: Option<TokenValueView>,
}

/// The token that a parser looks at after scanning at the head of `s`:
/// none at the end, before a character of no class, or on failure.
pub open spec fn next_lookahead(s: Seq<char>) -> Option<TokenValueView> {
    match scan(s) {
        Ok(token) => token,
        Err(_) => None,
    }
}

/// The state of a parser that has loaded `text` and scanned its first
/// token.
pub open spec fn primed(text: Seq<char>) -> ParserView {
    ParserView { input: text, rest: after_lexeme(text), lookahead: next_lookahead(text) }
}

/// The state in which parsing `text` leaves a parser. Where a first token
/// was found it has been consumed, and the parser looks at the token that
/// follows it.
pub open spec fn state_after_parse(text: Seq<char>) -> ParserView {
    if scan(text) is Ok && scan(text)->Ok_0 is Some {
        ParserView {
            input: text,
            rest: after_lexeme(after_lexeme(text)),
            lookahead: next_lookahead(after_lexeme(text)),
        }
    } else {
        primed(text)
    }
}

/// What consuming a token of the kind `expected` does to a parser in the
/// state `state`, and what it returns. Without a token to look at, or
/// with one of another kind, it fails and changes nothing. Otherwise it
/// returns the token and scans the next one, which fails if that is a
/// number out of range.
pub open spec fn eat_step(state: ParserView, expected: TokenKind) -> (
    ParserView,
    Result<TokenValueView, ParseErrorView>,
) {
    match state.lookahead {
        None => (state, Err(ParseErrorView::UnexpectedEndOfInput { expected })),
        Some(token) => if token.kind() != expected {
            (state, Err(ParseErrorView::UnexpectedTokenKind { expected, actual: token }))
        } else {
            let advanced = ParserView {
                input: state.input,
                rest: after_lexeme(state.rest),
                lookahead: next_lookahead(state.rest),
            };
            match scan(state.rest) {
                Ok(_) => (advanced, Ok(token)),
                Err(e) => (advanced, Err(e)),
            }
        },
    }
}

/// What parsing a literal does to a parser in the state `state`, and what
/// it returns: the token it looks at is consumed and becomes the literal.
pub open spec fn literal_step(state: ParserView) -> (
    ParserView,
    Result<LiteralValueView, ParseErrorView>,
) {
    match state.lookahead {
        None => (state, Err(ParseErrorView::UnexpectedEndOfInput { expected: literal_start() })),
        Some(token) => match eat_step(state, token.kind()).1 {
            Ok(_) => (eat_step(state, token.kind()).0, Ok(literal_of(token))),
            Err(e) => (eat_step(state, token.kind()).0, Err(e)),
        },
    }
}

/// Builds the syntax tree of a text, looking one token ahead.
pub struct Parser {
    /// The text that was loaded last.
    pub input: String,
    tokenizer: Tokenizer,
    lookahead: Option<TokenValue>,
}

impl View for Parser {
    type V = ParserView;

    closed spec fn view(&self) -> ParserView {
        ParserView {
            input: self.input@,
            rest: self.tokenizer.remaining(),
            lookahead: match self.lookahead {
                Some(token) => Some(token@),
                None => None,
            },
        }
    }
}

impl Parser {
    /// A parser with no input loaded.
    pub fn new() -> (p: Parser)
        ensures
            p@ == (ParserView {
                input: Seq::<char>::empty(),
                rest: Seq::<char>::empty(),
                lookahead: None,
            }),
    {
        Parser { input: String::new(), tokenizer: Tokenizer::new(), lookahead: None }
    }

    /// Parses `input` into its syntax tree. The text replaces whatever the
    /// parser held before: the outcome and the state that the parser is
    /// left in are determined by `input` alone.
    pub fn parse(&mut self, input: &str) -> (r: Result<Program, ParseError>)
        ensures
            outcome_view(r) == parse_outcome(input@),
            final(self)@ == state_after_parse(input@),
    {
        self.input = input.to_owned();
        self.tokenizer.init(self.input.as_str());
        self.lookahead = None;

        proof {
            lemma_lexeme_shape(input@);
            if scan(input@) is Ok && scan(input@)->Ok_0 is Some {
                lemma_no_number_after_lexeme(input@);
                lemma_lexeme_shape(after_lexeme(input@));
            }
        }
        self.lookahead = match self.tokenizer.get_next() {
            Ok(Some(token)) => Some(token.value),
            Ok(None) => None,
            Err(e) => {
                return Err(e);
            },
        };

        self.program()
    }

    /// The production `Program → Literal`.
    pub fn program(&mut self) -> (r: Result<Program, ParseError>)
        ensures
            (final(self)@, outcome_view(r)) == literal_step(old(self)@),
    {
        match self.literal() {
            Ok(body) => Ok(Program { body }),
            Err(e) => Err(e),
        }
    }

    /// The production `Literal → NUMBER | IDENTIFIER`: the token that the
    /// parser looks at decides which, is consumed, and becomes the literal.
    pub fn literal(&mut self) -> (r: Result<Literal, ParseError>)
        ensures
            (final(self)@, outcome_view(r)) == literal_step(old(self)@),
    {
        let token = match self.lookahead.clone() {
            Some(token) => token,
            None => {
                return Err(ParseError::UnexpectedEndOfInput { expected: TokenKind::Number });
            },
        };
        match token {
            TokenValue::Int(value) => {
                match self.eat(TokenKind::Number) {
                    Ok(_) => Ok(Literal { value: LiteralValue::NumberLiteral(value) }),
                    Err(e) => Err(e),
                }
            },
            TokenValue::Str(value) => {
                match self.eat(TokenKind::Identifier) {
                    Ok(_) => Ok(Literal { value: LiteralValue::StringLiteral(value) }),
                    Err(e) => Err(e),
                }
            },
        }
    }

    /// Consumes the token that the parser looks at, which must be of the
    /// kind `expected`, and scans the next one into its place.
    pub fn eat(&mut self, expected: TokenKind) -> (r: Result<TokenValue, ParseError>)
        ensures
            (final(self)@, outcome_view(r)) == eat_step(old(self)@, expected),
    {
        let token = match self.lookahead.clone() {
            Some(token) => token,
            None => {
                return Err(ParseError::UnexpectedEndOfInput { expected });
            },
        };
        if token.kind() != expected {
            return Err(ParseError::UnexpectedTokenKind { expected, actual: token });
        }
        self.lookahead = None;
        self.lookahead = match self.tokenizer.get_next() {
            Ok(Some(next)) => Some(next.value),
            Ok(None) => None,
            Err(e) => {
                return Err(e);
            },
        };

        Ok(token)
    }
}

} // verus!

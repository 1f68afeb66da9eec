//! A lexer and a recursive-descent parser for a language of one literal.
//!
//! A source text is scanned into tokens, a run of decimal digits or an
//! identifier-like word, and the first token becomes the single literal
//! of a [`parser::Program`]:
//!
//! - [`chars`] and [`lexeme`] say what the characters and the lexemes of
//!   the language are;
//! - [`token`] holds the tokens and the tokenizer, [`parser`] the syntax
//!   tree and the parser, [`error`] their failures, and [`render`] the
//!   text in which they are shown;
//! - [`guarantees`] states what holds of every text;
//! - [`utf8_cursor`] has the facts about byte offsets into UTF-8 text on
//!   which the tokenizer's cursor rests, and [`std_specs`] what is taken
//!   on trust of the standard library.
pub mod chars;
pub mod error;
pub mod guarantees;
pub mod lexeme;
pub mod parser;
pub mod render;
pub mod std_specs;
pub mod token;
pub mod utf8_cursor;

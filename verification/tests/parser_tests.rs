use literal_parser::error::ParseError;
use literal_parser::parser::{Literal, LiteralValue, Parser, Program};
use literal_parser::token::{TokenKind, TokenValue};

fn number(value: i32) -> Program {
    Program { body: Literal { value: LiteralValue::NumberLiteral(value) } }
}

fn text(value: &str) -> Program {
    Program { body: Literal { value: LiteralValue::StringLiteral(value.to_string()) } }
}

fn parse(input: &str) -> Result<Program, ParseError> {
    Parser::new().parse(input)
}

#[test]
fn parses_a_number() {
    assert!(parse("123") == Ok(number(123)));
}

#[test]
fn parses_a_word() {
    assert!(parse("print") == Ok(text("print")));
}

#[test]
fn parses_a_word_with_digits() {
    assert!(parse("foo123") == Ok(text("foo123")));
}

#[test]
fn empty_input_is_unexpected_end() {
    assert!(parse("") == Err(ParseError::UnexpectedEndOfInput { expected: TokenKind::Number }));
}

#[test]
fn digits_parse_to_their_value() {
    assert!(parse("0") == Ok(number(0)));
    assert!(parse("7") == Ok(number(7)));
    assert!(parse("007") == Ok(number(7)));
    assert!(parse("1000000") == Ok(number(1_000_000)));
    assert!(parse("2147483647") == Ok(number(i32::MAX)));
    assert!(parse("0000000000002147483647") == Ok(number(i32::MAX)));
}

#[test]
fn words_parse_to_their_text() {
    for word in ["_", "a", "_a1", "a_b_9", "__init__", "x0123456789", "Zeta", "京都", "été_2"] {
        assert!(parse(word) == Ok(text(word)), "{}", word);
    }
}

#[test]
fn number_out_of_range_overflows() {
    assert!(parse("2147483648") == Err(ParseError::NumericOverflow));
    assert!(parse("4294967296") == Err(ParseError::NumericOverflow));
    assert!(parse("4294967419") == Err(ParseError::NumericOverflow));
    assert!(parse("99999999999999999999999999") == Err(ParseError::NumericOverflow));
    assert!(parse("2147483648abc") == Err(ParseError::NumericOverflow));
}

#[test]
fn second_parse_forgets_the_first() {
    let mut parser = Parser::new();
    assert!(parser.parse("123") == Ok(number(123)));
    assert!(parser.parse("ab") == Ok(text("ab")));
    assert_eq!(parser.input, "ab");
    assert!(parser.parse("a_long_identifier") == Ok(text("a_long_identifier")));
    assert!(parser.parse("12") == Ok(number(12)));
    assert!(parser.parse("") == Err(ParseError::UnexpectedEndOfInput { expected: TokenKind::Number }));
    assert!(parser.parse("12") == Ok(number(12)));
}

#[test]
fn parse_after_a_failure_starts_over() {
    let mut parser = Parser::new();
    assert!(parser.parse("99999999999") == Err(ParseError::NumericOverflow));
    assert!(parser.parse("x") == Ok(text("x")));
    assert!(parser.parse(" ") == Err(ParseError::UnexpectedEndOfInput { expected: TokenKind::Number }));
    assert!(parser.parse("5") == Ok(number(5)));
}

#[test]
fn two_parsers_agree_whatever_came_before() {
    let mut used = Parser::new();
    let _ = used.parse("first_input 1 2 3");
    let mut fresh = Parser::new();
    for input in ["42", "name", "", "42name", "name 42", "?", "99999999999"] {
        assert!(used.parse(input) == fresh.parse(input), "{}", input);
        assert_eq!(used.input, fresh.input);
    }
}

#[test]
fn only_the_first_token_becomes_the_literal() {
    assert!(parse("print 123") == Ok(text("print")));
    assert!(parse("123 print") == Ok(number(123)));
    assert!(parse("123abc") == Ok(number(123)));
    assert!(parse("abc-def") == Ok(text("abc")));
    assert!(parse("12.5") == Ok(number(12)));
}

#[test]
fn nothing_is_skipped_before_a_token() {
    let end = Err(ParseError::UnexpectedEndOfInput { expected: TokenKind::Number });
    assert!(parse(" ") == end);
    assert!(parse(" 123") == end);
    assert!(parse("\tprint") == end);
    assert!(parse("-5") == end);
    assert!(parse("+5") == end);
    assert!(parse("(x)") == end);
    assert!(parse("\n") == end);
}

#[test]
fn parse_keeps_the_input() {
    let mut parser = Parser::new();
    assert_eq!(parser.input, "");
    let _ = parser.parse("print 123");
    assert_eq!(parser.input, "print 123");
}

#[test]
fn eat_without_a_token_is_unexpected_end() {
    let mut parser = Parser::new();
    assert_eq!(
        parser.eat(TokenKind::Identifier),
        Err(ParseError::UnexpectedEndOfInput { expected: TokenKind::Identifier })
    );
    assert_eq!(
        parser.eat(TokenKind::Number),
        Err(ParseError::UnexpectedEndOfInput { expected: TokenKind::Number })
    );
}

#[test]
fn eat_of_the_wrong_kind_is_refused_and_consumes_nothing() {
    let mut parser = Parser::new();
    assert!(parser.parse("123abc") == Ok(number(123)));
    assert_eq!(
        parser.eat(TokenKind::Number),
        Err(ParseError::UnexpectedTokenKind {
            expected: TokenKind::Number,
            actual: TokenValue::Str("abc".to_string()),
        })
    );
    assert_eq!(parser.eat(TokenKind::Identifier), Ok(TokenValue::Str("abc".to_string())));
    assert_eq!(
        parser.eat(TokenKind::Identifier),
        Err(ParseError::UnexpectedEndOfInput { expected: TokenKind::Identifier })
    );
}

#[test]
fn eat_returns_the_token_and_scans_the_next() {
    let mut parser = Parser::new();
    assert!(parser.parse("1a") == Ok(number(1)));
    assert_eq!(parser.eat(TokenKind::Identifier), Ok(TokenValue::Str("a".to_string())));
    assert_eq!(
        parser.eat(TokenKind::Number),
        Err(ParseError::UnexpectedEndOfInput { expected: TokenKind::Number })
    );
}

#[test]
fn literal_consumes_the_lookahead() {
    let mut parser = Parser::new();
    assert!(parser.parse("1a") == Ok(number(1)));
    assert!(parser.literal() == Ok(Literal { value: LiteralValue::StringLiteral("a".to_string()) }));
    assert!(
        parser.literal()
            == Err(ParseError::UnexpectedEndOfInput { expected: TokenKind::Number })
    );
}

#[test]
fn program_on_a_parser_without_input_is_unexpected_end() {
    let mut parser = Parser::new();
    assert!(
        parser.program()
            == Err(ParseError::UnexpectedEndOfInput { expected: TokenKind::Number })
    );
}

#[test]
fn program_wraps_the_literal() {
    let mut parser = Parser::new();
    assert!(parser.parse("7up") == Ok(number(7)));
    assert!(parser.program() == Ok(text("up")));
}

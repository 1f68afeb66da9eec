use literal_parser::parser::{Literal, LiteralValue, Parser, Program};
use literal_parser::token::TokenValue;

#[test]
fn a_number_token_shows_its_decimal_text() {
    assert_eq!(TokenValue::Int(0).to_text(), "0");
    assert_eq!(TokenValue::Int(7).to_text(), "7");
    assert_eq!(TokenValue::Int(10).to_text(), "10");
    assert_eq!(TokenValue::Int(123).to_text(), "123");
    assert_eq!(TokenValue::Int(1_000_000).to_text(), "1000000");
    assert_eq!(TokenValue::Int(i32::MAX).to_text(), "2147483647");
}

#[test]
fn a_negative_number_shows_a_minus_sign() {
    assert_eq!(TokenValue::Int(-1).to_text(), "-1");
    assert_eq!(TokenValue::Int(-90).to_text(), "-90");
    assert_eq!(TokenValue::Int(i32::MIN).to_text(), "-2147483648");
}

#[test]
fn decimal_text_is_that_of_the_standard_library() {
    let mut v: i32 = i32::MIN;
    loop {
        assert_eq!(TokenValue::Int(v).to_text(), format!("{}", v));
        match v.checked_add(9_999_991) {
            Some(next) => v = next,
            None => break,
        }
    }
    for v in -1100..1100 {
        assert_eq!(TokenValue::Int(v).to_text(), format!("{}", v));
    }
}

#[test]
fn a_text_token_shows_its_text() {
    assert_eq!(TokenValue::Str("print".to_string()).to_text(), "print");
    assert_eq!(TokenValue::Str("été_1".to_string()).to_text(), "été_1");
    assert_eq!(TokenValue::Str(String::new()).to_text(), "");
}

#[test]
fn a_literal_value_shows_its_variant() {
    assert_eq!(LiteralValue::NumberLiteral(123).to_text(), "NumberLiteral(123)");
    assert_eq!(LiteralValue::NumberLiteral(-5).to_text(), "NumberLiteral(-5)");
    assert_eq!(LiteralValue::StringLiteral("print".to_string()).to_text(), "StringLiteral(print)");
    assert_eq!(LiteralValue::StringLiteral(String::new()).to_text(), "StringLiteral()");
}

#[test]
fn a_literal_shows_its_value_indented() {
    let literal = Literal { value: LiteralValue::NumberLiteral(42) };
    assert_eq!(literal.to_text(), "Literal {\n        value: NumberLiteral(42)\n    }");
}

#[test]
fn a_program_shows_its_body() {
    let program = Program { body: Literal { value: LiteralValue::StringLiteral("print".to_string()) } };
    assert_eq!(
        program.to_text(),
        "Program {\n    body: Literal {\n        value: StringLiteral(print)\n    }\n}"
    );
}

#[test]
fn a_parsed_program_shows_its_first_token() {
    let mut parser = Parser::new();
    let shown = match parser.parse("print 123") {
        Ok(program) => program.to_text(),
        Err(_) => String::new(),
    };
    assert_eq!(shown, "Program {\n    body: Literal {\n        value: StringLiteral(print)\n    }\n}");
}

#[test]
fn the_text_of_a_token_parses_back() {
    for v in [0, 1, 9, 10, 99, 100, 65_535, i32::MAX] {
        let text = TokenValue::Int(v).to_text();
        let expected = Program { body: Literal { value: LiteralValue::NumberLiteral(v) } };
        assert!(Parser::new().parse(&text) == Ok(expected), "{}", v);
    }
}

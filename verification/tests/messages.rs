use phosphorus::rtr::ast::parser::Parser;
use phosphorus::rtr::ast::tokenise;
use phosphorus::rtr::error::Error;
use phosphorus::shared::position::Position;
use phosphorus::shared::range::Range;
use phosphorus::shared::text::decimal;
use phosphorus::shared::token::{Token, TokenType};

fn expr_err(src: &str) -> Error {
    Parser::new(tokenise(src)).expression().unwrap_err()
}

#[test]
fn decimal_writes_whole_numbers() {
    for n in [0usize, 1, 9, 10, 11, 99, 100, 12345, 9007199254740993, usize::MAX] {
        assert_eq!(decimal(n), n.to_string());
    }
}

#[test]
fn positions_and_ranges_are_shown_by_line_and_column() {
    let start = Position { ln: 3, col: 14, i: 159 };
    let end = Position { ln: 10, col: 1, i: 200 };
    assert_eq!(start.to_text(), "3:14");
    assert_eq!(Range { start, end }.to_text(), "3:14-10:1");
}

#[test]
fn tokens_are_shown_by_kind_and_range() {
    let range = Range { start: Position::start(), end: Position::start() + 1 };
    assert_eq!(TokenType::Space.debug_text(), "<space>");
    assert_eq!(TokenType::Newline.debug_text(), "<newline>");
    assert_eq!(TokenType::EOF.debug_text(), "<EOF>");
    assert_eq!(TokenType::OpenCurly.debug_text(), "`{`");
    assert_eq!(TokenType::BackQuote.debug_text(), "```");
    assert_eq!(TokenType::Text(String::from("ab")).debug_text(), "`ab`");
    let token = Token { token_type: TokenType::Comma, range };
    assert_eq!(token.debug_text(), "Token `,` at 1:1-1:2");
    assert_eq!(token.to_text(), ",");
}

#[test]
fn error_messages() {
    assert_eq!(Error::Placeholder.message(), "placeholder err :P");
    assert_eq!(expr_err("a + )").message(), "unexpected token 'Token `)` at 1:5-1:6'");
    assert_eq!(expr_err("f(1 2)").message(), "expected ',' or ')', got '2' at 1:5-1:6");
    assert_eq!(expr_err("(1").message(), "expected ')', got '' at 1:4-1:5");
    assert_eq!(
        Parser::new(tokenise("{")).parse().unwrap_err().message(),
        "expected text, got {"
    );
    assert_eq!(
        Parser::new(tokenise("a {\n b c }")).parse().unwrap_err().message(),
        "expected '\n' or '}', got 'c' at 2:4-2:5"
    );
    assert_eq!(
        Error::CannotCall { func: String::from("x") }.message(),
        "cannot call 'x' as func"
    );
    assert_eq!(
        Error::Expected { wanted: Vec::new(), got: Box::new(Parser::new(Vec::new()).peek()), range: Box::new(Range { start: Position::start(), end: Position::start() }) }.message(),
        "expected , got '' at 1:1-1:1"
    );
}

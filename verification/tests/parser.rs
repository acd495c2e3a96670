use phosphorus::rtr::ast::node::{
    AstExpression, AstProgram, AstStatement, AstTopLevelStatement, BinaryOp, EventTarget, Target,
    UnaryOp,
};
use phosphorus::rtr::ast::parser::Parser;
use phosphorus::rtr::ast::tokenise;
use phosphorus::rtr::error::Error;
use phosphorus::rtr::number::Number;
use phosphorus::shared::position::Position;
use phosphorus::shared::range::Range;
use phosphorus::shared::token::TokenType;

fn parse(src: &str) -> Result<AstProgram, Error> {
    Parser::new(tokenise(src)).parse()
}

fn expr(src: &str) -> AstExpression {
    let mut parser = Parser::new(tokenise(src));
    let e = parser.expression().unwrap();
    assert!(parser.at_end(), "tokens left after {}", src);
    e
}

fn expr_err(src: &str) -> Error {
    Parser::new(tokenise(src)).expression().unwrap_err()
}

fn show(e: &AstExpression) -> String {
    match e {
        AstExpression::Call { args, func, .. } => {
            let inner: Vec<String> = args.iter().map(show).collect();
            format!("{}({})", show(func), inner.join(", "))
        }
        AstExpression::Declare { name, value, .. } => format!("({} = {})", name, show(value)),
        AstExpression::Unary { value, op, .. } => format!("({:?} {})", op, show(value)),
        AstExpression::Binary { left, right, op, .. } => {
            format!("({} {:?} {})", show(left), op, show(right))
        }
        AstExpression::Variable { name, .. } => name.clone(),
        AstExpression::String { content, .. } => format!("{:?}", content),
        AstExpression::Number { content, .. } => format!("{}", f32::from_bits(content.bits)),
        AstExpression::Percentage { content, .. } => {
            format!("{}%", f32::from_bits(content.bits))
        }
    }
}

fn body(program: &AstProgram, i: usize) -> &Vec<AstStatement> {
    match &program.events[i] {
        AstTopLevelStatement::Event { body, .. } => body,
    }
}

#[test]
fn onload_with_one_call() {
    let program = parse("onload { log(\"hi\") }").unwrap();
    assert_eq!(program.events.len(), 1);
    match &program.events[0] {
        AstTopLevelStatement::Event { body, target } => {
            match target {
                EventTarget::Global { name } => assert_eq!(name, "onload"),
                other => panic!("{:?}", other),
            }
            assert_eq!(body.len(), 1);
            match &body[0] {
                AstStatement::Expression(AstExpression::Call { args, func, .. }) => {
                    match &**func {
                        AstExpression::Variable { name, .. } => assert_eq!(name, "log"),
                        other => panic!("{:?}", other),
                    }
                    assert_eq!(args.len(), 1);
                    match &args[0] {
                        AstExpression::String { content, .. } => assert_eq!(content, "hi"),
                        other => panic!("{:?}", other),
                    }
                }
                other => panic!("{:?}", other),
            }
        }
    }
}

#[test]
fn empty_script_has_no_events() {
    assert_eq!(parse("").unwrap().events.len(), 0);
    assert_eq!(parse(" \n \n").unwrap().events.len(), 0);
    assert_eq!(parse("// nothing\n/* at all */").unwrap().events.len(), 0);
}

#[test]
fn several_events_and_statements() {
    let program = parse("onload {\n  x = 1\n\n  log(x) // shown\n}\n\nonclick { }\nonload {}").unwrap();
    assert_eq!(program.events.len(), 3);
    assert_eq!(body(&program, 0).len(), 2);
    assert_eq!(body(&program, 1).len(), 0);
    assert_eq!(body(&program, 2).len(), 0);
}

#[test]
fn property_targets() {
    let program = parse("*:click {}\n#main:hover {}\nbutton:press {}").unwrap();
    let mut seen = Vec::new();
    for event in program.events.iter() {
        match event {
            AstTopLevelStatement::Event { target, .. } => match target {
                EventTarget::Property { target, event_name } => match target {
                    Target::Any => seen.push(format!("*:{}", event_name)),
                    Target::Id(id) => seen.push(format!("#{}:{}", id, event_name)),
                    Target::Element(e) => seen.push(format!("{}:{}", e, event_name)),
                },
                other => panic!("{:?}", other),
            },
        }
    }
    assert_eq!(seen, vec!["*:click", "#main:hover", "button:press"]);
}

#[test]
fn binary_operators_group_by_level_and_from_the_left() {
    assert_eq!(show(&expr("1 + 2 * 3")), "(1 Add (2 Mul 3))");
    assert_eq!(show(&expr("1 * 2 + 3")), "((1 Mul 2) Add 3)");
    assert_eq!(show(&expr("1 - 2 - 3")), "((1 Sub 2) Sub 3)");
    assert_eq!(show(&expr("8 / 4 % 3")), "((8 Div 4) Mod 3)");
    assert_eq!(show(&expr("1 < 2 == 3 >= 4")), "((1 Smaller 2) Eql (3 BiggerEql 4))");
    assert_eq!(show(&expr("a ?? b != c")), "(a NullishCoalescence (b NotEql c))");
    assert_eq!(show(&expr("a <= b > c")), "((a SmallerEql b) Bigger c)");
    assert_eq!(show(&expr("1+2")), "(1 Add 2)");
}

#[test]
fn power_groups_from_the_right_and_binds_more_than_products() {
    assert_eq!(show(&expr("2 ^ 3 ^ 4")), "(2 Pow (3 Pow 4))");
    assert_eq!(show(&expr("2 * 3 ^ 4")), "(2 Mul (3 Pow 4))");
    assert_eq!(show(&expr("-2 ^ 2")), "((Minus 2) Pow 2)");
}

#[test]
fn unary_operators() {
    assert_eq!(show(&expr("-x")), "(Minus x)");
    assert_eq!(show(&expr("+x")), "(Number x)");
    assert_eq!(show(&expr("!x")), "(Invert x)");
    assert_eq!(show(&expr("!!x")), "(Boolify x)");
    assert_eq!(show(&expr("!!!x")), "(Boolify (Invert x))");
    assert_eq!(show(&expr("--x")), "(Minus (Minus x))");
    assert_eq!(show(&expr("a - -b")), "(a Sub (Minus b))");
    assert_eq!(show(&expr("-f(1)")), "(Minus f(1))");
}

#[test]
fn calls_bind_most_and_chain_from_the_left() {
    assert_eq!(show(&expr("f(1)(2, 3)()")), "f(1)(2, 3)()");
    assert_eq!(show(&expr("f( a ,b )")), "f(a, b)");
    assert_eq!(show(&expr("1 + f(2) * 3")), "(1 Add (f(2) Mul 3))");
    assert_eq!(show(&expr("f(g(x), y = 2)")), "f(g(x), (y = 2))");
    assert_eq!(show(&expr("\"x\"(1)")), "\"x\"(1)");
}

#[test]
fn declarations_bind_least_and_nest() {
    assert_eq!(show(&expr("x = 1 + 2")), "(x = (1 Add 2))");
    assert_eq!(show(&expr("x = y = 3")), "(x = (y = 3))");
    assert_eq!(show(&expr("x=1")), "(x = 1)");
    assert_eq!(show(&expr("x == 1")), "(x Eql 1)");
    assert_eq!(show(&expr("x ?? y")), "(x NullishCoalescence y)");
}

#[test]
fn brackets_group() {
    assert_eq!(show(&expr("(1 + 2) * 3")), "((1 Add 2) Mul 3)");
    assert_eq!(show(&expr("( ( x ) )")), "x");
}

#[test]
fn numbers_and_percentages() {
    match expr("42") {
        AstExpression::Number { content, .. } => assert_eq!(content, Number { bits: 42f32.to_bits() }),
        other => panic!("{:?}", other),
    }
    match expr("50%") {
        AstExpression::Percentage { content, range } => {
            assert_eq!(f32::from_bits(content.bits), 50.0);
            assert_eq!(range.start.i, 0);
            assert_eq!(range.end.i, 3);
        }
        other => panic!("{:?}", other),
    }
    assert_eq!(show(&expr("5 % 2")), "(5 Mod 2)");
    assert_eq!(show(&expr("5% % 2")), "(5% Mod 2)");
    assert_eq!(show(&expr("16777217")), "16777216");
}

#[test]
fn strings_and_escapes() {
    let cases = [
        ("\"hi\"", "hi"),
        ("'a b'", "a b"),
        ("`x`", "x"),
        ("\"\"", ""),
        ("\"a\\nb\"", "a\nb"),
        ("\"a\\\"b\"", "a\"b"),
        ("\"a\\\\b\"", "a\\b"),
        ("\"it's\"", "it's"),
        ("'say \"x\"'", "say \"x\""),
        ("\"1 + 2 = (3)\"", "1 + 2 = (3)"),
        ("\"a\\tb\"", "atb"),
        ("\"\\nope\"", "\nope"),
        ("\"two\nlines\"", "two\nlines"),
    ];
    for (src, want) in cases {
        match expr(src) {
            AstExpression::String { content, range } => {
                assert_eq!(content, want, "{}", src);
                assert_eq!(range.start.i, 0);
                assert_eq!(range.end.i, src.chars().count());
            }
            other => panic!("{:?}", other),
        }
    }
}

#[test]
fn ranges_span_the_expression() {
    let e = expr("ab + f(1)");
    assert_eq!(
        e.range(),
        Range { start: Position { ln: 1, col: 1, i: 0 }, end: Position { ln: 1, col: 10, i: 9 } }
    );
    let d = expr("x = -y");
    assert_eq!(d.range().start.i, 0);
    assert_eq!(d.range().end.i, 6);
    match d {
        AstExpression::Declare { value, .. } => {
            assert_eq!(value.range().start.i, 4);
            assert_eq!(value.range().end.i, 6);
        }
        other => panic!("{:?}", other),
    }
}

#[test]
fn unexpected_token_errors() {
    match expr_err(")") {
        Error::UnexpectedToken { token, range } => {
            assert!(token.token_type == TokenType::CloseParen);
            assert_eq!(*range, token.range);
        }
        other => panic!("{:?}", other),
    }
    match expr_err("1 + ") {
        Error::UnexpectedToken { token, .. } => assert!(token.token_type == TokenType::EOF),
        other => panic!("{:?}", other),
    }
    match expr_err("x1") {
        Error::UnexpectedToken { token, .. } => assert!(token.is_text("x1")),
        other => panic!("{:?}", other),
    }
    match expr_err("99999999999") {
        Error::UnexpectedToken { token, .. } => assert!(token.is_text("99999999999")),
        other => panic!("{:?}", other),
    }
    match expr_err("- x") {
        Error::UnexpectedToken { token, .. } => assert!(token.token_type == TokenType::Space),
        other => panic!("{:?}", other),
    }
}

#[test]
fn expected_errors_carry_the_candidates() {
    match expr_err("f(1 2)") {
        Error::Expected { wanted, got, range } => {
            assert_eq!(wanted.len(), 2);
            assert!(wanted[0] == TokenType::Comma);
            assert!(wanted[1] == TokenType::CloseParen);
            assert!(got.is_text("2"));
            assert_eq!(range.start.i, 4);
        }
        other => panic!("{:?}", other),
    }
    match expr_err("(1") {
        Error::Expected { wanted, got, .. } => {
            assert_eq!(wanted.len(), 1);
            assert!(wanted[0] == TokenType::CloseParen);
            assert!(got.token_type == TokenType::EOF);
        }
        other => panic!("{:?}", other),
    }
    match expr_err("\"open") {
        Error::Expected { wanted, got, .. } => {
            assert!(wanted[0] == TokenType::DoubleQuote);
            assert!(got.token_type == TokenType::EOF);
        }
        other => panic!("{:?}", other),
    }
    match expr_err("'a\\") {
        Error::Expected { wanted, .. } => assert!(wanted[0] == TokenType::Quote),
        other => panic!("{:?}", other),
    }
    match parse("onload x").unwrap_err() {
        Error::Expected { wanted, got, .. } => {
            assert!(wanted[0] == TokenType::OpenCurly);
            assert!(got.is_text("x"));
        }
        other => panic!("{:?}", other),
    }
    match parse("onload { x").unwrap_err() {
        Error::Expected { wanted, got, .. } => {
            assert_eq!(wanted.len(), 2);
            assert!(wanted[0] == TokenType::Newline);
            assert!(wanted[1] == TokenType::CloseCurly);
            assert!(got.token_type == TokenType::EOF);
        }
        other => panic!("{:?}", other),
    }
    match parse("onload { x y }").unwrap_err() {
        Error::Expected { got, .. } => assert!(got.is_text("y")),
        other => panic!("{:?}", other),
    }
    match parse("onload {\n").unwrap_err() {
        Error::Expected { wanted, got, .. } => {
            assert!(wanted[0] == TokenType::CloseCurly);
            assert!(got.token_type == TokenType::EOF);
        }
        other => panic!("{:?}", other),
    }
    match parse("a:b:c {}").unwrap_err() {
        Error::Expected { wanted, .. } => assert!(wanted[0] == TokenType::OpenCurly),
        other => panic!("{:?}", other),
    }
    match parse("*click {}").unwrap_err() {
        Error::Expected { wanted, .. } => assert!(wanted[0] == TokenType::Colon),
        other => panic!("{:?}", other),
    }
}

#[test]
fn expected_text_errors() {
    match parse("{ }").unwrap_err() {
        Error::ExpectedText { got, range } => {
            assert!(got.token_type == TokenType::OpenCurly);
            assert_eq!(range.start.i, 0);
        }
        other => panic!("{:?}", other),
    }
    match parse("#:x {}").unwrap_err() {
        Error::ExpectedText { got, .. } => assert!(got.token_type == TokenType::Colon),
        other => panic!("{:?}", other),
    }
    match parse("a: {}").unwrap_err() {
        Error::ExpectedText { got, .. } => assert!(got.token_type == TokenType::Space),
        other => panic!("{:?}", other),
    }
}

#[test]
fn one_error_gives_up_the_whole_script() {
    assert!(parse("onload { x = 1 }\nonclick { ) }").is_err());
}

#[test]
fn cursor_helpers() {
    let mut parser = Parser::new(tokenise("a  \n b"));
    assert!(!parser.at_end());
    assert!(parser.peek().is_text("a"));
    assert!(parser.peek_amount(1).token_type == TokenType::Space);
    assert!(parser.peek_amount(4).token_type == TokenType::Space);
    assert!(parser.peek_amount(5).is_text("b"));
    assert!(parser.peek_amount(6).token_type == TokenType::EOF);
    assert!(parser.peek_amount(usize::MAX).token_type == TokenType::EOF);
    assert_eq!(parser.get_next_start(), Position::start());
    assert!(parser.consume().is_text("a"));
    assert_eq!(parser.get_last_end(), Position { ln: 1, col: 2, i: 1 });
    assert_eq!(parser.spaces_ahead(0), 2);
    assert_eq!(parser.blanks_ahead(), 4);
    parser.consume_whitespace();
    assert_eq!(parser.pointer, 5);
    assert!(parser.ahead_is(1, 'x') == false);
    assert_eq!(parser.expect_text().unwrap(), "b");
    assert!(parser.at_end());
    let eof = parser.consume();
    assert!(eof.token_type == TokenType::EOF);
    assert_eq!(eof.range.start, Position { ln: 2, col: 4, i: 7 });
    assert_eq!(eof.range.end, Position { ln: 2, col: 5, i: 8 });
    assert_eq!(parser.pointer, 6);
}

#[test]
fn end_of_input_of_an_empty_script() {
    let parser = Parser::new(Vec::new());
    let eof = parser.peek();
    assert!(eof.token_type == TokenType::EOF);
    assert_eq!(eof.range.start, Position { ln: 1, col: 2, i: 1 });
    assert_eq!(eof.range.end, Position { ln: 1, col: 3, i: 2 });
}

#[test]
fn expect_takes_the_token_or_reports_it() {
    let mut parser = Parser::new(tokenise("{,}"));
    assert!(parser.expect(TokenType::OpenCurly).unwrap().token_type == TokenType::OpenCurly);
    match parser.expect(TokenType::CloseCurly) {
        Err(Error::Expected { wanted, got, .. }) => {
            assert!(wanted[0] == TokenType::CloseCurly);
            assert!(got.token_type == TokenType::Comma);
        }
        other => panic!("{:?}", other),
    }
    assert_eq!(parser.pointer, 2);
    let either = vec![TokenType::CloseSquare, TokenType::CloseCurly];
    assert!(parser.expect_multiple(either).unwrap().token_type == TokenType::CloseCurly);
    match parser.expect_multiple(vec![TokenType::Comma]) {
        Err(Error::Expected { wanted, got, .. }) => {
            assert_eq!(wanted.len(), 1);
            assert!(got.token_type == TokenType::EOF);
        }
        other => panic!("{:?}", other),
    }
    match parser.expect_text() {
        Err(Error::ExpectedText { got, .. }) => assert!(got.token_type == TokenType::EOF),
        other => panic!("{:?}", other),
    }
}

#[test]
fn unary_and_binary_operator_sets() {
    assert_ne!(UnaryOp::Minus, UnaryOp::Number);
    assert_ne!(BinaryOp::Eql, BinaryOp::NotEql);
}

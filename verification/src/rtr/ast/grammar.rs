//! The grammar of scripts, as functions from tokens to trees.
//!
//! ```text
//! script      = { event }
//! event       = target "{" { statement } "}"
//! target      = name | "*" ":" name | "#" name ":" name | name ":" name
//! statement   = expression              (one on a line)
//! expression  = name "=" expression | nullish
//! nullish     = equality { "??" equality }
//! equality    = relational { ("==" | "!=") relational }
//! relational  = additive { ("<" | ">" | "<=" | ">=") additive }
//! additive    = product { ("+" | "-") product }
//! product     = power { ("*" | "/" | "%") power }
//! power       = unary [ "^" power ]
//! unary       = ("-" | "+" | "!" | "!!") unary | call
//! call        = primary { "(" [ expression { "," expression } ] ")" }
//! primary     = number | number "%" | string | name | "(" expression ")"
//! ```
//!
//! A name is a text run of letters and underscores; a number is a text run
//! of decimal digits with a value of at most 2147483647. Spaces may stand
//! around operators, arguments and statements; a newline ends a statement.
//! Each function reads one construct at an index into the tokens and gives
//! what it read with the number of tokens that it took.

use crate::rtr::ast::node::{
    BinaryOp, EventModel, EventTargetModel, ExprModel, TargetModel, UnaryOp,
};
use crate::rtr::ast::parser::{
    blanks, eof_token, expected, expected_text, punct, remaining, spaces, token_at, unexpected,
};
use crate::rtr::error::ErrorModel;
use crate::rtr::number::{spec_from_nat, Number};
use crate::shared::range::Range;
use crate::shared::token::{TokenKind, TokenModel};
use crate::shared::utils::{spec_digits_value, spec_is_alpha, spec_is_digits, spec_is_numeric};
use vstd::prelude::*;

verus! {

/// The result of reading one construct of the grammar from some index: what
/// was read and the number of tokens it took, or the error.
pub type Parsed<T> = Result<(T, nat), ErrorModel>;

/// `r`, with `k` more tokens taken before it.
pub open spec fn shift<T>(r: Parsed<T>, k: nat) -> Parsed<T> {
    match r {
        Ok((v, n)) => Ok((v, n + k)),
        Err(e) => Err(e),
    }
}

/// The number that the text `s` writes: decimal digits with a value of at
/// most 2147483647.
pub open spec fn number_of(s: Seq<char>) -> Option<Number> {
    if spec_is_digits(s) && spec_digits_value(s) <= i32::MAX {
        Some(Number { bits: spec_from_nat(spec_digits_value(s)) as u32 })
    } else {
        None
    }
}

/// True for the three characters that open and close a string.
pub open spec fn is_quote(c: char) -> bool {
    c == '\'' || c == '"' || c == '`'
}

/// The text that stands for the token text `s` after a backslash: an `n`
/// at its start becomes a newline, anything else stays.
pub open spec fn unescape(s: Seq<char>) -> Seq<char> {
    if s.len() > 0 && s[0] == 'n' {
        seq!['\n'] + s.drop_first()
    } else {
        s
    }
}

/// The content of a string whose opening quote stands before index `p`,
/// and the number of tokens up to and with the closing quote. The content
/// is the text of the tokens up to the next token of the kind `quote`; a
/// backslash is left out and the token after it is taken as it is, but for
/// an `n` at its start.
pub open spec fn string_body(t: Seq<TokenModel>, p: int, quote: char) -> Parsed<Seq<char>>
    decreases remaining(t, p),
{
    if !(0 <= p < t.len()) {
        Err(expected(seq![TokenKind::Punct(quote)], eof_token(t)))
    } else if punct(t[p], quote) {
        Ok((Seq::empty(), 1))
    } else if punct(t[p], '\\') {
        if p + 1 >= t.len() {
            Err(expected(seq![TokenKind::Punct(quote)], eof_token(t)))
        } else {
            match string_body(t, p + 2, quote) {
                Ok((rest, n)) => Ok((unescape(t[p + 1].kind.text()) + rest, n + 2)),
                Err(e) => Err(e),
            }
        }
    } else {
        match string_body(t, p + 1, quote) {
            Ok((rest, n)) => Ok((t[p].kind.text() + rest, n + 1)),
            Err(e) => Err(e),
        }
    }
}

/// The operator of the given level that stands at index `p`, and the
/// number of its tokens. The levels, from the one that binds least: 0 is
/// `??`; 1 is `==` and `!=`; 2 is `<`, `>`, `<=` and `>=`; 3 is `+` and
/// `-`; 4 is `*`, `/` and `%`.
pub open spec fn operator_at(t: Seq<TokenModel>, p: int, level: nat) -> Option<(BinaryOp, nat)> {
    let first = token_at(t, p);
    let second = token_at(t, p + 1);
    if level == 0 {
        if punct(first, '?') && punct(second, '?') {
            Some((BinaryOp::NullishCoalescence, 2nat))
        } else {
            None
        }
    } else if level == 1 {
        if punct(first, '=') && punct(second, '=') {
            Some((BinaryOp::Eql, 2nat))
        } else if punct(first, '!') && punct(second, '=') {
            Some((BinaryOp::NotEql, 2nat))
        } else {
            None
        }
    } else if level == 2 {
        if punct(first, '<') {
            if punct(second, '=') {
                Some((BinaryOp::SmallerEql, 2nat))
            } else {
                Some((BinaryOp::Smaller, 1nat))
            }
        } else if punct(first, '>') {
            if punct(second, '=') {
                Some((BinaryOp::BiggerEql, 2nat))
            } else {
                Some((BinaryOp::Bigger, 1nat))
            }
        } else {
            None
        }
    } else if level == 3 {
        if punct(first, '+') {
            Some((BinaryOp::Add, 1nat))
        } else if punct(first, '-') {
            Some((BinaryOp::Sub, 1nat))
        } else {
            None
        }
    } else if level == 4 {
        if punct(first, '*') {
            Some((BinaryOp::Mul, 1nat))
        } else if punct(first, '/') {
            Some((BinaryOp::Div, 1nat))
        } else if punct(first, '%') {
            Some((BinaryOp::Mod, 1nat))
        } else {
            None
        }
    } else {
        None
    }
}

/// The expression of two operands and their operator.
pub open spec fn binary_of(left: ExprModel, right: ExprModel, op: BinaryOp) -> ExprModel {
    ExprModel::Binary {
        left: Box::new(left),
        right: Box::new(right),
        op,
        range: Range { start: left.range().start, end: right.range().end },
    }
}

/// The expression of an operator that starts at `tok`, and its operand.
pub open spec fn unary_of(tok: TokenModel, value: ExprModel, op: UnaryOp) -> ExprModel {
    ExprModel::Unary {
        value: Box::new(value),
        op,
        range: Range { start: tok.range.start, end: value.range().end },
    }
}

/// True when a declaration starts at index `p`: a name of letters and
/// underscores, then, after any spaces, an equals sign that no second one
/// follows.
pub open spec fn declares(t: Seq<TokenModel>, p: int) -> bool {
    let tok = token_at(t, p);
    let at = p + 1 + spaces(t, p + 1);
    &&& tok.kind is Text
    &&& spec_is_alpha(tok.kind->Text_0)
    &&& punct(token_at(t, at), '=')
    &&& !punct(token_at(t, at + 1), '=')
}

/// An expression at index `p`: a declaration, `name = expression`, or an
/// expression of operators.
pub open spec fn parse_expression(t: Seq<TokenModel>, p: int) -> Parsed<ExprModel>
    decreases remaining(t, p), 30nat,
{
    if declares(t, p) {
        let tok = token_at(t, p);
        let s1 = spaces(t, p + 1);
        let s2 = spaces(t, p + 1 + s1 + 1);
        match parse_expression(t, p + 1 + s1 + 1 + s2) {
            Ok((value, n)) => Ok(
                (
                    ExprModel::Declare {
                        name: tok.kind->Text_0,
                        value: Box::new(value),
                        range: Range { start: tok.range.start, end: value.range().end },
                    },
                    1 + s1 + 1 + s2 + n,
                ),
            ),
            Err(e) => Err(e),
        }
    } else {
        parse_binary(t, p, 0)
    }
}

/// An expression of the operators of the given level and of those that
/// bind more: operands of the next level with operators of this level
/// between them, grouped from the left. Level 5 is that of the power
/// operator.
pub open spec fn parse_binary(t: Seq<TokenModel>, p: int, level: nat) -> Parsed<ExprModel>
    decreases remaining(t, p), (if level < 5 {
        20 - level
    } else {
        10
    }) as nat,
{
    if level >= 5 {
        parse_power(t, p)
    } else {
        match parse_binary(t, p, level + 1) {
            Ok((left, n)) => shift(binary_rest(t, p + n, level, left), n),
            Err(e) => Err(e),
        }
    }
}

/// What follows the operand `left`, which ends before index `p`: any
/// number of operators of the given level, each with its right operand.
/// Spaces may stand on both sides of an operator.
pub open spec fn binary_rest(t: Seq<TokenModel>, p: int, level: nat, left: ExprModel) -> Parsed<
    ExprModel,
>
    decreases remaining(t, p), 0nat,
{
    let s1 = spaces(t, p);
    match operator_at(t, p + s1, level) {
        Some((op, w)) => {
            let s2 = spaces(t, p + s1 + w);
            match parse_binary(t, p + s1 + w + s2, level + 1) {
                Ok((right, n)) => shift(
                    binary_rest(t, p + s1 + w + s2 + n, level, binary_of(left, right, op)),
                    s1 + w + s2 + n,
                ),
                Err(e) => Err(e),
            }
        },
        None => Ok((left, 0)),
    }
}

/// A power: an operand, and where `^` follows it, the power that it is
/// raised to. Powers group from the right.
pub open spec fn parse_power(t: Seq<TokenModel>, p: int) -> Parsed<ExprModel>
    decreases remaining(t, p), 5nat,
{
    match parse_unary(t, p) {
        Ok((base, n)) => {
            let s1 = spaces(t, p + n);
            if punct(token_at(t, p + n + s1), '^') {
                let s2 = spaces(t, p + n + s1 + 1);
                match parse_power(t, p + n + s1 + 1 + s2) {
                    Ok((exponent, m)) => Ok(
                        (binary_of(base, exponent, BinaryOp::Pow), n + s1 + 1 + s2 + m),
                    ),
                    Err(e) => Err(e),
                }
            } else {
                Ok((base, n))
            }
        },
        Err(e) => Err(e),
    }
}

/// An operand with the operators that stand before it: `-` negates, `+`
/// makes a number, `!` inverts and `!!` makes a truth value.
pub open spec fn parse_unary(t: Seq<TokenModel>, p: int) -> Parsed<ExprModel>
    decreases remaining(t, p), 4nat,
{
    let tok = token_at(t, p);
    if punct(tok, '-') {
        match parse_unary(t, p + 1) {
            Ok((value, n)) => Ok((unary_of(tok, value, UnaryOp::Minus), n + 1)),
            Err(e) => Err(e),
        }
    } else if punct(tok, '+') {
        match parse_unary(t, p + 1) {
            Ok((value, n)) => Ok((unary_of(tok, value, UnaryOp::Number), n + 1)),
            Err(e) => Err(e),
        }
    } else if punct(tok, '!') {
        if punct(token_at(t, p + 1), '!') {
            match parse_unary(t, p + 2) {
                Ok((value, n)) => Ok((unary_of(tok, value, UnaryOp::Boolify), n + 2)),
                Err(e) => Err(e),
            }
        } else {
            match parse_unary(t, p + 1) {
                Ok((value, n)) => Ok((unary_of(tok, value, UnaryOp::Invert), n + 1)),
                Err(e) => Err(e),
            }
        }
    } else {
        parse_call(t, p)
    }
}

/// A primary expression with the calls that follow it.
pub open spec fn parse_call(t: Seq<TokenModel>, p: int) -> Parsed<ExprModel>
    decreases remaining(t, p), 3nat,
{
    match parse_primary(t, p) {
        Ok((callee, n)) => shift(call_rest(t, p + n, callee), n),
        Err(e) => Err(e),
    }
}

/// What follows the expression `callee`, which ends before index `p`: any
/// number of argument lists in round brackets, each a call of what stands
/// before it.
pub open spec fn call_rest(t: Seq<TokenModel>, p: int, callee: ExprModel) -> Parsed<ExprModel>
    decreases remaining(t, p), 1nat,
{
    if punct(token_at(t, p), '(') {
        match parse_args(t, p + 1, Seq::empty()) {
            Ok((args, n)) => shift(
                call_rest(
                    t,
                    p + 1 + n,
                    ExprModel::Call {
                        args,
                        func: Box::new(callee),
                        range: Range {
                            start: callee.range().start,
                            end: token_at(t, p + n).range.end,
                        },
                    },
                ),
                1 + n,
            ),
            Err(e) => Err(e),
        }
    } else {
        Ok((callee, 0))
    }
}

/// The arguments of a call from index `p` on, after the arguments `acc`,
/// up to and with the closing bracket: expressions with commas between
/// them. Spaces may stand on both sides of an argument.
pub open spec fn parse_args(t: Seq<TokenModel>, p: int, acc: Seq<ExprModel>) -> Parsed<
    Seq<ExprModel>,
>
    decreases remaining(t, p), 40nat,
{
    let s1 = spaces(t, p);
    if punct(token_at(t, p + s1), ')') {
        Ok((acc, s1 + 1))
    } else {
        match parse_expression(t, p + s1) {
            Ok((arg, n)) => {
                let s2 = spaces(t, p + s1 + n);
                let sep = token_at(t, p + s1 + n + s2);
                if punct(sep, ')') {
                    Ok((acc.push(arg), s1 + n + s2 + 1))
                } else if punct(sep, ',') {
                    shift(parse_args(t, p + s1 + n + s2 + 1, acc.push(arg)), s1 + n + s2 + 1)
                } else {
                    Err(expected(seq![TokenKind::Punct(','), TokenKind::Punct(')')], sep))
                }
            },
            Err(e) => Err(e),
        }
    }
}

/// A primary expression: a string in quotes, an expression in round
/// brackets, a number, a number with a percent sign right after it, or the
/// name of a variable.
pub open spec fn parse_primary(t: Seq<TokenModel>, p: int) -> Parsed<ExprModel>
    decreases remaining(t, p), 2nat,
{
    let tok = token_at(t, p);
    match tok.kind {
        TokenKind::Punct(c) => if is_quote(c) {
            match string_body(t, p + 1, c) {
                Ok((content, n)) => Ok(
                    (
                        ExprModel::Text {
                            content,
                            range: Range {
                                start: tok.range.start,
                                end: token_at(t, p + n).range.end,
                            },
                        },
                        n + 1,
                    ),
                ),
                Err(e) => Err(e),
            }
        } else if c == '(' {
            let s1 = spaces(t, p + 1);
            match parse_expression(t, p + 1 + s1) {
                Ok((inner, n)) => {
                    let s2 = spaces(t, p + 1 + s1 + n);
                    let close = token_at(t, p + 1 + s1 + n + s2);
                    if punct(close, ')') {
                        Ok((inner, 1 + s1 + n + s2 + 1))
                    } else {
                        Err(expected(seq![TokenKind::Punct(')')], close))
                    }
                },
                Err(e) => Err(e),
            }
        } else {
            Err(unexpected(tok))
        },
        TokenKind::Text(s) => if spec_is_numeric(s) {
            match number_of(s) {
                Some(content) => if punct(token_at(t, p + 1), '%') {
                    Ok(
                        (
                            ExprModel::Percentage {
                                content,
                                range: Range {
                                    start: tok.range.start,
                                    end: token_at(t, p + 1).range.end,
                                },
                            },
                            2,
                        ),
                    )
                } else {
                    Ok((ExprModel::Number { content, range: tok.range }, 1))
                },
                None => Err(unexpected(tok)),
            }
        } else if spec_is_alpha(s) {
            Ok((ExprModel::Variable { name: s, range: tok.range }, 1))
        } else {
            Err(unexpected(tok))
        },
        TokenKind::Eof => Err(unexpected(tok)),
    }
}

/// The statements of a block from index `p` on, after the statements
/// `acc`, up to and with the closing brace. Each statement is an
/// expression on a line of its own; spaces and empty lines may stand
/// between statements, and spaces after one.
pub open spec fn parse_block(t: Seq<TokenModel>, p: int, acc: Seq<ExprModel>) -> Parsed<
    Seq<ExprModel>,
>
    decreases remaining(t, p), 50nat,
{
    let b = blanks(t, p);
    let tok = token_at(t, p + b);
    if punct(tok, '}') {
        Ok((acc, b + 1))
    } else if tok.kind is Eof {
        Err(expected(seq![TokenKind::Punct('}')], tok))
    } else {
        match parse_expression(t, p + b) {
            Ok((statement, n)) => {
                let s = spaces(t, p + b + n);
                let sep = token_at(t, p + b + n + s);
                if punct(sep, '}') {
                    Ok((acc.push(statement), b + n + s + 1))
                } else if punct(sep, '\n') {
                    shift(parse_block(t, p + b + n + s + 1, acc.push(statement)), b + n + s + 1)
                } else {
                    Err(expected(seq![TokenKind::Punct('\n'), TokenKind::Punct('}')], sep))
                }
            },
            Err(e) => Err(e),
        }
    }
}

/// What follows the selector of a property event, which ends before index
/// `p`: a colon and the name of the event.
pub open spec fn property_rest(t: Seq<TokenModel>, p: int, target: TargetModel) -> Parsed<
    EventTargetModel,
> {
    if !punct(token_at(t, p), ':') {
        Err(expected(seq![TokenKind::Punct(':')], token_at(t, p)))
    } else {
        match token_at(t, p + 1).kind {
            TokenKind::Text(event_name) => Ok(
                (EventTargetModel::Property { target, event_name }, 2),
            ),
            _ => Err(expected_text(token_at(t, p + 1))),
        }
    }
}

/// The target of an event at index `p`: a name alone is a global event;
/// `*:name`, `#id:name` and `element:name` are events on any target, on
/// the target with an id, and on the targets of a kind.
pub open spec fn parse_target(t: Seq<TokenModel>, p: int) -> Parsed<EventTargetModel> {
    let tok = token_at(t, p);
    match tok.kind {
        TokenKind::Text(name) => if punct(token_at(t, p + 1), ':') {
            shift(property_rest(t, p + 1, TargetModel::Element(name)), 1)
        } else {
            Ok((EventTargetModel::Global { name }, 1))
        },
        TokenKind::Punct(c) => if c == '*' {
            shift(property_rest(t, p + 1, TargetModel::Any), 1)
        } else if c == '#' {
            match token_at(t, p + 1).kind {
                TokenKind::Text(id) => shift(property_rest(t, p + 2, TargetModel::Id(id)), 2),
                _ => Err(expected_text(token_at(t, p + 1))),
            }
        } else {
            Err(expected_text(tok))
        },
        TokenKind::Eof => Err(expected_text(tok)),
    }
}

/// An event declaration at index `p`: a target, then a block in braces.
pub open spec fn parse_event(t: Seq<TokenModel>, p: int) -> Parsed<EventModel> {
    match parse_target(t, p) {
        Ok((target, n)) => {
            let b = blanks(t, p + n);
            let open = token_at(t, p + n + b);
            if punct(open, '{') {
                match parse_block(t, p + n + b + 1, Seq::empty()) {
                    Ok((body, m)) => Ok((EventModel { body, target }, n + b + 1 + m)),
                    Err(e) => Err(e),
                }
            } else {
                Err(expected(seq![TokenKind::Punct('{')], open))
            }
        },
        Err(e) => Err(e),
    }
}

/// The event declarations from index `p` on, after the declarations `acc`,
/// up to the end of the input. Spaces and newlines may stand between
/// declarations.
pub open spec fn parse_events(t: Seq<TokenModel>, p: int, acc: Seq<EventModel>) -> Result<
    Seq<EventModel>,
    ErrorModel,
>
    decreases remaining(t, p),
{
    let b = blanks(t, p);
    if !(0 <= p + b < t.len()) {
        Ok(acc)
    } else {
        match parse_event(t, p + b) {
            Ok((event, n)) => if n > 0 {
                parse_events(t, p + b + n, acc.push(event))
            } else {
                Err(ErrorModel::Placeholder)
            },
            Err(e) => Err(e),
        }
    }
}

/// The script that the tokens `t` write.
pub open spec fn parse_program(t: Seq<TokenModel>) -> Result<Seq<EventModel>, ErrorModel> {
    parse_events(t, 0, Seq::empty())
}

/// A word of letters and underscores is read as the name of a variable.
pub proof fn lemma_name_is_variable(t: Seq<TokenModel>, p: int, name: Seq<char>)
    requires
        0 <= p < t.len(),
        t[p].kind == TokenKind::Text(name),
        spec_is_alpha(name),
    ensures
        parse_primary(t, p) == Ok::<(ExprModel, nat), ErrorModel>(
            (ExprModel::Variable { name, range: t[p].range }, 1),
        ),
{
    crate::shared::utils::lemma_alpha_not_numeric(name);
}

/// A word of decimal digits with a value of at most 2147483647, which no
/// percent sign follows, is read as that number.
pub proof fn lemma_digits_are_number(t: Seq<TokenModel>, p: int, digits: Seq<char>)
    requires
        0 <= p < t.len(),
        t[p].kind == TokenKind::Text(digits),
        spec_is_digits(digits),
        spec_digits_value(digits) <= i32::MAX,
        !punct(token_at(t, p + 1), '%'),
    ensures
        parse_primary(t, p) == Ok::<(ExprModel, nat), ErrorModel>(
            (
                ExprModel::Number {
                    content: Number { bits: spec_from_nat(spec_digits_value(digits)) as u32 },
                    range: t[p].range,
                },
                1,
            ),
        ),
{
    crate::shared::utils::lemma_digits_numeric(digits);
}

} // verus!

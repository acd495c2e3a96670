use crate::rtr::ast::grammar::{is_quote, number_of, string_body};
use crate::rtr::ast::parser::{blanks, punct, remaining, token_at};
use crate::rwl::ast::node::{BlockKind, ItemModel, NodeModel};
use crate::rwl::error::{lift, ErrorModel};
use crate::rwl::value::{PropertyPath, ThemeProperty, ValueModel};
use crate::shared::color::{spec_parse_hex_color, Color};
use crate::shared::token::{TokenKind, TokenModel};
use crate::shared::utils::{spec_is_alpha, spec_is_numeric};
use vstd::prelude::*;

verus! {

/// The result of reading one construct of the grammar from some index: what
/// was read and the number of tokens it took, or the error.
pub type Parsed<T> = Result<(T, nat), ErrorModel>;

/// `r`, with `k` more tokens taken before it.
pub open spec fn shift<T>(r: Parsed<T>, k: nat) -> Parsed<T> {
    match r {
        Ok((v, n)) => Ok((v, n + k)),
        Err(e) => Err(e),
    }
}

/// The error that one of the kinds `wanted` had to stand where `got` does.
pub open spec fn expected(wanted: Seq<TokenKind>, got: TokenModel) -> ErrorModel {
    ErrorModel::Expected { wanted, got, range: got.range }
}

/// The error that `got` stands where it cannot.
pub open spec fn unexpected(got: TokenModel) -> ErrorModel {
    ErrorModel::UnexpectedToken { token: got, range: got.range }
}

/// The error that a text run had to stand where `got` does.
pub open spec fn expected_text(got: TokenModel) -> ErrorModel {
    ErrorModel::ExpectedText { got, range: got.range }
}

/// The kind of block that a name stands for.
pub open spec fn block_kind(key: Seq<char>) -> BlockKind {
    if key == "root"@ {
        BlockKind::Root
    } else if key == "frame"@ {
        BlockKind::Frame
    } else if key == "section"@ {
        BlockKind::Section
    } else if key == "button"@ {
        BlockKind::Button
    } else {
        BlockKind::Unknown(key)
    }
}

/// The color of the theme that a name stands for.
pub open spec fn theme_property(name: Seq<char>) -> Option<ThemeProperty> {
    if name == "back"@ {
        Some(ThemeProperty::Back)
    } else if name == "prim"@ {
        Some(ThemeProperty::Prim)
    } else if name == "seco"@ {
        Some(ThemeProperty::Seco)
    } else if name == "tert"@ {
        Some(ThemeProperty::Tert)
    } else if name == "text"@ {
        Some(ThemeProperty::Text)
    } else if name == "accent"@ {
        Some(ThemeProperty::Accent)
    } else {
        None
    }
}

/// A property at index `p`: a source, a colon and a name, with any spaces
/// and newlines around the colon. The only source is `theme`.
pub open spec fn parse_property(t: Seq<TokenModel>, p: int) -> Parsed<ValueModel> {
    match token_at(t, p).kind {
        TokenKind::Text(source) => {
            let b1 = blanks(t, p + 1);
            let colon = token_at(t, p + 1 + b1);
            if !punct(colon, ':') {
                Err(expected(seq![TokenKind::Punct(':')], colon))
            } else {
                let b2 = blanks(t, p + 1 + b1 + 1);
                match token_at(t, p + 1 + b1 + 1 + b2).kind {
                    TokenKind::Text(name) => if source == "theme"@ {
                        match theme_property(name) {
                            Some(property) => Ok(
                                (
                                    ValueModel::Property(PropertyPath::Theme(property)),
                                    1 + b1 + 1 + b2 + 1,
                                ),
                            ),
                            None => Err(ErrorModel::UnknownProperty { source, property: name }),
                        }
                    } else {
                        Err(ErrorModel::UnknownPropertySource { source })
                    },
                    _ => Err(expected_text(token_at(t, p + 1 + b1 + 1 + b2))),
                }
            }
        },
        _ => Err(expected_text(token_at(t, p))),
    }
}

/// A color, whose number sign stands at index `p`: the token after the
/// sign holds three or six hexadecimal digits.
pub open spec fn parse_color(t: Seq<TokenModel>, p: int) -> Parsed<ValueModel> {
    let tok = token_at(t, p + 1);
    let digits = tok.kind.text();
    if digits.len() != 3 && digits.len() != 6 {
        Err(ErrorModel::InvalidHexLength)
    } else {
        match spec_parse_hex_color(digits) {
            Ok(color) => Ok((ValueModel::Color(color), 2)),
            Err(_) => Err(unexpected(tok)),
        }
    }
}

/// A number or a percentage, whose digits `s` stand at index `p`.
pub open spec fn parse_num(t: Seq<TokenModel>, p: int, s: Seq<char>) -> Parsed<ValueModel> {
    match number_of(s) {
        Some(x) => if punct(token_at(t, p + 1), '%') {
            Ok((ValueModel::Percentage(x), 2))
        } else {
            Ok((ValueModel::Num(x), 1))
        },
        None => Err(ErrorModel::CouldntParseNum),
    }
}

/// A value at index `p`: a string in quotes, a number, a color after a
/// number sign, or a property.
pub open spec fn parse_value(t: Seq<TokenModel>, p: int) -> Parsed<ValueModel> {
    let tok = token_at(t, p);
    match tok.kind {
        TokenKind::Punct(c) => if is_quote(c) {
            match string_body(t, p + 1, c) {
                Ok((content, n)) => Ok((ValueModel::Str(content), n + 1)),
                Err(e) => Err(lift(e)),
            }
        } else if c == '#' {
            parse_color(t, p)
        } else {
            Err(unexpected(tok))
        },
        TokenKind::Text(s) => if spec_is_numeric(s) {
            parse_num(t, p, s)
        } else if spec_is_alpha(s) {
            parse_property(t, p)
        } else {
            Err(unexpected(tok))
        },
        TokenKind::Eof => Err(unexpected(tok)),
    }
}

/// One entry of a header at index `p`: `name = value`, or a name alone.
/// Spaces and newlines may stand before the name and around the equals
/// sign; those after a name alone belong to the entry.
pub open spec fn parse_header_item(t: Seq<TokenModel>, p: int) -> Parsed<ItemModel> {
    let b0 = blanks(t, p);
    let name = token_at(t, p + b0).kind.text();
    let taken: nat = if 0 <= p + b0 < t.len() {
        1
    } else {
        0
    };
    let b1 = blanks(t, p + b0 + taken);
    let next = token_at(t, p + b0 + taken + b1);
    if punct(next, '=') {
        if !spec_is_alpha(name) {
            Err(ErrorModel::InvalidAttributeKey)
        } else {
            let b2 = blanks(t, p + b0 + taken + b1 + 1);
            match parse_value(t, p + b0 + taken + b1 + 1 + b2) {
                Ok((value, n)) => Ok((ItemModel::Pair(name, value), b0 + taken + b1 + 1 + b2 + n)),
                Err(e) => Err(e),
            }
        }
    } else if spec_is_alpha(name) {
        Ok((ItemModel::Flag(name), b0 + taken + b1))
    } else {
        Err(unexpected(next))
    }
}

/// The entries of a header from index `p` on, after the entries `acc`, up
/// to and with the closing bracket: entries with commas between them.
pub open spec fn header_items(t: Seq<TokenModel>, p: int, acc: Seq<ItemModel>) -> Parsed<
    Seq<ItemModel>,
>
    decreases remaining(t, p),
{
    let tok = token_at(t, p);
    if punct(tok, ']') {
        Ok((acc, 1))
    } else if !(0 <= p < t.len()) {
        Err(expected(seq![TokenKind::Punct(']')], tok))
    } else {
        match parse_header_item(t, p) {
            Ok((item, n)) => {
                let b1 = blanks(t, p + n);
                let sep = token_at(t, p + n + b1);
                if punct(sep, ']') {
                    Ok((acc.push(item), n + b1 + 1))
                } else if punct(sep, ',') {
                    let b2 = blanks(t, p + n + b1 + 1);
                    shift(
                        header_items(t, p + n + b1 + 1 + b2, acc.push(item)),
                        n + b1 + 1 + b2,
                    )
                } else {
                    Err(expected(seq![TokenKind::Punct(','), TokenKind::Punct(']')], sep))
                }
            },
            Err(e) => Err(e),
        }
    }
}

/// A header at index `p`: entries in square brackets, or nothing.
pub open spec fn parse_header(t: Seq<TokenModel>, p: int) -> Parsed<Seq<ItemModel>> {
    if punct(token_at(t, p), '[') {
        let b = blanks(t, p + 1);
        shift(header_items(t, p + 1 + b, Seq::empty()), 1 + b)
    } else {
        Ok((Seq::empty(), 0))
    }
}

/// A statement at index `p`, after any spaces and newlines: a block, which
/// starts with a name of letters and underscores, or an element, a value
/// with its header.
pub open spec fn parse_statement(t: Seq<TokenModel>, p: int) -> Parsed<NodeModel>
    decreases remaining(t, p), 2nat,
{
    let b0 = blanks(t, p);
    let tok = token_at(t, p + b0);
    if tok.kind is Text && spec_is_alpha(tok.kind->Text_0) {
        shift(block_statement(t, p + b0), b0)
    } else {
        match parse_value(t, p + b0) {
            Ok((value, n)) => {
                let b1 = blanks(t, p + b0 + n);
                match parse_header(t, p + b0 + n + b1) {
                    Ok((header, m)) => Ok((NodeModel::Element(value, header), b0 + n + b1 + m)),
                    Err(e) => Err(e),
                }
            },
            Err(e) => Err(e),
        }
    }
}

/// A block, whose name stands at index `p`: the name, a header, and the
/// statements of the block in braces.
pub open spec fn block_statement(t: Seq<TokenModel>, p: int) -> Parsed<NodeModel>
    decreases remaining(t, p), 1nat,
{
    let key = token_at(t, p).kind.text();
    let b1 = blanks(t, p + 1);
    if !(0 <= p < t.len()) {
        Err(expected_text(token_at(t, p)))
    } else {
        match parse_header(t, p + 1 + b1) {
            Ok((header, n)) => {
                let b2 = blanks(t, p + 1 + b1 + n);
                let open = token_at(t, p + 1 + b1 + n + b2);
                if !punct(open, '{') {
                    Err(expected(seq![TokenKind::Punct('{')], open))
                } else {
                    let b3 = blanks(t, p + 1 + b1 + n + b2 + 1);
                    match body_items(t, p + 1 + b1 + n + b2 + 1 + b3, Seq::empty()) {
                        Ok((body, m)) => Ok(
                            (
                                NodeModel::Block(block_kind(key), header, body),
                                1 + b1 + n + b2 + 1 + b3 + m,
                            ),
                        ),
                        Err(e) => Err(e),
                    }
                }
            },
            Err(e) => Err(e),
        }
    }
}

/// The statements of a block from index `p` on, after the statements
/// `acc`, up to and with the closing brace: statements with commas between
/// them.
pub open spec fn body_items(t: Seq<TokenModel>, p: int, acc: Seq<NodeModel>) -> Parsed<
    Seq<NodeModel>,
>
    decreases remaining(t, p), 3nat,
{
    let tok = token_at(t, p);
    if punct(tok, '}') {
        Ok((acc, 1))
    } else if !(0 <= p < t.len()) {
        Err(expected(seq![TokenKind::Punct('}')], tok))
    } else {
        match parse_statement(t, p) {
            Ok((node, n)) => {
                let b1 = blanks(t, p + n);
                let sep = token_at(t, p + n + b1);
                if punct(sep, '}') {
                    Ok((acc.push(node), n + b1 + 1))
                } else if punct(sep, ',') {
                    let b2 = blanks(t, p + n + b1 + 1);
                    shift(body_items(t, p + n + b1 + 1 + b2, acc.push(node)), n + b1 + 1 + b2)
                } else {
                    Err(expected(seq![TokenKind::Punct(',')], sep))
                }
            },
            Err(e) => Err(e),
        }
    }
}

/// The statements from index `p` on, after the statements `acc`, up to the
/// end of the input. A statement always takes at least one token.
pub open spec fn parse_nodes(t: Seq<TokenModel>, p: int, acc: Seq<NodeModel>) -> Result<
    Seq<NodeModel>,
    ErrorModel,
>
    decreases remaining(t, p),
{
    let b = blanks(t, p);
    if !(0 <= p + b < t.len()) {
        Ok(acc)
    } else {
        match parse_statement(t, p + b) {
            Ok((node, n)) => if n > 0 {
                parse_nodes(t, p + b + n, acc.push(node))
            } else {
                Err(ErrorModel::Placeholder)
            },
            Err(e) => Err(e),
        }
    }
}

/// The document that the tokens `t` write.
pub open spec fn parse_document(t: Seq<TokenModel>) -> Result<NodeModel, ErrorModel> {
    match parse_nodes(t, 0, Seq::empty()) {
        Ok(nodes) => Ok(NodeModel::Document(nodes)),
        Err(e) => Err(e),
    }
}

} // verus!

use crate::rtr::ast::grammar::is_quote;
use crate::rtr::ast::lexer::{spec_tokenise, tokenise};
use crate::rtr::ast::parser::{blanks, punct, remaining, token_at, Parser as Cursor};
use crate::rtr::error::kind_models;
use crate::rtr::number::Number;
use crate::rwl::ast::grammar::{
    block_kind, block_statement, body_items, expected, expected_text, header_items, parse_color,
    parse_document, parse_header, parse_header_item, parse_nodes, parse_num, parse_property,
    parse_statement, parse_value, shift, theme_property, unexpected,
};
use crate::rwl::ast::node::{
    item_models, node_models, AstHeader, AstHeaderItem, AstNode, AstValue, BlockType, ItemModel,
    NodeModel,
};
use crate::rwl::error::{ErrPosition, Error};
use crate::rwl::value::{PropertyPath, ThemeProperty};
use crate::shared::color::parse_hex_color;
use crate::shared::text::{chars_of, same_text};
use crate::shared::token::{Token, TokenKind, TokenModel, TokenType};
use crate::shared::utils::{digits_value, is_alpha, is_numeric};
use vstd::prelude::*;

verus! {

/// The reader of documents: a cursor over the tokens of a document.
#[derive(Debug)]
pub struct Parser {
    pub cursor: Cursor,
}

fn error_expected(c: char, got: Token) -> (e: Error)
    requires
        crate::shared::token::spec_is_delimiter(c),
    ensures
        e@ == expected(seq![TokenKind::Punct(c)], got@),
{
    let range = got.range;
    let mut wanted: Vec<TokenType> = Vec::new();
    wanted.push(TokenType::of_char(c));
    assert(kind_models(wanted@) =~= seq![TokenKind::Punct(c)]);
    Error::Expected { wanted, got, range }
}

fn error_expected_two(c: char, d: char, got: Token) -> (e: Error)
    requires
        crate::shared::token::spec_is_delimiter(c),
        crate::shared::token::spec_is_delimiter(d),
    ensures
        e@ == expected(seq![TokenKind::Punct(c), TokenKind::Punct(d)], got@),
{
    let range = got.range;
    let mut wanted: Vec<TokenType> = Vec::new();
    wanted.push(TokenType::of_char(c));
    wanted.push(TokenType::of_char(d));
    assert(kind_models(wanted@) =~= seq![TokenKind::Punct(c), TokenKind::Punct(d)]);
    Error::Expected { wanted, got, range }
}

fn error_unexpected(got: Token) -> (e: Error)
    ensures
        e@ == unexpected(got@),
{
    let range = got.range;
    Error::UnexpectedToken { token: got, range }
}

fn error_expected_text(got: Token) -> (e: Error)
    ensures
        e@ == expected_text(got@),
{
    let range = got.range;
    Error::ExpectedText { got, range }
}

/// The kind of block that a name stands for.
pub fn block_type(key: String) -> (kind: BlockType)
    ensures
        kind@ == block_kind(key@),
{
    if same_text(key.as_str(), "root") {
        BlockType::Root
    } else if same_text(key.as_str(), "frame") {
        BlockType::Frame
    } else if same_text(key.as_str(), "section") {
        BlockType::Section
    } else if same_text(key.as_str(), "button") {
        BlockType::Button
    } else {
        BlockType::Unknown(key)
    }
}

/// The color of the theme that a name stands for.
pub fn theme_property_of(name: &str) -> (out: Option<ThemeProperty>)
    ensures
        out == theme_property(name@),
{
    if same_text(name, "back") {
        Some(ThemeProperty::Back)
    } else if same_text(name, "prim") {
        Some(ThemeProperty::Prim)
    } else if same_text(name, "seco") {
        Some(ThemeProperty::Seco)
    } else if same_text(name, "tert") {
        Some(ThemeProperty::Tert)
    } else if same_text(name, "text") {
        Some(ThemeProperty::Text)
    } else if same_text(name, "accent") {
        Some(ThemeProperty::Accent)
    } else {
        None
    }
}

impl Parser {
    /// The tokens of the reader.
    pub open spec fn model(&self) -> Seq<TokenModel> {
        self.cursor.model()
    }

    /// The index of the token at the cursor.
    pub open spec fn at(&self) -> int {
        self.cursor.pointer as int
    }

    /// True when the cursor stands at a token or at the end.
    pub open spec fn wf(&self) -> bool {
        self.cursor.wf()
    }

    /// A reader at the first of `tokens`.
    pub fn new(tokens: Vec<Token>) -> (parser: Parser)
        ensures
            parser.wf(),
            parser.at() == 0,
            parser.cursor.tokens == tokens,
    {
        Parser { cursor: Cursor::new(tokens) }
    }

    /// The place of an error of the layout. It is not tracked yet.
    pub fn get_err_pos(&self) -> ErrPosition {
        ErrPosition
    }

    fn property(&mut self) -> (out: Result<AstValue, Error>)
        requires
            old(self).wf(),
        ensures
            final(self).wf(),
            final(self).cursor.tokens == old(self).cursor.tokens,
            match parse_property(old(self).model(), old(self).at()) {
                Ok((v, n)) => out is Ok && out->Ok_0@ == v && final(self).at() == old(self).at()
                    + n,
                Err(e) => out is Err && out->Err_0@ == e,
            },
    {
        let first = self.cursor.consume();
        let source = match first.token_type {
            TokenType::Text(source) => source,
            _ => {
                return Err(error_expected_text(first));
            },
        };
        self.cursor.consume_whitespace();
        if !self.cursor.ahead_is(0, ':') {
            return Err(error_expected(':', self.cursor.peek()));
        }
        self.cursor.skip(1);
        self.cursor.consume_whitespace();
        let second = self.cursor.consume();
        let name = match second.token_type {
            TokenType::Text(name) => name,
            _ => {
                return Err(error_expected_text(second));
            },
        };
        if same_text(source.as_str(), "theme") {
            match theme_property_of(name.as_str()) {
                Some(property) => Ok(AstValue::Property(PropertyPath::Theme(property))),
                None => Err(Error::UnknownProperty { source, property: name }),
            }
        } else {
            Err(Error::UnknownPropertySource { source })
        }
    }

    fn color(&mut self) -> (out: Result<AstValue, Error>)
        requires
            old(self).wf(),
            punct(token_at(old(self).model(), old(self).at()), '#'),
        ensures
            final(self).wf(),
            final(self).cursor.tokens == old(self).cursor.tokens,
            match parse_color(old(self).model(), old(self).at()) {
                Ok((v, n)) => out is Ok && out->Ok_0@ == v && final(self).at() == old(self).at()
                    + n,
                Err(e) => out is Err && out->Err_0@ == e,
            },
    {
        let n = self.cursor.tokens.len();
        self.cursor.skip(1);
        let tok = self.cursor.peek();
        let digits = tok.to_text();
        let count = chars_of(digits.as_str()).len();
        if count != 3 && count != 6 {
            return Err(Error::InvalidHexLength);
        }
        match parse_hex_color(digits.as_str()) {
            Ok(color) => {
                self.cursor.skip(1);
                Ok(AstValue::Color(color))
            },
            Err(_) => Err(error_unexpected(tok)),
        }
    }

    fn num(&mut self) -> (out: Result<AstValue, Error>)
        requires
            old(self).wf(),
            token_at(old(self).model(), old(self).at()).kind is Text,
        ensures
            final(self).wf(),
            final(self).cursor.tokens == old(self).cursor.tokens,
            match parse_num(
                old(self).model(),
                old(self).at(),
                token_at(old(self).model(), old(self).at()).kind->Text_0,
            ) {
                Ok((v, n)) => out is Ok && out->Ok_0@ == v && final(self).at() == old(self).at()
                    + n,
                Err(e) => out is Err && out->Err_0@ == e,
            },
    {
        let n = self.cursor.tokens.len();
        let tok = self.cursor.peek();
        let text = tok.to_text();
        match digits_value(text.as_str()) {
            Some(v) => {
                let x = Number::from_u32(v);
                if self.cursor.ahead_is(1, '%') {
                    self.cursor.skip(2);
                    Ok(AstValue::Percentage(x))
                } else {
                    self.cursor.skip(1);
                    Ok(AstValue::Num(x))
                }
            },
            None => Err(Error::CouldntParseNum),
        }
    }

    fn str(&mut self, quote: char) -> (out: Result<AstValue, Error>)
        requires
            old(self).wf(),
            is_quote(quote),
            punct(token_at(old(self).model(), old(self).at()), quote),
        ensures
            final(self).wf(),
            final(self).cursor.tokens == old(self).cursor.tokens,
            match parse_value(old(self).model(), old(self).at()) {
                Ok((v, n)) => out is Ok && out->Ok_0@ == v && final(self).at() == old(self).at()
                    + n,
                Err(e) => out is Err && out->Err_0@ == e,
            },
    {
        let n = self.cursor.tokens.len();
        self.cursor.skip(1);
        match self.cursor.string_rest(quote) {
            Ok(content) => Ok(AstValue::Str(content)),
            Err(e) => Err(Error::from_cursor(e)),
        }
    }

    fn value(&mut self) -> (out: Result<AstValue, Error>)
        requires
            old(self).wf(),
        ensures
            final(self).wf(),
            final(self).cursor.tokens == old(self).cursor.tokens,
            match parse_value(old(self).model(), old(self).at()) {
                Ok((v, n)) => out is Ok && out->Ok_0@ == v && final(self).at() == old(self).at()
                    + n,
                Err(e) => out is Err && out->Err_0@ == e,
            },
    {
        let n = self.cursor.tokens.len();
        if self.cursor.pointer >= n {
            return Err(error_unexpected(self.cursor.peek()));
        }
        match self.cursor.tokens[self.cursor.pointer].token_type.delimiter() {
            Some(c) => {
                if c == '\'' || c == '"' || c == '`' {
                    self.str(c)
                } else if c == '#' {
                    self.color()
                } else {
                    Err(error_unexpected(self.cursor.peek()))
                }
            },
            None => {
                let tok = self.cursor.peek();
                match &tok.token_type {
                    TokenType::Text(s) => {
                        if is_numeric(s.as_str()) {
                            self.num()
                        } else if is_alpha(s.as_str()) {
                            self.property()
                        } else {
                            Err(error_unexpected(self.cursor.peek()))
                        }
                    },
                    _ => Err(error_unexpected(self.cursor.peek())),
                }
            },
        }
    }

    fn header_item(&mut self) -> (out: Result<AstHeaderItem, Error>)
        requires
            old(self).wf(),
        ensures
            final(self).wf(),
            final(self).cursor.tokens == old(self).cursor.tokens,
            match parse_header_item(old(self).model(), old(self).at()) {
                Ok((v, n)) => out is Ok && out->Ok_0@ == v && final(self).at() == old(self).at()
                    + n,
                Err(e) => out is Err && out->Err_0@ == e,
            },
    {
        let n = self.cursor.tokens.len();
        self.cursor.consume_whitespace();
        let tok = self.cursor.consume();
        let name = tok.to_text();
        self.cursor.consume_whitespace();
        if self.cursor.ahead_is(0, '=') {
            if !is_alpha(name.as_str()) {
                return Err(Error::InvalidAttributeKey);
            }
            self.cursor.skip(1);
            self.cursor.consume_whitespace();
            match self.value() {
                Ok(value) => Ok(AstHeaderItem::Pair(name, value)),
                Err(e) => Err(e),
            }
        } else if is_alpha(name.as_str()) {
            Ok(AstHeaderItem::Flag(name))
        } else {
            Err(error_unexpected(self.cursor.peek()))
        }
    }

    fn header(&mut self) -> (out: Result<AstHeader, Error>)
        requires
            old(self).wf(),
        ensures
            final(self).wf(),
            final(self).cursor.tokens == old(self).cursor.tokens,
            match parse_header(old(self).model(), old(self).at()) {
                Ok((v, n)) => out is Ok && out->Ok_0@ == v && final(self).at() == old(self).at()
                    + n,
                Err(e) => out is Err && out->Err_0@ == e,
            },
    {
        let ghost t = self.model();
        let n = self.cursor.tokens.len();
        let mut attributes: Vec<AstHeaderItem> = Vec::new();
        assert(item_models(attributes@) =~= Seq::<ItemModel>::empty());
        if !self.cursor.ahead_is(0, '[') {
            return Ok(AstHeader { attributes });
        }
        self.cursor.skip(1);
        self.cursor.consume_whitespace();
        let ghost start = self.at();
        loop
            invariant
                self.wf(),
                n == self.cursor.tokens@.len(),
                self.cursor.tokens == old(self).cursor.tokens,
                t == self.model(),
                old(self).at() < start <= self.at(),
                punct(token_at(t, old(self).at()), '['),
                start == old(self).at() + 1 + blanks(t, old(self).at() + 1),
                header_items(t, start, Seq::empty()) == shift(
                    header_items(t, self.at(), item_models(attributes@)),
                    (self.at() - start) as nat,
                ),
            decreases n - self.cursor.pointer,
        {
            if self.cursor.ahead_is(0, ']') {
                self.cursor.skip(1);
                return Ok(AstHeader { attributes });
            }
            if self.cursor.at_end() {
                return Err(error_expected(']', self.cursor.peek()));
            }
            match self.header_item() {
                Ok(item) => {
                    let ghost before = item_models(attributes@);
                    attributes.push(item);
                    assert(item_models(attributes@) =~= before.push(item@));
                    self.cursor.consume_whitespace();
                    if self.cursor.ahead_is(0, ']') {
                        self.cursor.skip(1);
                        return Ok(AstHeader { attributes });
                    } else if self.cursor.ahead_is(0, ',') {
                        self.cursor.skip(1);
                        self.cursor.consume_whitespace();
                    } else {
                        return Err(error_expected_two(',', ']', self.cursor.peek()));
                    }
                },
                Err(e) => {
                    return Err(e);
                },
            }
        }
    }

    /// Reads the statements of a block up to and with its closing brace.
    fn parse_block(&mut self) -> (out: Result<Vec<AstNode>, Error>)
        requires
            old(self).wf(),
        ensures
            final(self).wf(),
            final(self).cursor.tokens == old(self).cursor.tokens,
            match body_items(old(self).model(), old(self).at(), Seq::empty()) {
                Ok((v, n)) => out is Ok && node_models(out->Ok_0@) == v && final(self).at()
                    == old(self).at() + n,
                Err(e) => out is Err && out->Err_0@ == e,
            },
        decreases remaining(old(self).model(), old(self).at()), 3nat,
    {
        let ghost t = self.model();
        let ghost start = self.at();
        let n = self.cursor.tokens.len();
        let mut statements: Vec<AstNode> = Vec::new();
        assert(node_models(statements@) =~= Seq::<NodeModel>::empty());
        loop
            invariant
                self.wf(),
                n == self.cursor.tokens@.len(),
                self.cursor.tokens == old(self).cursor.tokens,
                t == self.model(),
                start == old(self).at(),
                start <= self.at(),
                body_items(t, start, Seq::empty()) == shift(
                    body_items(t, self.at(), node_models(statements@)),
                    (self.at() - start) as nat,
                ),
            decreases n - self.cursor.pointer,
        {
            if self.cursor.ahead_is(0, '}') {
                self.cursor.skip(1);
                return Ok(statements);
            }
            if self.cursor.at_end() {
                return Err(error_expected('}', self.cursor.peek()));
            }
            match self.statement() {
                Ok(node) => {
                    let ghost before = node_models(statements@);
                    statements.push(node);
                    assert(node_models(statements@) =~= before.push(node@));
                    self.cursor.consume_whitespace();
                    if self.cursor.ahead_is(0, '}') {
                        self.cursor.skip(1);
                        return Ok(statements);
                    } else if self.cursor.ahead_is(0, ',') {
                        self.cursor.skip(1);
                        self.cursor.consume_whitespace();
                    } else {
                        return Err(error_expected(',', self.cursor.peek()));
                    }
                },
                Err(e) => {
                    return Err(e);
                },
            }
        }
    }

    fn block_statement(&mut self) -> (out: Result<AstNode, Error>)
        requires
            old(self).wf(),
        ensures
            final(self).wf(),
            final(self).cursor.tokens == old(self).cursor.tokens,
            match block_statement(old(self).model(), old(self).at()) {
                Ok((v, n)) => out is Ok && out->Ok_0@ == v && final(self).at() == old(self).at()
                    + n,
                Err(e) => out is Err && out->Err_0@ == e,
            },
        decreases remaining(old(self).model(), old(self).at()), 1nat,
    {
        let n = self.cursor.tokens.len();
        if self.cursor.at_end() {
            return Err(error_expected_text(self.cursor.peek()));
        }
        let key = self.cursor.consume().to_text();
        self.cursor.consume_whitespace();
        let header = match self.header() {
            Ok(header) => header,
            Err(e) => {
                return Err(e);
            },
        };
        self.cursor.consume_whitespace();
        if !self.cursor.ahead_is(0, '{') {
            return Err(error_expected('{', self.cursor.peek()));
        }
        self.cursor.skip(1);
        self.cursor.consume_whitespace();
        match self.parse_block() {
            Ok(body) => {
                let ghost models = node_models(body@);
                let node = AstNode::Block(block_type(key), header, body);
                assert(node@->Block_2 =~= models);
                Ok(node)
            },
            Err(e) => Err(e),
        }
    }

    fn statement(&mut self) -> (out: Result<AstNode, Error>)
        requires
            old(self).wf(),
        ensures
            final(self).wf(),
            final(self).cursor.tokens == old(self).cursor.tokens,
            match parse_statement(old(self).model(), old(self).at()) {
                Ok((v, n)) => out is Ok && out->Ok_0@ == v && final(self).at() == old(self).at()
                    + n,
                Err(e) => out is Err && out->Err_0@ == e,
            },
        decreases remaining(old(self).model(), old(self).at()), 2nat,
    {
        let n = self.cursor.tokens.len();
        self.cursor.consume_whitespace();
        let tkn = self.cursor.peek();
        let block = match &tkn.token_type {
            TokenType::Text(text) => is_alpha(text.as_str()),
            _ => false,
        };
        if block {
            return self.block_statement();
        }
        let value = match self.value() {
            Ok(value) => value,
            Err(e) => {
                return Err(e);
            },
        };
        self.cursor.consume_whitespace();
        match self.header() {
            Ok(header) => Ok(AstNode::Element(value, header)),
            Err(e) => Err(e),
        }
    }

    /// Reads a document: statements up to the end of the input. The first
    /// error gives up the whole document.
    pub fn parse(&mut self) -> (out: Result<AstNode, Error>)
        requires
            old(self).wf(),
        ensures
            final(self).wf(),
            final(self).cursor.tokens == old(self).cursor.tokens,
            match parse_nodes(old(self).model(), old(self).at(), Seq::empty()) {
                Ok(v) => out is Ok && out->Ok_0@ == NodeModel::Document(v),
                Err(e) => out is Err && out->Err_0@ == e,
            },
    {
        let ghost t = self.model();
        let n = self.cursor.tokens.len();
        let mut statements: Vec<AstNode> = Vec::new();
        assert(node_models(statements@) =~= Seq::<NodeModel>::empty());
        loop
            invariant
                self.wf(),
                n == self.cursor.tokens@.len(),
                self.cursor.tokens == old(self).cursor.tokens,
                t == self.model(),
                parse_nodes(t, old(self).at(), Seq::empty()) == parse_nodes(
                    t,
                    self.at(),
                    node_models(statements@),
                ),
            decreases n - self.cursor.pointer,
        {
            self.cursor.consume_whitespace();
            if self.cursor.at_end() {
                let ghost models = node_models(statements@);
                let document = AstNode::Document(statements);
                assert(document@->Document_0 =~= models);
                return Ok(document);
            }
            proof {
                lemma_statement_takes(t, self.at());
            }
            match self.statement() {
                Ok(node) => {
                    let ghost before = node_models(statements@);
                    statements.push(node);
                    assert(node_models(statements@) =~= before.push(node@));
                },
                Err(e) => {
                    return Err(e);
                },
            }
        }
    }
}

/// A value takes at least one token.
pub proof fn lemma_value_takes(t: Seq<TokenModel>, p: int)
    ensures
        parse_value(t, p) matches Ok((_, n)) ==> n >= 1,
{
}

/// A statement that starts at a token takes at least one token.
pub proof fn lemma_statement_takes(t: Seq<TokenModel>, p: int)
    requires
        0 <= p < t.len(),
    ensures
        parse_statement(t, p) matches Ok((_, n)) ==> n >= 1,
{
    lemma_value_takes(t, p + blanks(t, p));
    crate::rtr::ast::parser::lemma_blanks_bound(t, p);
}

/// Reads the document that `src` writes.
pub fn parse_source(src: &str) -> (out: Result<AstNode, Error>)
    ensures
        match parse_document(spec_tokenise(src@)) {
            Ok(v) => out is Ok && out->Ok_0@ == v,
            Err(e) => out is Err && out->Err_0@ == e,
        },
{
    let mut parser = Parser::new(tokenise(src));
    parser.parse()
}

} // verus!

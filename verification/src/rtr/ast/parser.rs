use crate::rtr::ast::grammar::{
    binary_rest, call_rest, declares, is_quote, operator_at, parse_args, parse_binary,
    parse_block, parse_call, parse_event, parse_events, parse_expression, parse_power,
    parse_primary, parse_target, parse_unary, property_rest, shift, string_body, unary_of,
    unescape, Parsed,
};
use crate::rtr::ast::lexer::token_models;
use crate::rtr::ast::node::{
    expr_models, statement_models, AstExpression, AstProgram, AstStatement,
    AstTopLevelStatement, BinaryOp, EventModel, EventTarget, ExprModel, Target, UnaryOp,
};
use crate::rtr::number::Number;
use crate::shared::text::{chars_of, push_char, string_of};
use crate::shared::utils::{digits_value, is_alpha, is_numeric};
use vstd::string::StringExecFns;
use crate::rtr::error::{kind_models, Error, ErrorModel};
use crate::shared::position::Position;
use crate::shared::range::Range;
use crate::shared::token::{Token, TokenKind, TokenModel, TokenType};
use vstd::prelude::*;

verus! {

/// A cursor over the tokens of a script.
#[derive(Debug)]
pub struct Parser {
    pub pointer: usize,
    pub tokens: Vec<Token>,
}

/// The position that the end of the input is counted from: the end of the
/// last token, or the start of the script where there is no token.
pub open spec fn origin(t: Seq<TokenModel>) -> Position {
    if t.len() == 0 {
        Position::spec_start()
    } else {
        t.last().range.end
    }
}

/// The token that stands for the end of the input. It lies one position
/// past [`origin`] and is one position wide; where the columns or offsets
/// would not fit the machine's integers, it is empty and lies at the
/// origin.
pub open spec fn eof_token(t: Seq<TokenModel>) -> TokenModel {
    let base = origin(t);
    if base.col + 2 <= usize::MAX && base.i + 2 <= usize::MAX {
        TokenModel {
            kind: TokenKind::Eof,
            range: Range {
                start: Position { ln: base.ln, col: (base.col + 1) as usize, i: (base.i + 1) as usize },
                end: Position { ln: base.ln, col: (base.col + 2) as usize, i: (base.i + 2) as usize },
            },
        }
    } else {
        TokenModel { kind: TokenKind::Eof, range: Range { start: base, end: base } }
    }
}

/// The token at index `p`; past the last token, the end of the input.
pub open spec fn token_at(t: Seq<TokenModel>, p: int) -> TokenModel {
    if 0 <= p < t.len() {
        t[p]
    } else {
        eof_token(t)
    }
}

/// True when `tok` is the delimiter `c`.
pub open spec fn punct(tok: TokenModel, c: char) -> bool {
    tok.kind == TokenKind::Punct(c)
}

/// The number of tokens that are left from index `p` on.
pub open spec fn remaining(t: Seq<TokenModel>, p: int) -> nat {
    if p < t.len() {
        (t.len() - p) as nat
    } else {
        0
    }
}

/// The number of spaces that stand in a row from index `p` on.
pub open spec fn spaces(t: Seq<TokenModel>, p: int) -> nat
    decreases remaining(t, p),
{
    if 0 <= p < t.len() && punct(t[p], ' ') {
        1 + spaces(t, p + 1)
    } else {
        0
    }
}

/// The number of spaces and newlines that stand in a row from index `p`
/// on.
pub open spec fn blanks(t: Seq<TokenModel>, p: int) -> nat
    decreases remaining(t, p),
{
    if 0 <= p < t.len() && (punct(t[p], ' ') || punct(t[p], '\n')) {
        1 + blanks(t, p + 1)
    } else {
        0
    }
}

/// The error that one of the kinds `wanted` had to stand where `got` does.
pub open spec fn expected(wanted: Seq<TokenKind>, got: TokenModel) -> ErrorModel {
    ErrorModel::Expected { wanted, got, range: got.range }
}

/// The error that `got` stands where it cannot.
pub open spec fn unexpected(got: TokenModel) -> ErrorModel {
    ErrorModel::UnexpectedToken { token: got, range: got.range }
}

/// The error that a text run had to stand where `got` does.
pub open spec fn expected_text(got: TokenModel) -> ErrorModel {
    ErrorModel::ExpectedText { got, range: got.range }
}

/// Spaces never run past the last token.
pub proof fn lemma_spaces_bound(t: Seq<TokenModel>, p: int)
    requires
        0 <= p <= t.len(),
    ensures
        p + spaces(t, p) <= t.len(),
        !punct(token_at(t, p + spaces(t, p)), ' '),
    decreases remaining(t, p),
{
    if p < t.len() && punct(t[p], ' ') {
        lemma_spaces_bound(t, p + 1);
    }
}

/// Spaces and newlines never run past the last token.
pub proof fn lemma_blanks_bound(t: Seq<TokenModel>, p: int)
    requires
        0 <= p <= t.len(),
    ensures
        p + blanks(t, p) <= t.len(),
        !punct(token_at(t, p + blanks(t, p)), ' '),
        !punct(token_at(t, p + blanks(t, p)), '\n'),
    decreases remaining(t, p),
{
    if p < t.len() && (punct(t[p], ' ') || punct(t[p], '\n')) {
        lemma_blanks_bound(t, p + 1);
    }
}

impl Parser {
    /// The tokens of the cursor.
    pub open spec fn model(&self) -> Seq<TokenModel> {
        token_models(self.tokens@)
    }

    /// True when the cursor stands at a token or at the end.
    pub open spec fn wf(&self) -> bool {
        self.pointer <= self.tokens@.len()
    }

    /// A cursor at the first of `tokens`.
    pub fn new(tokens: Vec<Token>) -> (parser: Parser)
        ensures
            parser.wf(),
            parser.pointer == 0,
            parser.tokens == tokens,
    {
        Parser { pointer: 0, tokens }
    }

    /// True when no token is left.
    pub fn at_end(&self) -> (b: bool)
        ensures
            b == (self.pointer >= self.tokens@.len()),
    {
        self.pointer >= self.tokens.len()
    }

    fn eof(&self) -> (tok: Token)
        ensures
            tok@ == eof_token(self.model()),
    {
        let n = self.tokens.len();
        let base = if n == 0 {
            Position::start()
        } else {
            self.tokens[n - 1].range.end
        };
        if base.col <= usize::MAX - 2 && base.i <= usize::MAX - 2 {
            Token {
                token_type: TokenType::EOF,
                range: Range {
                    start: Position { ln: base.ln, col: base.col + 1, i: base.i + 1 },
                    end: Position { ln: base.ln, col: base.col + 2, i: base.i + 2 },
                },
            }
        } else {
            Token { token_type: TokenType::EOF, range: Range { start: base, end: base } }
        }
    }

    /// The token `i` places after the cursor; past the last token, the end
    /// of the input.
    pub fn peek_amount(&self, i: usize) -> (tok: Token)
        ensures
            tok@ == token_at(self.model(), self.pointer + i),
    {
        let n = self.tokens.len();
        if self.pointer < n && i < n - self.pointer {
            self.tokens[self.pointer + i].clone()
        } else {
            self.eof()
        }
    }

    /// The token at the cursor.
    pub fn peek(&self) -> (tok: Token)
        ensures
            tok@ == token_at(self.model(), self.pointer as int),
    {
        self.peek_amount(0)
    }

    /// Where the token at the cursor starts.
    pub fn get_next_start(&self) -> (pos: Position)
        ensures
            pos == token_at(self.model(), self.pointer as int).range.start,
    {
        self.peek().range.start
    }

    /// Where the token before the cursor ends.
    pub fn get_last_end(&self) -> (pos: Position)
        requires
            0 < self.pointer <= self.tokens@.len(),
        ensures
            pos == self.model()[self.pointer - 1].range.end,
    {
        self.tokens[self.pointer - 1].range.end
    }

    /// True when the token `i` places after the cursor is the delimiter
    /// `c`.
    pub fn ahead_is(&self, i: usize, c: char) -> (b: bool)
        ensures
            b == punct(token_at(self.model(), self.pointer + i), c),
    {
        let n = self.tokens.len();
        if self.pointer < n && i < n - self.pointer {
            match self.tokens[self.pointer + i].token_type.delimiter() {
                Some(d) => d == c,
                None => false,
            }
        } else {
            false
        }
    }

    /// The number of spaces in a row that start `i` places after the
    /// cursor.
    pub fn spaces_ahead(&self, i: usize) -> (k: usize)
        requires
            self.wf(),
            self.pointer + i <= self.tokens@.len(),
        ensures
            k == spaces(self.model(), self.pointer + i),
            self.pointer + i + k <= self.tokens@.len(),
    {
        let ghost t = self.model();
        let n = self.tokens.len();
        let mut k: usize = 0;
        while self.ahead_is(i + k, ' ')
            invariant
                t == self.model(),
                n == self.tokens@.len(),
                self.pointer + i + k <= n,
                spaces(t, self.pointer + i) == k + spaces(t, self.pointer + i + k),
            decreases n - self.pointer - i - k,
        {
            k += 1;
        }
        k
    }

    /// The number of spaces and newlines in a row that start at the
    /// cursor.
    pub fn blanks_ahead(&self) -> (k: usize)
        requires
            self.wf(),
        ensures
            k == blanks(self.model(), self.pointer as int),
            self.pointer + k <= self.tokens@.len(),
    {
        let ghost t = self.model();
        let n = self.tokens.len();
        let mut k: usize = 0;
        while self.ahead_is(k, ' ') || self.ahead_is(k, '\n')
            invariant
                t == self.model(),
                n == self.tokens@.len(),
                self.pointer + k <= n,
                blanks(t, self.pointer as int) == k + blanks(t, self.pointer + k),
            decreases n - self.pointer - k,
        {
            k += 1;
        }
        k
    }

    /// Takes the token at the cursor and moves past it. At the end of the
    /// input the cursor stays.
    pub fn consume(&mut self) -> (tok: Token)
        requires
            old(self).wf(),
        ensures
            final(self).wf(),
            final(self).tokens == old(self).tokens,
            tok@ == token_at(old(self).model(), old(self).pointer as int),
            final(self).pointer == if old(self).pointer < old(self).tokens@.len() {
                old(self).pointer + 1
            } else {
                old(self).pointer as int
            },
    {
        let tok = self.peek();
        if self.pointer < self.tokens.len() {
            self.pointer = self.pointer + 1;
        }
        tok
    }

    /// Moves past the spaces and newlines at the cursor.
    pub fn consume_whitespace(&mut self)
        requires
            old(self).wf(),
        ensures
            final(self).wf(),
            final(self).tokens == old(self).tokens,
            final(self).pointer == old(self).pointer + blanks(
                old(self).model(),
                old(self).pointer as int,
            ),
    {
        let n = self.tokens.len();
        let k = self.blanks_ahead();
        self.pointer = self.pointer + k;
    }

    /// Takes the token at the cursor, which must be of the kind `other`.
    pub fn expect(&mut self, other: TokenType) -> (out: Result<Token, Error>)
        requires
            old(self).wf(),
        ensures
            final(self).wf(),
            final(self).tokens == old(self).tokens,
            ({
                let tok = token_at(old(self).model(), old(self).pointer as int);
                if tok.kind == other@ {
                    out is Ok && out->Ok_0@ == tok
                } else {
                    out is Err && out->Err_0@ == expected(seq![other@], tok)
                }
            }),
            final(self).pointer == if old(self).pointer < old(self).tokens@.len() {
                old(self).pointer + 1
            } else {
                old(self).pointer as int
            },
    {
        let tkn = self.consume();
        if !tkn.is(&other) {
            let range = tkn.range;
            let mut wanted: Vec<TokenType> = Vec::new();
            wanted.push(other);
            assert(kind_models(wanted@) =~= seq![other@]);
            return Err(Error::Expected { wanted, got: Box::new(tkn), range: Box::new(range) });
        }
        Ok(tkn)
    }

    /// Takes the token at the cursor, which must be of one of the kinds
    /// `other`.
    pub fn expect_multiple(&mut self, other: Vec<TokenType>) -> (out: Result<Token, Error>)
        requires
            old(self).wf(),
        ensures
            final(self).wf(),
            final(self).tokens == old(self).tokens,
            ({
                let tok = token_at(old(self).model(), old(self).pointer as int);
                if kind_models(other@).contains(tok.kind) {
                    out is Ok && out->Ok_0@ == tok
                } else {
                    out is Err && out->Err_0@ == expected(kind_models(other@), tok)
                }
            }),
            final(self).pointer == if old(self).pointer < old(self).tokens@.len() {
                old(self).pointer + 1
            } else {
                old(self).pointer as int
            },
    {
        let tkn = self.consume();
        let mut found = false;
        let mut i: usize = 0;
        while i < other.len()
            invariant
                0 <= i <= other@.len(),
                found == exists|j: int| 0 <= j < i && (#[trigger] other@[j])@ == tkn@.kind,
            decreases other@.len() - i,
        {
            if tkn.is(&other[i]) {
                found = true;
            }
            i += 1;
        }
        proof {
            let kinds = kind_models(other@);
            if found {
                let j = choose|j: int| 0 <= j < other@.len() && (#[trigger] other@[j])@ == tkn@.kind;
                assert(kinds[j] == tkn@.kind);
            } else {
                assert forall|j: int| 0 <= j < kinds.len() implies kinds[j] != tkn@.kind by {
                    assert(kinds[j] == other@[j]@);
                }
            }
        }
        if !found {
            let range = tkn.range;
            return Err(Error::Expected { wanted: other, got: Box::new(tkn), range: Box::new(range) });
        }
        Ok(tkn)
    }

    /// Takes the token at the cursor, which must be a text run, and gives
    /// its text.
    pub fn expect_text(&mut self) -> (out: Result<String, Error>)
        requires
            old(self).wf(),
        ensures
            final(self).wf(),
            final(self).tokens == old(self).tokens,
            ({
                let tok = token_at(old(self).model(), old(self).pointer as int);
                match tok.kind {
                    TokenKind::Text(s) => out is Ok && out->Ok_0@ == s,
                    _ => out is Err && out->Err_0@ == expected_text(tok),
                }
            }),
            final(self).pointer == if old(self).pointer < old(self).tokens@.len() {
                old(self).pointer + 1
            } else {
                old(self).pointer as int
            },
    {
        let tkn = self.consume();
        match &tkn.token_type {
            TokenType::Text(txt) => Ok(txt.clone()),
            _ => {
                let range = tkn.range;
                Err(Error::ExpectedText { got: Box::new(tkn), range: Box::new(range) })
            },
        }
    }
}

/// A string takes at least its closing quote.
pub proof fn lemma_string_body_takes(t: Seq<TokenModel>, p: int, quote: char)
    ensures
        string_body(t, p, quote) matches Ok((_, n)) ==> n >= 1 && 0 <= p && p + n <= t.len()
            && punct(token_at(t, p + n - 1), quote),
    decreases remaining(t, p),
{
    if 0 <= p < t.len() && !punct(t[p], quote) {
        if punct(t[p], '\\') {
            if p + 1 < t.len() {
                lemma_string_body_takes(t, p + 2, quote);
            }
        } else {
            lemma_string_body_takes(t, p + 1, quote);
        }
    }
}

/// True when a function that read an expression did what the grammar
/// says: on success the cursor has moved past what was read.
pub open spec fn expr_read(
    before: Parser,
    after: Parser,
    out: Result<AstExpression, Error>,
    want: Parsed<ExprModel>,
) -> bool {
    &&& after.wf()
    &&& after.tokens == before.tokens
    &&& match want {
        Ok((v, n)) => out is Ok && out->Ok_0@ == v && after.pointer == before.pointer + n,
        Err(e) => out is Err && out->Err_0@ == e,
    }
}

/// The same for a list of expressions.
pub open spec fn exprs_read(
    before: Parser,
    after: Parser,
    out: Result<Vec<AstExpression>, Error>,
    want: Parsed<Seq<ExprModel>>,
) -> bool {
    &&& after.wf()
    &&& after.tokens == before.tokens
    &&& match want {
        Ok((v, n)) => out is Ok && expr_models(out->Ok_0@) == v && after.pointer == before.pointer
            + n,
        Err(e) => out is Err && out->Err_0@ == e,
    }
}

/// `r`, after the text `acc` and `k` more tokens.
pub open spec fn prepend(acc: Seq<char>, k: nat, r: Parsed<Seq<char>>) -> Parsed<Seq<char>> {
    match r {
        Ok((rest, n)) => Ok((acc + rest, n + k)),
        Err(e) => Err(e),
    }
}

fn unescape_text(s: String) -> (out: String)
    ensures
        out@ == unescape(s@),
{
    let chars = chars_of(s.as_str());
    if chars.len() > 0 && chars[0] == 'n' {
        let mut out = String::new();
        push_char(&mut out, '\n');
        let rest = string_of(&chars, 1, chars.len());
        out.append(rest.as_str());
        assert(out@ =~= unescape(s@));
        out
    } else {
        s
    }
}

fn wanted_one(c: char) -> (wanted: Vec<TokenType>)
    requires
        crate::shared::token::spec_is_delimiter(c),
    ensures
        kind_models(wanted@) == seq![TokenKind::Punct(c)],
{
    let mut wanted: Vec<TokenType> = Vec::new();
    wanted.push(TokenType::of_char(c));
    assert(kind_models(wanted@) =~= seq![TokenKind::Punct(c)]);
    wanted
}

fn wanted_two(c: char, d: char) -> (wanted: Vec<TokenType>)
    requires
        crate::shared::token::spec_is_delimiter(c),
        crate::shared::token::spec_is_delimiter(d),
    ensures
        kind_models(wanted@) == seq![TokenKind::Punct(c), TokenKind::Punct(d)],
{
    let mut wanted: Vec<TokenType> = Vec::new();
    wanted.push(TokenType::of_char(c));
    wanted.push(TokenType::of_char(d));
    assert(kind_models(wanted@) =~= seq![TokenKind::Punct(c), TokenKind::Punct(d)]);
    wanted
}

fn error_expected(wanted: Vec<TokenType>, got: Token) -> (e: Error)
    ensures
        e@ == expected(kind_models(wanted@), got@),
{
    let range = got.range;
    Error::Expected { wanted, got: Box::new(got), range: Box::new(range) }
}

fn error_unexpected(got: Token) -> (e: Error)
    ensures
        e@ == unexpected(got@),
{
    let range = got.range;
    Error::UnexpectedToken { token: Box::new(got), range: Box::new(range) }
}

fn error_expected_text(got: Token) -> (e: Error)
    ensures
        e@ == expected_text(got@),
{
    let range = got.range;
    Error::ExpectedText { got: Box::new(got), range: Box::new(range) }
}

impl Parser {
    /// Moves the cursor past `k` tokens.
    pub fn skip(&mut self, k: usize)
        requires
            old(self).pointer + k <= old(self).tokens@.len(),
        ensures
            final(self).wf(),
            final(self).tokens == old(self).tokens,
            final(self).pointer == old(self).pointer + k,
    {
        let n = self.tokens.len();
        self.pointer = self.pointer + k;
    }

    /// Moves the cursor past the spaces that stand at it, and gives their
    /// number.
    pub fn skip_spaces(&mut self) -> (k: usize)
        requires
            old(self).wf(),
        ensures
            final(self).wf(),
            final(self).tokens == old(self).tokens,
            k == spaces(old(self).model(), old(self).pointer as int),
            final(self).pointer == old(self).pointer + k,
    {
        let k = self.spaces_ahead(0);
        self.skip(k);
        k
    }

    fn declares_here(&self) -> (b: bool)
        requires
            self.wf(),
        ensures
            b == declares(self.model(), self.pointer as int),
            b ==> self.pointer + 2 + spaces(self.model(), self.pointer + 1) <= self.tokens@.len(),
    {
        let n = self.tokens.len();
        if self.pointer >= n {
            return false;
        }
        match &self.tokens[self.pointer].token_type {
            TokenType::Text(s) => {
                if !is_alpha(s.as_str()) {
                    return false;
                }
            },
            _ => {
                return false;
            },
        }
        let s1 = self.spaces_ahead(1);
        if !self.ahead_is(1 + s1, '=') {
            return false;
        }
        !self.ahead_is(1 + s1 + 1, '=')
    }

    fn operator_ahead(&self, i: usize, level: u8) -> (out: Option<(BinaryOp, usize)>)
        requires
            self.wf(),
            self.pointer + i <= self.tokens@.len(),
        ensures
            match operator_at(self.model(), self.pointer + i, level as nat) {
                Some((op, w)) => out == Some((op, w as usize)) && self.pointer + i + w
                    <= self.tokens@.len(),
                None => out is None,
            },
    {
        let n = self.tokens.len();
        if self.pointer + i >= n {
            return None;
        }
        if level == 0 {
            if self.ahead_is(i, '?') && self.ahead_is(i + 1, '?') {
                Some((BinaryOp::NullishCoalescence, 2))
            } else {
                None
            }
        } else if level == 1 {
            if self.ahead_is(i, '=') && self.ahead_is(i + 1, '=') {
                Some((BinaryOp::Eql, 2))
            } else if self.ahead_is(i, '!') && self.ahead_is(i + 1, '=') {
                Some((BinaryOp::NotEql, 2))
            } else {
                None
            }
        } else if level == 2 {
            if self.ahead_is(i, '<') {
                if self.ahead_is(i + 1, '=') {
                    Some((BinaryOp::SmallerEql, 2))
                } else {
                    Some((BinaryOp::Smaller, 1))
                }
            } else if self.ahead_is(i, '>') {
                if self.ahead_is(i + 1, '=') {
                    Some((BinaryOp::BiggerEql, 2))
                } else {
                    Some((BinaryOp::Bigger, 1))
                }
            } else {
                None
            }
        } else if level == 3 {
            if self.ahead_is(i, '+') {
                Some((BinaryOp::Add, 1))
            } else if self.ahead_is(i, '-') {
                Some((BinaryOp::Sub, 1))
            } else {
                None
            }
        } else if level == 4 {
            if self.ahead_is(i, '*') {
                Some((BinaryOp::Mul, 1))
            } else if self.ahead_is(i, '/') {
                Some((BinaryOp::Div, 1))
            } else if self.ahead_is(i, '%') {
                Some((BinaryOp::Mod, 1))
            } else {
                None
            }
        } else {
            None
        }
    }

    /// Reads the content of a string up to and with its closing quote.
    pub fn string_rest(&mut self, quote: char) -> (out: Result<String, Error>)
        requires
            old(self).wf(),
            is_quote(quote),
        ensures
            final(self).wf(),
            final(self).tokens == old(self).tokens,
            match string_body(old(self).model(), old(self).pointer as int, quote) {
                Ok((v, n)) => out is Ok && out->Ok_0@ == v && final(self).pointer == old(self).pointer + n,
                Err(e) => out is Err && out->Err_0@ == e,
            },
    {
        let ghost t = self.model();
        let ghost start = self.pointer as int;
        let n = self.tokens.len();
        let mut content = String::new();
        assert(content@ + Seq::<char>::empty() =~= content@);
        loop
            invariant
                self.wf(),
                is_quote(quote),
                n == self.tokens@.len(),
                self.tokens == old(self).tokens,
                t == self.model(),
                start == old(self).pointer,
                start <= self.pointer,
                string_body(t, start, quote) == prepend(
                    content@,
                    (self.pointer - start) as nat,
                    string_body(t, self.pointer as int, quote),
                ),
            decreases n - self.pointer,
        {
            if self.pointer >= n {
                return Err(error_expected(wanted_one(quote), self.eof()));
            }
            if self.ahead_is(0, quote) {
                self.skip(1);
                assert(content@ + Seq::<char>::empty() =~= content@);
                return Ok(content);
            }
            let ghost before = content@;
            if self.ahead_is(0, '\\') {
                if self.pointer + 1 >= n {
                    return Err(error_expected(wanted_one(quote), self.eof()));
                }
                let piece = unescape_text(self.tokens[self.pointer + 1].to_text());
                content.append(piece.as_str());
                proof {
                    let next = string_body(t, self.pointer + 2, quote);
                    if next is Ok {
                        assert(before + (piece@ + next->Ok_0.0) =~= (before + piece@) + next->Ok_0.0);
                    }
                }
                self.skip(2);
            } else {
                let piece = self.tokens[self.pointer].to_text();
                content.append(piece.as_str());
                proof {
                    let next = string_body(t, self.pointer + 1, quote);
                    if next is Ok {
                        assert(before + (piece@ + next->Ok_0.0) =~= (before + piece@) + next->Ok_0.0);
                    }
                }
                self.skip(1);
            }
        }
    }

    /// Reads a number, a percentage or the name of a variable.
    fn word(&mut self) -> (out: Result<AstExpression, Error>)
        requires
            old(self).wf(),
            token_at(old(self).model(), old(self).pointer as int).kind is Text,
        ensures
            expr_read(
                *old(self),
                *final(self),
                out,
                parse_primary(old(self).model(), old(self).pointer as int),
            ),
    {
        let n = self.tokens.len();
        let tok = self.peek();
        let start = tok.range.start;
        match &tok.token_type {
            TokenType::Text(s) => {
                if is_numeric(s.as_str()) {
                    match digits_value(s.as_str()) {
                        Some(v) => {
                            let content = Number::from_u32(v);
                            if self.ahead_is(1, '%') {
                                let end = self.tokens[self.pointer + 1].range.end;
                                self.skip(2);
                                Ok(AstExpression::Percentage { content, range: Range { start, end } })
                            } else {
                                self.skip(1);
                                Ok(AstExpression::Number { content, range: tok.range })
                            }
                        },
                        None => Err(error_unexpected(tok)),
                    }
                } else if is_alpha(s.as_str()) {
                    self.skip(1);
                    Ok(AstExpression::Variable { name: s.clone(), range: tok.range })
                } else {
                    Err(error_unexpected(tok))
                }
            },
            _ => Err(Error::Placeholder),
        }
    }

    /// Reads a string in quotes.
    fn string_literal(&mut self, quote: char) -> (out: Result<AstExpression, Error>)
        requires
            old(self).wf(),
            is_quote(quote),
            punct(token_at(old(self).model(), old(self).pointer as int), quote),
        ensures
            expr_read(
                *old(self),
                *final(self),
                out,
                parse_primary(old(self).model(), old(self).pointer as int),
            ),
    {
        let n = self.tokens.len();
        let start = self.tokens[self.pointer].range.start;
        self.skip(1);
        match self.string_rest(quote) {
            Ok(content) => {
                proof {
                    lemma_string_body_takes(self.model(), old(self).pointer + 1, quote);
                }
                let end = self.tokens[self.pointer - 1].range.end;
                Ok(AstExpression::String { content, range: Range { start, end } })
            },
            Err(e) => Err(e),
        }
    }

    /// Reads an expression in round brackets.
    fn group(&mut self) -> (out: Result<AstExpression, Error>)
        requires
            old(self).wf(),
            punct(token_at(old(self).model(), old(self).pointer as int), '('),
        ensures
            expr_read(
                *old(self),
                *final(self),
                out,
                parse_primary(old(self).model(), old(self).pointer as int),
            ),
        decreases remaining(old(self).model(), old(self).pointer as int), 1nat,
    {
        let n = self.tokens.len();
        self.skip(1);
        self.skip_spaces();
        match self.expression() {
            Ok(inner) => {
                self.skip_spaces();
                if self.ahead_is(0, ')') {
                    self.skip(1);
                    Ok(inner)
                } else {
                    Err(error_expected(wanted_one(')'), self.peek()))
                }
            },
            Err(e) => Err(e),
        }
    }

    /// Reads a primary expression.
    fn primary(&mut self) -> (out: Result<AstExpression, Error>)
        requires
            old(self).wf(),
        ensures
            expr_read(
                *old(self),
                *final(self),
                out,
                parse_primary(old(self).model(), old(self).pointer as int),
            ),
        decreases remaining(old(self).model(), old(self).pointer as int), 2nat,
    {
        let n = self.tokens.len();
        if self.pointer >= n {
            return Err(error_unexpected(self.eof()));
        }
        match self.tokens[self.pointer].token_type.delimiter() {
            Some(c) => {
                if c == '\'' || c == '"' || c == '`' {
                    self.string_literal(c)
                } else if c == '(' {
                    self.group()
                } else {
                    Err(error_unexpected(self.peek()))
                }
            },
            None => {
                match &self.tokens[self.pointer].token_type {
                    TokenType::Text(_) => self.word(),
                    _ => Err(error_unexpected(self.peek())),
                }
            },
        }
    }

    /// Reads the arguments of a call up to and with the closing bracket.
    fn args(&mut self, acc: Vec<AstExpression>) -> (out: Result<Vec<AstExpression>, Error>)
        requires
            old(self).wf(),
        ensures
            exprs_read(
                *old(self),
                *final(self),
                out,
                parse_args(old(self).model(), old(self).pointer as int, expr_models(acc@)),
            ),
        decreases remaining(old(self).model(), old(self).pointer as int), 40nat,
    {
        let mut acc = acc;
        self.skip_spaces();
        if self.ahead_is(0, ')') {
            self.skip(1);
            return Ok(acc);
        }
        match self.expression() {
            Ok(arg) => {
                let ghost before = expr_models(acc@);
                acc.push(arg);
                assert(expr_models(acc@) =~= before.push(arg@));
                self.skip_spaces();
                if self.ahead_is(0, ')') {
                    self.skip(1);
                    Ok(acc)
                } else if self.ahead_is(0, ',') {
                    self.skip(1);
                    self.args(acc)
                } else {
                    Err(error_expected(wanted_two(',', ')'), self.peek()))
                }
            },
            Err(e) => Err(e),
        }
    }

    /// Reads the calls that follow `callee`.
    fn call_rest(&mut self, callee: AstExpression) -> (out: Result<AstExpression, Error>)
        requires
            old(self).wf(),
        ensures
            expr_read(
                *old(self),
                *final(self),
                out,
                call_rest(old(self).model(), old(self).pointer as int, callee@),
            ),
        decreases remaining(old(self).model(), old(self).pointer as int), 1nat,
    {
        if self.ahead_is(0, '(') {
            self.skip(1);
            let none: Vec<AstExpression> = Vec::new();
            assert(expr_models(none@) =~= Seq::<ExprModel>::empty());
            match self.args(none) {
                Ok(args) => {
                    let end = self.tokens[self.pointer - 1].range.end;
                    let range = Range { start: callee.range().start, end };
                    let ghost models = expr_models(args@);
                    let call = AstExpression::Call { args, func: Box::new(callee), range };
                    assert(call@->Call_args =~= models);
                    self.call_rest(call)
                },
                Err(e) => Err(e),
            }
        } else {
            Ok(callee)
        }
    }

    /// Reads a primary expression with the calls that follow it.
    fn call(&mut self) -> (out: Result<AstExpression, Error>)
        requires
            old(self).wf(),
        ensures
            expr_read(
                *old(self),
                *final(self),
                out,
                parse_call(old(self).model(), old(self).pointer as int),
            ),
        decreases remaining(old(self).model(), old(self).pointer as int), 3nat,
    {
        match self.primary() {
            Ok(callee) => self.call_rest(callee),
            Err(e) => Err(e),
        }
    }

    fn unary_after(&mut self, start: Position, op: UnaryOp, width: usize, Ghost(tok): Ghost<TokenModel>) -> (out:
        Result<AstExpression, Error>)
        requires
            old(self).wf(),
            1 <= width <= 2,
            old(self).pointer + width <= old(self).tokens@.len(),
            start == tok.range.start,
        ensures
            expr_read(
                *old(self),
                *final(self),
                out,
                match parse_unary(old(self).model(), old(self).pointer + width) {
                    Ok((value, n)) => Ok((unary_of(tok, value, op), n + width as nat)),
                    Err(e) => Err(e),
                },
            ),
        decreases remaining(old(self).model(), old(self).pointer as int), 3nat,
    {
        self.skip(width);
        match self.unary() {
            Ok(value) => {
                let range = Range { start, end: value.range().end };
                Ok(AstExpression::Unary { value: Box::new(value), op, range })
            },
            Err(e) => Err(e),
        }
    }

    /// Reads an operand with the operators before it.
    fn unary(&mut self) -> (out: Result<AstExpression, Error>)
        requires
            old(self).wf(),
        ensures
            expr_read(
                *old(self),
                *final(self),
                out,
                parse_unary(old(self).model(), old(self).pointer as int),
            ),
        decreases remaining(old(self).model(), old(self).pointer as int), 4nat,
    {
        let n = self.tokens.len();
        let ghost tok = token_at(self.model(), self.pointer as int);
        let start = self.get_next_start();
        if self.ahead_is(0, '-') {
            self.unary_after(start, UnaryOp::Minus, 1, Ghost(tok))
        } else if self.ahead_is(0, '+') {
            self.unary_after(start, UnaryOp::Number, 1, Ghost(tok))
        } else if self.ahead_is(0, '!') {
            if self.ahead_is(1, '!') {
                self.unary_after(start, UnaryOp::Boolify, 2, Ghost(tok))
            } else {
                self.unary_after(start, UnaryOp::Invert, 1, Ghost(tok))
            }
        } else {
            self.call()
        }
    }

    /// Reads a power.
    fn power(&mut self) -> (out: Result<AstExpression, Error>)
        requires
            old(self).wf(),
        ensures
            expr_read(
                *old(self),
                *final(self),
                out,
                parse_power(old(self).model(), old(self).pointer as int),
            ),
        decreases remaining(old(self).model(), old(self).pointer as int), 5nat,
    {
        let n = self.tokens.len();
        match self.unary() {
            Ok(base) => {
                let s1 = self.spaces_ahead(0);
                if self.ahead_is(s1, '^') {
                    self.skip(s1 + 1);
                    self.skip_spaces();
                    match self.power() {
                        Ok(exponent) => {
                            let range = Range {
                                start: base.range().start,
                                end: exponent.range().end,
                            };
                            Ok(
                                AstExpression::Binary {
                                    left: Box::new(base),
                                    right: Box::new(exponent),
                                    op: BinaryOp::Pow,
                                    range,
                                },
                            )
                        },
                        Err(e) => Err(e),
                    }
                } else {
                    Ok(base)
                }
            },
            Err(e) => Err(e),
        }
    }

    /// Reads the operators of a level that follow `left`, each with its
    /// right operand.
    fn binary_rest(&mut self, level: u8, left: AstExpression) -> (out: Result<AstExpression, Error>)
        requires
            old(self).wf(),
            level < 5,
        ensures
            expr_read(
                *old(self),
                *final(self),
                out,
                binary_rest(old(self).model(), old(self).pointer as int, level as nat, left@),
            ),
        decreases remaining(old(self).model(), old(self).pointer as int), 0nat,
    {
        let n = self.tokens.len();
        let s1 = self.spaces_ahead(0);
        match self.operator_ahead(s1, level) {
            Some((op, w)) => {
                self.skip(s1 + w);
                self.skip_spaces();
                match self.binary(level + 1) {
                    Ok(right) => {
                        let range = Range { start: left.range().start, end: right.range().end };
                        let node = AstExpression::Binary {
                            left: Box::new(left),
                            right: Box::new(right),
                            op,
                            range,
                        };
                        self.binary_rest(level, node)
                    },
                    Err(e) => Err(e),
                }
            },
            None => Ok(left),
        }
    }

    /// Reads an expression of the operators of a level and of those that
    /// bind more.
    fn binary(&mut self, level: u8) -> (out: Result<AstExpression, Error>)
        requires
            old(self).wf(),
        ensures
            expr_read(
                *old(self),
                *final(self),
                out,
                parse_binary(old(self).model(), old(self).pointer as int, level as nat),
            ),
        decreases remaining(old(self).model(), old(self).pointer as int), (if level < 5 {
            20 - level
        } else {
            10
        }) as nat,
    {
        if level >= 5 {
            return self.power();
        }
        match self.binary(level + 1) {
            Ok(left) => self.binary_rest(level, left),
            Err(e) => Err(e),
        }
    }

    /// Reads an expression.
    pub fn expression(&mut self) -> (out: Result<AstExpression, Error>)
        requires
            old(self).wf(),
        ensures
            expr_read(
                *old(self),
                *final(self),
                out,
                parse_expression(old(self).model(), old(self).pointer as int),
            ),
        decreases remaining(old(self).model(), old(self).pointer as int), 30nat,
    {
        if self.declares_here() {
            let tok = self.consume();
            let start = tok.range.start;
            self.skip_spaces();
            self.skip(1);
            self.skip_spaces();
            match self.expression() {
                Ok(value) => {
                    let range = Range { start, end: value.range().end };
                    match tok.token_type {
                        TokenType::Text(name) => Ok(
                            AstExpression::Declare { name, value: Box::new(value), range },
                        ),
                        _ => Err(Error::Placeholder),
                    }
                },
                Err(e) => Err(e),
            }
        } else {
            self.binary(0)
        }
    }
}

/// An event declaration takes at least one token.
pub proof fn lemma_event_takes(t: Seq<TokenModel>, p: int)
    ensures
        parse_event(t, p) matches Ok((_, n)) ==> n >= 1,
{
}

/// The models of a sequence of event declarations.
pub open spec fn event_models(events: Seq<AstTopLevelStatement>) -> Seq<EventModel> {
    Seq::new(events.len(), |i: int| events[i]@)
}

impl Parser {
    /// True when the token at the cursor is the end of the input.
    pub fn ahead_is_eof(&self) -> (b: bool)
        ensures
            b == (token_at(self.model(), self.pointer as int).kind is Eof),
    {
        if self.pointer < self.tokens.len() {
            match &self.tokens[self.pointer].token_type {
                TokenType::EOF => true,
                _ => false,
            }
        } else {
            true
        }
    }

    /// Reads the statements of a block up to and with its closing brace.
    pub fn parse_block(&mut self) -> (out: Result<Vec<AstStatement>, Error>)
        requires
            old(self).wf(),
        ensures
            final(self).wf(),
            final(self).tokens == old(self).tokens,
            match parse_block(old(self).model(), old(self).pointer as int, Seq::empty()) {
                Ok((v, n)) => out is Ok && statement_models(out->Ok_0@) == v && final(self).pointer == old(self).pointer + n,
                Err(e) => out is Err && out->Err_0@ == e,
            },
    {
        let ghost t = self.model();
        let ghost start = self.pointer as int;
        let n = self.tokens.len();
        let mut statements: Vec<AstStatement> = Vec::new();
        assert(statement_models(statements@) =~= Seq::<ExprModel>::empty());
        loop
            invariant
                self.wf(),
                n == self.tokens@.len(),
                self.tokens == old(self).tokens,
                t == self.model(),
                start == old(self).pointer,
                start <= self.pointer,
                parse_block(t, start, Seq::empty()) == shift(
                    parse_block(t, self.pointer as int, statement_models(statements@)),
                    (self.pointer - start) as nat,
                ),
            decreases n - self.pointer,
        {
            self.consume_whitespace();
            if self.ahead_is(0, '}') {
                self.skip(1);
                return Ok(statements);
            }
            if self.ahead_is_eof() {
                return Err(error_expected(wanted_one('}'), self.peek()));
            }
            match self.expression() {
                Ok(e) => {
                    let ghost before = statement_models(statements@);
                    statements.push(AstStatement::Expression(e));
                    assert(statement_models(statements@) =~= before.push(e@));
                    self.skip_spaces();
                    if self.ahead_is(0, '}') {
                        self.skip(1);
                        return Ok(statements);
                    } else if self.ahead_is(0, '\n') {
                        self.skip(1);
                    } else {
                        return Err(error_expected(wanted_two('\n', '}'), self.peek()));
                    }
                },
                Err(e) => {
                    return Err(e);
                },
            }
        }
    }

    fn property_rest(&mut self, target: Target) -> (out: Result<EventTarget, Error>)
        requires
            old(self).wf(),
        ensures
            final(self).wf(),
            final(self).tokens == old(self).tokens,
            match property_rest(old(self).model(), old(self).pointer as int, target@) {
                Ok((v, n)) => out is Ok && out->Ok_0@ == v && final(self).pointer == old(self).pointer + n,
                Err(e) => out is Err && out->Err_0@ == e,
            },
    {
        let n = self.tokens.len();
        if !self.ahead_is(0, ':') {
            return Err(error_expected(wanted_one(':'), self.peek()));
        }
        self.skip(1);
        match self.expect_text() {
            Ok(event_name) => Ok(EventTarget::Property { target, event_name }),
            Err(e) => Err(e),
        }
    }

    /// Reads the target of an event.
    pub fn target(&mut self) -> (out: Result<EventTarget, Error>)
        requires
            old(self).wf(),
        ensures
            final(self).wf(),
            final(self).tokens == old(self).tokens,
            match parse_target(old(self).model(), old(self).pointer as int) {
                Ok((v, n)) => out is Ok && out->Ok_0@ == v && final(self).pointer == old(self).pointer + n,
                Err(e) => out is Err && out->Err_0@ == e,
            },
    {
        let n = self.tokens.len();
        if self.ahead_is(0, '*') {
            self.skip(1);
            return self.property_rest(Target::Any);
        }
        if self.ahead_is(0, '#') {
            self.skip(1);
            return match self.expect_text() {
                Ok(id) => self.property_rest(Target::Id(id)),
                Err(e) => Err(e),
            };
        }
        let element = self.ahead_is(1, ':');
        match self.expect_text() {
            Ok(name) => {
                if element {
                    self.property_rest(Target::Element(name))
                } else {
                    Ok(EventTarget::Global { name })
                }
            },
            Err(e) => Err(e),
        }
    }

    /// Reads an event declaration.
    pub fn event(&mut self) -> (out: Result<AstTopLevelStatement, Error>)
        requires
            old(self).wf(),
        ensures
            final(self).wf(),
            final(self).tokens == old(self).tokens,
            match parse_event(old(self).model(), old(self).pointer as int) {
                Ok((v, n)) => out is Ok && out->Ok_0@ == v && final(self).pointer == old(self).pointer + n,
                Err(e) => out is Err && out->Err_0@ == e,
            },
    {
        let n = self.tokens.len();
        match self.target() {
            Ok(target) => {
                self.consume_whitespace();
                if !self.ahead_is(0, '{') {
                    return Err(error_expected(wanted_one('{'), self.peek()));
                }
                self.skip(1);
                match self.parse_block() {
                    Ok(body) => Ok(AstTopLevelStatement::Event { body, target }),
                    Err(e) => Err(e),
                }
            },
            Err(e) => Err(e),
        }
    }

    /// Reads a script: event declarations up to the end of the input. The
    /// first error gives up the whole script.
    pub fn parse(&mut self) -> (out: Result<AstProgram, Error>)
        requires
            old(self).wf(),
        ensures
            final(self).wf(),
            final(self).tokens == old(self).tokens,
            match parse_events(old(self).model(), old(self).pointer as int, Seq::empty()) {
                Ok(v) => out is Ok && out->Ok_0@ == v,
                Err(e) => out is Err && out->Err_0@ == e,
            },
    {
        let ghost t = self.model();
        let ghost start = self.pointer as int;
        let n = self.tokens.len();
        let mut events: Vec<AstTopLevelStatement> = Vec::new();
        assert(event_models(events@) =~= Seq::<EventModel>::empty());
        loop
            invariant
                self.wf(),
                n == self.tokens@.len(),
                self.tokens == old(self).tokens,
                t == self.model(),
                parse_events(t, old(self).pointer as int, Seq::empty()) == parse_events(
                    t,
                    self.pointer as int,
                    event_models(events@),
                ),
            decreases n - self.pointer,
        {
            self.consume_whitespace();
            if self.at_end() {
                let program = AstProgram { events };
                assert(program@ =~= event_models(program.events@));
                return Ok(program);
            }
            proof {
                lemma_event_takes(t, self.pointer as int);
            }
            match self.event() {
                Ok(event) => {
                    let ghost before = event_models(events@);
                    events.push(event);
                    assert(event_models(events@) =~= before.push(event@));
                },
                Err(e) => {
                    return Err(e);
                },
            }
        }
    }
}

} // verus!

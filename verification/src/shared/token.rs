use crate::shared::range::Range;
use crate::shared::text::{push_char, same_text};
use vstd::prelude::*;
use vstd::string::StringExecFns;

verus! {

/// What a token is: one of the single-character delimiters, a run of text
/// between delimiters, or the end of the input.
#[derive(Debug)]
pub enum TokenType {
    OpenParen,
    CloseParen,
    OpenSquare,
    CloseSquare,
    OpenCurly,
    CloseCurly,
    LeftArrow,
    RightArrow,
    Comma,
    SemiColon,
    Colon,
    Period,
    Hash,
    Plus,
    Minus,
    Star,
    Slash,
    Mod,
    Pow,
    ExclamationMark,
    QuestionMark,
    BackSlash,
    Pipe,
    Equal,
    Quote,
    DoubleQuote,
    BackQuote,
    Space,
    Newline,
    EOF,
    Text(String),
}

/// The mathematical value of a [`TokenType`]: a delimiter is given by its
/// character, a text run by its characters.
pub enum TokenKind {
    Punct(char),
    Eof,
    Text(Seq<char>),
}

impl TokenKind {
    /// The kind as it is shown in a message: a space, a newline and the
    /// end of the input by a name in angle brackets, any other token by
    /// its text in backquotes.
    pub open spec fn shown(self) -> Seq<char> {
        match self {
            TokenKind::Punct(c) => if c == ' ' {
                "<space>"@
            } else if c == '\n' {
                "<newline>"@
            } else {
                "`"@ + seq![c] + "`"@
            },
            TokenKind::Eof => "<EOF>"@,
            TokenKind::Text(s) => "`"@ + s + "`"@,
        }
    }

    /// The source text that a token of this kind stands for.
    pub open spec fn text(self) -> Seq<char> {
        match self {
            TokenKind::Punct(c) => seq![c],
            TokenKind::Eof => Seq::empty(),
            TokenKind::Text(s) => s,
        }
    }
}

/// The table of delimiters: each is a token by itself and ends a text run.
pub open spec fn spec_is_delimiter(c: char) -> bool {
    c == '('
        || c == ')'
        || c == '['
        || c == ']'
        || c == '{'
        || c == '}'
        || c == '<'
        || c == '>'
        || c == ','
        || c == ';'
        || c == ':'
        || c == '.'
        || c == '#'
        || c == '+'
        || c == '-'
        || c == '*'
        || c == '/'
        || c == '%'
        || c == '^'
        || c == '!'
        || c == '?'
        || c == '\\'
        || c == '|'
        || c == '='
        || c == '\''
        || c == '"'
        || c == '`'
        || c == ' '
        || c == '\n'
}

/// True when `c` is one of the delimiters.
#[verifier::when_used_as_spec(spec_is_delimiter)]
pub fn is_delimiter(c: char) -> (b: bool)
    ensures
        b == spec_is_delimiter(c),
{
    c == '('
        || c == ')'
        || c == '['
        || c == ']'
        || c == '{'
        || c == '}'
        || c == '<'
        || c == '>'
        || c == ','
        || c == ';'
        || c == ':'
        || c == '.'
        || c == '#'
        || c == '+'
        || c == '-'
        || c == '*'
        || c == '/'
        || c == '%'
        || c == '^'
        || c == '!'
        || c == '?'
        || c == '\\'
        || c == '|'
        || c == '='
        || c == '\''
        || c == '"'
        || c == '`'
        || c == ' '
        || c == '\n'
}

impl View for TokenType {
    type V = TokenKind;

    open spec fn view(&self) -> TokenKind {
        match self {
            TokenType::OpenParen => TokenKind::Punct('('),
            TokenType::CloseParen => TokenKind::Punct(')'),
            TokenType::OpenSquare => TokenKind::Punct('['),
            TokenType::CloseSquare => TokenKind::Punct(']'),
            TokenType::OpenCurly => TokenKind::Punct('{'),
            TokenType::CloseCurly => TokenKind::Punct('}'),
            TokenType::LeftArrow => TokenKind::Punct('<'),
            TokenType::RightArrow => TokenKind::Punct('>'),
            TokenType::Comma => TokenKind::Punct(','),
            TokenType::SemiColon => TokenKind::Punct(';'),
            TokenType::Colon => TokenKind::Punct(':'),
            TokenType::Period => TokenKind::Punct('.'),
            TokenType::Hash => TokenKind::Punct('#'),
            TokenType::Plus => TokenKind::Punct('+'),
            TokenType::Minus => TokenKind::Punct('-'),
            TokenType::Star => TokenKind::Punct('*'),
            TokenType::Slash => TokenKind::Punct('/'),
            TokenType::Mod => TokenKind::Punct('%'),
            TokenType::Pow => TokenKind::Punct('^'),
            TokenType::ExclamationMark => TokenKind::Punct('!'),
            TokenType::QuestionMark => TokenKind::Punct('?'),
            TokenType::BackSlash => TokenKind::Punct('\\'),
            TokenType::Pipe => TokenKind::Punct('|'),
            TokenType::Equal => TokenKind::Punct('='),
            TokenType::Quote => TokenKind::Punct('\''),
            TokenType::DoubleQuote => TokenKind::Punct('"'),
            TokenType::BackQuote => TokenKind::Punct('`'),
            TokenType::Space => TokenKind::Punct(' '),
            TokenType::Newline => TokenKind::Punct('\n'),
            TokenType::EOF => TokenKind::Eof,
            TokenType::Text(s) => TokenKind::Text(s@),
        }
    }
}

impl TokenType {
    /// The token of the delimiter `c`.
    pub fn of_char(c: char) -> (t: TokenType)
        requires
            spec_is_delimiter(c),
        ensures
            t@ == TokenKind::Punct(c),
    {
        match c {
            '(' => TokenType::OpenParen,
            ')' => TokenType::CloseParen,
            '[' => TokenType::OpenSquare,
            ']' => TokenType::CloseSquare,
            '{' => TokenType::OpenCurly,
            '}' => TokenType::CloseCurly,
            '<' => TokenType::LeftArrow,
            '>' => TokenType::RightArrow,
            ',' => TokenType::Comma,
            ';' => TokenType::SemiColon,
            ':' => TokenType::Colon,
            '.' => TokenType::Period,
            '#' => TokenType::Hash,
            '+' => TokenType::Plus,
            '-' => TokenType::Minus,
            '*' => TokenType::Star,
            '/' => TokenType::Slash,
            '%' => TokenType::Mod,
            '^' => TokenType::Pow,
            '!' => TokenType::ExclamationMark,
            '?' => TokenType::QuestionMark,
            '\\' => TokenType::BackSlash,
            '|' => TokenType::Pipe,
            '=' => TokenType::Equal,
            '\'' => TokenType::Quote,
            '"' => TokenType::DoubleQuote,
            '`' => TokenType::BackQuote,
            ' ' => TokenType::Space,
            _ => TokenType::Newline,
        }
    }

    /// The character of a delimiter token; `None` for text and the end of
    /// the input.
    pub fn delimiter(&self) -> (c: Option<char>)
        ensures
            match self@ {
                TokenKind::Punct(p) => c == Some(p) && spec_is_delimiter(p),
                _ => c is None,
            },
    {
        match self {
            TokenType::OpenParen => Some('('),
            TokenType::CloseParen => Some(')'),
            TokenType::OpenSquare => Some('['),
            TokenType::CloseSquare => Some(']'),
            TokenType::OpenCurly => Some('{'),
            TokenType::CloseCurly => Some('}'),
            TokenType::LeftArrow => Some('<'),
            TokenType::RightArrow => Some('>'),
            TokenType::Comma => Some(','),
            TokenType::SemiColon => Some(';'),
            TokenType::Colon => Some(':'),
            TokenType::Period => Some('.'),
            TokenType::Hash => Some('#'),
            TokenType::Plus => Some('+'),
            TokenType::Minus => Some('-'),
            TokenType::Star => Some('*'),
            TokenType::Slash => Some('/'),
            TokenType::Mod => Some('%'),
            TokenType::Pow => Some('^'),
            TokenType::ExclamationMark => Some('!'),
            TokenType::QuestionMark => Some('?'),
            TokenType::BackSlash => Some('\\'),
            TokenType::Pipe => Some('|'),
            TokenType::Equal => Some('='),
            TokenType::Quote => Some('\''),
            TokenType::DoubleQuote => Some('"'),
            TokenType::BackQuote => Some('`'),
            TokenType::Space => Some(' '),
            TokenType::Newline => Some('\n'),
            TokenType::EOF => None,
            TokenType::Text(_) => None,
        }
    }

    /// The token as it is written in a script; the end of the input is the
    /// empty string.
    pub fn to_text(&self) -> (s: String)
        ensures
            s@ == self@.text(),
    {
        match self {
            TokenType::Text(txt) => txt.clone(),
            TokenType::EOF => String::new(),
            _ => {
                let mut s = String::new();
                match self.delimiter() {
                    Some(c) => {
                        push_char(&mut s, c);
                        assert(s@ =~= seq![c]);
                    },
                    None => {},
                }
                s
            },
        }
    }

    /// The kind as it is shown in a message.
    pub fn debug_text(&self) -> (s: String)
        ensures
            s@ == self@.shown(),
    {
        match self {
            TokenType::Space => String::from_str("<space>"),
            TokenType::Newline => String::from_str("<newline>"),
            TokenType::EOF => String::from_str("<EOF>"),
            _ => {
                let mut s = String::from_str("`");
                let text = self.to_text();
                s.append(text.as_str());
                s.append("`");
                s
            },
        }
    }

    /// True when the token is the text run `other`.
    pub fn is_text(&self, other: &str) -> (b: bool)
        ensures
            b == (self@ == TokenKind::Text(other@)),
    {
        match self {
            TokenType::Text(txt) => same_text(txt.as_str(), other),
            _ => false,
        }
    }
}

impl Clone for TokenType {
    fn clone(&self) -> (t: TokenType)
        ensures
            t@ == self@,
    {
        match self {
            TokenType::OpenParen => TokenType::OpenParen,
            TokenType::CloseParen => TokenType::CloseParen,
            TokenType::OpenSquare => TokenType::OpenSquare,
            TokenType::CloseSquare => TokenType::CloseSquare,
            TokenType::OpenCurly => TokenType::OpenCurly,
            TokenType::CloseCurly => TokenType::CloseCurly,
            TokenType::LeftArrow => TokenType::LeftArrow,
            TokenType::RightArrow => TokenType::RightArrow,
            TokenType::Comma => TokenType::Comma,
            TokenType::SemiColon => TokenType::SemiColon,
            TokenType::Colon => TokenType::Colon,
            TokenType::Period => TokenType::Period,
            TokenType::Hash => TokenType::Hash,
            TokenType::Plus => TokenType::Plus,
            TokenType::Minus => TokenType::Minus,
            TokenType::Star => TokenType::Star,
            TokenType::Slash => TokenType::Slash,
            TokenType::Mod => TokenType::Mod,
            TokenType::Pow => TokenType::Pow,
            TokenType::ExclamationMark => TokenType::ExclamationMark,
            TokenType::QuestionMark => TokenType::QuestionMark,
            TokenType::BackSlash => TokenType::BackSlash,
            TokenType::Pipe => TokenType::Pipe,
            TokenType::Equal => TokenType::Equal,
            TokenType::Quote => TokenType::Quote,
            TokenType::DoubleQuote => TokenType::DoubleQuote,
            TokenType::BackQuote => TokenType::BackQuote,
            TokenType::Space => TokenType::Space,
            TokenType::Newline => TokenType::Newline,
            TokenType::EOF => TokenType::EOF,
            TokenType::Text(s) => TokenType::Text(s.clone()),
        }
    }
}

impl PartialEq for TokenType {
    fn eq(&self, other: &TokenType) -> (b: bool) {
        match (self, other) {
            (TokenType::Text(a), TokenType::Text(b)) => *a == *b,
            (TokenType::EOF, TokenType::EOF) => true,
            (TokenType::Text(_), _) => false,
            (_, TokenType::Text(_)) => false,
            (TokenType::EOF, _) => false,
            (_, TokenType::EOF) => false,
            _ => self.delimiter() == other.delimiter(),
        }
    }
}

impl vstd::std_specs::cmp::PartialEqSpecImpl for TokenType {
    open spec fn obeys_eq_spec() -> bool {
        true
    }

    open spec fn eq_spec(&self, other: &TokenType) -> bool {
        self@ == other@
    }
}

/// A token and the range of the script that it was read from.
#[derive(Debug)]
pub struct Token {
    pub token_type: TokenType,
    pub range: Range,
}

/// The mathematical value of a [`Token`].
pub struct TokenModel {
    pub kind: TokenKind,
    pub range: Range,
}

impl TokenModel {
    /// The token as it is shown in a message: its kind and its range.
    pub open spec fn shown(self) -> Seq<char> {
        "Token "@ + self.kind.shown() + " at "@ + self.range.spec_shown()
    }
}

impl View for Token {
    type V = TokenModel;

    open spec fn view(&self) -> TokenModel {
        TokenModel { kind: self.token_type@, range: self.range }
    }
}

impl Clone for Token {
    fn clone(&self) -> (t: Token)
        ensures
            t@ == self@,
    {
        Token { token_type: self.token_type.clone(), range: self.range }
    }
}

impl Token {
    /// The token as it is shown in a message.
    pub fn debug_text(&self) -> (s: String)
        ensures
            s@ == self@.shown(),
    {
        let mut s = String::from_str("Token ");
        s.append(self.token_type.debug_text().as_str());
        s.append(" at ");
        s.append(self.range.to_text().as_str());
        s
    }

    /// The token as it is written in a script.
    pub fn to_text(&self) -> (s: String)
        ensures
            s@ == self@.kind.text(),
    {
        self.token_type.to_text()
    }

    /// True when the token is of the kind `other`.
    pub fn is(&self, other: &TokenType) -> (b: bool)
        ensures
            b == (self@.kind == other@),
    {
        self.token_type == *other
    }

    /// True when the token is the text run `other`.
    pub fn is_text(&self, other: &str) -> (b: bool)
        ensures
            b == (self@.kind == TokenKind::Text(other@)),
    {
        self.token_type.is_text(other)
    }
}

} // verus!

use crate::shared::range::Range;
use crate::shared::token::{Token, TokenKind, TokenModel, TokenType};
use vstd::prelude::*;
use vstd::string::StringExecFns;

verus! {

/// What can go wrong when a script is read or run.
#[derive(Debug)]
pub enum Error {
    /// Set aside for instructions that the machine does not run yet.
    Placeholder,
    /// A token stands where none of its kind can.
    UnexpectedToken { token: Box<Token>, range: Box<Range> },
    /// One of the kinds `wanted` had to follow, and `got` came.
    Expected { wanted: Vec<TokenType>, got: Box<Token>, range: Box<Range> },
    /// A text run had to follow, and `got` came.
    ExpectedText { got: Box<Token>, range: Box<Range> },
    /// A value that is no function was called; `func` is the value as text.
    CannotCall { func: String },
}

/// The mathematical value of an [`Error`].
pub enum ErrorModel {
    Placeholder,
    UnexpectedToken { token: TokenModel, range: Range },
    Expected { wanted: Seq<TokenKind>, got: TokenModel, range: Range },
    ExpectedText { got: TokenModel, range: Range },
    CannotCall { func: Seq<char> },
}

/// The models of a sequence of token kinds.
pub open spec fn kind_models(kinds: Seq<TokenType>) -> Seq<TokenKind> {
    Seq::new(kinds.len(), |i: int| kinds[i]@)
}

impl View for Error {
    type V = ErrorModel;

    open spec fn view(&self) -> ErrorModel {
        match self {
            Error::Placeholder => ErrorModel::Placeholder,
            Error::UnexpectedToken { token, range } => ErrorModel::UnexpectedToken {
                token: token@,
                range: **range,
            },
            Error::Expected { wanted, got, range } => ErrorModel::Expected {
                wanted: kind_models(wanted@),
                got: got@,
                range: **range,
            },
            Error::ExpectedText { got, range } => ErrorModel::ExpectedText {
                got: got@,
                range: **range,
            },
            Error::CannotCall { func } => ErrorModel::CannotCall { func: func@ },
        }
    }
}

/// The kinds `wanted`, each as its text in single quotes, with ` or `
/// between each two.
pub open spec fn spec_wanted_list(wanted: Seq<TokenKind>) -> Seq<char>
    decreases wanted.len(),
{
    if wanted.len() == 0 {
        Seq::empty()
    } else if wanted.len() == 1 {
        "'"@ + wanted[0].text() + "'"@
    } else {
        spec_wanted_list(wanted.drop_last()) + " or "@ + "'"@ + wanted.last().text() + "'"@
    }
}

impl ErrorModel {
    /// The message of the error.
    pub open spec fn message(self) -> Seq<char> {
        match self {
            ErrorModel::Placeholder => "placeholder err :P"@,
            ErrorModel::UnexpectedToken { token, .. } => "unexpected token '"@ + token.shown()
                + "'"@,
            ErrorModel::Expected { wanted, got, range } => "expected "@ + spec_wanted_list(wanted)
                + ", got '"@ + got.kind.text() + "' at "@ + range.spec_shown(),
            ErrorModel::ExpectedText { got, .. } => "expected text, got "@ + got.kind.text(),
            ErrorModel::CannotCall { func } => "cannot call '"@ + func + "' as func"@,
        }
    }
}

/// The kinds `wanted` as a message names them.
pub fn wanted_list(wanted: &Vec<TokenType>) -> (s: String)
    ensures
        s@ == spec_wanted_list(kind_models(wanted@)),
{
    let ghost kinds = kind_models(wanted@);
    let mut s = String::new();
    let mut i: usize = 0;
    assert(kinds.take(0) =~= Seq::<TokenKind>::empty());
    while i < wanted.len()
        invariant
            0 <= i <= wanted@.len(),
            kinds == kind_models(wanted@),
            s@ == spec_wanted_list(kinds.take(i as int)),
        decreases wanted@.len() - i,
    {
        let ghost before = s@;
        proof {
            assert(kinds.take(i + 1).drop_last() =~= kinds.take(i as int));
            assert(kinds.take(i + 1).last() == wanted@[i as int]@);
        }
        if i > 0 {
            s.append(" or ");
        }
        s.append("'");
        s.append(wanted[i].to_text().as_str());
        s.append("'");
        proof {
            let text = wanted@[i as int]@.text();
            if i == 0 {
                assert(before =~= Seq::<char>::empty());
                assert(s@ =~= "'"@ + text + "'"@);
                assert(kinds.take(1)[0] == wanted@[0]@);
            } else {
                assert(s@ =~= before + " or "@ + "'"@ + text + "'"@);
            }
        }
        i += 1;
    }
    assert(kinds.take(kinds.len() as int) =~= kinds);
    s
}

impl Error {
    /// The message of the error, for the log of the embedder.
    pub fn message(&self) -> (s: String)
        ensures
            s@ == self@.message(),
    {
        match self {
            Error::Placeholder => String::from_str("placeholder err :P"),
            Error::UnexpectedToken { token, .. } => {
                let mut s = String::from_str("unexpected token '");
                s.append(token.debug_text().as_str());
                s.append("'");
                s
            },
            Error::Expected { wanted, got, range } => {
                let mut s = String::from_str("expected ");
                s.append(wanted_list(wanted).as_str());
                s.append(", got '");
                s.append(got.to_text().as_str());
                s.append("' at ");
                s.append(range.to_text().as_str());
                s
            },
            Error::ExpectedText { got, .. } => {
                let mut s = String::from_str("expected text, got ");
                s.append(got.to_text().as_str());
                s
            },
            Error::CannotCall { func } => {
                let mut s = String::from_str("cannot call '");
                s.append(func.as_str());
                s.append("' as func");
                s
            },
        }
    }
}

} // verus!

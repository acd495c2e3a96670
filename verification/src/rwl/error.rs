use crate::rtr::error::{kind_models, spec_wanted_list};
use crate::shared::range::Range;
use crate::shared::token::{Token, TokenKind, TokenModel, TokenType};
use vstd::prelude::*;
use vstd::string::StringExecFns;

verus! {

/// The place of an error of the layout. It is not tracked yet.
#[derive(Clone, Copy, Debug, PartialEq, Eq, Structural)]
pub struct ErrPosition;

/// What can go wrong when a document is read or laid out.
#[derive(Debug)]
pub enum Error {
    Placeholder,
    UnexpectedToken { token: Token, range: Range },
    Expected { wanted: Vec<TokenType>, got: Token, range: Range },
    ExpectedText { got: Token, range: Range },
    CouldntParseNum,
    InvalidAttributeKey,
    InvalidHexLength,
    UnknownPropertySource { source: String },
    UnknownProperty { source: String, property: String },
    ValueTypeMismatch(ErrPosition, String, String),
    InvalidAnchor(ErrPosition, String),
    InvalidAlignment(ErrPosition, String),
    InvalidElemType(ErrPosition, String),
}

/// The mathematical value of an [`Error`].
pub enum ErrorModel {
    Placeholder,
    UnexpectedToken { token: TokenModel, range: Range },
    Expected { wanted: Seq<TokenKind>, got: TokenModel, range: Range },
    ExpectedText { got: TokenModel, range: Range },
    CouldntParseNum,
    InvalidAttributeKey,
    InvalidHexLength,
    UnknownPropertySource { source: Seq<char> },
    UnknownProperty { source: Seq<char>, property: Seq<char> },
    ValueTypeMismatch(Seq<char>, Seq<char>),
    InvalidAnchor(Seq<char>),
    InvalidAlignment(Seq<char>),
    InvalidElemType(Seq<char>),
}

impl View for Error {
    type V = ErrorModel;

    open spec fn view(&self) -> ErrorModel {
        match self {
            Error::Placeholder => ErrorModel::Placeholder,
            Error::UnexpectedToken { token, range } => ErrorModel::UnexpectedToken {
                token: token@,
                range: *range,
            },
            Error::Expected { wanted, got, range } => ErrorModel::Expected {
                wanted: kind_models(wanted@),
                got: got@,
                range: *range,
            },
            Error::ExpectedText { got, range } => ErrorModel::ExpectedText {
                got: got@,
                range: *range,
            },
            Error::CouldntParseNum => ErrorModel::CouldntParseNum,
            Error::InvalidAttributeKey => ErrorModel::InvalidAttributeKey,
            Error::InvalidHexLength => ErrorModel::InvalidHexLength,
            Error::UnknownPropertySource { source } => ErrorModel::UnknownPropertySource {
                source: source@,
            },
            Error::UnknownProperty { source, property } => ErrorModel::UnknownProperty {
                source: source@,
                property: property@,
            },
            Error::ValueTypeMismatch(_, wanted, got) => ErrorModel::ValueTypeMismatch(
                wanted@,
                got@,
            ),
            Error::InvalidAnchor(_, got) => ErrorModel::InvalidAnchor(got@),
            Error::InvalidAlignment(_, got) => ErrorModel::InvalidAlignment(got@),
            Error::InvalidElemType(_, name) => ErrorModel::InvalidElemType(name@),
        }
    }
}

/// The error of the script reader as an error of the document reader. The
/// three errors about tokens stay what they are; the others have no
/// counterpart.
pub open spec fn lift(e: crate::rtr::error::ErrorModel) -> ErrorModel {
    match e {
        crate::rtr::error::ErrorModel::UnexpectedToken { token, range } => ErrorModel::UnexpectedToken {
            token,
            range,
        },
        crate::rtr::error::ErrorModel::Expected { wanted, got, range } => ErrorModel::Expected {
            wanted,
            got,
            range,
        },
        crate::rtr::error::ErrorModel::ExpectedText { got, range } => ErrorModel::ExpectedText {
            got,
            range,
        },
        _ => ErrorModel::Placeholder,
    }
}

impl ErrorModel {
    /// The message of the error.
    pub open spec fn message(self) -> Seq<char> {
        match self {
            ErrorModel::Placeholder => "placeholder err :P"@,
            ErrorModel::UnexpectedToken { token, .. } => "unexpected token '"@ + token.kind.text()
                + "'"@,
            ErrorModel::Expected { wanted, got, .. } => "expected "@ + spec_wanted_list(wanted)
                + ", got '"@ + got.kind.text() + "'"@,
            ErrorModel::ExpectedText { got, .. } => "expected text, got "@ + got.kind.text(),
            ErrorModel::CouldntParseNum => "couldnt parse num"@,
            ErrorModel::InvalidAttributeKey => "attribute key must consist of letters or _"@,
            ErrorModel::InvalidHexLength => "hex values can only be 3 or 6 characters long"@,
            ErrorModel::UnknownPropertySource { source } => "unknown property source '"@ + source
                + "'"@,
            ErrorModel::UnknownProperty { source, property } => "unknown property '"@ + property
                + "' on "@ + source,
            ErrorModel::ValueTypeMismatch(wanted, got) => "expected "@ + wanted + ", got "@ + got,
            ErrorModel::InvalidAnchor(got) => "invalid anchor '"@ + got + "'"@,
            ErrorModel::InvalidAlignment(got) => "invalid alignment '"@ + got + "'"@,
            ErrorModel::InvalidElemType(name) => "cannot have "@ + name + " as element"@,
        }
    }
}

fn quoted(before: &str, inner: &str, after: &str) -> (s: String)
    ensures
        s@ == before@ + inner@ + after@,
{
    let mut s = String::from_str(before);
    s.append(inner);
    s.append(after);
    s
}

impl Error {
    /// The error of the script reader as an error of the document reader.
    pub fn from_cursor(e: crate::rtr::error::Error) -> (out: Error)
        ensures
            out@ == lift(e@),
    {
        match e {
            crate::rtr::error::Error::UnexpectedToken { token, range } => Error::UnexpectedToken {
                token: *token,
                range: *range,
            },
            crate::rtr::error::Error::Expected { wanted, got, range } => Error::Expected {
                wanted,
                got: *got,
                range: *range,
            },
            crate::rtr::error::Error::ExpectedText { got, range } => Error::ExpectedText {
                got: *got,
                range: *range,
            },
            _ => Error::Placeholder,
        }
    }

    /// The message of the error, for the log of the embedder.
    pub fn message(&self) -> (s: String)
        ensures
            s@ == self@.message(),
    {
        match self {
            Error::Placeholder => String::from_str("placeholder err :P"),
            Error::UnexpectedToken { token, .. } => quoted(
                "unexpected token '",
                token.to_text().as_str(),
                "'",
            ),
            Error::Expected { wanted, got, .. } => {
                let mut s = String::from_str("expected ");
                s.append(crate::rtr::error::wanted_list(wanted).as_str());
                s.append(", got '");
                s.append(got.to_text().as_str());
                s.append("'");
                s
            },
            Error::ExpectedText { got, .. } => {
                let mut s = String::from_str("expected text, got ");
                s.append(got.to_text().as_str());
                s
            },
            Error::CouldntParseNum => String::from_str("couldnt parse num"),
            Error::InvalidAttributeKey => String::from_str(
                "attribute key must consist of letters or _",
            ),
            Error::InvalidHexLength => String::from_str(
                "hex values can only be 3 or 6 characters long",
            ),
            Error::UnknownPropertySource { source } => quoted(
                "unknown property source '",
                source.as_str(),
                "'",
            ),
            Error::UnknownProperty { source, property } => {
                let mut s = quoted("unknown property '", property.as_str(), "' on ");
                s.append(source.as_str());
                s
            },
            Error::ValueTypeMismatch(_, wanted, got) => {
                let mut s = quoted("expected ", wanted.as_str(), ", got ");
                s.append(got.as_str());
                s
            },
            Error::InvalidAnchor(_, got) => quoted("invalid anchor '", got.as_str(), "'"),
            Error::InvalidAlignment(_, got) => quoted("invalid alignment '", got.as_str(), "'"),
            Error::InvalidElemType(_, name) => quoted("cannot have ", name.as_str(), " as element"),
        }
    }
}

} // verus!

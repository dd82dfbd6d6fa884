//! The error type shared by every parse, build and validation routine.

use vstd::prelude::*;
use vstd::string::*;

verus! {

/// The shape of an [`Error`], with the attribute or tag name it carries but
/// without the human-readable prose of a [`Error::Custom`] message.
///
/// Contracts speak of error kinds: which variant a routine returns, and for
/// the attribute errors on which name, is specified exactly, while the prose
/// of a `Custom` message is presentation only.
pub enum ErrorKind {
    /// Structurally malformed text: bad quoting, a missing `=`, a tag in a
    /// disallowed context, a dangling segment, an illegal first line.
    InvalidInput,
    /// A required attribute of a tag's own grammar is absent.
    MissingAttribute(Seq<char>),
    /// An attribute is present that the tag's own grammar forbids.
    UnexpectedAttribute(Seq<char>),
    /// A tag that is valid in isolation but illegal in this document kind,
    /// named by the directive name it was written under.
    UnexpectedTag(Seq<char>),
    /// A cross-record invariant violation, explained in a message.
    Custom,
}

/// The error returned by every fallible routine of this crate.
#[derive(Debug, Clone)]
pub enum Error {
    /// Structurally malformed text: bad quoting, a missing `=`, a tag in a
    /// disallowed context, a dangling segment, an illegal first line.
    InvalidInput,
    /// A required attribute of a tag's own grammar is absent; carries the
    /// attribute's name.
    MissingAttribute(String),
    /// An attribute is present that the tag's own grammar forbids; carries
    /// the attribute's name.
    UnexpectedAttribute(String),
    /// A tag that is valid in isolation but illegal in this document kind;
    /// carries the directive name.
    UnexpectedTag(String),
    /// A cross-record invariant violation, with a human-readable explanation.
    Custom(String),
}

impl View for Error {
    type V = ErrorKind;

    open spec fn view(&self) -> ErrorKind {
        match self {
            Error::InvalidInput => ErrorKind::InvalidInput,
            Error::MissingAttribute(name) => ErrorKind::MissingAttribute(name@),
            Error::UnexpectedAttribute(name) => ErrorKind::UnexpectedAttribute(name@),
            Error::UnexpectedTag(name) => ErrorKind::UnexpectedTag(name@),
            Error::Custom(_) => ErrorKind::Custom,
        }
    }
}

impl Error {
    /// A short description of the error, suitable for diagnostics.
    pub fn message(&self) -> String {
        match self {
            Error::InvalidInput => String::from_str("invalid input"),
            Error::MissingAttribute(name) => {
                let mut s = String::from_str("missing attribute: ");
                s.append(name.as_str());
                s
            }
            Error::UnexpectedAttribute(name) => {
                let mut s = String::from_str("unexpected attribute: ");
                s.append(name.as_str());
                s
            }
            Error::UnexpectedTag(name) => {
                let mut s = String::from_str("unexpected tag: ");
                s.append(name.as_str());
                s
            }
            Error::Custom(msg) => {
                let mut s = String::from_str("invalid playlist: ");
                s.append(msg.as_str());
                s
            }
        }
    }
}

} // verus!

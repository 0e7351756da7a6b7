//! The one error type of the crate.

use vstd::prelude::*;

verus! {

/// Why a call to the service gave no result.
#[derive(Debug, Clone, PartialEq, Eq)]
pub enum Error {
    /// The transport could not complete the request; the text is what the
    /// transport reported.
    Http(String),
    /// The service answered and refused the request; the text is the
    /// service's message, or its status where it sent no message.
    Api(String),
    /// The reply is no envelope: no JSON document, no object, or an object
    /// without a textual `status`.
    MalformedResponse,
    /// The envelope reports success and its payload lacks the named field,
    /// or holds a value of another type there.
    Deserialize(String),
}

/// An `Error` with its texts as character sequences.
pub enum ErrorView {
    Http(Seq<char>),
    Api(Seq<char>),
    MalformedResponse,
    Deserialize(Seq<char>),
}

impl View for Error {
    type V = ErrorView;

    open spec fn view(&self) -> ErrorView {
        match self {
            Error::Http(text) => ErrorView::Http(text@),
            Error::Api(text) => ErrorView::Api(text@),
            Error::MalformedResponse => ErrorView::MalformedResponse,
            Error::Deserialize(field) => ErrorView::Deserialize(field@),
        }
    }
}

} // verus!

//! Errors of the readers that sit on top of the archive.

use vstd::prelude::*;

verus! {

/// What an error is about.
#[derive(Debug, Clone, PartialEq, Eq)]
pub enum ErrorValue {
    /// A version of the game.
    Version(String),
    /// Something that has no kind of its own; the text names it.
    Other(String),
}

/// An error of a reader.
#[derive(Debug, Clone, PartialEq, Eq)]
pub enum Error {
    /// The value could not be found.
    NotFound(ErrorValue),
    /// The value is not usable; the text says why.
    Invalid(ErrorValue, String),
    /// A file is not what its reader expects; the text says why.
    InvalidResource(String),
}

/// An `ErrorValue` as contracts see it.
pub enum ErrorValueView {
    Version(Seq<char>),
    Other(Seq<char>),
}

/// An `Error` as contracts see it.
pub enum Failure {
    NotFound(ErrorValueView),
    Invalid(ErrorValueView, Seq<char>),
    InvalidResource(Seq<char>),
}

impl View for ErrorValue {
    type V = ErrorValueView;

    open spec fn view(&self) -> ErrorValueView {
        match *self {
            ErrorValue::Version(version) => ErrorValueView::Version(version@),
            ErrorValue::Other(name) => ErrorValueView::Other(name@),
        }
    }
}

impl View for Error {
    type V = Failure;

    open spec fn view(&self) -> Failure {
        match *self {
            Error::NotFound(value) => Failure::NotFound(value@),
            Error::Invalid(value, message) => Failure::Invalid(value@, message@),
            Error::InvalidResource(message) => Failure::InvalidResource(message@),
        }
    }
}

} // verus!

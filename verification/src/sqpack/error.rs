//! What can go wrong between a virtual path and the bytes of a file.

use crate::text::{decimal, push_decimal};
use vstd::prelude::*;
use vstd::string::StringExecFns;

verus! {

/// An error of the archive. None of them is retried: the archive does not
/// change, so a failure is either the caller's or the data's.
#[derive(Debug, Clone, PartialEq, Eq)]
pub enum SqPackError {
    /// The path has no category and repository in front of it.
    InvalidPath(String),
    /// No root directory is known for the repository of the path.
    UnknownRepository { path: String, repository: String },
    /// No identifier is known for the category of the path.
    UnknownCategory { path: String, category: String },
    /// No index file of the category lies under the repository's root.
    IndexNotFound { pattern: String },
    /// More than one index file of the category lies under the repository's root.
    AmbiguousIndex { pattern: String },
    /// The index holds no entry for the path.
    NotFoundInIndex { path: String },
    /// A seek would end before the start of the file or beyond what a signed
    /// 64-bit offset can hold.
    InvalidSeek,
    /// The position of the stream lies in none of the file's blocks.
    OutOfRange { position: u64 },
    /// A decoded block does not have the size that the block table gives it.
    UnexpectedBlockSize { expected: usize, got: usize },
    /// Reading from the archive failed, or it ended too early.
    IoFailure(String),
}

/// An error as contracts see it: its texts are sequences of characters.
pub enum ErrorView {
    InvalidPath(Seq<char>),
    UnknownRepository { path: Seq<char>, repository: Seq<char> },
    UnknownCategory { path: Seq<char>, category: Seq<char> },
    IndexNotFound { pattern: Seq<char> },
    AmbiguousIndex { pattern: Seq<char> },
    NotFoundInIndex { path: Seq<char> },
    InvalidSeek,
    OutOfRange { position: u64 },
    UnexpectedBlockSize { expected: usize, got: usize },
    IoFailure(Seq<char>),
}

impl View for SqPackError {
    type V = ErrorView;

    open spec fn view(&self) -> ErrorView {
        match *self {
            SqPackError::InvalidPath(path) => ErrorView::InvalidPath(path@),
            SqPackError::UnknownRepository { path, repository } => ErrorView::UnknownRepository {
                path: path@,
                repository: repository@,
            },
            SqPackError::UnknownCategory { path, category } => ErrorView::UnknownCategory {
                path: path@,
                category: category@,
            },
            SqPackError::IndexNotFound { pattern } => ErrorView::IndexNotFound { pattern: pattern@ },
            SqPackError::AmbiguousIndex { pattern } => ErrorView::AmbiguousIndex {
                pattern: pattern@,
            },
            SqPackError::NotFoundInIndex { path } => ErrorView::NotFoundInIndex { path: path@ },
            SqPackError::InvalidSeek => ErrorView::InvalidSeek,
            SqPackError::OutOfRange { position } => ErrorView::OutOfRange { position },
            SqPackError::UnexpectedBlockSize { expected, got } => ErrorView::UnexpectedBlockSize {
                expected,
                got,
            },
            SqPackError::IoFailure(message) => ErrorView::IoFailure(message@),
        }
    }
}

/// The text that says what an error is, for a reader.
pub open spec fn message_of(error: ErrorView) -> Seq<char> {
    match error {
        ErrorView::InvalidPath(path) => "invalid sqpack path \""@ + path + "\""@,
        ErrorView::UnknownRepository { path, repository } => "unknown repository \""@ + repository
            + "\" in sqpack path \""@ + path + "\""@,
        ErrorView::UnknownCategory { path, category } => "unknown category \""@ + category
            + "\" in sqpack path \""@ + path + "\""@,
        ErrorView::IndexNotFound { pattern } => "no index file matches \""@ + pattern + "\""@,
        ErrorView::AmbiguousIndex { pattern } => "more than one index file matches \""@ + pattern
            + "\""@,
        ErrorView::NotFoundInIndex { path } => "sqpack path \""@ + path
            + "\" not found in index"@,
        ErrorView::InvalidSeek => "invalid seek to a negative or overflowing position"@,
        ErrorView::OutOfRange { position } => "reader position "@ + decimal(position as nat)
            + " outside known range"@,
        ErrorView::UnexpectedBlockSize { expected, got } => "failed to read block: expected "@
            + decimal(expected as nat) + " bytes, got "@ + decimal(got as nat),
        ErrorView::IoFailure(message) => message,
    }
}

impl SqPackError {
    /// Says what the error is, for a reader.
    pub fn message(&self) -> (message: String)
        ensures
            message@ == message_of(self@),
    {
        match self {
            SqPackError::InvalidPath(path) => {
                let mut message = String::from_str("invalid sqpack path \"");
                message.append(path.as_str());
                message.append("\"");
                message
            },
            SqPackError::UnknownRepository { path, repository } => {
                let mut message = String::from_str("unknown repository \"");
                message.append(repository.as_str());
                message.append("\" in sqpack path \"");
                message.append(path.as_str());
                message.append("\"");
                message
            },
            SqPackError::UnknownCategory { path, category } => {
                let mut message = String::from_str("unknown category \"");
                message.append(category.as_str());
                message.append("\" in sqpack path \"");
                message.append(path.as_str());
                message.append("\"");
                message
            },
            SqPackError::IndexNotFound { pattern } => {
                let mut message = String::from_str("no index file matches \"");
                message.append(pattern.as_str());
                message.append("\"");
                message
            },
            SqPackError::AmbiguousIndex { pattern } => {
                let mut message = String::from_str("more than one index file matches \"");
                message.append(pattern.as_str());
                message.append("\"");
                message
            },
            SqPackError::NotFoundInIndex { path } => {
                let mut message = String::from_str("sqpack path \"");
                message.append(path.as_str());
                message.append("\" not found in index");
                message
            },
            SqPackError::InvalidSeek => String::from_str(
                "invalid seek to a negative or overflowing position",
            ),
            SqPackError::OutOfRange { position } => {
                let mut message = String::from_str("reader position ");
                push_decimal(&mut message, *position);
                message.append(" outside known range");
                message
            },
            SqPackError::UnexpectedBlockSize { expected, got } => {
                let mut message = String::from_str("failed to read block: expected ");
                push_decimal(&mut message, *expected as u64);
                message.append(" bytes, got ");
                push_decimal(&mut message, *got as u64);
                message
            },
            SqPackError::IoFailure(message) => message.clone(),
        }
    }
}

} // verus!

//! Texts and their segments.

use super::context::Context;
use super::expression::Expression;
use super::model::{
    lemma_failure_stays, lemma_pieces_index, piece_of, piece_text, pieces_text, text_of,
};
use super::payload::{kind_name, Kind};
use super::value::gives_text;
use crate::error::{Error, Failure};
use vstd::prelude::*;
use vstd::string::StringExecFns;

verus! {

/// A piece of a text: plain text, or a payload with its arguments.
#[derive(Debug, PartialEq, Eq)]
pub enum Segment {
    Text(String),
    Payload { kind: Kind, arguments: Vec<Expression> },
}

/// Rich text: plain text with payloads in it, which stand for what they
/// resolve to.
#[derive(Debug, PartialEq, Eq)]
pub struct SeString(pub Vec<Segment>);

/// The message of a payload that failed, with the kind of the payload in
/// front.
pub open spec fn payload_failed(kind: Kind, message: Seq<char>) -> Seq<char> {
    "failed to resolve payload "@ + kind_name(kind) + ": "@ + message
}

/// The failure of a segment, given that of its payload: a value that is not
/// usable is reported with the kind of the payload, anything else as it is.
pub open spec fn segment_failure(kind: Kind, failure: Failure) -> Failure {
    match failure {
        Failure::Invalid(value, message) => Failure::Invalid(value, payload_failed(kind, message)),
        other => other,
    }
}

impl Segment {
    /// Resolves the segment.
    pub fn resolve(&self, context: &mut Context) -> (r: Result<String, Error>)
        ensures
            gives_text(r, piece_text(piece_of(*self))),
            *final(context) == *old(context),
        decreases *self, 0nat,
    {
        match self {
            Segment::Text(text) => Ok(text.clone()),
            Segment::Payload { kind, arguments } => {
                match kind.resolve(arguments.as_slice(), context) {
                    Ok(text) => Ok(text),
                    Err(Error::Invalid(value, message)) => {
                        let mut reported = String::from_str("failed to resolve payload ");
                        reported.append(kind.name());
                        reported.append(": ");
                        reported.append(message.as_str());
                        Err(Error::Invalid(value, reported))
                    },
                    Err(other) => Err(other),
                }
            },
        }
    }
}

impl SeString {
    /// Resolves the text: its segments, one behind the other. The first
    /// segment that fails ends it.
    pub fn resolve(&self, context: &mut Context) -> (r: Result<String, Error>)
        ensures
            gives_text(r, text_of(self@)),
            *final(context) == *old(context),
        decreases *self, 1nat,
    {
        let mut resolved = String::new();
        let mut i: usize = 0;
        while i < self.0.len()
            invariant
                i <= self.0.len(),
                pieces_text(self@, i as int) == Ok::<Seq<char>, Failure>(resolved@),
                *context == *old(context),
            decreases self.0.len() - i,
        {
            proof {
                lemma_pieces_index(self.0@, self.0@.len() as int, i as int);
            }
            match self.0[i].resolve(context) {
                Err(error) => {
                    proof {
                        lemma_failure_stays(self@, i as int + 1, self@.len() as int);
                    }
                    return Err(error);
                },
                Ok(text) => {
                    resolved.append(text.as_str());
                },
            }
            i += 1;
        }
        proof {
            lemma_pieces_index(self.0@, self.0@.len() as int, 0);
        }
        Ok(resolved)
    }

    /// Resolves the text in surroundings that hold nothing, which is how a
    /// text is shown where none are given.
    pub fn to_text(&self) -> (r: Result<String, Error>)
        ensures
            gives_text(r, text_of(self@)),
    {
        let mut context = Context::default();
        self.resolve(&mut context)
    }
}

} // verus!

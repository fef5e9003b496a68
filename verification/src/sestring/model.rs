//! Texts as contracts see them.

use super::expression::Expression;
use super::payload::{payload_text, Kind};
use super::sestring::{segment_failure, SeString, Segment};
use super::value::ValueView;
use crate::error::Failure;
use vstd::prelude::*;

verus! {

/// An expression as contracts see it.
pub enum Term {
    U32(u32),
    String(Seq<Piece>),
}

/// A segment as contracts see it.
pub enum Piece {
    Text(Seq<char>),
    Payload { kind: Kind, arguments: Seq<Term> },
}

/// What an expression is in contracts.
pub open spec fn term_of(expression: Expression) -> Term
    decreases expression, 0nat,
{
    match expression {
        Expression::U32(number) => Term::U32(number),
        Expression::String(text) => Term::String(pieces_of(text.0@, text.0@.len() as int)),
    }
}

/// What the first `count` expressions are in contracts.
pub open spec fn terms_of(expressions: Seq<Expression>, count: int) -> Seq<Term>
    decreases expressions, count,
{
    if count <= 0 || count > expressions.len() {
        Seq::empty()
    } else {
        terms_of(expressions, count - 1).push(term_of(expressions[count - 1]))
    }
}

/// What a segment is in contracts.
pub open spec fn piece_of(segment: Segment) -> Piece
    decreases segment, 0nat,
{
    match segment {
        Segment::Text(text) => Piece::Text(text@),
        Segment::Payload { kind, arguments } => Piece::Payload {
            kind,
            arguments: terms_of(arguments@, arguments@.len() as int),
        },
    }
}

/// What the first `count` segments are in contracts.
pub open spec fn pieces_of(segments: Seq<Segment>, count: int) -> Seq<Piece>
    decreases segments, count,
{
    if count <= 0 || count > segments.len() {
        Seq::empty()
    } else {
        pieces_of(segments, count - 1).push(piece_of(segments[count - 1]))
    }
}

impl View for SeString {
    type V = Seq<Piece>;

    open spec fn view(&self) -> Seq<Piece> {
        pieces_of(self.0@, self.0@.len() as int)
    }
}

impl View for Expression {
    type V = Term;

    open spec fn view(&self) -> Term {
        term_of(*self)
    }
}

impl View for Segment {
    type V = Piece;

    open spec fn view(&self) -> Piece {
        piece_of(*self)
    }
}

/// What the expressions are in contracts.
pub open spec fn terms(expressions: Seq<Expression>) -> Seq<Term> {
    terms_of(expressions, expressions.len() as int)
}

/// What the segments are in contracts.
pub open spec fn pieces(segments: Seq<Segment>) -> Seq<Piece> {
    pieces_of(segments, segments.len() as int)
}

/// The first `count` expressions are as many terms, each that of its
/// expression.
pub proof fn lemma_terms_index(expressions: Seq<Expression>, count: int, index: int)
    requires
        0 <= count <= expressions.len(),
    ensures
        terms_of(expressions, count).len() == count,
        0 <= index < count ==> terms_of(expressions, count)[index] == term_of(expressions[index]),
    decreases count,
{
    if count > 0 {
        lemma_terms_index(expressions, count - 1, index);
    }
}

/// The first `count` segments are as many pieces, each that of its segment.
pub proof fn lemma_pieces_index(segments: Seq<Segment>, count: int, index: int)
    requires
        0 <= count <= segments.len(),
    ensures
        pieces_of(segments, count).len() == count,
        0 <= index < count ==> pieces_of(segments, count)[index] == piece_of(segments[index]),
    decreases count,
{
    if count > 0 {
        lemma_pieces_index(segments, count - 1, index);
    }
}

/// The value of an expression: the number it is, or the text it resolves to.
pub open spec fn term_value(term: Term) -> Result<ValueView, Failure>
    decreases term, 0nat,
{
    match term {
        Term::U32(number) => Ok(ValueView::U32(number)),
        Term::String(text) => match pieces_text(text, text.len() as int) {
            Ok(resolved) => Ok(ValueView::String(resolved)),
            Err(failure) => Err(failure),
        },
    }
}

/// What a segment resolves to: its text, or what its payload makes of its
/// arguments.
pub open spec fn piece_text(piece: Piece) -> Result<Seq<char>, Failure>
    decreases piece, 0nat,
{
    match piece {
        Piece::Text(text) => Ok(text),
        Piece::Payload { kind, arguments } => match payload_text(kind, arguments) {
            Ok(text) => Ok(text),
            Err(failure) => Err(segment_failure(kind, failure)),
        },
    }
}

/// What the first `count` segments resolve to, one behind the other; the
/// failure of the first that fails.
pub open spec fn pieces_text(text: Seq<Piece>, count: int) -> Result<Seq<char>, Failure>
    decreases text, count,
{
    if count <= 0 || count > text.len() {
        Ok(Seq::empty())
    } else {
        match pieces_text(text, count - 1) {
            Err(failure) => Err(failure),
            Ok(front) => match piece_text(text[count - 1]) {
                Err(failure) => Err(failure),
                Ok(resolved) => Ok(front + resolved),
            },
        }
    }
}

/// What a text resolves to.
pub open spec fn text_of(text: Seq<Piece>) -> Result<Seq<char>, Failure> {
    pieces_text(text, text.len() as int)
}

/// Once the first segments have failed, more segments fail in the same way.
pub proof fn lemma_failure_stays(text: Seq<Piece>, count: int, more: int)
    requires
        0 <= count <= more <= text.len(),
        pieces_text(text, count) is Err,
    ensures
        pieces_text(text, more) == pieces_text(text, count),
    decreases more - count,
{
    if count < more {
        lemma_failure_stays(text, count, more - 1);
    }
}

} // verus!

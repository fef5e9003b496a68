//! Texts as they are stored.
//!
//! A stored text is UTF-8 with payloads in it. It ends with the bytes, or at a
//! zero byte outside a payload. A payload is
//!
//! | bytes  | field                                   |
//! |--------|-----------------------------------------|
//! | `02`   | start of a payload                      |
//! | 1      | kind: `20` Identity, `22` Thousands, `24` TwoDigit |
//! | 1 to 5 | length of the arguments, an integer     |
//! | length | the arguments, one expression behind the other |
//! | `03`   | end of the payload                      |
//!
//! An integer is one byte from `01` to `CF`, which stands for the number one
//! below it, or a byte from `F0` to `FE` followed by up to four bytes of the
//! number, the highest first: with `k` the first byte, the bits of `k - EF`
//! say which of the four are there, and those that are not are zero.
//!
//! An expression is an integer, or the byte `FF`, an integer for a length, and
//! as many bytes of a text stored in the same way.

use super::expression::Expression;
use super::model::{pieces_of, term_of, terms_of, Piece, Term};
use super::payload::Kind;
use super::sestring::{SeString, Segment};
use crate::error::{Error, Failure};
use crate::text::{utf8_error_of, utf8_text};
use vstd::prelude::*;
use vstd::slice::slice_subrange;
use vstd::string::StringExecFns;

verus! {

pub const PAYLOAD_START: u8 = 0x02;

pub const PAYLOAD_END: u8 = 0x03;

/// What is reported of a payload whose kind byte is none of the known ones,
/// or missing.
pub open spec fn unknown_kind() -> Seq<char> {
    "payload of unknown kind"@
}

/// What is reported of a length that is no integer, or that reaches beyond
/// the bytes.
pub open spec fn invalid_length() -> Seq<char> {
    "invalid length"@
}

/// What is reported of an argument that is no expression.
pub open spec fn invalid_expression() -> Seq<char> {
    "invalid expression"@
}

/// What is reported of a payload that is not followed by the end marker.
pub open spec fn missing_end() -> Seq<char> {
    "payload missing end marker"@
}

/// The kind that a byte stands for.
pub open spec fn kind_of(byte: u8) -> Option<Kind> {
    if byte == 0x20 {
        Some(Kind::Identity)
    } else if byte == 0x22 {
        Some(Kind::Thousands)
    } else if byte == 0x24 {
        Some(Kind::TwoDigit)
    } else {
        None
    }
}

/// The byte at `at` where `present` is 1, and 0 where it is 0.
pub open spec fn part(bytes: Seq<u8>, at: int, present: int) -> int {
    if present == 1 {
        bytes[at] as int
    } else {
        0
    }
}

/// The integer stored at `at`, and the index behind it; `None` where
/// there is no integer at `at` that ends before `end`.
pub open spec fn integer_at(bytes: Seq<u8>, at: int, end: int) -> Option<(u32, int)> {
    if !(0 <= at < end <= bytes.len()) {
        None
    } else if 0x01 <= bytes[at] <= 0xcf {
        Some(((bytes[at] - 1) as u32, at + 1))
    } else if 0xf0 <= bytes[at] <= 0xfe {
        let flags = bytes[at] - 0xef;
        let at3 = at + 1;
        let at2 = at3 + flags / 8 % 2;
        let at1 = at2 + flags / 4 % 2;
        let at0 = at1 + flags / 2 % 2;
        let next = at0 + flags % 2;
        if next > end {
            None
        } else {
            Some(
                (
                    (part(bytes, at3, flags / 8 % 2) * 0x100_0000 + part(bytes, at2, flags / 4 % 2)
                        * 0x1_0000 + part(bytes, at1, flags / 2 % 2) * 0x100 + part(
                        bytes,
                        at0,
                        flags % 2,
                    )) as u32,
                    next,
                ),
            )
        }
    } else {
        None
    }
}

/// Where the bytes of a stored text start, for a text expression at `at`:
/// behind the marker and the length.
pub open spec fn body_at(bytes: Seq<u8>, at: int, end: int) -> int {
    match integer_at(bytes, at + 1, end) {
        Some((_, body)) => body,
        None => at,
    }
}

/// The index behind the expression at `at`; `None` where there is no
/// expression at `at` that ends before `end`.
pub open spec fn expression_end(bytes: Seq<u8>, at: int, end: int) -> Option<int> {
    if !(0 <= at < end <= bytes.len()) {
        None
    } else if bytes[at] == 0xff {
        match integer_at(bytes, at + 1, end) {
            Some((length, body)) => if body + length <= end {
                Some(body + length)
            } else {
                None
            },
            None => None,
        }
    } else {
        match integer_at(bytes, at, end) {
            Some((_, next)) => Some(next),
            None => None,
        }
    }
}

/// The expression stored from `at` up to `end`.
pub open spec fn term_in(bytes: Seq<u8>, at: int, end: int) -> Result<Term, Seq<char>>
    decreases end - at, 0nat,
{
    if !(0 <= at < end <= bytes.len()) {
        Err(invalid_expression())
    } else if bytes[at] == 0xff {
        if integer_at(bytes, at + 1, end) is Some && at < body_at(bytes, at, end) <= end {
            match pieces_in(bytes, body_at(bytes, at, end), end) {
                Ok(pieces) => Ok(Term::String(pieces)),
                Err(message) => Err(message),
            }
        } else {
            Err(invalid_expression())
        }
    } else {
        match integer_at(bytes, at, end) {
            Some((number, _)) => Ok(Term::U32(number)),
            None => Err(invalid_expression()),
        }
    }
}

/// The expressions stored from `at` up to `end`, which they fill.
pub open spec fn terms_in(bytes: Seq<u8>, at: int, end: int) -> Result<Seq<Term>, Seq<char>>
    decreases end - at, 1nat,
{
    if !(0 <= at < end <= bytes.len()) {
        Ok(Seq::empty())
    } else {
        match expression_end(bytes, at, end) {
            None => Err(invalid_expression()),
            Some(next) => if at < next <= end {
                match term_in(bytes, at, next) {
                    Err(message) => Err(message),
                    Ok(term) => match terms_in(bytes, next, end) {
                        Err(message) => Err(message),
                        Ok(terms) => Ok(seq![term] + terms),
                    },
                }
            } else {
                Err(invalid_expression())
            },
        }
    }
}

/// The index of the first byte from `at` on that ends a run of text: a zero
/// byte or the start of a payload; `end` where there is none before it.
pub open spec fn run_end(bytes: Seq<u8>, at: int, end: int) -> int
    decreases end - at,
{
    if !(0 <= at < end <= bytes.len()) {
        end
    } else if bytes[at] == 0 || bytes[at] == 0x02 {
        at
    } else {
        run_end(bytes, at + 1, end)
    }
}

/// The segments stored from `at` up to `end`.
///
/// A run of text must be UTF-8 and makes one segment; where it is not, what
/// the standard library says of its bytes is reported. A zero byte ends the
/// text, whatever follows it. A payload must have a known kind, a length that
/// does not reach beyond `end`, expressions that fill that length, and the
/// end marker behind them.
pub open spec fn pieces_in(bytes: Seq<u8>, at: int, end: int) -> Result<Seq<Piece>, Seq<char>>
    decreases end - at, 2nat,
{
    if !(0 <= at < end <= bytes.len()) {
        Ok(Seq::empty())
    } else if bytes[at] == 0 {
        Ok(Seq::empty())
    } else if bytes[at] != 0x02 {
        let stop = run_end(bytes, at + 1, end);
        if !vstd::utf8::valid_utf8(bytes.subrange(at, stop)) {
            Err(utf8_error_of(bytes.subrange(at, stop)))
        } else if at < stop <= end {
            match pieces_in(bytes, stop, end) {
                Err(message) => Err(message),
                Ok(pieces) => Ok(
                    seq![Piece::Text(vstd::utf8::decode_utf8(bytes.subrange(at, stop)))] + pieces,
                ),
            }
        } else {
            Err(utf8_error_of(bytes.subrange(at, stop)))
        }
    } else if at + 1 >= end || kind_of(bytes[at + 1]) is None {
        Err(unknown_kind())
    } else {
        match integer_at(bytes, at + 2, end) {
            None => Err(invalid_length()),
            Some((length, body)) => if !(at < body && body + length < end) {
                Err(invalid_length())
            } else {
                match terms_in(bytes, body, body + length) {
                    Err(message) => Err(message),
                    Ok(arguments) => if bytes[body + length] != 0x03 {
                        Err(missing_end())
                    } else {
                        match pieces_in(bytes, body + length + 1, end) {
                            Err(message) => Err(message),
                            Ok(pieces) => Ok(
                                seq![
                                    Piece::Payload { kind: kind_of(bytes[at + 1])->0, arguments },
                                ] + pieces,
                            ),
                        }
                    },
                }
            },
        }
    }
}

/// The text that bytes store.
pub open spec fn stored_text(bytes: Seq<u8>) -> Result<Seq<Piece>, Seq<char>> {
    pieces_in(bytes, 0, bytes.len() as int)
}

/// Whether a result is the given segments, or an `InvalidResource` with the
/// given message.
pub open spec fn gives_pieces(r: Result<Vec<Segment>, Error>, expected: Result<
    Seq<Piece>,
    Seq<char>,
>) -> bool {
    match expected {
        Ok(pieces) => r is Ok && pieces_of(r->Ok_0@, r->Ok_0@.len() as int) == pieces,
        Err(message) => r is Err && r->Err_0@ == Failure::InvalidResource(message),
    }
}

/// Makes the error of a stored text that cannot be read.
fn unreadable(message: &str) -> (error: Error)
    ensures
        error@ == Failure::InvalidResource(message@),
{
    Error::InvalidResource(String::from_str(message))
}

/// Reads the kind of a payload.
pub fn read_kind(byte: u8) -> (kind: Option<Kind>)
    ensures
        kind == kind_of(byte),
{
    if byte == 0x20 {
        Some(Kind::Identity)
    } else if byte == 0x22 {
        Some(Kind::Thousands)
    } else if byte == 0x24 {
        Some(Kind::TwoDigit)
    } else {
        None
    }
}

/// Reads the integer stored at `at`.
pub fn read_integer(bytes: &[u8], at: usize, end: usize) -> (r: Option<(u32, usize)>)
    requires
        at <= end <= bytes.len(),
    ensures
        match integer_at(bytes@, at as int, end as int) {
            Some((number, next)) => r == Some((number, next as usize)) && at < next <= end,
            None => r is None,
        },
{
    if at >= end {
        return None;
    }
    let first = bytes[at];
    if 0x01 <= first && first <= 0xcf {
        return Some(((first - 1) as u32, at + 1));
    }
    if !(0xf0 <= first && first <= 0xfe) {
        return None;
    }
    let flags: u8 = first - 0xef;
    let need: usize = (flags / 8 % 2 + flags / 4 % 2 + flags / 2 % 2 + flags % 2) as usize;
    if end - at - 1 < need {
        return None;
    }
    let mut next: usize = at + 1;
    let mut number: u32 = 0;
    if flags / 8 % 2 == 1 {
        number = number + bytes[next] as u32 * 0x100_0000;
        next += 1;
    }
    if flags / 4 % 2 == 1 {
        number = number + bytes[next] as u32 * 0x1_0000;
        next += 1;
    }
    if flags / 2 % 2 == 1 {
        number = number + bytes[next] as u32 * 0x100;
        next += 1;
    }
    if flags % 2 == 1 {
        number = number + bytes[next] as u32;
        next += 1;
    }
    Some((number, next))
}

/// Reads the expression stored from `at` up to `end`.
pub fn read_expression(bytes: &[u8], at: usize, end: usize) -> (r: Result<Expression, Error>)
    requires
        at < end <= bytes.len(),
    ensures
        match term_in(bytes@, at as int, end as int) {
            Ok(term) => r is Ok && term_of(r->Ok_0) == term,
            Err(message) => r is Err && r->Err_0@ == Failure::InvalidResource(message),
        },
    decreases end - at, 0nat,
{
    if bytes[at] == 0xff {
        match read_integer(bytes, at + 1, end) {
            None => Err(unreadable("invalid expression")),
            Some((_, body)) => match read_segments(bytes, body, end) {
                Ok(segments) => Ok(Expression::String(SeString(segments))),
                Err(error) => Err(error),
            },
        }
    } else {
        match read_integer(bytes, at, end) {
            Some((number, _)) => Ok(Expression::U32(number)),
            None => Err(unreadable("invalid expression")),
        }
    }
}

/// Finds the index behind the expression at `at`.
pub fn find_expression_end(bytes: &[u8], at: usize, end: usize) -> (r: Option<usize>)
    requires
        at < end <= bytes.len(),
    ensures
        match expression_end(bytes@, at as int, end as int) {
            Some(next) => r == Some(next as usize) && at < next <= end,
            None => r is None,
        },
{
    if bytes[at] == 0xff {
        match read_integer(bytes, at + 1, end) {
            Some((length, body)) => if length as u64 <= (end - body) as u64 {
                Some(body + length as usize)
            } else {
                None
            },
            None => None,
        }
    } else {
        match read_integer(bytes, at, end) {
            Some((_, next)) => Some(next),
            None => None,
        }
    }
}

/// Reads the expressions stored from `at` up to `end`.
pub fn read_arguments(bytes: &[u8], at: usize, end: usize) -> (r: Result<Vec<Expression>, Error>)
    requires
        at <= end <= bytes.len(),
    ensures
        match terms_in(bytes@, at as int, end as int) {
            Ok(terms) => r is Ok && terms_of(r->Ok_0@, r->Ok_0@.len() as int) == terms,
            Err(message) => r is Err && r->Err_0@ == Failure::InvalidResource(message),
        },
    decreases end - at, 1nat,
{
    let mut arguments: Vec<Expression> = Vec::new();
    let mut from: usize = at;
    while from < end
        invariant
            at <= from <= end <= bytes.len(),
            terms_in(bytes@, at as int, end as int) == match terms_in(
                bytes@,
                from as int,
                end as int,
            ) {
                Ok(terms) => Ok::<Seq<Term>, Seq<char>>(
                    terms_of(arguments@, arguments@.len() as int) + terms,
                ),
                Err(message) => Err::<Seq<Term>, Seq<char>>(message),
            },
        decreases end - from,
    {
        let next = match find_expression_end(bytes, from, end) {
            None => {
                return Err(unreadable("invalid expression"));
            },
            Some(next) => next,
        };
        let expression = match read_expression(bytes, from, next) {
            Err(error) => {
                return Err(error);
            },
            Ok(expression) => expression,
        };
        let ghost before = terms_of(arguments@, arguments@.len() as int);
        let ghost held = arguments@;
        arguments.push(expression);
        proof {
            lemma_terms_prefix(arguments@, held, held.len() as int);
            assert(terms_of(arguments@, arguments@.len() as int) == before.push(
                term_of(expression),
            ));
            if terms_in(bytes@, next as int, end as int) is Ok {
                assert(before.push(term_of(expression)) + terms_in(
                    bytes@,
                    next as int,
                    end as int,
                )->Ok_0 =~= before + (seq![term_of(expression)] + terms_in(
                    bytes@,
                    next as int,
                    end as int,
                )->Ok_0));
            }
        }
        from = next;
    }
    proof {
        let held = terms_of(arguments@, arguments@.len() as int);
        assert(held + Seq::<Term>::empty() =~= held);
    }
    Ok(arguments)
}

/// What the first expressions are does not depend on those behind them.
pub proof fn lemma_terms_prefix(longer: Seq<Expression>, shorter: Seq<Expression>, count: int)
    requires
        0 <= count <= shorter.len() <= longer.len(),
        forall|i: int| 0 <= i < shorter.len() ==> longer[i] == shorter[i],
    ensures
        terms_of(longer, count) == terms_of(shorter, count),
    decreases count,
{
    if count > 0 {
        lemma_terms_prefix(longer, shorter, count - 1);
    }
}

/// What the first segments are does not depend on those behind them.
pub proof fn lemma_pieces_prefix(longer: Seq<Segment>, shorter: Seq<Segment>, count: int)
    requires
        0 <= count <= shorter.len() <= longer.len(),
        forall|i: int| 0 <= i < shorter.len() ==> longer[i] == shorter[i],
    ensures
        pieces_of(longer, count) == pieces_of(shorter, count),
    decreases count,
{
    if count > 0 {
        lemma_pieces_prefix(longer, shorter, count - 1);
    }
}

/// Finds the end of the run of text that starts at `at`.
pub fn find_run_end(bytes: &[u8], at: usize, end: usize) -> (stop: usize)
    requires
        at <= end <= bytes.len(),
    ensures
        stop == run_end(bytes@, at as int, end as int),
        at <= stop <= end,
{
    let mut stop: usize = at;
    while stop < end && bytes[stop] != 0 && bytes[stop] != 0x02
        invariant
            at <= stop <= end <= bytes.len(),
            run_end(bytes@, at as int, end as int) == run_end(bytes@, stop as int, end as int),
        decreases end - stop,
    {
        stop += 1;
    }
    stop
}

/// Reads the segments stored from `at` up to `end`.
pub fn read_segments(bytes: &[u8], at: usize, end: usize) -> (r: Result<Vec<Segment>, Error>)
    requires
        at <= end <= bytes.len(),
    ensures
        gives_pieces(r, pieces_in(bytes@, at as int, end as int)),
    decreases end - at, 2nat,
{
    let mut segments: Vec<Segment> = Vec::new();
    let mut from: usize = at;
    while from < end && bytes[from] != 0
        invariant
            at <= from <= end <= bytes.len(),
            pieces_in(bytes@, at as int, end as int) == match pieces_in(
                bytes@,
                from as int,
                end as int,
            ) {
                Ok(pieces) => Ok::<Seq<Piece>, Seq<char>>(
                    pieces_of(segments@, segments@.len() as int) + pieces,
                ),
                Err(message) => Err::<Seq<Piece>, Seq<char>>(message),
            },
        decreases end - from,
    {
        let ghost before = pieces_of(segments@, segments@.len() as int);
        let ghost held = segments@;
        let next: usize;
        if bytes[from] != PAYLOAD_START {
            let stop = find_run_end(bytes, from + 1, end);
            let text = match utf8_text(slice_subrange(bytes, from, stop)) {
                Err(reason) => {
                    return Err(Error::InvalidResource(reason));
                },
                Ok(text) => text,
            };
            segments.push(Segment::Text(String::from_str(text)));
            next = stop;
        } else {
            if end - from < 2 {
                return Err(unreadable("payload of unknown kind"));
            }
            let kind = match read_kind(bytes[from + 1]) {
                None => {
                    return Err(unreadable("payload of unknown kind"));
                },
                Some(kind) => kind,
            };
            let (length, body) = match read_integer(bytes, from + 2, end) {
                None => {
                    return Err(unreadable("invalid length"));
                },
                Some(found) => found,
            };
            if (end - body) as u64 <= length as u64 {
                return Err(unreadable("invalid length"));
            }
            let close: usize = body + length as usize;
            let arguments = match read_arguments(bytes, body, close) {
                Err(error) => {
                    return Err(error);
                },
                Ok(arguments) => arguments,
            };
            if bytes[close] != PAYLOAD_END {
                return Err(unreadable("payload missing end marker"));
            }
            segments.push(Segment::Payload { kind, arguments });
            next = close + 1;
        }
        proof {
            lemma_pieces_prefix(segments@, held, held.len() as int);
            let added = super::model::piece_of(segments@[held.len() as int]);
            assert(pieces_of(segments@, segments@.len() as int) == before.push(added));
            if pieces_in(bytes@, next as int, end as int) is Ok {
                let rest = pieces_in(bytes@, next as int, end as int)->Ok_0;
                assert(before.push(added) + rest =~= before + (seq![added] + rest));
            }
        }
        from = next;
    }
    proof {
        let held = pieces_of(segments@, segments@.len() as int);
        assert(held + Seq::<Piece>::empty() =~= held);
    }
    Ok(segments)
}

impl SeString {
    /// Reads a stored text.
    pub fn from_bytes(bytes: &[u8]) -> (r: Result<SeString, Error>)
        ensures
            match stored_text(bytes@) {
                Ok(pieces) => r is Ok && r->Ok_0@ == pieces,
                Err(message) => r is Err && r->Err_0@ == Failure::InvalidResource(message),
            },
    {
        match read_segments(bytes, 0, bytes.len()) {
            Ok(segments) => Ok(SeString(segments)),
            Err(error) => Err(error),
        }
    }
}

} // verus!

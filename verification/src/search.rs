//! The values of search queries, and the terms they become.
//!
//! A query compares a field of a sheet with a value. The index stores a
//! field as unsigned or as signed 64-bit integers, and a value has to be
//! turned into a term of that kind before it can be looked up.

use vstd::prelude::*;

verus! {

/// A value that a query compares a field with.
#[derive(Debug, Clone, Copy, PartialEq, Eq)]
pub enum Value {
    U64(u64),
}

/// How the index stores a field.
#[derive(Debug, Clone, Copy, PartialEq, Eq)]
pub enum FieldKind {
    U64,
    I64,
}

/// A term of the index: a value in the kind of its field.
#[derive(Debug, Clone, Copy, PartialEq, Eq)]
pub enum TermValue {
    U64(u64),
    I64(i64),
}

/// The term that a value makes for a field of the given kind, if it fits the
/// kind: every value fits an unsigned field, and a signed field takes what is
/// at most `i64::MAX`.
pub open spec fn term_for(kind: FieldKind, value: Value) -> Option<TermValue> {
    match (kind, value) {
        (FieldKind::U64, Value::U64(number)) => Some(TermValue::U64(number)),
        (FieldKind::I64, Value::U64(number)) => if number <= i64::MAX {
            Some(TermValue::I64(number as i64))
        } else {
            None
        },
    }
}

/// The value as an unsigned integer.
pub fn value_to_u64(value: &Value) -> (number: Option<u64>)
    ensures
        number == (match *value {
            Value::U64(inner) => Some(inner),
        }),
{
    match value {
        Value::U64(inner) => Some(*inner),
    }
}

/// The value as a signed integer, if it is small enough for one.
pub fn value_to_i64(value: &Value) -> (number: Option<i64>)
    ensures
        number == (match *value {
            Value::U64(inner) => if inner <= i64::MAX {
                Some(inner as i64)
            } else {
                None
            },
        }),
{
    match value {
        Value::U64(inner) => if *inner <= 0x7fff_ffff_ffff_ffff {
            Some(*inner as i64)
        } else {
            None
        },
    }
}

/// Turns a value into a term for a field of the given kind. `None` says that
/// the value does not fit the field.
pub fn value_to_term(kind: FieldKind, value: &Value) -> (term: Option<TermValue>)
    ensures
        term == term_for(kind, *value),
{
    match kind {
        FieldKind::U64 => match value_to_u64(value) {
            Some(number) => Some(TermValue::U64(number)),
            None => None,
        },
        FieldKind::I64 => match value_to_i64(value) {
            Some(number) => Some(TermValue::I64(number)),
            None => None,
        },
    }
}

} // verus!

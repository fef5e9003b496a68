//! The arguments of payloads.

use super::context::Context;
use super::model::{term_of, term_value};
use super::sestring::SeString;
use super::value::{gives_value, Value};
use crate::error::Error;
use vstd::prelude::*;

verus! {

/// An argument of a payload: a number, or a text with payloads of its own.
#[derive(Debug, PartialEq, Eq)]
pub enum Expression {
    U32(u32),
    String(SeString),
}

impl Expression {
    /// Works out the value of the expression.
    pub fn value(&self, context: &mut Context) -> (r: Result<Value, Error>)
        ensures
            gives_value(r, term_value(term_of(*self))),
            *final(context) == *old(context),
        decreases *self, 0nat,
    {
        match self {
            Expression::U32(number) => Ok(Value::U32(*number)),
            Expression::String(text) => match text.resolve(context) {
                Ok(resolved) => Ok(Value::String(resolved)),
                Err(error) => Err(error),
            },
        }
    }
}

} // verus!

//! The values of expressions, and how a payload takes its arguments.

use super::context::Context;
use super::expression::Expression;
use super::model::{lemma_terms_index, term_value, terms, Term};
use crate::error::{Error, ErrorValue, ErrorValueView, Failure};
use vstd::prelude::*;
use vstd::string::StringExecFns;

verus! {

/// The value of an expression.
#[derive(Debug, Clone, PartialEq, Eq)]
pub enum Value {
    U32(u32),
    String(String),
}

/// A value as contracts see it.
pub enum ValueView {
    U32(u32),
    String(Seq<char>),
}

impl View for Value {
    type V = ValueView;

    open spec fn view(&self) -> ValueView {
        match *self {
            Value::U32(number) => ValueView::U32(number),
            Value::String(text) => ValueView::String(text@),
        }
    }
}

/// The error of a text that cannot be resolved, with the reason.
pub open spec fn invalid(reason: Seq<char>) -> Failure {
    Failure::Invalid(ErrorValueView::Other("SeString"@), reason)
}

/// The error of a text where a number is asked for.
pub open spec fn not_a_number() -> Failure {
    invalid("cannot resolve string value to u32"@)
}

/// The error of a number where a text is asked for.
pub open spec fn not_a_text() -> Failure {
    invalid("cannot resolve u32 value to string"@)
}

/// The error of a payload that has fewer arguments than it takes.
pub open spec fn insufficient_arguments() -> Failure {
    invalid("insufficient arguments"@)
}

/// A value taken as a number.
pub open spec fn as_number(value: Result<ValueView, Failure>) -> Result<u32, Failure> {
    match value {
        Ok(ValueView::U32(number)) => Ok(number),
        Ok(ValueView::String(_)) => Err(not_a_number()),
        Err(failure) => Err(failure),
    }
}

/// A value taken as a text.
pub open spec fn as_text(value: Result<ValueView, Failure>) -> Result<Seq<char>, Failure> {
    match value {
        Ok(ValueView::String(text)) => Ok(text),
        Ok(ValueView::U32(_)) => Err(not_a_text()),
        Err(failure) => Err(failure),
    }
}

/// The value of the argument with the given index; an error where there are
/// not that many arguments.
pub open spec fn argument_value(arguments: Seq<Term>, index: int) -> Result<ValueView, Failure>
    decreases arguments, 1nat,
{
    if 0 <= index < arguments.len() {
        term_value(arguments[index])
    } else {
        Err(insufficient_arguments())
    }
}

/// Whether a result is the given value or failure.
pub open spec fn gives_value(r: Result<Value, Error>, expected: Result<ValueView, Failure>) -> bool {
    match expected {
        Ok(value) => r is Ok && r->Ok_0@ == value,
        Err(failure) => r is Err && r->Err_0@ == failure,
    }
}

/// Whether a result is the given number or failure.
pub open spec fn gives_number(r: Result<u32, Error>, expected: Result<u32, Failure>) -> bool {
    match expected {
        Ok(number) => r == Ok::<u32, Error>(number),
        Err(failure) => r is Err && r->Err_0@ == failure,
    }
}

/// Whether a result is the given text or failure.
pub open spec fn gives_text(r: Result<String, Error>, expected: Result<Seq<char>, Failure>) -> bool {
    match expected {
        Ok(text) => r is Ok && r->Ok_0@ == text,
        Err(failure) => r is Err && r->Err_0@ == failure,
    }
}

/// Makes the error of a text that cannot be resolved.
pub fn invalid_text(reason: &str) -> (error: Error)
    ensures
        error@ == invalid(reason@),
{
    Error::Invalid(ErrorValue::Other(String::from_str("SeString")), String::from_str(reason))
}

impl Value {
    /// The number that stands for a value that is not known. It is what a
    /// parameter holds that was not given, and it passes every condition.
    pub const UNKNOWN: u32 = u32::MAX;

    /// Takes the value as a number; a text is an error.
    pub fn into_u32(self) -> (r: Result<u32, Error>)
        ensures
            gives_number(r, as_number(Ok(self@))),
    {
        match self {
            Value::U32(number) => Ok(number),
            Value::String(_) => Err(invalid_text("cannot resolve string value to u32")),
        }
    }

    /// Takes the value as a text; a number is an error.
    pub fn into_string(self) -> (r: Result<String, Error>)
        ensures
            gives_text(r, as_text(Ok(self@))),
    {
        match self {
            Value::String(text) => Ok(text),
            Value::U32(_) => Err(invalid_text("cannot resolve u32 value to string")),
        }
    }
}

/// Resolves the argument with the given index. Where the payload has no such
/// argument this is an error.
pub fn resolve_argument(arguments: &[Expression], index: usize, context: &mut Context) -> (r:
    Result<Value, Error>)
    ensures
        gives_value(r, argument_value(terms(arguments@), index as int)),
        *final(context) == *old(context),
    decreases arguments@, 1nat,
{
    proof {
        lemma_terms_index(arguments@, arguments@.len() as int, index as int);
    }
    if index < arguments.len() {
        arguments[index].value(context)
    } else {
        Err(invalid_text("insufficient arguments"))
    }
}

/// What a payload can take its arguments as.
pub trait FromArguments: Sized {
    /// Whether `r` is what the arguments resolve to.
    spec fn resolves(arguments: Seq<Term>, r: Result<Self, Error>) -> bool;

    /// Resolves as many arguments as the type takes, from the first on and in
    /// order, up to the first that fails.
    fn resolve(arguments: &[Expression], context: &mut Context) -> (r: Result<Self, Error>)
        ensures
            Self::resolves(terms(arguments@), r),
            *final(context) == *old(context),
        decreases arguments@, 2nat,
    ;
}

impl FromArguments for Value {
    open spec fn resolves(arguments: Seq<Term>, r: Result<Value, Error>) -> bool {
        gives_value(r, argument_value(arguments, 0))
    }

    fn resolve(arguments: &[Expression], context: &mut Context) -> (r: Result<Value, Error>)
        decreases arguments@, 2nat,
    {
        resolve_argument(arguments, 0, context)
    }
}

impl FromArguments for u32 {
    open spec fn resolves(arguments: Seq<Term>, r: Result<u32, Error>) -> bool {
        gives_number(r, as_number(argument_value(arguments, 0)))
    }

    fn resolve(arguments: &[Expression], context: &mut Context) -> (r: Result<u32, Error>)
        decreases arguments@, 2nat,
    {
        match resolve_argument(arguments, 0, context) {
            Ok(value) => value.into_u32(),
            Err(error) => Err(error),
        }
    }
}

impl FromArguments for String {
    open spec fn resolves(arguments: Seq<Term>, r: Result<String, Error>) -> bool {
        gives_text(r, as_text(argument_value(arguments, 0)))
    }

    fn resolve(arguments: &[Expression], context: &mut Context) -> (r: Result<String, Error>)
        decreases arguments@, 2nat,
    {
        match resolve_argument(arguments, 0, context) {
            Ok(value) => value.into_string(),
            Err(error) => Err(error),
        }
    }
}

/// A number and a text, as two arguments resolve to them.
pub open spec fn number_and_text(arguments: Seq<Term>) -> Result<(u32, Seq<char>), Failure>
    decreases arguments, 2nat,
{
    match as_number(argument_value(arguments, 0)) {
        Err(failure) => Err(failure),
        Ok(number) => match as_text(argument_value(arguments, 1)) {
            Err(failure) => Err(failure),
            Ok(text) => Ok((number, text)),
        },
    }
}

impl FromArguments for (u32, String) {
    open spec fn resolves(arguments: Seq<Term>, r: Result<(u32, String), Error>) -> bool {
        match number_and_text(arguments) {
            Ok((number, text)) => r is Ok && r->Ok_0.0 == number && r->Ok_0.1@ == text,
            Err(failure) => r is Err && r->Err_0@ == failure,
        }
    }

    fn resolve(arguments: &[Expression], context: &mut Context) -> (r: Result<
        (u32, String),
        Error,
    >)
        decreases arguments@, 2nat,
    {
        let number = match resolve_argument(arguments, 0, context) {
            Ok(value) => match value.into_u32() {
                Ok(number) => number,
                Err(error) => {
                    return Err(error);
                },
            },
            Err(error) => {
                return Err(error);
            },
        };
        let text = match resolve_argument(arguments, 1, context) {
            Ok(value) => match value.into_string() {
                Ok(text) => text,
                Err(error) => {
                    return Err(error);
                },
            },
            Err(error) => {
                return Err(error);
            },
        };
        Ok((number, text))
    }
}

/// Resolving the arguments of a payload as a type that says how many there
/// are and of which kinds.
pub trait ArgumentExt {
    /// The arguments.
    spec fn arguments(&self) -> Seq<Term>;

    /// Resolves the arguments as `T`.
    fn resolve<T: FromArguments>(&self, context: &mut Context) -> (r: Result<T, Error>)
        ensures
            T::resolves(self.arguments(), r),
            *final(context) == *old(context),
    ;
}

impl ArgumentExt for [Expression] {
    open spec fn arguments(&self) -> Seq<Term> {
        terms(self@)
    }

    fn resolve<T: FromArguments>(&self, context: &mut Context) -> (r: Result<T, Error>) {
        T::resolve(self, context)
    }
}

} // verus!

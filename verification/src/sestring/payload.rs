//! The payloads that format numbers.

use super::context::Context;
use super::expression::Expression;
use super::model::{terms, Term};
use super::value::{
    argument_value, as_number, gives_text, number_and_text, FromArguments, Value, ValueView,
};
use crate::error::{Error, Failure};
use crate::text::{decimal, decimal_padded, push_decimal, push_padded};
use vstd::prelude::*;
use vstd::string::StringExecFns;

verus! {

/// Which payload a segment holds.
#[derive(Debug, Clone, Copy, PartialEq, Eq)]
pub enum Kind {
    /// The argument as it is.
    Identity,
    /// A number with a separator in front of its last three digits.
    Thousands,
    /// A number in at least two digits.
    TwoDigit,
}

/// Shows its argument as it is: a text unchanged, a number in decimal.
#[derive(Debug, Clone, Copy, PartialEq, Eq)]
pub struct Identity;

/// Shows a number with a separator between thousands and units.
#[derive(Debug, Clone, Copy, PartialEq, Eq)]
pub struct Thousands;

/// Shows a number in two digits, with a zero in front where it has one.
#[derive(Debug, Clone, Copy, PartialEq, Eq)]
pub struct TwoDigit;

/// The name of a kind, as it stands in messages.
pub open spec fn kind_name(kind: Kind) -> Seq<char> {
    match kind {
        Kind::Identity => "Identity"@,
        Kind::Thousands => "Thousands"@,
        Kind::TwoDigit => "TwoDigit"@,
    }
}

/// What `Identity` makes of its arguments. A number that is not known shows as
/// 0.
pub open spec fn identity_text(arguments: Seq<Term>) -> Result<Seq<char>, Failure>
    decreases arguments, 3nat,
{
    match argument_value(arguments, 0) {
        Err(failure) => Err(failure),
        Ok(ValueView::String(text)) => Ok(text),
        Ok(ValueView::U32(number)) => Ok(
            if number == u32::MAX {
                "0"@
            } else {
                decimal(number as nat)
            },
        ),
    }
}

/// The distance between the single-precision numbers around `n`: they hold
/// 24 binary digits, so that from 2^24 on not every whole number is one.
pub open spec fn single_step(n: nat) -> nat {
    if n < 0x100_0000 {
        1
    } else if n < 0x200_0000 {
        2
    } else if n < 0x400_0000 {
        4
    } else if n < 0x800_0000 {
        8
    } else if n < 0x1000_0000 {
        16
    } else if n < 0x2000_0000 {
        32
    } else if n < 0x4000_0000 {
        64
    } else if n < 0x8000_0000 {
        128
    } else {
        256
    }
}

/// The single-precision number nearest to `n`; of two that are as near, the
/// one whose last binary digit is 0.
pub open spec fn single(n: nat) -> nat {
    let step = single_step(n);
    let below = n / step * step;
    let rest = n % step;
    if rest * 2 > step || (rest * 2 == step && n / step % 2 == 1) {
        below + step
    } else {
        below
    }
}

/// The remainder by 1000 from which on a single-precision quotient of `whole`
/// thousands is rounded up to the next whole number; 1000 where none is. A
/// quotient of 2^15 and more has too few binary digits left for thousandths.
pub open spec fn rounds_up_from(whole: nat) -> nat {
    if whole < 0x8000 {
        1000
    } else if whole < 0x1_0000 {
        999
    } else if whole < 0x2_0000 {
        997
    } else if whole < 0x4_0000 {
        993
    } else if whole < 0x8_0000 {
        985
    } else if whole < 0x10_0000 {
        969
    } else if whole < 0x20_0000 {
        938
    } else if whole < 0x40_0000 {
        875
    } else {
        750
    }
}

/// The thousands of a number as single-precision arithmetic gives them: the
/// number is rounded to single precision, divided by 1000, the quotient is
/// rounded to single precision, and its fraction is dropped.
pub open spec fn thousands_of(n: nat) -> nat {
    let whole = single(n) / 1000;
    if single(n) % 1000 >= rounds_up_from(whole) {
        whole + 1
    } else {
        whole
    }
}

/// Below 2^24 single precision is exact for whole numbers, and the thousands
/// are those of the number.
pub proof fn lemma_thousands_exact(n: nat)
    requires
        n < 0x100_0000,
    ensures
        thousands_of(n) == n / 1000,
{
}

/// A number with `separator` between its thousands and its last three digits.
/// A number that is not known shows as 0; one below 1000 has no separator.
/// The thousands are worked out in single precision, the last three digits
/// exactly.
pub open spec fn with_thousands(number: u32, separator: Seq<char>) -> Seq<char> {
    if number == u32::MAX {
        "0"@
    } else if number < 1000 {
        decimal(number as nat)
    } else {
        decimal(thousands_of(number as nat)) + separator + decimal_padded(
            number as nat % 1000,
            3,
        )
    }
}

/// What `Thousands` makes of its arguments, a number and a separator.
pub open spec fn thousands_text(arguments: Seq<Term>) -> Result<Seq<char>, Failure>
    decreases arguments, 3nat,
{
    match number_and_text(arguments) {
        Err(failure) => Err(failure),
        Ok((number, separator)) => Ok(with_thousands(number, separator)),
    }
}

/// A number in at least two digits. A number that is not known shows as 00.
pub open spec fn in_two_digits(number: u32) -> Seq<char> {
    decimal_padded(
        if number == u32::MAX {
            0
        } else {
            number as nat
        },
        2,
    )
}

/// What `TwoDigit` makes of its argument, a number.
pub open spec fn two_digit_text(arguments: Seq<Term>) -> Result<Seq<char>, Failure>
    decreases arguments, 3nat,
{
    match as_number(argument_value(arguments, 0)) {
        Err(failure) => Err(failure),
        Ok(number) => Ok(in_two_digits(number)),
    }
}

/// What the payload of a kind makes of its arguments.
pub open spec fn payload_text(kind: Kind, arguments: Seq<Term>) -> Result<
    Seq<char>,
    Failure,
>
    decreases arguments, 4nat,
{
    match kind {
        Kind::Identity => identity_text(arguments),
        Kind::Thousands => thousands_text(arguments),
        Kind::TwoDigit => two_digit_text(arguments),
    }
}

/// Writes a number as `Identity` shows it.
pub fn format_number(number: u32) -> (text: String)
    ensures
        text@ == (if number == u32::MAX {
            "0"@
        } else {
            decimal(number as nat)
        }),
{
    if number == Value::UNKNOWN {
        return String::from_str("0");
    }
    let mut text = String::new();
    push_decimal(&mut text, number as u64);
    assert(text@ =~= decimal(number as nat));
    text
}

/// Rounds a number to single precision.
pub fn to_single(number: u32) -> (nearest: u64)
    ensures
        nearest == single(number as nat),
{
    let n: u64 = number as u64;
    let step: u64 = if n < 0x100_0000 {
        1
    } else if n < 0x200_0000 {
        2
    } else if n < 0x400_0000 {
        4
    } else if n < 0x800_0000 {
        8
    } else if n < 0x1000_0000 {
        16
    } else if n < 0x2000_0000 {
        32
    } else if n < 0x4000_0000 {
        64
    } else if n < 0x8000_0000 {
        128
    } else {
        256
    };
    let below: u64 = n / step * step;
    let rest: u64 = n % step;
    if rest * 2 > step || (rest * 2 == step && n / step % 2 == 1) {
        below + step
    } else {
        below
    }
}

/// The thousands of a number, worked out in single precision.
pub fn single_thousands(number: u32) -> (thousands: u64)
    ensures
        thousands == thousands_of(number as nat),
{
    let nearest: u64 = to_single(number);
    let whole: u64 = nearest / 1000;
    let from: u64 = if whole < 0x8000 {
        1000
    } else if whole < 0x1_0000 {
        999
    } else if whole < 0x2_0000 {
        997
    } else if whole < 0x4_0000 {
        993
    } else if whole < 0x8_0000 {
        985
    } else if whole < 0x10_0000 {
        969
    } else if whole < 0x20_0000 {
        938
    } else if whole < 0x40_0000 {
        875
    } else {
        750
    };
    if nearest % 1000 >= from {
        whole + 1
    } else {
        whole
    }
}

/// Writes a number with a separator in front of its last three digits.
pub fn format_thousands(number: u32, separator: &str) -> (text: String)
    ensures
        text@ == with_thousands(number, separator@),
{
    if number == Value::UNKNOWN || number < 1000 {
        return format_number(number);
    }
    let mut text = String::new();
    push_decimal(&mut text, single_thousands(number));
    text.append(separator);
    push_padded(&mut text, (number % 1000) as u64, 3);
    assert(text@ =~= with_thousands(number, separator@));
    text
}

/// Writes a number in at least two digits.
pub fn format_two_digit(number: u32) -> (text: String)
    ensures
        text@ == in_two_digits(number),
{
    let shown = if number == Value::UNKNOWN {
        0
    } else {
        number
    };
    let mut text = String::new();
    push_padded(&mut text, shown as u64, 2);
    assert(text@ =~= in_two_digits(number));
    text
}

impl Identity {
    /// Resolves the first argument and shows it.
    pub fn resolve(&self, arguments: &[Expression], context: &mut Context) -> (r: Result<
        String,
        Error,
    >)
        ensures
            gives_text(r, identity_text(terms(arguments@))),
            *final(context) == *old(context),
        decreases arguments@, 3nat,
    {
        match <Value as FromArguments>::resolve(arguments, context) {
            Err(error) => Err(error),
            Ok(Value::String(text)) => Ok(text),
            Ok(Value::U32(number)) => Ok(format_number(number)),
        }
    }
}

impl Thousands {
    /// Resolves a number and a separator, and shows the number with the
    /// separator in it.
    pub fn resolve(&self, arguments: &[Expression], context: &mut Context) -> (r: Result<
        String,
        Error,
    >)
        ensures
            gives_text(r, thousands_text(terms(arguments@))),
            *final(context) == *old(context),
        decreases arguments@, 3nat,
    {
        match <(u32, String) as FromArguments>::resolve(arguments, context) {
            Err(error) => Err(error),
            Ok((number, separator)) => Ok(format_thousands(number, separator.as_str())),
        }
    }
}

impl TwoDigit {
    /// Resolves a number and shows it in two digits.
    pub fn resolve(&self, arguments: &[Expression], context: &mut Context) -> (r: Result<
        String,
        Error,
    >)
        ensures
            gives_text(r, two_digit_text(terms(arguments@))),
            *final(context) == *old(context),
        decreases arguments@, 3nat,
    {
        match <u32 as FromArguments>::resolve(arguments, context) {
            Err(error) => Err(error),
            Ok(number) => Ok(format_two_digit(number)),
        }
    }
}

impl Kind {
    /// The name of the kind, as it stands in messages.
    pub fn name(&self) -> (name: &'static str)
        ensures
            name@ == kind_name(*self),
    {
        match self {
            Kind::Identity => "Identity",
            Kind::Thousands => "Thousands",
            Kind::TwoDigit => "TwoDigit",
        }
    }

    /// Lets the payload of the kind resolve the arguments.
    pub fn resolve(&self, arguments: &[Expression], context: &mut Context) -> (r: Result<
        String,
        Error,
    >)
        ensures
            gives_text(r, payload_text(*self, terms(arguments@))),
            *final(context) == *old(context),
        decreases arguments@, 4nat,
    {
        match self {
            Kind::Identity => Identity.resolve(arguments, context),
            Kind::Thousands => Thousands.resolve(arguments, context),
            Kind::TwoDigit => TwoDigit.resolve(arguments, context),
        }
    }
}

} // verus!

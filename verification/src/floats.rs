//! The arithmetic of floating-point numbers, as the caller of this library
//! provides it.
//!
//! This library reads floating-point numbers by their bits and leaves their
//! sums, products and quotients, their text and the reading of it to three
//! functions that its caller hands in. Where those functions are pure, so
//! that the same arguments always give the same result, what they give has a
//! name here, and what the library computes with them is a function of its
//! inputs as well.

use crate::float::Float64;
use crate::value::{reads_float, writes_float};
use vstd::prelude::*;

verus! {

/// The four operations on two floating-point numbers.
#[derive(Debug, Clone, Copy, PartialEq, Eq, Structural)]
pub enum FloatOp {
    Add,
    Sub,
    Mul,
    Div,
}

/// Whether `parse_float` reads every text, and always the same from the same.
pub open spec fn reads_purely<P: Fn(&str) -> Option<Float64>>(parse_float: &P) -> bool {
    &&& forall|t: &str| #[trigger] parse_float.requires((t,))
    &&& forall|text: Seq<char>, a: Option<Float64>, b: Option<Float64>|
        reads_float(parse_float, text, a) && reads_float(parse_float, text, b) ==> a == b
}

/// What a pure `parse_float` reads `text` as.
pub open spec fn float_read<P: Fn(&str) -> Option<Float64>>(parse_float: &P, text: Seq<char>) -> Option<
    Float64,
> {
    choose|outcome: Option<Float64>| reads_float(parse_float, text, outcome)
}

/// Whether `format_float` writes every number, and always the same text for
/// the same.
pub open spec fn writes_purely<F: Fn(Float64) -> String>(format_float: &F) -> bool {
    &&& forall|f: Float64| #[trigger] format_float.requires((f,))
    &&& forall|number: Float64, a: Seq<char>, b: Seq<char>|
        writes_float(format_float, number, a) && writes_float(format_float, number, b) ==> a
            == b
}

/// What a pure `format_float` writes `number` as.
pub open spec fn float_text<F: Fn(Float64) -> String>(format_float: &F, number: Float64) -> Seq<
    char,
> {
    choose|text: Seq<char>| writes_float(format_float, number, text)
}

/// Whether `arithmetic` works on every pair of numbers, and always gives the
/// same for the same.
pub open spec fn computes_purely<A: Fn(FloatOp, Float64, Float64) -> Float64>(
    arithmetic: &A,
) -> bool {
    &&& forall|op: FloatOp, a: Float64, b: Float64| #[trigger] arithmetic.requires((op, a, b))
    &&& forall|op: FloatOp, a: Float64, b: Float64, x: Float64, y: Float64|
        arithmetic.ensures((op, a, b), x) && arithmetic.ensures((op, a, b), y) ==> x == y
}

/// What a pure `arithmetic` gives for an operation on two numbers.
pub open spec fn float_result<A: Fn(FloatOp, Float64, Float64) -> Float64>(
    arithmetic: &A,
    op: FloatOp,
    a: Float64,
    b: Float64,
) -> Float64 {
    choose|r: Float64| arithmetic.ensures((op, a, b), r)
}

/// Reads `text` as a floating-point number with a pure `parse_float`.
pub fn read_float<P: Fn(&str) -> Option<Float64>>(parse_float: &P, text: &str) -> (outcome: Option<
    Float64,
>)
    requires
        reads_purely(parse_float),
    ensures
        outcome == float_read(parse_float, text@),
{
    let outcome = parse_float(text);
    assert(reads_float(parse_float, text@, outcome));
    outcome
}

/// Writes `number` as text with a pure `format_float`.
pub fn write_float<F: Fn(Float64) -> String>(format_float: &F, number: Float64) -> (text: String)
    requires
        writes_purely(format_float),
    ensures
        text@ == float_text(format_float, number),
{
    let text = format_float(number);
    assert(writes_float(format_float, number, text@));
    text
}

/// Computes an operation on two numbers with a pure `arithmetic`.
pub fn compute<A: Fn(FloatOp, Float64, Float64) -> Float64>(
    arithmetic: &A,
    op: FloatOp,
    a: Float64,
    b: Float64,
) -> (r: Float64)
    requires
        computes_purely(arithmetic),
    ensures
        r == float_result(arithmetic, op, a, b),
{
    arithmetic(op, a, b)
}

/// What pure functions give, as functions of their arguments.
pub struct Oracles {
    /// What a text reads as.
    pub read: spec_fn(Seq<char>) -> Option<Float64>,
    /// What a number is written as.
    pub text: spec_fn(Float64) -> Seq<char>,
    /// What an operation on two numbers gives.
    pub result: spec_fn(FloatOp, Float64, Float64) -> Float64,
}

/// The three functions on floating-point numbers that the caller provides.
pub struct FloatOps<A, P, F> {
    /// The sum, difference, product or quotient of two numbers.
    pub arithmetic: A,
    /// The number that a text writes, if it writes one.
    pub parse: P,
    /// The text of a number.
    pub format: F,
}

impl<
    A: Fn(FloatOp, Float64, Float64) -> Float64,
    P: Fn(&str) -> Option<Float64>,
    F: Fn(Float64) -> String,
> FloatOps<A, P, F> {
    /// Whether each of the three functions is pure.
    pub open spec fn pure(&self) -> bool {
        computes_purely(&self.arithmetic) && reads_purely(&self.parse) && writes_purely(
            &self.format,
        )
    }

    /// What the three functions give.
    pub open spec fn oracles(&self) -> Oracles {
        Oracles {
            read: |text: Seq<char>| float_read(&self.parse, text),
            text: |number: Float64| float_text(&self.format, number),
            result: |op: FloatOp, a: Float64, b: Float64|
                float_result(&self.arithmetic, op, a, b),
        }
    }

    /// Reads `text` as a floating-point number.
    pub fn read(&self, text: &str) -> (outcome: Option<Float64>)
        requires
            self.pure(),
        ensures
            outcome == (self.oracles().read)(text@),
    {
        read_float(&self.parse, text)
    }

    /// Writes `number` as text.
    pub fn write(&self, number: Float64) -> (text: String)
        requires
            self.pure(),
        ensures
            text@ == (self.oracles().text)(number),
    {
        write_float(&self.format, number)
    }

    /// Computes an operation on two numbers.
    pub fn compute(&self, op: FloatOp, a: Float64, b: Float64) -> (r: Float64)
        requires
            self.pure(),
        ensures
            r == (self.oracles().result)(op, a, b),
    {
        compute(&self.arithmetic, op, a, b)
    }
}

} // verus!

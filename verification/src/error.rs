//! What can go wrong when a function of the expression language is called:
//! the wrong number of arguments, or an argument of a type that does not
//! convert to the one the function works on.

use crate::column::{ColumIndexationBy, Selector};
use crate::text::{decimal, u64_to_string};
use std::ops::RangeInclusive;
use vstd::prelude::*;

verus! {

/// The lower bound of an inclusive range, as `RangeInclusive::start` of the
/// standard library returns it.
pub assume_specification<Idx>[ RangeInclusive::<Idx>::start ](r: &RangeInclusive<Idx>) -> (s: &Idx)
    ensures
        *s == r@.start,
;

/// The upper bound of an inclusive range, as `RangeInclusive::end` of the
/// standard library returns it.
pub assume_specification<Idx>[ RangeInclusive::<Idx>::end ](r: &RangeInclusive<Idx>) -> (e: &Idx)
    ensures
        *e == r@.end,
;

/// How many arguments a function takes.
#[derive(Debug, PartialEq)]
pub enum Arity {
    /// Exactly this many.
    Strict(usize),
    /// This many or more.
    Min(usize),
    /// Any number within the range, both ends included.
    Range(RangeInclusive<usize>),
}

/// An arity as plain numbers.
pub enum ArityView {
    Strict(nat),
    Min(nat),
    Range(nat, nat),
}

impl ArityView {
    /// Whether a call with `got` arguments has the right number of them.
    pub open spec fn accepts(self, got: nat) -> bool {
        match self {
            ArityView::Strict(expected) => got == expected,
            ArityView::Min(min) => got >= min,
            ArityView::Range(min, max) => min <= got <= max,
        }
    }

    /// The words that name this arity in a message.
    pub open spec fn text(self) -> Seq<char> {
        match self {
            ArityView::Strict(expected) => "expected "@ + decimal(expected),
            ArityView::Min(min) => "expected at least "@ + decimal(min),
            ArityView::Range(min, max) => "expected between "@ + decimal(min) + " and "@ + decimal(
                max,
            ),
        }
    }
}

impl View for Arity {
    type V = ArityView;

    open spec fn view(&self) -> ArityView {
        match self {
            Arity::Strict(expected) => ArityView::Strict(*expected as nat),
            Arity::Min(min) => ArityView::Min(*min as nat),
            Arity::Range(range) => ArityView::Range(range@.start as nat, range@.end as nat),
        }
    }
}

impl Clone for Arity {
    fn clone(&self) -> (r: Arity)
        ensures
            r@ == self@,
    {
        match self {
            Arity::Strict(expected) => Arity::Strict(*expected),
            Arity::Min(min) => Arity::Min(*min),
            Arity::Range(range) => Arity::Range(RangeInclusive::new(*range.start(), *range.end())),
        }
    }
}

impl Arity {
    /// Whether a call with `got` arguments has the right number of them.
    pub fn check(&self, got: usize) -> (ok: bool)
        ensures
            ok == self@.accepts(got as nat),
    {
        match self {
            Arity::Strict(expected) => *expected == got,
            Arity::Min(min) => got >= *min,
            Arity::Range(range) => *range.start() <= got && got <= *range.end(),
        }
    }

    /// Whether as many arguments as `args` holds is the right number of them.
    pub fn check_len<T>(&self, args: &Vec<T>) -> (ok: bool)
        ensures
            ok == self@.accepts(args@.len()),
    {
        self.check(args.len())
    }

    /// The words that name this arity in a message.
    pub fn describe(&self) -> (s: String)
        ensures
            s@ == self@.text(),
    {
        match self {
            Arity::Strict(expected) => "expected ".to_owned().concat(
                u64_to_string(*expected as u64).as_str(),
            ),
            Arity::Min(min) => "expected at least ".to_owned().concat(
                u64_to_string(*min as u64).as_str(),
            ),
            Arity::Range(range) => {
                let mut s = "expected between ".to_owned();
                s.append(u64_to_string(*range.start() as u64).as_str());
                s.append(" and ");
                s.append(u64_to_string(*range.end() as u64).as_str());
                s
            },
        }
    }
}

/// A call that was made with the wrong number of arguments.
#[derive(Debug, PartialEq)]
pub struct InvalidArity {
    /// How many the function takes.
    pub expected: Arity,
    /// How many the call gave.
    pub got: usize,
}

impl Clone for InvalidArity {
    fn clone(&self) -> (r: InvalidArity)
        ensures
            r.expected@ == self.expected@,
            r.got == self.got,
    {
        InvalidArity { expected: self.expected.clone(), got: self.got }
    }
}

/// Why a call to a function failed.
#[derive(Debug, PartialEq)]
pub enum CallError {
    /// The call gave the wrong number of arguments.
    InvalidArity(InvalidArity),
    /// A value of the first type does not convert to the second.
    Cast((String, String)),
}

/// A call error as plain values.
pub enum CallErrorView {
    InvalidArity { expected: ArityView, got: nat },
    Cast { from: Seq<char>, to: Seq<char> },
}

impl CallErrorView {
    /// The message that tells a user of this error.
    pub open spec fn text(self) -> Seq<char> {
        match self {
            CallErrorView::InvalidArity { expected, got } => expected.text()
                + " arguments but got "@ + decimal(got),
            CallErrorView::Cast { from, to } => "cannot safely cast from type \""@ + from
                + "\" to type \""@ + to + "\""@,
        }
    }
}

impl View for CallError {
    type V = CallErrorView;

    open spec fn view(&self) -> CallErrorView {
        match self {
            CallError::InvalidArity(arity) => CallErrorView::InvalidArity {
                expected: arity.expected@,
                got: arity.got as nat,
            },
            CallError::Cast((from, to)) => CallErrorView::Cast { from: from@, to: to@ },
        }
    }
}

impl Clone for CallError {
    fn clone(&self) -> (r: CallError)
        ensures
            r@ == self@,
    {
        match self {
            CallError::InvalidArity(arity) => CallError::InvalidArity(arity.clone()),
            CallError::Cast((from, to)) => CallError::Cast((from.clone(), to.clone())),
        }
    }
}

/// The error of a call that gave `got` arguments where exactly `expected`
/// are taken.
pub open spec fn strict_arity_error(expected: nat, got: nat) -> CallErrorView {
    CallErrorView::InvalidArity { expected: ArityView::Strict(expected), got }
}

/// The error of a value of type `from` that does not convert to type `to`.
pub open spec fn cast_error(from: Seq<char>, to: Seq<char>) -> CallErrorView {
    CallErrorView::Cast { from, to }
}

/// The outcome of a call, with its error as plain values.
pub open spec fn outcome<T>(r: Result<T, CallError>) -> Result<T, CallErrorView> {
    match r {
        Ok(v) => Ok(v),
        Err(e) => Err(e@),
    }
}

impl CallError {
    /// The error of a call that gave `got` arguments where exactly `expected`
    /// are taken.
    pub fn from_invalid_arity(expected: usize, got: usize) -> (e: CallError)
        ensures
            e@ == strict_arity_error(expected as nat, got as nat),
    {
        CallError::InvalidArity(InvalidArity { expected: Arity::Strict(expected), got })
    }

    /// The error of a call that gave `got` arguments where `min` or more are
    /// taken.
    pub fn from_invalid_min_arity(min: usize, got: usize) -> (e: CallError)
        ensures
            e@ == (CallErrorView::InvalidArity { expected: ArityView::Min(min as nat), got: got as nat }),
    {
        CallError::InvalidArity(InvalidArity { expected: Arity::Min(min), got })
    }

    /// The error of a call that gave `got` arguments where a number within
    /// `range` is taken.
    pub fn from_range_arity(range: RangeInclusive<usize>, got: usize) -> (e: CallError)
        ensures
            e@ == (CallErrorView::InvalidArity {
                expected: ArityView::Range(range@.start as nat, range@.end as nat),
                got: got as nat,
            }),
    {
        CallError::InvalidArity(InvalidArity { expected: Arity::Range(range), got })
    }

    /// The error of a value of type `from` that does not convert to type `to`.
    pub fn cast(from: &str, to: &str) -> (e: CallError)
        ensures
            e@ == cast_error(from@, to@),
    {
        CallError::Cast((from.to_owned(), to.to_owned()))
    }

    /// The message that tells a user of this error.
    pub fn message(&self) -> (s: String)
        ensures
            s@ == self@.text(),
    {
        match self {
            CallError::InvalidArity(arity) => {
                let mut s = arity.expected.describe();
                s.append(" arguments but got ");
                s.append(u64_to_string(arity.got as u64).as_str());
                s
            },
            CallError::Cast((from, to)) => {
                let mut s = "cannot safely cast from type \"".to_owned();
                s.append(from.as_str());
                s.append("\" to type \"");
                s.append(to.as_str());
                s.append("\"");
                s
            },
        }
    }
}

/// Why an expression cannot be bound to a header row.
#[derive(Debug, PartialEq)]
pub enum PrepareError {
    /// No function is registered under this name.
    UnknownFunction(String),
    /// The function of this name does not take as many arguments as the
    /// call gives.
    InvalidArity((String, InvalidArity)),
    /// The header row has no column that the selector points at.
    ColumnNotFound(ColumIndexationBy),
    /// The operands of `col` spell no column selector.
    InvalidSelector,
    /// The pattern of this source text does not compile.
    InvalidPattern(String),
}

/// A preparation error as plain values.
pub enum PrepareErrorView {
    UnknownFunction(Seq<char>),
    InvalidArity { name: Seq<char>, expected: ArityView, got: nat },
    ColumnNotFound(Selector),
    InvalidSelector,
    InvalidPattern(Seq<char>),
}

impl View for PrepareError {
    type V = PrepareErrorView;

    open spec fn view(&self) -> PrepareErrorView {
        match self {
            PrepareError::UnknownFunction(name) => PrepareErrorView::UnknownFunction(name@),
            PrepareError::InvalidArity((name, arity)) => PrepareErrorView::InvalidArity {
                name: name@,
                expected: arity.expected@,
                got: arity.got as nat,
            },
            PrepareError::ColumnNotFound(selector) => PrepareErrorView::ColumnNotFound(selector@),
            PrepareError::InvalidSelector => PrepareErrorView::InvalidSelector,
            PrepareError::InvalidPattern(source) => PrepareErrorView::InvalidPattern(source@),
        }
    }
}

/// A call that failed while a row was evaluated.
#[derive(Debug, PartialEq)]
pub struct EvaluationError {
    /// The name of the function that was called.
    pub function_name: String,
    /// Why the call failed.
    pub reason: CallError,
}

/// An evaluation error as plain values.
pub struct EvaluationErrorView {
    pub function_name: Seq<char>,
    pub reason: CallErrorView,
}

impl EvaluationErrorView {
    /// The message that tells a user of this error.
    pub open spec fn text(self) -> Seq<char> {
        "error when calling function \""@ + self.function_name + "\": "@ + self.reason.text()
    }
}

impl View for EvaluationError {
    type V = EvaluationErrorView;

    open spec fn view(&self) -> EvaluationErrorView {
        EvaluationErrorView { function_name: self.function_name@, reason: self.reason@ }
    }
}

impl EvaluationError {
    /// The message that tells a user of this error.
    pub fn message(&self) -> (s: String)
        ensures
            s@ == self@.text(),
    {
        let mut s = "error when calling function \"".to_owned();
        s.append(self.function_name.as_str());
        s.append("\": ");
        s.append(self.reason.message().as_str());
        s
    }
}

} // verus!

//! An expression language over the rows of a table, and its values.
//!
//! An expression is a text such as `add(a, mul(b, 2))`. It is read once into
//! its shape ([`parser`]), bound once to the header row of a table
//! ([`interpreter`]), and then evaluated on each row, which gives a value
//! ([`value`]) or the error of a call ([`error`]). The functions that an
//! expression may call ([`functions`]) take their arguments bound and counted
//! ([`bound`]).
//!
//! Floating-point numbers are held by their bits ([`float`]); what is not
//! integer arithmetic on those bits is taken from the caller ([`floats`]).

pub mod bound;
pub mod column;
pub mod convert;
pub mod equality;
pub mod error;
pub mod flat;
pub mod float;
pub mod floats;
pub mod functions;
pub mod histogram;
pub mod interpreter;
pub mod lexer;
pub mod number;
pub mod parser;
pub mod pattern;
pub mod record;
pub mod text;
pub mod transform;
pub mod value;
pub mod writing;

pub use crate::bound::{BoundArgument, BoundArguments, BoundArgumentsIntoIterator};
pub use crate::column::ColumIndexationBy;
pub use crate::error::{Arity, CallError, EvaluationError, InvalidArity, PrepareError};
pub use crate::flat::DynamicValueFlatIter;
pub use crate::float::Float64;
pub use crate::histogram::{Histogram, Histograms};
pub use crate::interpreter::{EvaluationResult, Program};
pub use crate::number::DynamicNumber;
pub use crate::pattern::Pattern;
pub use crate::value::DynamicValue;

//! The functions that an expression may call, each under its name, with the
//! number of arguments that it takes and what it gives for them.

use crate::bound::{bound_value, BoundArguments};
use crate::error::{outcome, Arity, ArityView, CallError, CallErrorView, InvalidArity};
use crate::float::Float64;
use crate::floats::{FloatOp, FloatOps, Oracles};
use crate::number::{floor_divide, floor_quotient, saturated, DynamicNumber};
use crate::parser::same_text;
use crate::value::{DynamicValue, Value};
use vstd::prelude::*;

verus! {

/// The text in upper case, as `str::to_uppercase` of the standard library
/// maps it.
pub uninterp spec fn uppercase_of(text: Seq<char>) -> Seq<char>;

/// The text in lower case, as `str::to_lowercase` of the standard library
/// maps it.
pub uninterp spec fn lowercase_of(text: Seq<char>) -> Seq<char>;

/// `str::to_uppercase`: each character of the text in upper case.
#[verifier::external_body]
fn to_uppercase(text: &str) -> (upper: String)
    ensures
        upper@ == uppercase_of(text@),
{
    text.to_uppercase()
}

/// `str::to_lowercase`: each character of the text in lower case.
#[verifier::external_body]
fn to_lowercase(text: &str) -> (lower: String)
    ensures
        lower@ == lowercase_of(text@),
{
    text.to_lowercase()
}

/// A function of the expression language.
#[derive(Debug, Clone, Copy, PartialEq, Eq, Structural)]
pub enum Function {
    /// `add`: the sum of two numbers.
    Plus,
    /// `sub`: the difference of two numbers.
    Minus,
    /// `mul`: the product of two numbers.
    Times,
    /// `div`: the quotient of two numbers, always floating-point.
    Over,
    /// `idiv`: the floor of the quotient of two numbers, always whole.
    FloorOver,
    /// `eq`: whether two numbers are equal.
    Equal,
    /// `ne`: whether two numbers are not equal.
    Unequal,
    /// `lt`: whether a number is below another.
    Less,
    /// `le`: whether a number is below another or equal to it.
    LessOrEqual,
    /// `gt`: whether a number is above another.
    Greater,
    /// `ge`: whether a number is above another or equal to it.
    GreaterOrEqual,
    /// `and`: whether two values both count as true.
    Both,
    /// `or`: whether one of two values counts as true.
    Either,
    /// `not`: whether a value counts as false.
    Negation,
    /// `len`: how many values a list holds, or how many characters a text.
    Length,
    /// `concat`: the texts of one value or more, one after the other.
    Concat,
    /// `typeof`: the name of the type of a value.
    TypeOf,
    /// `upper`: a text in upper case.
    Upper,
    /// `lower`: a text in lower case.
    Lower,
    /// `coalesce`: the first of one value or more that counts as true.
    Coalesce,
}

impl Value {
    /// The number that this value converts to, where floating-point numbers
    /// are read as `o` says.
    pub open spec fn number(self, o: Oracles) -> Result<DynamicNumber, CallErrorView> {
        self.as_number(
            match self {
                Value::String(text) => (o.read)(text),
                _ => None,
            },
        )
    }

    /// The text that this value converts to, where floating-point numbers
    /// are written as `o` says.
    pub open spec fn text(self, o: Oracles) -> Result<Seq<char>, CallErrorView> {
        self.as_text(
            match self {
                Value::Float(number) => (o.text)(number),
                _ => Seq::empty(),
            },
        )
    }

    /// A number as a value.
    pub open spec fn of_number(number: DynamicNumber) -> Value {
        match number {
            DynamicNumber::Integer(v) => Value::Integer(v as int),
            DynamicNumber::Float(f) => Value::Float(f),
        }
    }
}

/// What an operation gives on two whole numbers: the sum, difference or
/// product, wrapped around where the type cannot hold it.
pub open spec fn whole_result(op: FloatOp, a: i64, b: i64) -> i64 {
    match op {
        FloatOp::Add => a.wrapping_add(b),
        FloatOp::Sub => a.wrapping_sub(b),
        _ => a.wrapping_mul(b),
    }
}

/// What an operation gives on two numbers: two whole numbers give a whole
/// one, except under division; any other pair a floating-point one.
pub open spec fn arithmetic(op: FloatOp, a: DynamicNumber, b: DynamicNumber, o: Oracles) -> DynamicNumber {
    if a.both_whole(b) && op != FloatOp::Div {
        DynamicNumber::Integer(whole_result(op, a->Integer_0, b->Integer_0))
    } else {
        DynamicNumber::Float((o.result)(op, a.as_float(), b.as_float()))
    }
}

/// The floor of the quotient of two numbers, always whole.
pub open spec fn floor_division(a: DynamicNumber, b: DynamicNumber, o: Oracles) -> DynamicNumber {
    if a.divides_whole(b) {
        DynamicNumber::Integer(
            saturated(floor_quotient(a->Integer_0 as int, b->Integer_0 as int)) as i64,
        )
    } else {
        DynamicNumber::Integer(
            (o.result)(FloatOp::Div, a.as_float(), b.as_float()).saturated_floor() as i64,
        )
    }
}

/// The numbers that two arguments convert to, or the error of the first
/// that does not convert.
pub open spec fn two_numbers(args: Seq<Value>, o: Oracles) -> Result<
    (DynamicNumber, DynamicNumber),
    CallErrorView,
> {
    match args[0].number(o) {
        Err(e) => Err(e),
        Ok(a) => match args[1].number(o) {
            Err(e) => Err(e),
            Ok(b) => Ok((a, b)),
        },
    }
}

/// The texts of the first `upto` arguments, one after the other, or the
/// error of the first that converts to no text.
pub open spec fn texts_in_a_row(args: Seq<Value>, upto: int, o: Oracles) -> Result<
    Seq<char>,
    CallErrorView,
>
    decreases upto,
{
    if upto <= 0 {
        Ok(Seq::empty())
    } else {
        match texts_in_a_row(args, upto - 1, o) {
            Err(e) => Err(e),
            Ok(before) => match args[upto - 1].text(o) {
                Err(e) => Err(e),
                Ok(text) => Ok(before + text),
            },
        }
    }
}

/// The first of the arguments from rank `from` on that counts as true, and
/// the absent value where none does.
pub open spec fn first_truthy(args: Seq<Value>, from: int) -> Value
    decreases args.len() - from,
{
    if from < 0 || from >= args.len() {
        Value::Null
    } else if args[from].truthy() {
        args[from]
    } else {
        first_truthy(args, from + 1)
    }
}

/// A count as a whole number, kept within what a whole number can be.
pub open spec fn count_value(n: nat) -> Value {
    Value::Integer(
        if n > i64::MAX {
            i64::MAX as int
        } else {
            n as int
        },
    )
}

impl Function {
    /// How many arguments the function takes.
    pub open spec fn arity_view(self) -> ArityView {
        match self {
            Function::Negation | Function::Length | Function::TypeOf | Function::Upper
            | Function::Lower => ArityView::Strict(1),
            Function::Concat | Function::Coalesce => ArityView::Min(1),
            _ => ArityView::Strict(2),
        }
    }

    /// What the function gives for arguments of the right number.
    pub open spec fn result(self, args: Seq<Value>, o: Oracles) -> Result<Value, CallErrorView> {
        match self {
            Function::Plus => match two_numbers(args, o) {
                Ok((a, b)) => Ok(Value::of_number(arithmetic(FloatOp::Add, a, b, o))),
                Err(e) => Err(e),
            },
            Function::Minus => match two_numbers(args, o) {
                Ok((a, b)) => Ok(Value::of_number(arithmetic(FloatOp::Sub, a, b, o))),
                Err(e) => Err(e),
            },
            Function::Times => match two_numbers(args, o) {
                Ok((a, b)) => Ok(Value::of_number(arithmetic(FloatOp::Mul, a, b, o))),
                Err(e) => Err(e),
            },
            Function::Over => match two_numbers(args, o) {
                Ok((a, b)) => Ok(Value::of_number(arithmetic(FloatOp::Div, a, b, o))),
                Err(e) => Err(e),
            },
            Function::FloorOver => match two_numbers(args, o) {
                Ok((a, b)) => Ok(Value::of_number(floor_division(a, b, o))),
                Err(e) => Err(e),
            },
            Function::Equal => match two_numbers(args, o) {
                Ok((a, b)) => Ok(Value::Boolean(a.same_number(b))),
                Err(e) => Err(e),
            },
            Function::Unequal => match two_numbers(args, o) {
                Ok((a, b)) => Ok(Value::Boolean(!a.same_number(b))),
                Err(e) => Err(e),
            },
            Function::Less => match two_numbers(args, o) {
                Ok((a, b)) => Ok(Value::Boolean(a.below(b))),
                Err(e) => Err(e),
            },
            Function::LessOrEqual => match two_numbers(args, o) {
                Ok((a, b)) => Ok(Value::Boolean(a.at_most(b))),
                Err(e) => Err(e),
            },
            Function::Greater => match two_numbers(args, o) {
                Ok((a, b)) => Ok(Value::Boolean(b.below(a))),
                Err(e) => Err(e),
            },
            Function::GreaterOrEqual => match two_numbers(args, o) {
                Ok((a, b)) => Ok(Value::Boolean(b.at_most(a))),
                Err(e) => Err(e),
            },
            Function::Both => Ok(Value::Boolean(args[0].truthy() && args[1].truthy())),
            Function::Either => Ok(Value::Boolean(args[0].truthy() || args[1].truthy())),
            Function::Negation => Ok(Value::Boolean(!args[0].truthy())),
            Function::Length => match args[0] {
                Value::List(items) => Ok(count_value(items.len())),
                value => match value.text(o) {
                    Ok(text) => Ok(count_value(text.len())),
                    Err(e) => Err(e),
                },
            },
            Function::Concat => match texts_in_a_row(args, args.len() as int, o) {
                Ok(text) => Ok(Value::String(text)),
                Err(e) => Err(e),
            },
            Function::TypeOf => Ok(Value::String(args[0].type_label())),
            Function::Upper => match args[0].text(o) {
                Ok(text) => Ok(Value::String(uppercase_of(text))),
                Err(e) => Err(e),
            },
            Function::Lower => match args[0].text(o) {
                Ok(text) => Ok(Value::String(lowercase_of(text))),
                Err(e) => Err(e),
            },
            Function::Coalesce => Ok(first_truthy(args, 0)),
        }
    }

    /// What a call of the function gives: an arity error where the number of
    /// arguments is not one that it takes, else its result.
    pub open spec fn outcome(self, args: Seq<Value>, o: Oracles) -> Result<Value, CallErrorView> {
        if self.arity_view().accepts(args.len()) {
            self.result(args, o)
        } else {
            Err(CallErrorView::InvalidArity { expected: self.arity_view(), got: args.len() })
        }
    }

    /// How many arguments the function takes.
    pub fn arity(self) -> (arity: Arity)
        ensures
            arity@ == self.arity_view(),
    {
        match self {
            Function::Negation | Function::Length | Function::TypeOf | Function::Upper
            | Function::Lower => Arity::Strict(1),
            Function::Concat | Function::Coalesce => Arity::Min(1),
            _ => Arity::Strict(2),
        }
    }
}

impl Function {
    /// The name under which the function is registered.
    pub open spec fn name_text(self) -> Seq<char> {
        match self {
            Function::Plus => "add"@,
            Function::Minus => "sub"@,
            Function::Times => "mul"@,
            Function::Over => "div"@,
            Function::FloorOver => "idiv"@,
            Function::Equal => "eq"@,
            Function::Unequal => "ne"@,
            Function::Less => "lt"@,
            Function::LessOrEqual => "le"@,
            Function::Greater => "gt"@,
            Function::GreaterOrEqual => "ge"@,
            Function::Both => "and"@,
            Function::Either => "or"@,
            Function::Negation => "not"@,
            Function::Length => "len"@,
            Function::Concat => "concat"@,
            Function::TypeOf => "typeof"@,
            Function::Upper => "upper"@,
            Function::Lower => "lower"@,
            Function::Coalesce => "coalesce"@,
        }
    }

    /// The name under which the function is registered.
    pub fn name(self) -> (name: &'static str)
        ensures
            name@ == self.name_text(),
    {
        match self {
            Function::Plus => "add",
            Function::Minus => "sub",
            Function::Times => "mul",
            Function::Over => "div",
            Function::FloorOver => "idiv",
            Function::Equal => "eq",
            Function::Unequal => "ne",
            Function::Less => "lt",
            Function::LessOrEqual => "le",
            Function::Greater => "gt",
            Function::GreaterOrEqual => "ge",
            Function::Both => "and",
            Function::Either => "or",
            Function::Negation => "not",
            Function::Length => "len",
            Function::Concat => "concat",
            Function::TypeOf => "typeof",
            Function::Upper => "upper",
            Function::Lower => "lower",
            Function::Coalesce => "coalesce",
        }
    }
}

/// Each function is registered under its own name, and under no other.
pub proof fn lemma_registered_under_its_name(function: Function, name: Seq<char>)
    ensures
        registered(function.name_text()) == Some(function),
        registered(name) == Some(function) ==> name == function.name_text(),
{
    reveal_strlit("add");
    reveal_strlit("sub");
    reveal_strlit("mul");
    reveal_strlit("div");
    reveal_strlit("idiv");
    reveal_strlit("eq");
    reveal_strlit("ne");
    reveal_strlit("lt");
    reveal_strlit("le");
    reveal_strlit("gt");
    reveal_strlit("ge");
    reveal_strlit("and");
    reveal_strlit("or");
    reveal_strlit("not");
    reveal_strlit("len");
    reveal_strlit("concat");
    reveal_strlit("typeof");
    reveal_strlit("upper");
    reveal_strlit("lower");
    reveal_strlit("coalesce");
    assert("add"@ =~= seq!['a', 'd', 'd']);
    assert("sub"@ =~= seq!['s', 'u', 'b']);
    assert("mul"@ =~= seq!['m', 'u', 'l']);
    assert("div"@ =~= seq!['d', 'i', 'v']);
    assert("idiv"@ =~= seq!['i', 'd', 'i', 'v']);
    assert("eq"@ =~= seq!['e', 'q']);
    assert("ne"@ =~= seq!['n', 'e']);
    assert("lt"@ =~= seq!['l', 't']);
    assert("le"@ =~= seq!['l', 'e']);
    assert("gt"@ =~= seq!['g', 't']);
    assert("ge"@ =~= seq!['g', 'e']);
    assert("and"@ =~= seq!['a', 'n', 'd']);
    assert("or"@ =~= seq!['o', 'r']);
    assert("not"@ =~= seq!['n', 'o', 't']);
    assert("len"@ =~= seq!['l', 'e', 'n']);
    assert("concat"@ =~= seq!['c', 'o', 'n', 'c', 'a', 't']);
    assert("typeof"@ =~= seq!['t', 'y', 'p', 'e', 'o', 'f']);
    assert("upper"@ =~= seq!['u', 'p', 'p', 'e', 'r']);
    assert("lower"@ =~= seq!['l', 'o', 'w', 'e', 'r']);
    assert("coalesce"@ =~= seq!['c', 'o', 'a', 'l', 'e', 's', 'c', 'e']);
    if registered(name) == Some(function) {
        assert(name == function.name_text());
    }
}

/// The function that is registered under a name, if there is one.
pub open spec fn registered(name: Seq<char>) -> Option<Function> {
    if name == "add"@ {
        Some(Function::Plus)
    } else if name == "sub"@ {
        Some(Function::Minus)
    } else if name == "mul"@ {
        Some(Function::Times)
    } else if name == "div"@ {
        Some(Function::Over)
    } else if name == "idiv"@ {
        Some(Function::FloorOver)
    } else if name == "eq"@ {
        Some(Function::Equal)
    } else if name == "ne"@ {
        Some(Function::Unequal)
    } else if name == "lt"@ {
        Some(Function::Less)
    } else if name == "le"@ {
        Some(Function::LessOrEqual)
    } else if name == "gt"@ {
        Some(Function::Greater)
    } else if name == "ge"@ {
        Some(Function::GreaterOrEqual)
    } else if name == "and"@ {
        Some(Function::Both)
    } else if name == "or"@ {
        Some(Function::Either)
    } else if name == "not"@ {
        Some(Function::Negation)
    } else if name == "len"@ {
        Some(Function::Length)
    } else if name == "concat"@ {
        Some(Function::Concat)
    } else if name == "typeof"@ {
        Some(Function::TypeOf)
    } else if name == "upper"@ {
        Some(Function::Upper)
    } else if name == "lower"@ {
        Some(Function::Lower)
    } else if name == "coalesce"@ {
        Some(Function::Coalesce)
    } else {
        None
    }
}

/// Looks a function up by its name.
pub fn get_function(name: &str) -> (r: Option<Function>)
    ensures
        r == registered(name@),
{
    if same_text(name, "add") {
        Some(Function::Plus)
    } else if same_text(name, "sub") {
        Some(Function::Minus)
    } else if same_text(name, "mul") {
        Some(Function::Times)
    } else if same_text(name, "div") {
        Some(Function::Over)
    } else if same_text(name, "idiv") {
        Some(Function::FloorOver)
    } else if same_text(name, "eq") {
        Some(Function::Equal)
    } else if same_text(name, "ne") {
        Some(Function::Unequal)
    } else if same_text(name, "lt") {
        Some(Function::Less)
    } else if same_text(name, "le") {
        Some(Function::LessOrEqual)
    } else if same_text(name, "gt") {
        Some(Function::Greater)
    } else if same_text(name, "ge") {
        Some(Function::GreaterOrEqual)
    } else if same_text(name, "and") {
        Some(Function::Both)
    } else if same_text(name, "or") {
        Some(Function::Either)
    } else if same_text(name, "not") {
        Some(Function::Negation)
    } else if same_text(name, "len") {
        Some(Function::Length)
    } else if same_text(name, "concat") {
        Some(Function::Concat)
    } else if same_text(name, "typeof") {
        Some(Function::TypeOf)
    } else if same_text(name, "upper") {
        Some(Function::Upper)
    } else if same_text(name, "lower") {
        Some(Function::Lower)
    } else if same_text(name, "coalesce") {
        Some(Function::Coalesce)
    } else {
        None
    }
}

/// The outcome of a call, as plain values.
pub open spec fn value_outcome(r: Result<DynamicValue, CallError>) -> Result<Value, CallErrorView> {
    match r {
        Ok(value) => Ok(value@),
        Err(e) => Err(e@),
    }
}

/// The number that a value converts to.
pub fn number_of<
    A: Fn(FloatOp, Float64, Float64) -> Float64,
    P: Fn(&str) -> Option<Float64>,
    F: Fn(Float64) -> String,
>(value: &DynamicValue, ops: &FloatOps<A, P, F>) -> (r: Result<DynamicNumber, CallError>)
    requires
        ops.pure(),
    ensures
        outcome(r) == value@.number(ops.oracles()),
{
    match value {
        DynamicValue::String(text) => {
            let float_read = ops.read(text.as_str());
            value.number_from(float_read)
        },
        _ => value.number_from(None),
    }
}

/// The text that a value converts to.
pub fn text_of<
    A: Fn(FloatOp, Float64, Float64) -> Float64,
    P: Fn(&str) -> Option<Float64>,
    F: Fn(Float64) -> String,
>(value: &DynamicValue, ops: &FloatOps<A, P, F>) -> (r: Result<String, CallError>)
    requires
        ops.pure(),
    ensures
        match r {
            Ok(text) => value@.text(ops.oracles()) == Ok::<Seq<char>, CallErrorView>(text@),
            Err(e) => value@.text(ops.oracles()) == Err::<Seq<char>, CallErrorView>(e@),
        },
{
    let float_text = match value {
        DynamicValue::Float(number) => ops.write(*number),
        _ => String::new(),
    };
    match value.text_from(float_text) {
        Ok(text) => Ok(crate::convert::text_into_owned(text)),
        Err(e) => Err(e),
    }
}

/// The value of a number.
pub fn value_of(number: DynamicNumber) -> (value: DynamicValue)
    ensures
        value@ == Value::of_number(number),
{
    match number {
        DynamicNumber::Integer(v) => DynamicValue::Integer(v),
        DynamicNumber::Float(f) => DynamicValue::Float(f),
    }
}

/// Computes an operation on two numbers.
pub fn compute<
    A: Fn(FloatOp, Float64, Float64) -> Float64,
    P: Fn(&str) -> Option<Float64>,
    F: Fn(Float64) -> String,
>(op: FloatOp, a: DynamicNumber, b: DynamicNumber, ops: &FloatOps<A, P, F>) -> (r: DynamicNumber)
    requires
        ops.pure(),
    ensures
        r == arithmetic(op, a, b, ops.oracles()),
{
    match (op, a, b) {
        (FloatOp::Add, DynamicNumber::Integer(x), DynamicNumber::Integer(y)) => {
            DynamicNumber::Integer(x.wrapping_add(y))
        },
        (FloatOp::Sub, DynamicNumber::Integer(x), DynamicNumber::Integer(y)) => {
            DynamicNumber::Integer(x.wrapping_sub(y))
        },
        (FloatOp::Mul, DynamicNumber::Integer(x), DynamicNumber::Integer(y)) => {
            DynamicNumber::Integer(x.wrapping_mul(y))
        },
        _ => DynamicNumber::Float(ops.compute(op, a.to_float(), b.to_float())),
    }
}

/// Computes the floor of the quotient of two numbers.
pub fn compute_floor_division<
    A: Fn(FloatOp, Float64, Float64) -> Float64,
    P: Fn(&str) -> Option<Float64>,
    F: Fn(Float64) -> String,
>(a: DynamicNumber, b: DynamicNumber, ops: &FloatOps<A, P, F>) -> (r: DynamicNumber)
    requires
        ops.pure(),
    ensures
        r == floor_division(a, b, ops.oracles()),
{
    match (a, b) {
        (DynamicNumber::Integer(x), DynamicNumber::Integer(y)) if y != 0 => {
            DynamicNumber::Integer(floor_divide(x, y))
        },
        _ => {
            let quotient = ops.compute(FloatOp::Div, a.to_float(), b.to_float());
            DynamicNumber::Integer(quotient.floor_to_i64())
        },
    }
}

/// A count as a value.
pub fn count(n: usize) -> (value: DynamicValue)
    ensures
        value@ == count_value(n as nat),
{
    if n as u64 > i64::MAX as u64 {
        DynamicValue::Integer(i64::MAX)
    } else {
        DynamicValue::Integer(n as i64)
    }
}

/// The numbers that the two arguments of a call convert to.
fn two_numbers_of<
    A: Fn(FloatOp, Float64, Float64) -> Float64,
    P: Fn(&str) -> Option<Float64>,
    F: Fn(Float64) -> String,
>(args: &BoundArguments, ops: &FloatOps<A, P, F>) -> (r: Result<
    (DynamicNumber, DynamicNumber),
    CallError,
>)
    requires
        ops.pure(),
        args@.len() == 2,
    ensures
        outcome(r) == two_numbers(args@, ops.oracles()),
{
    let a = match number_of(bound_value(args.get(0).unwrap()), ops) {
        Ok(number) => number,
        Err(e) => {
            return Err(e);
        },
    };
    let b = match number_of(bound_value(args.get(1).unwrap()), ops) {
        Ok(number) => number,
        Err(e) => {
            return Err(e);
        },
    };
    Ok((a, b))
}

/// The texts of the arguments of a call, one after the other.
fn texts_of<
    A: Fn(FloatOp, Float64, Float64) -> Float64,
    P: Fn(&str) -> Option<Float64>,
    F: Fn(Float64) -> String,
>(args: &BoundArguments, ops: &FloatOps<A, P, F>) -> (r: Result<String, CallError>)
    requires
        ops.pure(),
    ensures
        match r {
            Ok(text) => texts_in_a_row(args@, args@.len() as int, ops.oracles()) == Ok::<
                Seq<char>,
                CallErrorView,
            >(text@),
            Err(e) => texts_in_a_row(args@, args@.len() as int, ops.oracles()) == Err::<
                Seq<char>,
                CallErrorView,
            >(e@),
        },
{
    let mut row = String::new();
    let mut i: usize = 0;
    let n = args.len();
    while i < n
        invariant
            ops.pure(),
            n == args@.len(),
            i <= n,
            texts_in_a_row(args@, i as int, ops.oracles()) == Ok::<Seq<char>, CallErrorView>(row@),
        decreases n - i,
    {
        match text_of(bound_value(args.get(i).unwrap()), ops) {
            Ok(text) => {
                row.append(text.as_str());
            },
            Err(e) => {
                proof {
                    lemma_texts_fail_for_good(args@, i + 1, n as int, ops.oracles());
                }
                return Err(e);
            },
        }
        i = i + 1;
    }
    Ok(row)
}

/// Once one argument converts to no text, no longer row of them does.
proof fn lemma_texts_fail_for_good(args: Seq<Value>, failed: int, upto: int, o: Oracles)
    requires
        failed <= upto,
        texts_in_a_row(args, failed, o) is Err,
    ensures
        texts_in_a_row(args, upto, o) == texts_in_a_row(args, failed, o),
    decreases upto - failed,
{
    if failed < upto {
        lemma_texts_fail_for_good(args, failed, upto - 1, o);
    }
}

/// The first of the arguments of a call that counts as true.
fn first_truthy_of(args: &BoundArguments) -> (value: DynamicValue)
    ensures
        value@ == first_truthy(args@, 0),
{
    let mut i: usize = 0;
    let n = args.len();
    while i < n
        invariant
            n == args@.len(),
            i <= n,
            first_truthy(args@, 0) == first_truthy(args@, i as int),
        decreases n - i,
    {
        let value = bound_value(args.get(i).unwrap());
        if value.is_truthy() {
            return value.clone();
        }
        i = i + 1;
    }
    DynamicValue::Null
}

/// Calls a function on the arguments bound for it. The number of arguments
/// is checked before any of them is looked at.
pub fn call<
    A: Fn(FloatOp, Float64, Float64) -> Float64,
    P: Fn(&str) -> Option<Float64>,
    F: Fn(Float64) -> String,
>(function: Function, args: &BoundArguments, ops: &FloatOps<A, P, F>) -> (r: Result<
    DynamicValue,
    CallError,
>)
    requires
        ops.pure(),
    ensures
        value_outcome(r) == function.outcome(args@, ops.oracles()),
{
    let arity = function.arity();
    if !arity.check(args.len()) {
        return Err(CallError::InvalidArity(InvalidArity { expected: arity, got: args.len() }));
    }
    match function {
        Function::Plus => match two_numbers_of(args, ops) {
            Ok((a, b)) => Ok(value_of(compute(FloatOp::Add, a, b, ops))),
            Err(e) => Err(e),
        },
        Function::Minus => match two_numbers_of(args, ops) {
            Ok((a, b)) => Ok(value_of(compute(FloatOp::Sub, a, b, ops))),
            Err(e) => Err(e),
        },
        Function::Times => match two_numbers_of(args, ops) {
            Ok((a, b)) => Ok(value_of(compute(FloatOp::Mul, a, b, ops))),
            Err(e) => Err(e),
        },
        Function::Over => match two_numbers_of(args, ops) {
            Ok((a, b)) => Ok(value_of(compute(FloatOp::Div, a, b, ops))),
            Err(e) => Err(e),
        },
        Function::FloorOver => match two_numbers_of(args, ops) {
            Ok((a, b)) => Ok(value_of(compute_floor_division(a, b, ops))),
            Err(e) => Err(e),
        },
        Function::Equal => match two_numbers_of(args, ops) {
            Ok((a, b)) => Ok(DynamicValue::Boolean(a == b)),
            Err(e) => Err(e),
        },
        Function::Unequal => match two_numbers_of(args, ops) {
            Ok((a, b)) => Ok(DynamicValue::Boolean(!(a == b))),
            Err(e) => Err(e),
        },
        Function::Less => match two_numbers_of(args, ops) {
            Ok((a, b)) => Ok(DynamicValue::Boolean(a.is_below(&b))),
            Err(e) => Err(e),
        },
        Function::LessOrEqual => match two_numbers_of(args, ops) {
            Ok((a, b)) => Ok(DynamicValue::Boolean(a.is_at_most(&b))),
            Err(e) => Err(e),
        },
        Function::Greater => match two_numbers_of(args, ops) {
            Ok((a, b)) => Ok(DynamicValue::Boolean(b.is_below(&a))),
            Err(e) => Err(e),
        },
        Function::GreaterOrEqual => match two_numbers_of(args, ops) {
            Ok((a, b)) => Ok(DynamicValue::Boolean(b.is_at_most(&a))),
            Err(e) => Err(e),
        },
        Function::Both => {
            let a = bound_value(args.get(0).unwrap()).is_truthy();
            let b = bound_value(args.get(1).unwrap()).is_truthy();
            Ok(DynamicValue::Boolean(a && b))
        },
        Function::Either => {
            let a = bound_value(args.get(0).unwrap()).is_truthy();
            let b = bound_value(args.get(1).unwrap()).is_truthy();
            Ok(DynamicValue::Boolean(a || b))
        },
        Function::Negation => Ok(
            DynamicValue::Boolean(!bound_value(args.get(0).unwrap()).is_truthy()),
        ),
        Function::Length => {
            let value = bound_value(args.get(0).unwrap());
            match value {
                DynamicValue::List(list) => {
                    proof {
                        crate::value::lemma_view_of_list(*list);
                    }
                    Ok(count(list.len()))
                },
                _ => match text_of(value, ops) {
                    Ok(text) => Ok(count(text.as_str().unicode_len())),
                    Err(e) => Err(e),
                },
            }
        },
        Function::Concat => match texts_of(args, ops) {
            Ok(text) => Ok(DynamicValue::String(text)),
            Err(e) => Err(e),
        },
        Function::TypeOf => Ok(
            DynamicValue::String(bound_value(args.get(0).unwrap()).type_of().to_owned()),
        ),
        Function::Upper => match text_of(bound_value(args.get(0).unwrap()), ops) {
            Ok(text) => Ok(DynamicValue::String(to_uppercase(text.as_str()))),
            Err(e) => Err(e),
        },
        Function::Lower => match text_of(bound_value(args.get(0).unwrap()), ops) {
            Ok(text) => Ok(DynamicValue::String(to_lowercase(text.as_str()))),
            Err(e) => Err(e),
        },
        Function::Coalesce => Ok(first_truthy_of(args)),
    }
}

} // verus!

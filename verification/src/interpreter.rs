//! Binding an expression to a header row, once, and evaluating it against
//! each row.
//!
//! Binding replaces the names of columns by their offsets in the header row
//! and the names of functions by the functions, and checks that each call
//! gives a number of arguments that its function takes. What is bound is a
//! program: evaluating it on a row changes nothing in it, and gives a value
//! or the first error of a call, which names the function that was called.

use crate::bound::{BoundArgument, BoundArguments};
use crate::column::{lemma_points_at_one, ColumIndexationBy, Selector};
use crate::error::{
    CallErrorView,
    EvaluationError,
    EvaluationErrorView,
    InvalidArity,
    PrepareError,
    PrepareErrorView,
};
use crate::float::Float64;
use crate::floats::{FloatOp, FloatOps, Oracles};
use crate::functions::{call, get_function, registered, Function};
use crate::parser::{lemma_shape_of_call, same_text, shapes, Argument, Ast};
use crate::pattern::{compiles, Pattern};
use crate::record::record_fields;
use crate::value::{DynamicValue, Value};
use std::borrow::Cow;
use vstd::prelude::*;
use vstd::utf8::{decode_utf8, encode_utf8, valid_utf8};

verus! {

/// The text that a run of bytes is read as, as `String::from_utf8_lossy` of
/// the standard library reads it.
pub uninterp spec fn lossy_text(bytes: Seq<u8>) -> Seq<char>;

/// `String::from_utf8_lossy`: the text that the bytes encode, where they
/// encode one; for other bytes nothing is claimed here but that the same
/// bytes always read as the same text.
#[verifier::external_body]
fn read_cell(bytes: &[u8]) -> (text: String)
    ensures
        text@ == lossy_text(bytes@),
        valid_utf8(bytes@) ==> text@ == decode_utf8(bytes@),
{
    String::from_utf8_lossy(bytes).into_owned()
}

/// An expression bound to a header row.
#[derive(Debug)]
pub enum ConcreteArgument {
    /// The cell of the row at this offset.
    Column(usize),
    /// A value that is the same for every row.
    Literal(DynamicValue),
    /// A call of a function.
    Call(ConcreteCall),
}

/// A call of a function, bound.
#[derive(Debug)]
pub struct ConcreteCall {
    /// The function that is called.
    pub function: Function,
    /// What is handed to it, left to right.
    pub args: Vec<ConcreteArgument>,
}

/// What a bound expression is, apart from how it is held.
pub enum Plan {
    Column(nat),
    Literal(Value),
    Call(Function, Seq<Plan>),
}

impl ConcreteArgument {
    /// What this bound expression is.
    pub open spec fn model(self) -> Plan
        decreases self,
    {
        match self {
            ConcreteArgument::Column(offset) => Plan::Column(offset as nat),
            ConcreteArgument::Literal(value) => Plan::Literal(value@),
            ConcreteArgument::Call(call) => Plan::Call(
                call.function,
                Seq::new(
                    call.args@.len(),
                    |i: int|
                        if 0 <= i < call.args@.len() {
                            call.args@[i].model()
                        } else {
                            Plan::Column(0)
                        },
                ),
            ),
        }
    }
}

impl View for ConcreteArgument {
    type V = Plan;

    open spec fn view(&self) -> Plan {
        self.model()
    }
}

/// What each of the bound expressions is.
pub open spec fn plans(args: Seq<ConcreteArgument>) -> Seq<Plan> {
    Seq::new(args.len(), |i: int| args[i]@)
}

/// A bound call is the call of its function on what its operands are.
pub proof fn lemma_plan_of_call(call: ConcreteCall)
    ensures
        ConcreteArgument::Call(call)@ == Plan::Call(call.function, plans(call.args@)),
{
    assert(ConcreteArgument::Call(call)@->Call_1 =~= plans(call.args@));
}

/// The column that a selector resolves to in a header row, or the error
/// that it resolves to none.
pub open spec fn resolved(selector: Selector, header: Seq<Seq<u8>>) -> Result<
    Plan,
    PrepareErrorView,
> {
    if selector.resolves(header) {
        Ok(Plan::Column((choose|offset: int| selector.points_at(header, offset)) as nat))
    } else {
        Err(PrepareErrorView::ColumnNotFound(selector))
    }
}

/// The bound call of a function on bound operands, or the error of the
/// first operand that could not be bound.
pub open spec fn call_of(function: Function, operands: Result<Seq<Plan>, PrepareErrorView>) -> Result<
    Plan,
    PrepareErrorView,
> {
    match operands {
        Ok(bound) => Ok(Plan::Call(function, bound)),
        Err(e) => Err(e),
    }
}

/// The operands bound before and one more, or the first error: that of the
/// operands before, where one of them could not be bound, else that of the
/// last.
pub open spec fn one_more(
    before: Result<Seq<Plan>, PrepareErrorView>,
    last: Result<Plan, PrepareErrorView>,
) -> Result<Seq<Plan>, PrepareErrorView> {
    match before {
        Err(e) => Err(e),
        Ok(bound) => match last {
            Ok(plan) => Ok(bound.push(plan)),
            Err(e) => Err(e),
        },
    }
}

impl Ast {
    /// Whether `r` is the outcome of binding this expression to a header
    /// row. A literal is bound to its value; a pattern to itself where it
    /// compiles, and to an error where it does not. A name is bound to the
    /// first column of that name. A call of `col` is bound to the column that
    /// its operands select. Any other call is bound to the function of its
    /// name, if there is one and it takes as many arguments as the call
    /// gives, on the operands as they are bound from left to right.
    pub open spec fn prepares_to(
        self,
        header: Seq<Seq<u8>>,
        r: Result<Plan, PrepareErrorView>,
    ) -> bool
        decreases self, 0nat,
    {
        match self {
            Ast::StringLiteral(text) => r == Ok::<Plan, PrepareErrorView>(
                Plan::Literal(Value::String(text)),
            ),
            Ast::FloatLiteral(number) => r == Ok::<Plan, PrepareErrorView>(
                Plan::Literal(Value::Float(number)),
            ),
            Ast::IntegerLiteral(number) => r == Ok::<Plan, PrepareErrorView>(
                Plan::Literal(Value::Integer(number as int)),
            ),
            Ast::BooleanLiteral(truth) => r == Ok::<Plan, PrepareErrorView>(
                Plan::Literal(Value::Boolean(truth)),
            ),
            Ast::RegexLiteral(source) => r == (if compiles(source) {
                Ok::<Plan, PrepareErrorView>(Plan::Literal(Value::Regex(source)))
            } else {
                Err::<Plan, PrepareErrorView>(PrepareErrorView::InvalidPattern(source))
            }),
            Ast::Identifier(name) => r == resolved(Selector::Name(name), header),
            Ast::Call(name, args) => {
                if name == "col"@ {
                    r == match Selector::from_arguments(args) {
                        Some(selector) => resolved(selector, header),
                        None => Err(PrepareErrorView::InvalidSelector),
                    }
                } else {
                    match registered(name) {
                        None => r == Err::<Plan, PrepareErrorView>(
                            PrepareErrorView::UnknownFunction(name),
                        ),
                        Some(function) => {
                            if !function.arity_view().accepts(args.len()) {
                                r == Err::<Plan, PrepareErrorView>(
                                    PrepareErrorView::InvalidArity {
                                        name,
                                        expected: function.arity_view(),
                                        got: args.len(),
                                    },
                                )
                            } else {
                                exists|operands: Result<Seq<Plan>, PrepareErrorView>|
                                    #![trigger call_of(function, operands)]
                                    first_prepare_to(args, args.len() as int, header, operands)
                                        && r == call_of(function, operands)
                            }
                        },
                    }
                }
            },
        }
    }
}

/// Whether `r` is an outcome of binding the first `upto` of `args`, one
/// after the other: all of them bound, or the error of the first that could
/// not be.
pub open spec fn first_prepare_to(
    args: Seq<Ast>,
    upto: int,
    header: Seq<Seq<u8>>,
    r: Result<Seq<Plan>, PrepareErrorView>,
) -> bool
    decreases args, upto,
{
    if upto <= 0 || upto > args.len() {
        r == Ok::<Seq<Plan>, PrepareErrorView>(Seq::empty())
    } else {
        exists|before: Result<Seq<Plan>, PrepareErrorView>, last: Result<Plan, PrepareErrorView>|
            #![trigger one_more(before, last)]
            first_prepare_to(args, upto - 1, header, before) && (before is Ok ==> args[upto
                - 1].prepares_to(header, last)) && r == one_more(before, last)
    }
}

/// Binding one operand more, after those that were bound, gives one bound
/// operand more, or its error.
pub proof fn lemma_prepare_one_more(
    args: Seq<Ast>,
    upto: int,
    header: Seq<Seq<u8>>,
    bound: Seq<Plan>,
    last: Result<Plan, PrepareErrorView>,
)
    requires
        0 < upto <= args.len(),
        first_prepare_to(args, upto - 1, header, Ok(bound)),
        args[upto - 1].prepares_to(header, last),
    ensures
        first_prepare_to(args, upto, header, one_more(Ok(bound), last)),
{
}

/// Once one operand could not be bound, its error is the outcome for every
/// longer row of operands.
pub proof fn lemma_prepare_fails_for_good(
    args: Seq<Ast>,
    failed: int,
    upto: int,
    header: Seq<Seq<u8>>,
    e: PrepareErrorView,
)
    requires
        0 < failed <= upto <= args.len(),
        first_prepare_to(args, failed, header, Err(e)),
    ensures
        first_prepare_to(args, upto, header, Err(e)),
    decreases upto - failed,
{
    if failed < upto {
        lemma_prepare_fails_for_good(args, failed, upto - 1, header, e);
        assert(one_more(
            Err::<Seq<Plan>, PrepareErrorView>(e),
            Err::<Plan, PrepareErrorView>(e),
        ) == Err::<Seq<Plan>, PrepareErrorView>(e));
    }
}

/// An expression is bound in one way only: what it is bound to depends on
/// the expression and the header row alone.
pub proof fn lemma_prepare_is_a_function(
    ast: Ast,
    header: Seq<Seq<u8>>,
    a: Result<Plan, PrepareErrorView>,
    b: Result<Plan, PrepareErrorView>,
)
    requires
        ast.prepares_to(header, a),
        ast.prepares_to(header, b),
    ensures
        a == b,
    decreases ast, 0nat,
{
    match ast {
        Ast::Call(name, args) => {
            let found = registered(name);
            if name != "col"@ && found is Some && found.unwrap().arity_view().accepts(args.len()) {
                let function = found.unwrap();
                let first = choose|operands: Result<Seq<Plan>, PrepareErrorView>|
                    #![trigger call_of(function, operands)]
                    first_prepare_to(args, args.len() as int, header, operands) && a == call_of(
                        function,
                        operands,
                    );
                let second = choose|operands: Result<Seq<Plan>, PrepareErrorView>|
                    #![trigger call_of(function, operands)]
                    first_prepare_to(args, args.len() as int, header, operands) && b == call_of(
                        function,
                        operands,
                    );
                lemma_first_prepare_is_a_function(args, args.len() as int, header, first, second);
            }
        },
        _ => {},
    }
}

/// Operands are bound in one way only.
pub proof fn lemma_first_prepare_is_a_function(
    args: Seq<Ast>,
    upto: int,
    header: Seq<Seq<u8>>,
    a: Result<Seq<Plan>, PrepareErrorView>,
    b: Result<Seq<Plan>, PrepareErrorView>,
)
    requires
        first_prepare_to(args, upto, header, a),
        first_prepare_to(args, upto, header, b),
    ensures
        a == b,
    decreases args, upto,
{
    if 0 < upto <= args.len() {
        let (before_a, last_a) = choose|
            before: Result<Seq<Plan>, PrepareErrorView>,
            last: Result<Plan, PrepareErrorView>,
        |
            #![trigger one_more(before, last)]
            first_prepare_to(args, upto - 1, header, before) && (before is Ok ==> args[upto
                - 1].prepares_to(header, last)) && a == one_more(before, last);
        let (before_b, last_b) = choose|
            before: Result<Seq<Plan>, PrepareErrorView>,
            last: Result<Plan, PrepareErrorView>,
        |
            #![trigger one_more(before, last)]
            first_prepare_to(args, upto - 1, header, before) && (before is Ok ==> args[upto
                - 1].prepares_to(header, last)) && b == one_more(before, last);
        lemma_first_prepare_is_a_function(args, upto - 1, header, before_a, before_b);
        if before_a is Ok {
            lemma_prepare_is_a_function(args[upto - 1], header, last_a, last_b);
        }
    }
}

/// The outcome of binding, as plain values.
pub open spec fn plan_outcome(r: Result<ConcreteArgument, PrepareError>) -> Result<
    Plan,
    PrepareErrorView,
> {
    match r {
        Ok(bound) => Ok(bound@),
        Err(e) => Err(e@),
    }
}

/// Resolves a selector against a header row.
fn resolve(selector: ColumIndexationBy, headers: &csv::ByteRecord) -> (r: Result<
    ConcreteArgument,
    PrepareError,
>)
    ensures
        plan_outcome(r) == resolved(selector@, record_fields(*headers)),
{
    match selector.find_column_index(headers) {
        Some(offset) => {
            proof {
                let header = record_fields(*headers);
                let chosen = choose|offset: int| selector@.points_at(header, offset);
                lemma_points_at_one(selector@, header, offset as int, chosen);
            }
            Ok(ConcreteArgument::Column(offset))
        },
        None => Err(PrepareError::ColumnNotFound(selector)),
    }
}

/// Binds an expression to a header row.
pub fn concretize(ast: &Argument, headers: &csv::ByteRecord) -> (r: Result<
    ConcreteArgument,
    PrepareError,
>)
    ensures
        ast@.prepares_to(record_fields(*headers), plan_outcome(r)),
    decreases ast,
{
    match ast {
        Argument::StringLiteral(text) => Ok(
            ConcreteArgument::Literal(DynamicValue::String(text.clone())),
        ),
        Argument::FloatLiteral(number) => Ok(ConcreteArgument::Literal(DynamicValue::Float(*number))),
        Argument::IntegerLiteral(number) => Ok(
            ConcreteArgument::Literal(DynamicValue::Integer(*number)),
        ),
        Argument::BooleanLiteral(truth) => Ok(
            ConcreteArgument::Literal(DynamicValue::Boolean(*truth)),
        ),
        Argument::RegexLiteral(source) => match Pattern::new(source.as_str()) {
            Some(pattern) => Ok(ConcreteArgument::Literal(DynamicValue::Regex(pattern))),
            None => Err(PrepareError::InvalidPattern(source.clone())),
        },
        Argument::Identifier(name) => resolve(ColumIndexationBy::Name(name.clone()), headers),
        Argument::Call(function_call) => {
            proof {
                lemma_shape_of_call(*function_call);
            }
            if same_text(function_call.name.as_str(), "col") {
                return match ColumIndexationBy::from_arguments(&function_call.args) {
                    Some(selector) => resolve(selector, headers),
                    None => Err(PrepareError::InvalidSelector),
                };
            }
            let function = match get_function(function_call.name.as_str()) {
                Some(function) => function,
                None => {
                    return Err(PrepareError::UnknownFunction(function_call.name.clone()));
                },
            };
            let arity = function.arity();
            let n = function_call.args.len();
            if !arity.check(n) {
                return Err(
                    PrepareError::InvalidArity(
                        (function_call.name.clone(), InvalidArity { expected: arity, got: n }),
                    ),
                );
            }
            let ghost header = record_fields(*headers);
            let ghost operands = shapes(function_call.args@);
            let mut args: Vec<ConcreteArgument> = Vec::with_capacity(n);
            let mut i: usize = 0;
            assert(plans(args@) =~= Seq::<Plan>::empty());
            while i < n
                invariant
                    ast is Call && ast->Call_0 == *function_call,
                    ast@ == Ast::Call(function_call.name@, operands),
                    function_call.name@ != "col"@,
                    registered(function_call.name@) == Some(function),
                    function.arity_view().accepts(n as nat),
                    n == function_call.args@.len(),
                    header == record_fields(*headers),
                    operands == shapes(function_call.args@),
                    i <= n,
                    first_prepare_to(
                        operands,
                        i as int,
                        header,
                        Ok::<Seq<Plan>, PrepareErrorView>(plans(args@)),
                    ),
                decreases n - i,
            {
                assert(decreases_to!(function_call.args => function_call.args[i as int]));
                let ghost before = plans(args@);
                match concretize(&function_call.args[i], headers) {
                    Ok(bound) => {
                        let ghost plan = bound@;
                        args.push(bound);
                        proof {
                            assert(plans(args@) =~= before.push(plan));
                            lemma_prepare_one_more(
                                operands,
                                i + 1,
                                header,
                                before,
                                Ok::<Plan, PrepareErrorView>(plan),
                            );
                        }
                    },
                    Err(e) => {
                        proof {
                            lemma_prepare_one_more(
                                operands,
                                i + 1,
                                header,
                                before,
                                Err::<Plan, PrepareErrorView>(e@),
                            );
                            lemma_prepare_fails_for_good(operands, i + 1, n as int, header, e@);
                            assert(call_of(function, Err::<Seq<Plan>, PrepareErrorView>(e@))
                                == Err::<Plan, PrepareErrorView>(e@));
                        }
                        return Err(e);
                    },
                }
                i = i + 1;
            }
            let call = ConcreteCall { function, args };
            proof {
                lemma_plan_of_call(call);
                assert(call_of(function, Ok::<Seq<Plan>, PrepareErrorView>(plans(call.args@)))
                    == Ok::<Plan, PrepareErrorView>(ConcreteArgument::Call(call)@));
            }
            Ok(ConcreteArgument::Call(call))
        },
    }
}

/// The text of a cell: the text that its bytes encode, where they encode
/// one, and what they are read as with a mark at each place that encodes
/// nothing, where they do not.
pub open spec fn cell_text(bytes: Seq<u8>) -> Seq<char> {
    if valid_utf8(bytes) {
        decode_utf8(bytes)
    } else {
        lossy_text(bytes)
    }
}

/// A cell that holds the bytes of a text reads as that text.
pub proof fn lemma_cell_reads_its_text(text: Seq<char>)
    ensures
        cell_text(encode_utf8(text)) == text,
{
    vstd::utf8::encode_utf8_valid_utf8(text);
    vstd::utf8::encode_utf8_decode_utf8(text);
}

/// What a cell of a row is as a value: its text, and the absent value where
/// the row has no cell at that offset.
pub open spec fn cell_value(row: Seq<Seq<u8>>, offset: nat) -> Value {
    if offset < row.len() {
        Value::String(cell_text(row[offset as int]))
    } else {
        Value::Null
    }
}

/// The error of a call of a function.
pub open spec fn call_error(function: Function, reason: CallErrorView) -> EvaluationErrorView {
    EvaluationErrorView { function_name: function.name_text(), reason }
}

impl Plan {
    /// What the bound expression gives on a row: the value of a cell, a
    /// literal, or what a function gives for its operands, each evaluated
    /// on the row from left to right. The first error of a call is the
    /// outcome, and it names the function that was called.
    pub open spec fn value(self, row: Seq<Seq<u8>>, o: Oracles) -> Result<
        Value,
        EvaluationErrorView,
    >
        decreases self, 0nat,
    {
        match self {
            Plan::Column(offset) => Ok(cell_value(row, offset)),
            Plan::Literal(value) => Ok(value),
            Plan::Call(function, args) => match values_of(args, args.len() as int, row, o) {
                Err(e) => Err(e),
                Ok(values) => match function.outcome(values, o) {
                    Ok(value) => Ok(value),
                    Err(reason) => Err(call_error(function, reason)),
                },
            },
        }
    }
}

/// What the first `upto` of the bound expressions give on a row, or the
/// first error among them.
pub open spec fn values_of(args: Seq<Plan>, upto: int, row: Seq<Seq<u8>>, o: Oracles) -> Result<
    Seq<Value>,
    EvaluationErrorView,
>
    decreases args, upto,
{
    if upto <= 0 || upto > args.len() {
        Ok(Seq::empty())
    } else {
        match values_of(args, upto - 1, row, o) {
            Err(e) => Err(e),
            Ok(values) => match args[upto - 1].value(row, o) {
                Err(e) => Err(e),
                Ok(value) => Ok(values.push(value)),
            },
        }
    }
}

/// Once one operand fails, its error is the outcome for every longer row of
/// operands.
pub proof fn lemma_values_fail_for_good(
    args: Seq<Plan>,
    failed: int,
    upto: int,
    row: Seq<Seq<u8>>,
    o: Oracles,
)
    requires
        0 < failed <= upto <= args.len(),
        values_of(args, failed, row, o) is Err,
    ensures
        values_of(args, upto, row, o) == values_of(args, failed, row, o),
    decreases upto - failed,
{
    if failed < upto {
        lemma_values_fail_for_good(args, failed, upto - 1, row, o);
    }
}

/// What evaluating an expression on a row gives: a value of its own or one
/// that the program lends, or the error of a call.
pub type EvaluationResult<'a> = Result<BoundArgument<'a>, EvaluationError>;

/// The outcome of an evaluation, as plain values.
pub open spec fn evaluation_outcome(r: EvaluationResult) -> Result<Value, EvaluationErrorView> {
    match r {
        Ok(value) => Ok(value@),
        Err(e) => Err(e@),
    }
}

/// Evaluates a bound expression on a row.
pub fn evaluate_expression<
    'a,
    A: Fn(FloatOp, Float64, Float64) -> Float64,
    P: Fn(&str) -> Option<Float64>,
    F: Fn(Float64) -> String,
>(plan: &'a ConcreteArgument, row: &csv::ByteRecord, ops: &FloatOps<A, P, F>) -> (r:
    EvaluationResult<'a>)
    requires
        ops.pure(),
    ensures
        evaluation_outcome(r) == plan@.value(record_fields(*row), ops.oracles()),
    decreases plan,
{
    match plan {
        ConcreteArgument::Column(offset) => match row.get(*offset) {
            Some(cell) => Ok(Cow::Owned(DynamicValue::String(read_cell(cell)))),
            None => Ok(Cow::Owned(DynamicValue::Null)),
        },
        ConcreteArgument::Literal(value) => Ok(Cow::Borrowed(value)),
        ConcreteArgument::Call(bound_call) => {
            proof {
                lemma_plan_of_call(*bound_call);
            }
            let n = bound_call.args.len();
            let ghost operands = plans(bound_call.args@);
            let ghost cells = record_fields(*row);
            let mut args: BoundArguments<'a> = BoundArguments::with_capacity(n);
            let mut i: usize = 0;
            while i < n
                invariant
                    ops.pure(),
                    plan is Call && plan->Call_0 == *bound_call,
                    plan@ == Plan::Call(bound_call.function, operands),
                    operands == plans(bound_call.args@),
                    cells == record_fields(*row),
                    n == bound_call.args@.len(),
                    i <= n,
                    values_of(operands, i as int, cells, ops.oracles()) == Ok::<
                        Seq<Value>,
                        EvaluationErrorView,
                    >(args@),
                decreases n - i,
            {
                assert(decreases_to!(bound_call.args => bound_call.args[i as int]));
                match evaluate_expression(&bound_call.args[i], row, ops) {
                    Ok(value) => {
                        args.push(value);
                    },
                    Err(e) => {
                        proof {
                            lemma_values_fail_for_good(
                                operands,
                                i + 1,
                                n as int,
                                cells,
                                ops.oracles(),
                            );
                        }
                        return Err(e);
                    },
                }
                i = i + 1;
            }
            match call(bound_call.function, &args, ops) {
                Ok(value) => Ok(Cow::Owned(value)),
                Err(reason) => Err(
                    EvaluationError {
                        function_name: bound_call.function.name().to_owned(),
                        reason,
                    },
                ),
            }
        },
    }
}

/// An expression bound to a header row, ready to be evaluated on each row.
#[derive(Debug)]
pub struct Program {
    plan: ConcreteArgument,
}

impl View for Program {
    type V = Plan;

    closed spec fn view(&self) -> Plan {
        self.plan@
    }
}

/// Whether `r` is an outcome of binding an expression as a program. A name
/// on its own that is the name of a function stands for the call of that
/// function on the target column, where there is one; any other expression
/// is bound as it is.
pub open spec fn program_prepares_to(
    ast: Ast,
    header: Seq<Seq<u8>>,
    target: Option<usize>,
    r: Result<Plan, PrepareErrorView>,
) -> bool {
    if ast is Identifier && target is Some && registered(ast->Identifier_0) is Some {
        let name = ast->Identifier_0;
        let function = registered(name)->0;
        let offset = target->0;
        if offset >= header.len() {
            r == Err::<Plan, PrepareErrorView>(
                PrepareErrorView::ColumnNotFound(Selector::Pos(offset as nat)),
            )
        } else if !function.arity_view().accepts(1) {
            r == Err::<Plan, PrepareErrorView>(
                PrepareErrorView::InvalidArity {
                    name,
                    expected: function.arity_view(),
                    got: 1,
                },
            )
        } else {
            r == Ok::<Plan, PrepareErrorView>(
                Plan::Call(function, seq![Plan::Column(offset as nat)]),
            )
        }
    } else {
        ast.prepares_to(header, r)
    }
}

/// The outcome of binding a program, as plain values.
pub open spec fn program_outcome(r: Result<Program, PrepareError>) -> Result<
    Plan,
    PrepareErrorView,
> {
    match r {
        Ok(program) => Ok(program@),
        Err(e) => Err(e@),
    }
}

impl Program {
    /// Binds an expression to a header row. `target` is the offset of the
    /// column that a function named on its own is called on.
    pub fn prepare(ast: &Argument, headers: &csv::ByteRecord, target: Option<usize>) -> (r: Result<
        Program,
        PrepareError,
    >)
        ensures
            program_prepares_to(ast@, record_fields(*headers), target, program_outcome(r)),
    {
        match (ast, target) {
            (Argument::Identifier(name), Some(offset)) => {
                match get_function(name.as_str()) {
                    Some(function) => {
                        if offset >= headers.len() {
                            return Err(
                                PrepareError::ColumnNotFound(ColumIndexationBy::Pos(offset)),
                            );
                        }
                        let arity = function.arity();
                        if !arity.check(1) {
                            return Err(
                                PrepareError::InvalidArity(
                                    (name.clone(), InvalidArity { expected: arity, got: 1 }),
                                ),
                            );
                        }
                        let mut args: Vec<ConcreteArgument> = Vec::new();
                        args.push(ConcreteArgument::Column(offset));
                        let bound_call = ConcreteCall { function, args };
                        proof {
                            lemma_plan_of_call(bound_call);
                            assert(plans(bound_call.args@) =~= seq![Plan::Column(offset as nat)]);
                        }
                        return Ok(Program { plan: ConcreteArgument::Call(bound_call) });
                    },
                    None => {},
                }
            },
            _ => {},
        }
        match concretize(ast, headers) {
            Ok(plan) => Ok(Program { plan }),
            Err(e) => Err(e),
        }
    }

    /// Evaluates the program on a row. The program is not changed, and the
    /// outcome depends on the row alone.
    pub fn evaluate<
        'a,
        A: Fn(FloatOp, Float64, Float64) -> Float64,
        P: Fn(&str) -> Option<Float64>,
        F: Fn(Float64) -> String,
    >(&'a self, row: &csv::ByteRecord, ops: &FloatOps<A, P, F>) -> (r: EvaluationResult<'a>)
        requires
            ops.pure(),
        ensures
            evaluation_outcome(r) == self@.value(record_fields(*row), ops.oracles()),
    {
        evaluate_expression(&self.plan, row, ops)
    }
}

} // verus!

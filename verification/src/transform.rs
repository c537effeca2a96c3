//! Rewriting one column of a table, row by row, with what a program gives
//! for each row, and deciding what becomes of a row whose evaluation failed.

use crate::error::EvaluationErrorView;
use crate::float::Float64;
use crate::floats::{float_text, writes_purely, FloatOp, FloatOps, Oracles};
use crate::interpreter::{evaluation_outcome, EvaluationResult, Plan, Program};
use crate::parser::same_text;
use crate::record::record_fields;
use crate::value::{held_bytes, join, writes_float, Value};
use vstd::prelude::*;
use vstd::utf8::encode_utf8;

verus! {

/// What to do when the evaluation of a row fails.
#[derive(Debug, Clone, Copy, PartialEq, Eq, Structural)]
pub enum ErrorPolicy {
    /// Stop at the first error.
    Panic,
    /// Write the error in a column of its own, and go on.
    Report,
    /// Write nothing for the row's result, and go on.
    Ignore,
    /// Tell of the error on the side, write nothing for the row's result,
    /// and go on.
    Log,
}

impl ErrorPolicy {
    /// The policy of a name, if it names one.
    pub open spec fn named(name: Seq<char>) -> Option<ErrorPolicy> {
        if name == "panic"@ {
            Some(ErrorPolicy::Panic)
        } else if name == "report"@ {
            Some(ErrorPolicy::Report)
        } else if name == "ignore"@ {
            Some(ErrorPolicy::Ignore)
        } else if name == "log"@ {
            Some(ErrorPolicy::Log)
        } else {
            None
        }
    }

    /// The policy that `name` names: `panic`, `report`, `ignore` or `log`.
    pub fn from_name(name: &str) -> (r: Option<ErrorPolicy>)
        ensures
            r == ErrorPolicy::named(name@),
    {
        if same_text(name, "panic") {
            Some(ErrorPolicy::Panic)
        } else if same_text(name, "report") {
            Some(ErrorPolicy::Report)
        } else if same_text(name, "ignore") {
            Some(ErrorPolicy::Ignore)
        } else if same_text(name, "log") {
            Some(ErrorPolicy::Log)
        } else {
            None
        }
    }
}

/// What becomes of one row.
#[derive(Debug, PartialEq)]
pub enum RowOutcome {
    /// The row to write.
    Write(Vec<Vec<u8>>),
    /// The row to write, and a message to tell on the side.
    WriteAndLog(Vec<Vec<u8>>, String),
    /// Nothing more is written: the run ends with this message.
    Abort(String),
}

/// The outcome of a row as plain values.
pub enum RowOutcomeView {
    Write(Seq<Seq<u8>>),
    WriteAndLog(Seq<Seq<u8>>, Seq<char>),
    Abort(Seq<char>),
}

/// The bytes of each cell.
pub open spec fn cells_view(cells: Seq<Vec<u8>>) -> Seq<Seq<u8>> {
    Seq::new(cells.len(), |i: int| cells[i]@)
}

impl View for RowOutcome {
    type V = RowOutcomeView;

    open spec fn view(&self) -> RowOutcomeView {
        match self {
            RowOutcome::Write(cells) => RowOutcomeView::Write(cells_view(cells@)),
            RowOutcome::WriteAndLog(cells, message) => RowOutcomeView::WriteAndLog(
                cells_view(cells@),
                message@,
            ),
            RowOutcome::Abort(message) => RowOutcomeView::Abort(message@),
        }
    }
}

impl Value {
    /// The bytes that write this value out, where floating-point numbers are
    /// written as `o` says: a list as its values, each written out, with
    /// `separator` between each two; any other value as its text.
    pub open spec fn bytes(self, separator: Seq<u8>, o: Oracles) -> Seq<u8>
        decreases self,
    {
        match self {
            Value::List(items) => join(each_written(items, separator, o), separator),
            _ => match self.text(o) {
                Ok(text) => encode_utf8(text),
                Err(_) => Seq::empty(),
            },
        }
    }
}

/// The bytes that write each of the values out.
pub open spec fn each_written(items: Seq<Value>, separator: Seq<u8>, o: Oracles) -> Seq<Seq<u8>>
    decreases items,
{
    Seq::new(
        items.len(),
        |i: int|
            if 0 <= i < items.len() {
                items[i].bytes(separator, o)
            } else {
                Seq::empty()
            },
    )
}

/// With a pure `format_float` a value is written out in one way only.
pub proof fn lemma_rendering_is_a_function<
    A: Fn(FloatOp, Float64, Float64) -> Float64,
    P: Fn(&str) -> Option<Float64>,
    F: Fn(Float64) -> String,
>(value: Value, separator: Seq<u8>, ops: &FloatOps<A, P, F>, bytes: Seq<u8>)
    requires
        writes_purely(&ops.format),
        value.renders(separator, &ops.format, bytes),
    ensures
        bytes == value.bytes(separator, ops.oracles()),
    decreases value,
{
    match value {
        Value::List(items) => {
            let parts = choose|parts: Seq<Seq<u8>>|
                #![auto]
                parts.len() == items.len() && (forall|i: int|
                    0 <= i < items.len() ==> items[i].renders(
                        separator,
                        &ops.format,
                        #[trigger] parts[i],
                    )) && bytes == join(parts, separator);
            let written = each_written(items, separator, ops.oracles());
            assert forall|i: int| 0 <= i < items.len() implies parts[i] == written[i] by {
                lemma_rendering_is_a_function(items[i], separator, ops, parts[i]);
            }
            assert(parts =~= written);
        },
        Value::Float(number) => {
            let text = choose|text: Seq<char>|
                #![auto]
                writes_float(&ops.format, number, text) && bytes == encode_utf8(text);
            assert(writes_float(&ops.format, number, float_text(&ops.format, number)));
        },
        _ => {},
    }
}

/// The separator between the values of a list that is written in a cell.
pub const PLURAL_SEPARATOR: u8 = 124;

/// The row with the cell at `target` replaced; a row too short to have that
/// cell gets it at its end.
pub open spec fn with_cell(row: Seq<Seq<u8>>, target: nat, cell: Seq<u8>) -> Seq<Seq<u8>> {
    if target < row.len() {
        row.update(target as int, cell)
    } else {
        row.push(cell)
    }
}

/// What becomes of a row, from what the program gave for it. A value is
/// written in the target column. An error leaves that column empty, and is
/// written in a column of its own, told on the side, passed over or the end
/// of the run, as the policy says. Where errors have a column of their own,
/// it is empty for a row without one.
pub open spec fn row_outcome(
    row: Seq<Seq<u8>>,
    target: nat,
    policy: ErrorPolicy,
    result: Result<Value, EvaluationErrorView>,
    o: Oracles,
) -> RowOutcomeView {
    match result {
        Ok(value) => {
            let written = with_cell(row, target, value.bytes(seq![PLURAL_SEPARATOR], o));
            if policy == ErrorPolicy::Report {
                RowOutcomeView::Write(written.push(Seq::empty()))
            } else {
                RowOutcomeView::Write(written)
            }
        },
        Err(e) => {
            let emptied = with_cell(row, target, Seq::empty());
            match policy {
                ErrorPolicy::Panic => RowOutcomeView::Abort(e.text()),
                ErrorPolicy::Report => RowOutcomeView::Write(emptied.push(encode_utf8(e.text()))),
                ErrorPolicy::Ignore => RowOutcomeView::Write(emptied),
                ErrorPolicy::Log => RowOutcomeView::WriteAndLog(emptied, e.text()),
            }
        },
    }
}

/// What becomes of a row under a program.
pub open spec fn transformed(
    plan: Plan,
    row: Seq<Seq<u8>>,
    target: nat,
    policy: ErrorPolicy,
    o: Oracles,
) -> RowOutcomeView {
    row_outcome(row, target, policy, plan.value(row, o), o)
}

/// What becomes of each of the rows, in their order.
pub open spec fn all_transformed(
    plan: Plan,
    rows: Seq<Seq<Seq<u8>>>,
    target: nat,
    policy: ErrorPolicy,
    o: Oracles,
) -> Seq<RowOutcomeView> {
    Seq::new(rows.len(), |i: int| transformed(plan, rows[i], target, policy, o))
}

/// What becomes of a row depends on that row alone: rows that are shared
/// out in runs, each run transformed apart from the others, give what the
/// rows give when they are transformed one after the other.
pub proof fn lemma_rows_are_independent(
    plan: Plan,
    first: Seq<Seq<Seq<u8>>>,
    second: Seq<Seq<Seq<u8>>>,
    target: nat,
    policy: ErrorPolicy,
    o: Oracles,
)
    ensures
        all_transformed(plan, first + second, target, policy, o) == all_transformed(
            plan,
            first,
            target,
            policy,
            o,
        ) + all_transformed(plan, second, target, policy, o),
        forall|i: int|
            0 <= i < first.len() ==> #[trigger] all_transformed(
                plan,
                first + second,
                target,
                policy,
                o,
            )[i] == transformed(plan, first[i], target, policy, o),
{
    assert(all_transformed(plan, first + second, target, policy, o) =~= all_transformed(
        plan,
        first,
        target,
        policy,
        o,
    ) + all_transformed(plan, second, target, policy, o));
}

/// The cells of a row, each as bytes of its own.
pub fn row_cells(row: &csv::ByteRecord) -> (cells: Vec<Vec<u8>>)
    ensures
        cells_view(cells@) == record_fields(*row),
{
    let n = row.len();
    let mut cells: Vec<Vec<u8>> = Vec::with_capacity(n);
    let mut i: usize = 0;
    while i < n
        invariant
            n == record_fields(*row).len(),
            i <= n,
            cells@.len() == i,
            forall|j: int| 0 <= j < i ==> (#[trigger] cells@[j])@ == record_fields(*row)[j],
        decreases n - i,
    {
        let cell = match row.get(i) {
            Some(bytes) => vstd::slice::slice_to_vec(bytes),
            None => Vec::new(),
        };
        cells.push(cell);
        i = i + 1;
    }
    assert(cells_view(cells@) =~= record_fields(*row));
    cells
}

/// Puts `cell` at `target` in the cells of a row.
fn put_cell(cells: &mut Vec<Vec<u8>>, target: usize, cell: Vec<u8>)
    ensures
        cells_view(final(cells)@) == with_cell(cells_view(old(cells)@), target as nat, cell@),
{
    if target < cells.len() {
        cells[target] = cell;
        assert(cells_view(cells@) =~= with_cell(cells_view(old(cells)@), target as nat, cell@));
    } else {
        cells.push(cell);
        assert(cells_view(cells@) =~= with_cell(cells_view(old(cells)@), target as nat, cell@));
    }
}

/// The header row of what is written: that of what is read, with the target
/// column under its new name where it gets one, and with one column more
/// for the errors where they are written in a column of their own.
pub open spec fn written_header(
    header: Seq<Seq<u8>>,
    target: nat,
    rename: Option<Seq<char>>,
    policy: ErrorPolicy,
    error_column: Seq<char>,
) -> Seq<Seq<u8>> {
    let renamed = match rename {
        Some(name) => if target < header.len() {
            header.update(target as int, encode_utf8(name))
        } else {
            header
        },
        None => header,
    };
    if policy == ErrorPolicy::Report {
        renamed.push(encode_utf8(error_column))
    } else {
        renamed
    }
}

/// Makes the header row of what is written.
pub fn output_headers(
    headers: &csv::ByteRecord,
    target: usize,
    rename: Option<&str>,
    policy: ErrorPolicy,
    error_column: &str,
) -> (cells: Vec<Vec<u8>>)
    ensures
        cells_view(cells@) == written_header(
            record_fields(*headers),
            target as nat,
            match rename {
                Some(name) => Some(name@),
                None => None,
            },
            policy,
            error_column@,
        ),
{
    let mut cells = row_cells(headers);
    match rename {
        Some(name) => {
            if target < cells.len() {
                put_cell(&mut cells, target, name.as_bytes_vec());
            }
        },
        None => {},
    }
    if policy == ErrorPolicy::Report {
        let ghost before = cells_view(cells@);
        cells.push(error_column.as_bytes_vec());
        assert(cells_view(cells@) =~= before.push(encode_utf8(error_column@)));
    }
    cells
}

/// Decides what becomes of a row, from what the program gave for it.
pub fn decide<
    A: Fn(FloatOp, Float64, Float64) -> Float64,
    P: Fn(&str) -> Option<Float64>,
    F: Fn(Float64) -> String,
>(
    row: &csv::ByteRecord,
    target: usize,
    policy: ErrorPolicy,
    result: EvaluationResult,
    ops: &FloatOps<A, P, F>,
) -> (outcome: RowOutcome)
    requires
        ops.pure(),
    ensures
        outcome@ == row_outcome(
            record_fields(*row),
            target as nat,
            policy,
            evaluation_outcome(result),
            ops.oracles(),
        ),
{
    let mut cells = row_cells(row);
    match result {
        Ok(value) => {
            let mut separator: Vec<u8> = Vec::new();
            separator.push(PLURAL_SEPARATOR);
            assert(separator@ =~= seq![PLURAL_SEPARATOR]);
            let held = crate::bound::bound_value(&value);
            let bytes = held.serialize_as_bytes(separator.as_slice(), &ops.format);
            proof {
                lemma_rendering_is_a_function(held@, separator@, ops, bytes@);
            }
            let written = vstd::slice::slice_to_vec(held_bytes(&bytes));
            put_cell(&mut cells, target, written);
            if policy == ErrorPolicy::Report {
                let ghost before = cells_view(cells@);
                cells.push(Vec::new());
                assert(cells_view(cells@) =~= before.push(Seq::empty()));
            }
            RowOutcome::Write(cells)
        },
        Err(e) => {
            put_cell(&mut cells, target, Vec::new());
            let message = e.message();
            match policy {
                ErrorPolicy::Panic => RowOutcome::Abort(message),
                ErrorPolicy::Report => {
                    let ghost before = cells_view(cells@);
                    let told = message.as_str().as_bytes_vec();
                    cells.push(told);
                    assert(cells_view(cells@) =~= before.push(encode_utf8(message@)));
                    RowOutcome::Write(cells)
                },
                ErrorPolicy::Ignore => RowOutcome::Write(cells),
                ErrorPolicy::Log => RowOutcome::WriteAndLog(cells, message),
            }
        },
    }
}

/// Transforms one row: evaluates the program on it and decides what becomes
/// of it.
pub fn transform_row<
    A: Fn(FloatOp, Float64, Float64) -> Float64,
    P: Fn(&str) -> Option<Float64>,
    F: Fn(Float64) -> String,
>(
    program: &Program,
    row: &csv::ByteRecord,
    target: usize,
    policy: ErrorPolicy,
    ops: &FloatOps<A, P, F>,
) -> (outcome: RowOutcome)
    requires
        ops.pure(),
    ensures
        outcome@ == transformed(
            program@,
            record_fields(*row),
            target as nat,
            policy,
            ops.oracles(),
        ),
{
    let result = program.evaluate(row, ops);
    decide(row, target, policy, result, ops)
}

/// The cells of each row.
pub open spec fn rows_view(rows: Seq<csv::ByteRecord>) -> Seq<Seq<Seq<u8>>> {
    Seq::new(rows.len(), |i: int| record_fields(rows[i]))
}

/// The outcome of each row, as plain values.
pub open spec fn outcomes_view(outcomes: Seq<RowOutcome>) -> Seq<RowOutcomeView> {
    Seq::new(outcomes.len(), |i: int| outcomes[i]@)
}

/// Transforms a run of rows, one after the other, and gives what becomes of
/// each in the order of the rows.
pub fn transform_rows<
    A: Fn(FloatOp, Float64, Float64) -> Float64,
    P: Fn(&str) -> Option<Float64>,
    F: Fn(Float64) -> String,
>(
    program: &Program,
    rows: &Vec<csv::ByteRecord>,
    target: usize,
    policy: ErrorPolicy,
    ops: &FloatOps<A, P, F>,
) -> (outcomes: Vec<RowOutcome>)
    requires
        ops.pure(),
    ensures
        outcomes_view(outcomes@) == all_transformed(
            program@,
            rows_view(rows@),
            target as nat,
            policy,
            ops.oracles(),
        ),
{
    let mut outcomes: Vec<RowOutcome> = Vec::with_capacity(rows.len());
    let mut i: usize = 0;
    while i < rows.len()
        invariant
            ops.pure(),
            i <= rows@.len(),
            outcomes@.len() == i,
            forall|j: int|
                0 <= j < i ==> (#[trigger] outcomes@[j])@ == transformed(
                    program@,
                    record_fields(rows@[j]),
                    target as nat,
                    policy,
                    ops.oracles(),
                ),
        decreases rows@.len() - i,
    {
        outcomes.push(transform_row(program, &rows[i], target, policy, ops));
        i = i + 1;
    }
    assert(outcomes_view(outcomes@) =~= all_transformed(
        program@,
        rows_view(rows@),
        target as nat,
        policy,
        ops.oracles(),
    ));
    outcomes
}

} // verus!

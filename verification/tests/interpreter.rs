use csv::ByteRecord;
use std::borrow::Cow;
use xan::bound::BoundArguments;
use xan::column::ColumIndexationBy;
use xan::error::{Arity, CallError, EvaluationError, InvalidArity, PrepareError};
use xan::float::Float64;
use xan::floats::{FloatOp, FloatOps};
use xan::functions::{call, get_function, Function};
use xan::interpreter::Program;
use xan::parser::{parse, Argument, FunctionCall};
use xan::transform::{output_headers, transform_row, transform_rows, ErrorPolicy, RowOutcome};
use xan::value::DynamicValue;

fn native(x: Float64) -> f64 {
    f64::from_bits(x.to_bits())
}

fn float(x: f64) -> Float64 {
    Float64::from_bits(x.to_bits())
}

fn arithmetic(op: FloatOp, a: Float64, b: Float64) -> Float64 {
    let (a, b) = (native(a), native(b));
    float(match op {
        FloatOp::Add => a + b,
        FloatOp::Sub => a - b,
        FloatOp::Mul => a * b,
        FloatOp::Div => a / b,
    })
}

fn parse_float(s: &str) -> Option<Float64> {
    s.parse::<f64>().ok().map(float)
}

fn format_float(x: Float64) -> String {
    native(x).to_string()
}

type Ops = FloatOps<
    fn(FloatOp, Float64, Float64) -> Float64,
    fn(&str) -> Option<Float64>,
    fn(Float64) -> String,
>;

fn ops() -> Ops {
    FloatOps { arithmetic, parse: parse_float, format: format_float }
}

fn program(text: &str, header: &[&str], target: Option<usize>) -> Result<Program, PrepareError> {
    let ast = parse(text, &parse_float).unwrap();
    Program::prepare(&ast, &ByteRecord::from(header.to_vec()), target)
}

fn evaluate(text: &str, header: &[&str], row: &[&str]) -> Result<DynamicValue, EvaluationError> {
    let program = program(text, header, None).unwrap();
    program.evaluate(&ByteRecord::from(row.to_vec()), &ops()).map(Cow::into_owned)
}

fn text(s: &str) -> DynamicValue {
    DynamicValue::String(s.to_string())
}

fn cells(row: &[&str]) -> Vec<Vec<u8>> {
    row.iter().map(|c| c.as_bytes().to_vec()).collect()
}

fn cast_in(function: &str, from: &str, to: &str) -> EvaluationError {
    EvaluationError {
        function_name: function.to_string(),
        reason: CallError::Cast((from.to_string(), to.to_string())),
    }
}

const AB: [&str; 2] = ["a", "b"];

#[test]
fn every_function_is_found_under_its_name() {
    let all = [
        Function::Plus,
        Function::Minus,
        Function::Times,
        Function::Over,
        Function::FloorOver,
        Function::Equal,
        Function::Unequal,
        Function::Less,
        Function::LessOrEqual,
        Function::Greater,
        Function::GreaterOrEqual,
        Function::Both,
        Function::Either,
        Function::Negation,
        Function::Length,
        Function::Concat,
        Function::TypeOf,
        Function::Upper,
        Function::Lower,
        Function::Coalesce,
    ];
    for function in all {
        assert_eq!(get_function(function.name()), Some(function));
    }
    assert_eq!(get_function("add"), Some(Function::Plus));
    assert_eq!(get_function("ADD"), None);
    assert_eq!(get_function(""), None);
    assert_eq!(get_function("col"), None);
    assert_eq!(Function::Plus.arity(), Arity::Strict(2));
    assert_eq!(Function::Negation.arity(), Arity::Strict(1));
    assert_eq!(Function::Concat.arity(), Arity::Min(1));
}

#[test]
fn a_call_checks_the_number_of_arguments_first() {
    let mut args = BoundArguments::with_capacity(2);
    args.push(Cow::Owned(DynamicValue::List(vec![])));
    args.push(Cow::Owned(DynamicValue::List(vec![])));
    assert_eq!(
        call(Function::Negation, &args, &ops()),
        Err(CallError::InvalidArity(InvalidArity { expected: Arity::Strict(1), got: 2 }))
    );
    assert_eq!(
        call(Function::Upper, &args, &ops()).unwrap_err().message(),
        "expected 1 arguments but got 2"
    );
    let none = BoundArguments::with_capacity(0);
    assert_eq!(
        call(Function::Concat, &none, &ops()),
        Err(CallError::InvalidArity(InvalidArity { expected: Arity::Min(1), got: 0 }))
    );
    assert_eq!(
        call(Function::Plus, &none, &ops()),
        Err(CallError::InvalidArity(InvalidArity { expected: Arity::Strict(2), got: 0 }))
    );
}

#[test]
fn arithmetic_follows_the_kinds_of_its_operands() {
    assert_eq!(evaluate("add(a, b)", &AB, &["1", "2"]), Ok(DynamicValue::Integer(3)));
    assert_eq!(evaluate("add(a, b)", &AB, &["1", "2.5"]), Ok(DynamicValue::Float(float(3.5))));
    assert_eq!(evaluate("sub(a, b)", &AB, &["1", "2"]), Ok(DynamicValue::Integer(-1)));
    assert_eq!(evaluate("mul(a, b)", &AB, &["3", "2"]), Ok(DynamicValue::Integer(6)));
    assert_eq!(evaluate("mul(a, b)", &AB, &["1.5", "2"]), Ok(DynamicValue::Float(float(3.0))));
    assert_eq!(evaluate("div(a, b)", &AB, &["7", "2"]), Ok(DynamicValue::Float(float(3.5))));
    assert_eq!(evaluate("div(a, b)", &AB, &["8", "2"]), Ok(DynamicValue::Float(float(4.0))));
    assert_eq!(evaluate("idiv(a, b)", &AB, &["7", "2"]), Ok(DynamicValue::Integer(3)));
    assert_eq!(evaluate("idiv(a, b)", &AB, &["-7", "2"]), Ok(DynamicValue::Integer(-4)));
    assert_eq!(evaluate("idiv(a, b)", &AB, &["7.5", "2"]), Ok(DynamicValue::Integer(3)));
    assert_eq!(evaluate("idiv(a, b)", &AB, &["1", "0"]), Ok(DynamicValue::Integer(i64::MAX)));
    assert_eq!(evaluate("add(a, true)", &AB, &["1", ""]), Ok(DynamicValue::Integer(2)));
    assert_eq!(evaluate("add(2, 3)", &AB, &["", ""]), Ok(DynamicValue::Integer(5)));
    assert_eq!(evaluate("add(2, 0.5)", &AB, &["", ""]), Ok(DynamicValue::Float(float(2.5))));
}

#[test]
fn whole_arithmetic_wraps_around() {
    assert_eq!(
        evaluate("add(a, b)", &AB, &["9223372036854775807", "1"]),
        Ok(DynamicValue::Integer(i64::MIN))
    );
    assert_eq!(
        evaluate("sub(a, b)", &AB, &["-9223372036854775808", "1"]),
        Ok(DynamicValue::Integer(i64::MAX))
    );
    assert_eq!(
        evaluate("mul(a, b)", &AB, &["4611686018427387904", "2"]),
        Ok(DynamicValue::Integer(i64::MIN))
    );
}

#[test]
fn numbers_are_compared_as_numbers() {
    let truth = |text: &str, a: &str, b: &str| evaluate(text, &AB, &[a, b]);
    assert_eq!(truth("eq(a, b)", "3", "3.0"), Ok(DynamicValue::Boolean(true)));
    assert_eq!(truth("eq(a, b)", "3", "4"), Ok(DynamicValue::Boolean(false)));
    assert_eq!(truth("ne(a, b)", "3", "4"), Ok(DynamicValue::Boolean(true)));
    assert_eq!(truth("lt(a, b)", "3", "3.5"), Ok(DynamicValue::Boolean(true)));
    assert_eq!(truth("lt(a, b)", "3", "3"), Ok(DynamicValue::Boolean(false)));
    assert_eq!(truth("le(a, b)", "3", "3"), Ok(DynamicValue::Boolean(true)));
    assert_eq!(truth("gt(a, b)", "10", "9"), Ok(DynamicValue::Boolean(true)));
    assert_eq!(truth("gt(a, b)", "9", "10"), Ok(DynamicValue::Boolean(false)));
    assert_eq!(truth("ge(a, b)", "9", "9.0"), Ok(DynamicValue::Boolean(true)));
    assert_eq!(truth("ge(a, b)", "8", "9"), Ok(DynamicValue::Boolean(false)));
    assert_eq!(truth("eq(a, b)", "x", "1"), Err(cast_in("eq", "string", "number")));
}

#[test]
fn truth_functions_follow_truthiness() {
    let truth = |text: &str, a: &str, b: &str| evaluate(text, &AB, &[a, b]);
    assert_eq!(truth("and(a, b)", "x", "y"), Ok(DynamicValue::Boolean(true)));
    assert_eq!(truth("and(a, b)", "x", ""), Ok(DynamicValue::Boolean(false)));
    assert_eq!(truth("or(a, b)", "", "y"), Ok(DynamicValue::Boolean(true)));
    assert_eq!(truth("or(a, b)", "", ""), Ok(DynamicValue::Boolean(false)));
    assert_eq!(truth("not(a)", "", ""), Ok(DynamicValue::Boolean(true)));
    assert_eq!(truth("not(a)", "x", ""), Ok(DynamicValue::Boolean(false)));
    assert_eq!(truth("not(false)", "", ""), Ok(DynamicValue::Boolean(true)));
    assert_eq!(truth("coalesce(a, b, 'z')", "", "y"), Ok(text("y")));
    assert_eq!(truth("coalesce(a, b, 'z')", "", ""), Ok(text("z")));
    assert_eq!(truth("coalesce(a, b)", "", ""), Ok(DynamicValue::Null));
    assert_eq!(truth("coalesce(a)", "x", ""), Ok(text("x")));
}

#[test]
fn text_functions_work_on_the_text_of_values() {
    let on = |text: &str, a: &str, b: &str| evaluate(text, &AB, &[a, b]);
    assert_eq!(on("upper(a)", "davis", ""), Ok(text("DAVIS")));
    assert_eq!(on("lower(a)", "DaVis", ""), Ok(text("davis")));
    assert_eq!(on("upper(a)", "stra\u{df}e", ""), Ok(text("STRASSE")));
    assert_eq!(on("upper(12)", "", ""), Ok(text("12")));
    assert_eq!(on("len(a)", "caf\u{e9}", ""), Ok(DynamicValue::Integer(4)));
    assert_eq!(on("len(a)", "", ""), Ok(DynamicValue::Integer(0)));
    assert_eq!(on("len(1.5)", "", ""), Ok(DynamicValue::Integer(3)));
    assert_eq!(on("concat(a, '-', b)", "x", "y"), Ok(text("x-y")));
    assert_eq!(on("concat(a)", "x", "y"), Ok(text("x")));
    assert_eq!(on("concat(a, 1, 0.5, true, /r/)", "x", ""), Ok(text("x10.5truer")));
    assert_eq!(on("typeof(a)", "x", ""), Ok(text("string")));
    assert_eq!(on("typeof(1)", "", ""), Ok(text("integer")));
    assert_eq!(on("typeof(1.0)", "", ""), Ok(text("float")));
    assert_eq!(on("typeof(true)", "", ""), Ok(text("boolean")));
    assert_eq!(on("typeof(/a/)", "", ""), Ok(text("regex")));
    assert_eq!(on("typeof(add(a, 1))", "1", ""), Ok(text("integer")));
}

#[test]
fn operands_are_evaluated_before_the_call_and_the_first_error_wins() {
    assert_eq!(
        evaluate("add(add(a, 1), add(b, 1))", &AB, &["1", "2"]),
        Ok(DynamicValue::Integer(5))
    );
    assert_eq!(
        evaluate("concat(upper(a), add(b, 1))", &AB, &["x", "y"]),
        Err(cast_in("add", "string", "number"))
    );
    assert_eq!(
        evaluate("add(upper(a), add(b, 1))", &AB, &["x", "y"]),
        Err(cast_in("add", "string", "number"))
    );
    assert_eq!(
        evaluate("upper(sub(a, b))", &AB, &["x", "y"]),
        Err(cast_in("sub", "string", "number"))
    );
}

#[test]
fn an_error_names_the_function_and_the_reason() {
    let e = evaluate("add(a, b)", &AB, &["1", "test"]).unwrap_err();
    assert_eq!(
        e.message(),
        "error when calling function \"add\": cannot safely cast from type \"string\" to type \"number\""
    );
}

#[test]
fn a_program_is_not_changed_by_its_rows() {
    let program = program("add(a, b)", &AB, None).unwrap();
    let first = ByteRecord::from(vec!["1", "2"]);
    let bad = ByteRecord::from(vec!["1", "test"]);
    let before = program.evaluate(&first, &ops()).map(Cow::into_owned);
    assert!(program.evaluate(&bad, &ops()).is_err());
    let after = program.evaluate(&first, &ops()).map(Cow::into_owned);
    assert_eq!(before, after);
    assert_eq!(after, Ok(DynamicValue::Integer(3)));
}

#[test]
fn columns_are_found_by_name_rank_or_position() {
    let header = ["a", "b", "a"];
    let row = ["1", "2", "3"];
    assert_eq!(evaluate("a", &header, &row), Ok(text("1")));
    assert_eq!(evaluate("col('a')", &header, &row), Ok(text("1")));
    assert_eq!(evaluate("col('a', 1)", &header, &row), Ok(text("3")));
    assert_eq!(evaluate("col(1)", &header, &row), Ok(text("2")));
    assert_eq!(evaluate("col(2.0)", &header, &row), Ok(text("3")));
    assert_eq!(evaluate("add(col('a', 1), col(1))", &header, &row), Ok(DynamicValue::Integer(5)));
    assert_eq!(evaluate("concat(a, b)", &header, &["x"]), Ok(text("x")));
}

#[test]
fn a_missing_column_is_a_preparation_error() {
    let header = ["a", "b", "a"];
    assert_eq!(
        program("c", &header, None).unwrap_err(),
        PrepareError::ColumnNotFound(ColumIndexationBy::Name("c".to_string()))
    );
    assert_eq!(
        program("add(a, c)", &header, None).unwrap_err(),
        PrepareError::ColumnNotFound(ColumIndexationBy::Name("c".to_string()))
    );
    assert_eq!(
        program("col(5)", &header, None).unwrap_err(),
        PrepareError::ColumnNotFound(ColumIndexationBy::Pos(5))
    );
    assert_eq!(
        program("col('a', 2)", &header, None).unwrap_err(),
        PrepareError::ColumnNotFound(ColumIndexationBy::NameAndNth(("a".to_string(), 2)))
    );
    assert_eq!(program("col(a)", &header, None).unwrap_err(), PrepareError::InvalidSelector);
    assert_eq!(program("col()", &header, None).unwrap_err(), PrepareError::InvalidSelector);
    assert_eq!(program("col('a', 'b')", &header, None).unwrap_err(), PrepareError::InvalidSelector);
}

#[test]
fn an_unknown_function_or_a_wrong_arity_is_a_preparation_error() {
    assert_eq!(
        program("nope(a)", &AB, None).unwrap_err(),
        PrepareError::UnknownFunction("nope".to_string())
    );
    assert_eq!(
        program("add(a)", &AB, None).unwrap_err(),
        PrepareError::InvalidArity((
            "add".to_string(),
            InvalidArity { expected: Arity::Strict(2), got: 1 }
        ))
    );
    assert_eq!(
        program("concat()", &AB, None).unwrap_err(),
        PrepareError::InvalidArity((
            "concat".to_string(),
            InvalidArity { expected: Arity::Min(1), got: 0 }
        ))
    );
    assert_eq!(
        program("upper(nope(a), c)", &AB, None).unwrap_err(),
        PrepareError::InvalidArity((
            "upper".to_string(),
            InvalidArity { expected: Arity::Strict(1), got: 2 }
        ))
    );
    assert_eq!(
        program("add(nope(a), c)", &AB, None).unwrap_err(),
        PrepareError::UnknownFunction("nope".to_string())
    );
    assert_eq!(
        program("typeof(/(/)", &AB, None).unwrap_err(),
        PrepareError::InvalidPattern("(".to_string())
    );
}

#[test]
fn a_function_named_on_its_own_is_called_on_the_target_column() {
    let header = ["name", "surname"];
    let upper = program("upper", &header, Some(1)).unwrap();
    let row = ByteRecord::from(vec!["john", "davis"]);
    assert_eq!(upper.evaluate(&row, &ops()).map(Cow::into_owned), Ok(text("DAVIS")));
    assert_eq!(
        program("add", &header, Some(1)).unwrap_err(),
        PrepareError::InvalidArity((
            "add".to_string(),
            InvalidArity { expected: Arity::Strict(2), got: 1 }
        ))
    );
    assert_eq!(
        program("upper", &header, Some(2)).unwrap_err(),
        PrepareError::ColumnNotFound(ColumIndexationBy::Pos(2))
    );
    assert_eq!(
        program("upper", &header, None).unwrap_err(),
        PrepareError::ColumnNotFound(ColumIndexationBy::Name("upper".to_string()))
    );
    let name = program("name", &header, Some(1)).unwrap();
    assert_eq!(name.evaluate(&row, &ops()).map(Cow::into_owned), Ok(text("john")));
}

/// What the command writes for a table: the header row, then one row for
/// each row read, up to the first row whose error ends the run, which is
/// then the error of the whole.
fn transform_table(
    table: &[[&str; 2]],
    column: &str,
    expression: &str,
    rename: Option<&str>,
    policy: ErrorPolicy,
    error_column: &str,
) -> Result<(Vec<Vec<String>>, Vec<String>), String> {
    let header = ByteRecord::from(table[0].to_vec());
    let target = ColumIndexationBy::Name(column.to_string()).find_column_index(&header).unwrap();
    let ast = parse(expression, &parse_float).unwrap();
    let program = Program::prepare(&ast, &header, Some(target)).unwrap();
    let mut written = vec![output_headers(&header, target, rename, policy, error_column)];
    let mut told = Vec::new();
    for row in &table[1..] {
        match transform_row(&program, &ByteRecord::from(row.to_vec()), target, policy, &ops()) {
            RowOutcome::Write(cells) => written.push(cells),
            RowOutcome::WriteAndLog(cells, message) => {
                written.push(cells);
                told.push(message);
            }
            RowOutcome::Abort(message) => return Err(message),
        }
    }
    let written = written
        .into_iter()
        .map(|row| row.into_iter().map(|cell| String::from_utf8(cell).unwrap()).collect())
        .collect();
    Ok((written, told))
}

fn svec(row: &[&str]) -> Vec<String> {
    row.iter().map(|cell| cell.to_string()).collect()
}

const CAST_IN_ADD: &str =
    "error when calling function \"add\": cannot safely cast from type \"string\" to type \"number\"";

#[test]
fn transform() {
    let table = [["a", "b"], ["1", "2"], ["2", "3"]];
    let (got, told) =
        transform_table(&table, "b", "add(a, b)", None, ErrorPolicy::Panic, "xan_error").unwrap();
    let expected = vec![svec(&["a", "b"]), svec(&["1", "3"]), svec(&["2", "5"])];
    assert_eq!(got, expected);
    assert!(told.is_empty());
}

#[test]
fn transform_rename() {
    let table = [["a", "b"], ["1", "2"], ["2", "3"]];
    let (got, _) =
        transform_table(&table, "b", "add(a, b)", Some("c"), ErrorPolicy::Panic, "xan_error")
            .unwrap();
    let expected = vec![svec(&["a", "c"]), svec(&["1", "3"]), svec(&["2", "5"])];
    assert_eq!(got, expected);
}

#[test]
fn the_header_row_follows_the_policy() {
    let header = ByteRecord::from(AB.to_vec());
    assert_eq!(output_headers(&header, 1, None, ErrorPolicy::Panic, "error"), cells(&["a", "b"]));
    assert_eq!(
        output_headers(&header, 1, None, ErrorPolicy::Report, "error"),
        cells(&["a", "b", "error"])
    );
    assert_eq!(
        output_headers(&header, 0, Some("z"), ErrorPolicy::Report, "e"),
        cells(&["z", "b", "e"])
    );
    assert_eq!(output_headers(&header, 0, Some("z"), ErrorPolicy::Log, "e"), cells(&["z", "b"]));
    assert_eq!(output_headers(&header, 5, Some("z"), ErrorPolicy::Ignore, "e"), cells(&["a", "b"]));
}

#[test]
fn transform_implicit() {
    let table = [["name", "surname"], ["john", "davis"], ["mary", "sue"]];
    let (got, _) = transform_table(
        &table,
        "surname",
        "upper",
        Some("upper_surname"),
        ErrorPolicy::Panic,
        "xan_error",
    )
    .unwrap();
    let expected = vec![
        svec(&["name", "upper_surname"]),
        svec(&["john", "DAVIS"]),
        svec(&["mary", "SUE"]),
    ];
    assert_eq!(got, expected);
}

#[test]
fn transform_errors_panic() {
    let table = [["a", "b"], ["1", "test"], ["2", "3"]];
    let got = transform_table(&table, "b", "add(a, b)", None, ErrorPolicy::Panic, "xan_error");
    assert!(got.is_err());
    assert_eq!(got, Err(CAST_IN_ADD.to_string()));
}

#[test]
fn transform_errors_report() {
    let table = [["a", "b"], ["1", "test"], ["2", "3"]];
    let (got, told) =
        transform_table(&table, "b", "add(a, b)", None, ErrorPolicy::Report, "error").unwrap();
    let expected = vec![
        svec(&["a", "b", "error"]),
        svec(&["1", "", CAST_IN_ADD]),
        svec(&["2", "5", ""]),
    ];
    assert_eq!(got, expected);
    assert!(told.is_empty());
}

#[test]
fn transform_errors_ignore() {
    let table = [["a", "b"], ["1", "test"], ["2", "3"]];
    let (got, told) =
        transform_table(&table, "b", "add(a, b)", None, ErrorPolicy::Ignore, "xan_error").unwrap();
    let expected = vec![svec(&["a", "b"]), svec(&["1", ""]), svec(&["2", "5"])];
    assert_eq!(got, expected);
    assert!(told.is_empty());
}

#[test]
fn transform_errors_log() {
    let table = [["a", "b"], ["1", "test"], ["2", "3"]];
    let (got, told) =
        transform_table(&table, "b", "add(a, b)", None, ErrorPolicy::Log, "xan_error").unwrap();
    let expected = vec![svec(&["a", "b"]), svec(&["1", ""]), svec(&["2", "5"])];
    assert_eq!(got, expected);
    assert_eq!(told, vec![CAST_IN_ADD.to_string()]);
}

#[test]
fn a_pattern_that_does_not_compile_is_a_preparation_error() {
    for bad in ["(", "a{2,1}", "[z-a]", "(?P<n>a)(?P<n>b)", "\\p{Nope}"] {
        let ast = Argument::Call(FunctionCall {
            name: "typeof".to_string(),
            args: vec![Argument::RegexLiteral(bad.to_string())],
        });
        assert_eq!(
            Program::prepare(&ast, &ByteRecord::from(AB.to_vec()), None).unwrap_err(),
            PrepareError::InvalidPattern(bad.to_string())
        );
    }
    for good in ["", "a+", "^\\d{4}-\\d{2}$", "(?i)caf\u{e9}", "a|b|c"] {
        let ast = Argument::RegexLiteral(good.to_string());
        let program = Program::prepare(&ast, &ByteRecord::from(AB.to_vec()), None).unwrap();
        let value = program.evaluate(&ByteRecord::new(), &ops()).map(Cow::into_owned).unwrap();
        assert_eq!(value.try_as_regex().unwrap().as_str(), good);
        assert!(xan::pattern::Pattern::new(good).is_some());
    }
}

#[test]
fn a_cell_that_is_no_text_is_read_with_marks() {
    let program = program("concat(a, '!')", &AB, None).unwrap();
    let row = ByteRecord::from(vec![&b"caf\xc3\xa9"[..], &b""[..]]);
    assert_eq!(
        program.evaluate(&row, &ops()).map(Cow::into_owned),
        Ok(text("caf\u{e9}!"))
    );
    let row = ByteRecord::from(vec![&b"a\xffb"[..], &b""[..]]);
    assert_eq!(
        program.evaluate(&row, &ops()).map(Cow::into_owned),
        Ok(text("a\u{fffd}b!"))
    );
}

#[test]
fn rows_shared_out_in_runs_give_what_they_give_in_a_row() {
    let program = program("add(a, b)", &AB, Some(1)).unwrap();
    let rows: Vec<ByteRecord> = [["1", "2"], ["x", "3"], ["2", "3"], ["4", "0.5"], ["", ""]]
        .iter()
        .map(|row| ByteRecord::from(row.to_vec()))
        .collect();
    for policy in [ErrorPolicy::Panic, ErrorPolicy::Report, ErrorPolicy::Ignore, ErrorPolicy::Log] {
        let whole = transform_rows(&program, &rows, 1, policy, &ops());
        for cut in 0..=rows.len() {
            let mut apart = transform_rows(&program, &rows[..cut].to_vec(), 1, policy, &ops());
            apart.extend(transform_rows(&program, &rows[cut..].to_vec(), 1, policy, &ops()));
            assert_eq!(apart, whole);
        }
        let one_by_one: Vec<RowOutcome> =
            rows.iter().map(|row| transform_row(&program, row, 1, policy, &ops())).collect();
        assert_eq!(one_by_one, whole);
    }
}

#[test]
fn lists_and_floats_are_written_in_the_target_cell() {
    let program = program("div(a, b)", &AB, Some(0)).unwrap();
    let row = ByteRecord::from(vec!["1", "4"]);
    assert_eq!(
        transform_row(&program, &row, 0, ErrorPolicy::Panic, &ops()),
        RowOutcome::Write(cells(&["0.25", "4"]))
    );
    let short = ByteRecord::from(vec!["8"]);
    let program = program_for_short();
    assert_eq!(
        transform_row(&program, &short, 1, ErrorPolicy::Panic, &ops()),
        RowOutcome::Write(cells(&["8", "8"]))
    );
}

fn program_for_short() -> Program {
    program("concat(a, b)", &AB, Some(1)).unwrap()
}

#[test]
fn policies_have_names() {
    assert_eq!(ErrorPolicy::from_name("panic"), Some(ErrorPolicy::Panic));
    assert_eq!(ErrorPolicy::from_name("report"), Some(ErrorPolicy::Report));
    assert_eq!(ErrorPolicy::from_name("ignore"), Some(ErrorPolicy::Ignore));
    assert_eq!(ErrorPolicy::from_name("log"), Some(ErrorPolicy::Log));
    assert_eq!(ErrorPolicy::from_name("Panic"), None);
    assert_eq!(ErrorPolicy::from_name(""), None);
}

use csv::ByteRecord;
use xan::float::Float64;
use xan::parser::{Argument, FunctionCall};
use xan::ColumIndexationBy;

fn header() -> ByteRecord {
    ByteRecord::from(vec!["a", "b", "a"])
}

#[test]
fn name_resolves_to_first_occurrence() {
    let selector = ColumIndexationBy::Name("a".to_string());
    assert_eq!(selector.find_column_index(&header()), Some(0));
    let selector = ColumIndexationBy::Name("b".to_string());
    assert_eq!(selector.find_column_index(&header()), Some(1));
}

#[test]
fn name_and_nth_resolves_among_duplicates() {
    let selector = ColumIndexationBy::NameAndNth(("a".to_string(), 0));
    assert_eq!(selector.find_column_index(&header()), Some(0));
    let selector = ColumIndexationBy::NameAndNth(("a".to_string(), 1));
    assert_eq!(selector.find_column_index(&header()), Some(2));
    let selector = ColumIndexationBy::NameAndNth(("a".to_string(), 2));
    assert_eq!(selector.find_column_index(&header()), None);
    let selector = ColumIndexationBy::NameAndNth(("b".to_string(), 1));
    assert_eq!(selector.find_column_index(&header()), None);
}

#[test]
fn position_must_be_within_the_header() {
    assert_eq!(ColumIndexationBy::Pos(2).find_column_index(&header()), Some(2));
    assert_eq!(ColumIndexationBy::Pos(3).find_column_index(&header()), None);
    assert_eq!(ColumIndexationBy::Pos(5).find_column_index(&header()), None);
    assert_eq!(ColumIndexationBy::Pos(0).find_column_index(&ByteRecord::new()), None);
}

#[test]
fn absent_name_does_not_resolve() {
    let selector = ColumIndexationBy::Name("c".to_string());
    assert_eq!(selector.find_column_index(&header()), None);
    let selector = ColumIndexationBy::Name("".to_string());
    assert_eq!(selector.find_column_index(&header()), None);
    let selector = ColumIndexationBy::Name("A".to_string());
    assert_eq!(selector.find_column_index(&header()), None);
}

#[test]
fn names_are_compared_byte_for_byte() {
    let headers = ByteRecord::from(vec!["caf\u{e9}", "cafe\u{301}", "caf\u{e9}"]);
    let selector = ColumIndexationBy::NameAndNth(("caf\u{e9}".to_string(), 1));
    assert_eq!(selector.find_column_index(&headers), Some(2));
    let selector = ColumIndexationBy::Name("cafe\u{301}".to_string());
    assert_eq!(selector.find_column_index(&headers), Some(1));
}

#[test]
fn one_string_literal_is_a_name() {
    let args = vec![Argument::StringLiteral("name".to_string())];
    assert_eq!(
        ColumIndexationBy::from_arguments(&args),
        Some(ColumIndexationBy::Name("name".to_string()))
    );
}

#[test]
fn one_number_literal_is_a_position() {
    let args = vec![Argument::IntegerLiteral(3)];
    assert_eq!(ColumIndexationBy::from_arguments(&args), Some(ColumIndexationBy::Pos(3)));
    let args = vec![Argument::FloatLiteral(Float64::from_bits(4.0f64.to_bits()))];
    assert_eq!(ColumIndexationBy::from_arguments(&args), Some(ColumIndexationBy::Pos(4)));
    let args = vec![Argument::IntegerLiteral(-1)];
    assert_eq!(ColumIndexationBy::from_arguments(&args), None);
    let args = vec![Argument::FloatLiteral(Float64::from_bits(1.5f64.to_bits()))];
    assert_eq!(ColumIndexationBy::from_arguments(&args), None);
    let args = vec![Argument::FloatLiteral(Float64::from_bits((-2.0f64).to_bits()))];
    assert_eq!(ColumIndexationBy::from_arguments(&args), None);
}

#[test]
fn a_string_and_a_number_are_a_name_and_a_rank() {
    let args = vec![Argument::StringLiteral("name".to_string()), Argument::IntegerLiteral(1)];
    assert_eq!(
        ColumIndexationBy::from_arguments(&args),
        Some(ColumIndexationBy::NameAndNth(("name".to_string(), 1)))
    );
    let args = vec![
        Argument::StringLiteral("name".to_string()),
        Argument::StringLiteral("other".to_string()),
    ];
    assert_eq!(ColumIndexationBy::from_arguments(&args), None);
    let args = vec![Argument::IntegerLiteral(1), Argument::IntegerLiteral(1)];
    assert_eq!(ColumIndexationBy::from_arguments(&args), None);
}

#[test]
fn other_operands_are_no_selector() {
    assert_eq!(ColumIndexationBy::from_arguments(&vec![]), None);
    let args = vec![Argument::Identifier("name".to_string())];
    assert_eq!(ColumIndexationBy::from_arguments(&args), None);
    let args = vec![Argument::BooleanLiteral(true)];
    assert_eq!(ColumIndexationBy::from_arguments(&args), None);
    let args = vec![Argument::Call(FunctionCall { name: "len".to_string(), args: vec![] })];
    assert_eq!(ColumIndexationBy::from_arguments(&args), None);
    let args = vec![
        Argument::StringLiteral("a".to_string()),
        Argument::IntegerLiteral(0),
        Argument::IntegerLiteral(0),
    ];
    assert_eq!(ColumIndexationBy::from_arguments(&args), None);
}

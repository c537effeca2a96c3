use std::borrow::Cow;
use xan::error::CallError;
use xan::float::Float64;
use xan::number::DynamicNumber;
use xan::pattern::Pattern;
use xan::value::DynamicValue;

fn float(x: f64) -> DynamicValue {
    DynamicValue::Float(Float64::from_bits(x.to_bits()))
}

fn text(s: &str) -> DynamicValue {
    DynamicValue::String(s.to_string())
}

fn pattern(s: &str) -> DynamicValue {
    DynamicValue::Regex(Pattern::new(s).unwrap())
}

fn format_float(x: Float64) -> String {
    f64::from_bits(x.to_bits()).to_string()
}

fn parse_float(s: &str) -> Option<Float64> {
    s.parse::<f64>().ok().map(|x| Float64::from_bits(x.to_bits()))
}

fn cast(from: &str, to: &str) -> CallError {
    CallError::Cast((from.to_string(), to.to_string()))
}

fn one_of_each() -> Vec<DynamicValue> {
    vec![
        DynamicValue::List(vec![DynamicValue::Integer(1)]),
        text("abc"),
        float(1.5),
        DynamicValue::Integer(3),
        DynamicValue::Boolean(true),
        pattern("a+"),
        DynamicValue::Null,
    ]
}

#[test]
fn every_value_names_its_type() {
    let names: Vec<&str> = one_of_each().iter().map(|v| v.type_of()).collect();
    assert_eq!(names, vec!["list", "string", "float", "integer", "boolean", "regex", "none"]);
}

#[test]
fn casting_a_list_to_a_string_fails() {
    let list = DynamicValue::List(vec![DynamicValue::Integer(1)]);
    assert_eq!(list.try_as_str(&format_float), Err(cast("list", "string")));
    let empty = DynamicValue::List(vec![]);
    assert_eq!(empty.try_as_str(&format_float), Err(cast("list", "string")));
}

#[test]
fn casting_a_word_to_a_number_fails() {
    assert_eq!(text("abc").try_as_number(&parse_float), Err(cast("string", "number")));
    assert_eq!(text("").try_as_number(&parse_float), Err(cast("string", "number")));
    assert_eq!(text("test").try_as_number(&parse_float), Err(cast("string", "number")));
}

#[test]
fn cast_errors_say_from_what_to_what() {
    let e = text("abc").try_as_number(&parse_float).unwrap_err();
    assert_eq!(e.message(), "cannot safely cast from type \"string\" to type \"number\"");
    let e = DynamicValue::List(vec![]).try_as_str(&format_float).unwrap_err();
    assert_eq!(e.message(), "cannot safely cast from type \"list\" to type \"string\"");
}

#[test]
fn values_convert_to_text() {
    assert_eq!(text("abc").try_as_str(&format_float).unwrap(), "abc");
    assert_eq!(float(1.5).try_as_str(&format_float).unwrap(), "1.5");
    assert_eq!(DynamicValue::Integer(-3).try_as_str(&format_float).unwrap(), "-3");
    assert_eq!(DynamicValue::Boolean(true).try_as_str(&format_float).unwrap(), "true");
    assert_eq!(DynamicValue::Boolean(false).try_as_str(&format_float).unwrap(), "false");
    assert_eq!(pattern("a+b").try_as_str(&format_float).unwrap(), "a+b");
    assert_eq!(DynamicValue::Null.try_as_str(&format_float).unwrap(), "");
}

#[test]
fn text_is_lent_where_the_value_holds_it() {
    let value = text("abc");
    assert!(matches!(value.try_as_str(&format_float), Ok(Cow::Borrowed("abc"))));
    let value = DynamicValue::Integer(12);
    assert!(matches!(value.try_as_str(&format_float), Ok(Cow::Owned(_))));
}

#[test]
fn a_text_converts_to_a_whole_number_before_a_float() {
    assert!(matches!(text("12").try_as_number(&parse_float), Ok(DynamicNumber::Integer(12))));
    assert!(matches!(text("-12").try_as_number(&parse_float), Ok(DynamicNumber::Integer(-12))));
    assert!(matches!(text("12.0").try_as_number(&parse_float), Ok(DynamicNumber::Float(_))));
    assert_eq!(
        text("1.5").try_as_number(&parse_float),
        Ok(DynamicNumber::Float(Float64::from_bits(1.5f64.to_bits())))
    );
    assert_eq!(
        text("1e3").try_as_number(&parse_float),
        Ok(DynamicNumber::Float(Float64::from_bits(1000.0f64.to_bits())))
    );
    // Too long for a whole number: read as a float.
    assert!(matches!(
        text("9223372036854775808").try_as_number(&parse_float),
        Ok(DynamicNumber::Float(_))
    ));
}

#[test]
fn other_values_convert_to_numbers() {
    assert!(matches!(
        DynamicValue::Integer(7).try_as_number(&parse_float),
        Ok(DynamicNumber::Integer(7))
    ));
    assert!(matches!(float(7.5).try_as_number(&parse_float), Ok(DynamicNumber::Float(_))));
    assert!(matches!(
        DynamicValue::Boolean(true).try_as_number(&parse_float),
        Ok(DynamicNumber::Integer(1))
    ));
    assert!(matches!(
        DynamicValue::Boolean(false).try_as_number(&parse_float),
        Ok(DynamicNumber::Integer(0))
    ));
    assert_eq!(DynamicValue::Null.try_as_number(&parse_float), Err(cast("none", "number")));
    assert_eq!(pattern("a").try_as_number(&parse_float), Err(cast("regex", "number")));
    assert_eq!(
        DynamicValue::List(vec![]).try_as_number(&parse_float),
        Err(cast("list", "number"))
    );
}

#[test]
fn number_from_takes_the_float_reading_as_given() {
    let seven = Float64::from_bits(7.0f64.to_bits());
    assert!(matches!(text("12").number_from(Some(seven)), Ok(DynamicNumber::Integer(12))));
    assert_eq!(text("x").number_from(Some(seven)), Ok(DynamicNumber::Float(seven)));
    assert_eq!(text("x").number_from(None), Err(cast("string", "number")));
    assert!(matches!(DynamicValue::Integer(1).number_from(Some(seven)), Ok(DynamicNumber::Integer(1))));
}

#[test]
fn values_convert_to_whole_numbers() {
    assert_eq!(text("42").try_as_i64(), Ok(42));
    assert_eq!(text("-42").try_as_i64(), Ok(-42));
    assert_eq!(text("4.2").try_as_i64(), Err(cast("string", "integer")));
    assert_eq!(text("").try_as_i64(), Err(cast("string", "integer")));
    assert_eq!(float(4.0).try_as_i64(), Ok(4));
    assert_eq!(float(-4.0).try_as_i64(), Ok(-4));
    assert_eq!(float(4.5).try_as_i64(), Err(cast("float", "integer")));
    assert_eq!(float(-4.5).try_as_i64(), Err(cast("float", "integer")));
    assert_eq!(float(f64::NAN).try_as_i64(), Err(cast("float", "integer")));
    assert_eq!(float(1e300).try_as_i64(), Err(cast("float", "integer")));
    assert_eq!(DynamicValue::Integer(-9).try_as_i64(), Ok(-9));
    assert_eq!(DynamicValue::Boolean(true).try_as_i64(), Ok(1));
    assert_eq!(DynamicValue::Boolean(false).try_as_i64(), Ok(0));
    assert_eq!(DynamicValue::Null.try_as_i64(), Err(cast("none", "integer")));
    assert_eq!(DynamicValue::List(vec![]).try_as_i64(), Err(cast("list", "integer")));
    assert_eq!(pattern("a").try_as_i64(), Err(cast("regex", "integer")));
}

#[test]
fn values_convert_to_counts() {
    assert_eq!(text("42").try_as_usize(), Ok(42));
    assert_eq!(text("-42").try_as_usize(), Err(cast("string", "unsigned_number")));
    assert_eq!(text("x").try_as_usize(), Err(cast("string", "unsigned_number")));
    assert_eq!(float(4.0).try_as_usize(), Ok(4));
    assert_eq!(float(0.0).try_as_usize(), Ok(0));
    assert_eq!(float(-4.0).try_as_usize(), Err(cast("float", "unsigned_number")));
    assert_eq!(float(4.5).try_as_usize(), Err(cast("float", "unsigned_number")));
    assert_eq!(DynamicValue::Integer(9).try_as_usize(), Ok(9));
    assert_eq!(DynamicValue::Integer(-9).try_as_usize(), Err(cast("integer", "unsigned_number")));
    assert_eq!(DynamicValue::Boolean(true).try_as_usize(), Ok(1));
    assert_eq!(DynamicValue::Boolean(false).try_as_usize(), Ok(0));
    assert_eq!(DynamicValue::Null.try_as_usize(), Err(cast("none", "unsigned_number")));
    assert_eq!(DynamicValue::List(vec![]).try_as_usize(), Err(cast("list", "unsigned_number")));
    assert_eq!(pattern("a").try_as_usize(), Err(cast("regex", "unsigned_number")));
}

#[test]
fn values_convert_to_floats() {
    let bits = |r: Result<Float64, CallError>| r.map(|f| f64::from_bits(f.to_bits()));
    assert_eq!(bits(text("1.5").try_as_f64(&parse_float)), Ok(1.5));
    assert_eq!(bits(text("3").try_as_f64(&parse_float)), Ok(3.0));
    assert_eq!(bits(text("x").try_as_f64(&parse_float)), Err(cast("string", "float")));
    assert_eq!(bits(float(2.5).try_as_f64(&parse_float)), Ok(2.5));
    assert_eq!(bits(DynamicValue::Integer(-3).try_as_f64(&parse_float)), Ok(-3.0));
    assert_eq!(bits(DynamicValue::Boolean(true).try_as_f64(&parse_float)), Ok(1.0));
    assert_eq!(bits(DynamicValue::Boolean(false).try_as_f64(&parse_float)), Ok(0.0));
    assert_eq!(bits(DynamicValue::Null.try_as_f64(&parse_float)), Err(cast("none", "float")));
    assert_eq!(
        bits(DynamicValue::List(vec![]).try_as_f64(&parse_float)),
        Err(cast("list", "float"))
    );
}

#[test]
fn only_a_list_converts_to_a_list() {
    let list = DynamicValue::List(vec![DynamicValue::Integer(1), text("a")]);
    assert_eq!(list.try_as_list().unwrap().len(), 2);
    assert_eq!(list.try_into_list().unwrap().len(), 2);
    assert_eq!(text("a").try_as_list(), Err(cast("string", "list")));
    assert_eq!(DynamicValue::Integer(1).try_as_list(), Err(cast("integer", "list")));
    assert_eq!(float(1.0).try_as_list(), Err(cast("float", "list")));
    assert_eq!(DynamicValue::Boolean(true).try_into_list(), Err(cast("boolean", "list")));
    assert_eq!(DynamicValue::Null.try_into_list(), Err(cast("none", "list")));
    assert_eq!(pattern("a").try_into_list(), Err(cast("regex", "list")));
}

#[test]
fn only_a_pattern_converts_to_a_pattern() {
    let value = pattern("^a.c$");
    assert!(value.try_as_regex().unwrap().as_regex().is_match("abc"));
    assert_eq!(value.try_as_regex().unwrap().as_str(), "^a.c$");
    assert!(matches!(text("a").try_as_regex(), Err(CallError::Cast(_))));
    assert_eq!(text("a").try_as_regex().unwrap_err(), cast("string", "regex"));
    assert_eq!(DynamicValue::Null.try_as_regex().unwrap_err(), cast("none", "regex"));
}

#[test]
fn truthiness_follows_the_type() {
    assert!(DynamicValue::List(vec![DynamicValue::Null]).is_truthy());
    assert!(DynamicValue::List(vec![]).is_falsey());
    assert!(text("a").is_truthy());
    assert!(text("").is_falsey());
    assert!(DynamicValue::Integer(2).is_truthy());
    assert!(DynamicValue::Integer(0).is_falsey());
    assert!(DynamicValue::Boolean(true).is_truthy());
    assert!(DynamicValue::Boolean(false).is_falsey());
    assert!(pattern("a").is_truthy());
    assert!(pattern("").is_falsey());
    assert!(DynamicValue::Null.is_falsey());
}

#[test]
fn a_float_is_truthy_exactly_when_it_is_zero() {
    assert!(float(0.0).is_truthy());
    assert!(float(-0.0).is_truthy());
    assert!(float(1.0).is_falsey());
    assert!(float(f64::NAN).is_falsey());
}

#[test]
fn scalars_are_written_out_as_their_text() {
    let bytes = |v: DynamicValue| v.serialize_as_bytes(b"|", &format_float).into_owned();
    assert_eq!(bytes(text("caf\u{e9}")), "caf\u{e9}".as_bytes());
    assert_eq!(bytes(float(2.5)), b"2.5");
    assert_eq!(bytes(DynamicValue::Integer(-17)), b"-17");
    assert_eq!(bytes(DynamicValue::Boolean(true)), b"true");
    assert_eq!(bytes(DynamicValue::Boolean(false)), b"false");
    assert_eq!(bytes(pattern("a|b")), b"a|b");
    assert_eq!(bytes(DynamicValue::Null), b"");
}

#[test]
fn lists_are_written_out_with_the_separator_between() {
    let bytes = |v: DynamicValue, sep: &[u8]| v.serialize_as_bytes(sep, &format_float).into_owned();
    let list = DynamicValue::List(vec![DynamicValue::Integer(1), text("a"), float(0.5)]);
    assert_eq!(bytes(list.clone(), b"|"), b"1|a|0.5");
    assert_eq!(bytes(list.clone(), b", "), b"1, a, 0.5");
    assert_eq!(bytes(list, b""), b"1a0.5");
    assert_eq!(bytes(DynamicValue::List(vec![]), b"|"), b"");
    assert_eq!(bytes(DynamicValue::List(vec![DynamicValue::Integer(1)]), b"|"), b"1");
    let nested = DynamicValue::List(vec![
        DynamicValue::List(vec![DynamicValue::Integer(1), DynamicValue::Integer(2)]),
        DynamicValue::Integer(3),
    ]);
    assert_eq!(bytes(nested, b"|"), b"1|2|3");
    let holes = DynamicValue::List(vec![DynamicValue::Null, text(""), DynamicValue::Null]);
    assert_eq!(bytes(holes, b"|"), b"||");
}

#[test]
fn values_are_the_same_within_their_type_only() {
    assert_eq!(DynamicValue::Integer(3), DynamicValue::Integer(3));
    assert_ne!(DynamicValue::Integer(3), DynamicValue::Integer(4));
    assert_ne!(DynamicValue::Integer(3), float(3.0));
    assert_ne!(float(3.0), DynamicValue::Integer(3));
    assert_eq!(float(3.0), float(3.0));
    assert_eq!(float(0.0), float(-0.0));
    assert_ne!(float(f64::NAN), float(f64::NAN));
    assert_eq!(text("a"), text("a"));
    assert_ne!(text("a"), text("b"));
    assert_ne!(text(""), DynamicValue::Null);
    assert_ne!(DynamicValue::Integer(0), DynamicValue::Null);
    assert_ne!(DynamicValue::Boolean(false), DynamicValue::Null);
    assert_eq!(DynamicValue::Null, DynamicValue::Null);
    assert_eq!(DynamicValue::Boolean(true), DynamicValue::Boolean(true));
    assert_ne!(DynamicValue::Boolean(true), DynamicValue::Integer(1));
    assert_eq!(pattern("a+"), pattern("a+"));
    assert_ne!(pattern("a+"), pattern("a*"));
    assert_ne!(pattern("a"), text("a"));
}

#[test]
fn lists_are_the_same_value_by_value() {
    let list = |items: Vec<i64>| {
        DynamicValue::List(items.into_iter().map(DynamicValue::Integer).collect())
    };
    assert_eq!(list(vec![1, 2]), list(vec![1, 2]));
    assert_ne!(list(vec![1, 2]), list(vec![2, 1]));
    assert_ne!(list(vec![1, 2]), list(vec![1]));
    assert_ne!(list(vec![1]), list(vec![1, 2]));
    assert_eq!(list(vec![]), list(vec![]));
    assert_ne!(list(vec![1]), DynamicValue::Integer(1));
    let nested = |x: i64| DynamicValue::List(vec![list(vec![x]), DynamicValue::Null]);
    assert_eq!(nested(1), nested(1));
    assert_ne!(nested(1), nested(2));
    let with_nan = DynamicValue::List(vec![float(f64::NAN)]);
    assert_ne!(with_nan.clone(), with_nan);
}

#[test]
fn a_copy_is_the_same_value() {
    for value in one_of_each() {
        assert_eq!(value.clone(), value);
    }
    let nested = DynamicValue::List(vec![DynamicValue::List(one_of_each()), text("x")]);
    assert_eq!(nested.clone(), nested);
}

#[test]
fn values_are_made_from_plain_ones() {
    assert_eq!(DynamicValue::from("abc"), text("abc"));
    assert_eq!(DynamicValue::from("abc".to_string()), text("abc"));
    assert_eq!(DynamicValue::from(Cow::Borrowed("abc")), text("abc"));
    assert_eq!(DynamicValue::from('x'), text("x"));
    assert_eq!(DynamicValue::from('\u{e9}'), text("\u{e9}"));
    assert_eq!(DynamicValue::from(true), DynamicValue::Boolean(true));
    assert_eq!(DynamicValue::from(3usize), DynamicValue::Integer(3));
    assert_eq!(DynamicValue::from(-3i32), DynamicValue::Integer(-3));
    assert_eq!(DynamicValue::from(-3i64), DynamicValue::Integer(-3));
    assert_eq!(DynamicValue::from(Float64::from_bits(1.5f64.to_bits())), float(1.5));
    assert_eq!(DynamicValue::from(DynamicNumber::Integer(2)), DynamicValue::Integer(2));
    assert_eq!(
        DynamicValue::from(DynamicNumber::Float(Float64::from_bits(2.5f64.to_bits()))),
        float(2.5)
    );
    assert_eq!(DynamicValue::from(Pattern::new("a").unwrap()), pattern("a"));
    assert_eq!(DynamicValue::from(regex::Regex::new("a|b").unwrap()), pattern("a|b"));
    assert_eq!(
        DynamicValue::from(vec![DynamicValue::Integer(1)]),
        DynamicValue::List(vec![DynamicValue::Integer(1)])
    );
    assert_eq!(DynamicValue::from(Some(3i64)), DynamicValue::Integer(3));
    assert_eq!(DynamicValue::from(None::<i64>), DynamicValue::Null);
    assert_eq!(DynamicValue::from(Some("a")), text("a"));
}

#[test]
fn a_pattern_keeps_its_source() {
    let kept = Pattern::new("^fo+$").unwrap();
    assert_eq!(kept.as_str(), "^fo+$");
    assert!(kept.as_regex().is_match("foo"));
    assert!(!kept.as_regex().is_match("bar"));
    assert!(Pattern::new("(").is_none());
    let compiled = regex::Regex::new("b.r").unwrap();
    let kept = Pattern::from_regex(compiled);
    assert_eq!(kept.as_str(), "b.r");
    assert!(kept.as_regex().is_match("bar"));
    assert!(kept.clone().same_source(&kept));
}

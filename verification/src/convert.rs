//! Making values of the expression language out of plain ones.

use crate::float::Float64;
use crate::lexer::text_between;
use crate::number::DynamicNumber;
use crate::pattern::{source_of, Pattern};
use crate::value::{DynamicValue, Value};
use std::borrow::Cow;
use vstd::prelude::*;
use vstd::std_specs::convert::FromSpecImpl;

verus! {

/// The text of one character.
pub fn char_to_string(c: char) -> (s: String)
    ensures
        s@ == seq![c],
{
    let mut chars: Vec<char> = Vec::new();
    chars.push(c);
    let s = text_between(&chars, 0, 1);
    assert(chars@.subrange(0, 1) =~= seq![c]);
    s
}

/// The text that is held or lent, as a text of its own.
pub fn text_into_owned(text: Cow<str>) -> (s: String)
    ensures
        s@ == text@,
{
    match text {
        Cow::Borrowed(lent) => lent.to_owned(),
        Cow::Owned(held) => held,
    }
}

impl From<&str> for DynamicValue {
    fn from(value: &str) -> (r: Self)
        ensures
            r@ == Value::String(value@),
    {
        DynamicValue::String(value.to_owned())
    }
}

impl FromSpecImpl<&str> for DynamicValue {
    open spec fn obeys_from_spec() -> bool {
        false
    }

    open spec fn from_spec(value: &str) -> Self {
        arbitrary()
    }
}

impl<'a> From<Cow<'a, str>> for DynamicValue {
    fn from(value: Cow<'a, str>) -> (r: Self)
        ensures
            r@ == Value::String(value@),
    {
        DynamicValue::String(text_into_owned(value))
    }
}

impl<'a> FromSpecImpl<Cow<'a, str>> for DynamicValue {
    open spec fn obeys_from_spec() -> bool {
        false
    }

    open spec fn from_spec(value: Cow<'a, str>) -> Self {
        arbitrary()
    }
}

impl From<char> for DynamicValue {
    fn from(value: char) -> (r: Self)
        ensures
            r@ == Value::String(seq![value]),
    {
        DynamicValue::String(char_to_string(value))
    }
}

impl FromSpecImpl<char> for DynamicValue {
    open spec fn obeys_from_spec() -> bool {
        false
    }

    open spec fn from_spec(value: char) -> Self {
        arbitrary()
    }
}

impl From<String> for DynamicValue {
    fn from(value: String) -> (r: Self) {
        DynamicValue::String(value)
    }
}

impl FromSpecImpl<String> for DynamicValue {
    open spec fn obeys_from_spec() -> bool {
        true
    }

    open spec fn from_spec(value: String) -> Self {
        DynamicValue::String(value)
    }
}

impl From<Pattern> for DynamicValue {
    fn from(value: Pattern) -> (r: Self) {
        DynamicValue::Regex(value)
    }
}

impl FromSpecImpl<Pattern> for DynamicValue {
    open spec fn obeys_from_spec() -> bool {
        true
    }

    open spec fn from_spec(value: Pattern) -> Self {
        DynamicValue::Regex(value)
    }
}

impl From<Vec<DynamicValue>> for DynamicValue {
    fn from(value: Vec<DynamicValue>) -> (r: Self) {
        DynamicValue::List(value)
    }
}

impl FromSpecImpl<Vec<DynamicValue>> for DynamicValue {
    open spec fn obeys_from_spec() -> bool {
        true
    }

    open spec fn from_spec(value: Vec<DynamicValue>) -> Self {
        DynamicValue::List(value)
    }
}

impl From<bool> for DynamicValue {
    fn from(value: bool) -> (r: Self) {
        DynamicValue::Boolean(value)
    }
}

impl FromSpecImpl<bool> for DynamicValue {
    open spec fn obeys_from_spec() -> bool {
        true
    }

    open spec fn from_spec(value: bool) -> Self {
        DynamicValue::Boolean(value)
    }
}

impl From<usize> for DynamicValue {
    fn from(value: usize) -> (r: Self) {
        DynamicValue::Integer(value as i64)
    }
}

impl FromSpecImpl<usize> for DynamicValue {
    open spec fn obeys_from_spec() -> bool {
        true
    }

    open spec fn from_spec(value: usize) -> Self {
        DynamicValue::Integer(value as i64)
    }
}

impl From<i32> for DynamicValue {
    fn from(value: i32) -> (r: Self) {
        DynamicValue::Integer(value as i64)
    }
}

impl FromSpecImpl<i32> for DynamicValue {
    open spec fn obeys_from_spec() -> bool {
        true
    }

    open spec fn from_spec(value: i32) -> Self {
        DynamicValue::Integer(value as i64)
    }
}

impl From<i64> for DynamicValue {
    fn from(value: i64) -> (r: Self) {
        DynamicValue::Integer(value)
    }
}

impl FromSpecImpl<i64> for DynamicValue {
    open spec fn obeys_from_spec() -> bool {
        true
    }

    open spec fn from_spec(value: i64) -> Self {
        DynamicValue::Integer(value)
    }
}

impl From<Float64> for DynamicValue {
    fn from(value: Float64) -> (r: Self) {
        DynamicValue::Float(value)
    }
}

impl FromSpecImpl<Float64> for DynamicValue {
    open spec fn obeys_from_spec() -> bool {
        true
    }

    open spec fn from_spec(value: Float64) -> Self {
        DynamicValue::Float(value)
    }
}

impl From<regex::Regex> for DynamicValue {
    fn from(value: regex::Regex) -> (r: Self)
        ensures
            r@ == Value::Regex(source_of(value)),
            r->Regex_0.compiled_form() == value,
    {
        DynamicValue::Regex(Pattern::from_regex(value))
    }
}

impl FromSpecImpl<regex::Regex> for DynamicValue {
    open spec fn obeys_from_spec() -> bool {
        false
    }

    open spec fn from_spec(value: regex::Regex) -> Self {
        arbitrary()
    }
}

impl From<DynamicNumber> for DynamicValue {
    fn from(value: DynamicNumber) -> (r: Self) {
        match value {
            DynamicNumber::Integer(value) => DynamicValue::Integer(value),
            DynamicNumber::Float(value) => DynamicValue::Float(value),
        }
    }
}

impl FromSpecImpl<DynamicNumber> for DynamicValue {
    open spec fn obeys_from_spec() -> bool {
        true
    }

    open spec fn from_spec(value: DynamicNumber) -> Self {
        match value {
            DynamicNumber::Integer(value) => DynamicValue::Integer(value),
            DynamicNumber::Float(value) => DynamicValue::Float(value),
        }
    }
}

impl<T> From<Option<T>> for DynamicValue where T: Into<DynamicValue> {
    fn from(option: Option<T>) -> (r: Self)
        ensures
            match option {
                None => r == DynamicValue::Null,
                Some(value) => call_ensures(T::into, (value,), r),
            },
    {
        match option {
            None => DynamicValue::Null,
            Some(value) => value.into(),
        }
    }
}

impl<T> FromSpecImpl<Option<T>> for DynamicValue where T: Into<DynamicValue> {
    open spec fn obeys_from_spec() -> bool {
        false
    }

    open spec fn from_spec(option: Option<T>) -> Self {
        arbitrary()
    }
}

} // verus!

//! The values that expressions take and give.

use crate::error::{cast_error, outcome, CallError, CallErrorView};
use crate::float::Float64;
use crate::number::DynamicNumber;
use crate::parser::i64_to_index;
use crate::pattern::Pattern;
use crate::text::{
    i64_to_string,
    parse_i64,
    parse_i64_text,
    parse_usize,
    parse_usize_text,
    signed_decimal,
};
use std::borrow::Cow;
use vstd::prelude::*;
use vstd::utf8::encode_utf8;

verus! {

/// A value of the expression language.
#[derive(Debug)]
pub enum DynamicValue {
    /// Values in a row, which may be lists themselves.
    List(Vec<DynamicValue>),
    /// A text.
    String(String),
    /// A floating-point number.
    Float(Float64),
    /// A whole number.
    Integer(i64),
    /// True or false.
    Boolean(bool),
    /// A pattern to match texts with.
    Regex(Pattern),
    /// The absence of a value: neither the empty text nor zero.
    Null,
}

/// What a value is, apart from how it is held: lists as sequences, texts as
/// sequences of characters, a pattern as its source text.
pub enum Value {
    List(Seq<Value>),
    String(Seq<char>),
    Float(Float64),
    Integer(int),
    Boolean(bool),
    Regex(Seq<char>),
    Null,
}

impl DynamicValue {
    /// What this value is.
    pub open spec fn model(self) -> Value
        decreases self,
    {
        match self {
            DynamicValue::List(list) => Value::List(
                Seq::new(
                    list@.len(),
                    |i: int|
                        if 0 <= i < list@.len() {
                            list@[i].model()
                        } else {
                            Value::Null
                        },
                ),
            ),
            DynamicValue::String(value) => Value::String(value@),
            DynamicValue::Float(value) => Value::Float(value),
            DynamicValue::Integer(value) => Value::Integer(value as int),
            DynamicValue::Boolean(value) => Value::Boolean(value),
            DynamicValue::Regex(pattern) => Value::Regex(pattern@),
            DynamicValue::Null => Value::Null,
        }
    }
}

impl View for DynamicValue {
    type V = Value;

    open spec fn view(&self) -> Value {
        self.model()
    }
}

/// What each value of a list is.
pub open spec fn views(list: Seq<DynamicValue>) -> Seq<Value> {
    Seq::new(list.len(), |i: int| list[i]@)
}

/// A list is the list of what its values are.
pub proof fn lemma_view_of_list(list: Vec<DynamicValue>)
    ensures
        DynamicValue::List(list)@ == Value::List(views(list@)),
{
    assert(DynamicValue::List(list)@->List_0 =~= views(list@));
}

impl Clone for DynamicValue {
    fn clone(&self) -> (r: DynamicValue)
        ensures
            r@ == self@,
        decreases self,
    {
        match self {
            Self::List(list) => {
                let mut copy: Vec<DynamicValue> = Vec::with_capacity(list.len());
                let mut i: usize = 0;
                while i < list.len()
                    invariant
                        self is List && self->List_0 == *list,
                        i <= list.len(),
                        copy@.len() == i,
                        forall|j: int| 0 <= j < i ==> (#[trigger] copy@[j])@ == list@[j]@,
                    decreases list.len() - i,
                {
                    assert(decreases_to!(*list => list[i as int]));
                    copy.push(list[i].clone());
                    i = i + 1;
                }
                proof {
                    lemma_view_of_list(copy);
                    lemma_view_of_list(*list);
                    assert(views(copy@) =~= views(list@));
                }
                DynamicValue::List(copy)
            },
            Self::String(value) => DynamicValue::String(value.clone()),
            Self::Float(value) => DynamicValue::Float(*value),
            Self::Integer(value) => DynamicValue::Integer(*value),
            Self::Boolean(value) => DynamicValue::Boolean(*value),
            Self::Regex(pattern) => DynamicValue::Regex(pattern.clone()),
            Self::Null => DynamicValue::Null,
        }
    }
}

impl Value {
    /// The name of the type of a value.
    pub open spec fn type_label(self) -> Seq<char> {
        match self {
            Value::List(_) => "list"@,
            Value::String(_) => "string"@,
            Value::Float(_) => "float"@,
            Value::Integer(_) => "integer"@,
            Value::Boolean(_) => "boolean"@,
            Value::Regex(_) => "regex"@,
            Value::Null => "none"@,
        }
    }

    /// Whether a value counts as true. A list, a text and a pattern do unless
    /// they are empty, a whole number unless it is zero, and the absent value
    /// never does. A floating-point number does exactly when it is zero.
    pub open spec fn truthy(self) -> bool {
        match self {
            Value::List(items) => items.len() != 0,
            Value::String(text) => text.len() != 0,
            Value::Float(number) => number.is_zero(),
            Value::Integer(number) => number != 0,
            Value::Boolean(truth) => truth,
            Value::Regex(source) => source.len() != 0,
            Value::Null => false,
        }
    }

    /// The whole number that a value converts to: the one a text writes, a
    /// floating-point number that equals one, one or zero for true or false.
    pub open spec fn as_i64(self) -> Result<i64, CallErrorView> {
        match self {
            Value::String(text) => match parse_i64_text(text) {
                Some(v) => Ok(v as i64),
                None => Err(cast_error("string"@, "integer"@)),
            },
            Value::Float(number) => match number.int_value() {
                Some(v) => if i64::MIN <= v <= i64::MAX {
                    Ok(v as i64)
                } else {
                    Err(cast_error("float"@, "integer"@))
                },
                None => Err(cast_error("float"@, "integer"@)),
            },
            Value::Integer(number) => Ok(number as i64),
            Value::Boolean(truth) => Ok(
                if truth {
                    1
                } else {
                    0
                },
            ),
            _ => Err(cast_error(self.type_label(), "integer"@)),
        }
    }

    /// The index or count that a value converts to: as for a whole number,
    /// but never below zero nor above what an index can be.
    pub open spec fn as_usize(self) -> Result<usize, CallErrorView> {
        match self {
            Value::String(text) => match parse_usize_text(text) {
                Some(v) => Ok(v as usize),
                None => Err(cast_error("string"@, "unsigned_number"@)),
            },
            Value::Float(number) => match number.int_value() {
                Some(v) => if 0 <= v <= i64::MAX && v <= usize::MAX {
                    Ok(v as usize)
                } else {
                    Err(cast_error("float"@, "unsigned_number"@))
                },
                None => Err(cast_error("float"@, "unsigned_number"@)),
            },
            Value::Integer(number) => if 0 <= number <= usize::MAX {
                Ok(number as usize)
            } else {
                Err(cast_error("integer"@, "unsigned_number"@))
            },
            Value::Boolean(truth) => Ok(
                if truth {
                    1
                } else {
                    0
                },
            ),
            _ => Err(cast_error(self.type_label(), "unsigned_number"@)),
        }
    }

    /// The number that a value converts to. A text converts to the whole
    /// number that it writes; where it writes none, `float_read` is what it
    /// reads as when taken for a floating-point number.
    pub open spec fn as_number(self, float_read: Option<Float64>) -> Result<
        DynamicNumber,
        CallErrorView,
    > {
        match self {
            Value::String(text) => match parse_i64_text(text) {
                Some(v) => Ok(DynamicNumber::Integer(v as i64)),
                None => match float_read {
                    Some(number) => Ok(DynamicNumber::Float(number)),
                    None => Err(cast_error("string"@, "number"@)),
                },
            },
            Value::Integer(number) => Ok(DynamicNumber::Integer(number as i64)),
            Value::Float(number) => Ok(DynamicNumber::Float(number)),
            Value::Boolean(truth) => Ok(
                DynamicNumber::Integer(
                    if truth {
                        1
                    } else {
                        0
                    },
                ),
            ),
            _ => Err(cast_error(self.type_label(), "number"@)),
        }
    }

    /// Whether the conversion of a value to a number depends on what its
    /// text reads as when taken for a floating-point number.
    pub open spec fn number_needs_float_read(self) -> bool {
        self matches Value::String(text) && parse_i64_text(text) is None
    }

    /// The floating-point number that a value converts to. `float_read` is
    /// what the text of a text value reads as.
    pub open spec fn as_f64(self, float_read: Option<Float64>) -> Result<Float64, CallErrorView> {
        match self {
            Value::String(_) => match float_read {
                Some(number) => Ok(number),
                None => Err(cast_error("string"@, "float"@)),
            },
            Value::Float(number) => Ok(number),
            Value::Integer(number) => Ok(Float64::nearest(number)),
            Value::Boolean(truth) => Ok(
                Float64::nearest(
                    if truth {
                        1
                    } else {
                        0
                    },
                ),
            ),
            _ => Err(cast_error(self.type_label(), "float"@)),
        }
    }

    /// The text that a value converts to. `float_text` is what a
    /// floating-point number is written as. A list converts to no text.
    pub open spec fn as_text(self, float_text: Seq<char>) -> Result<Seq<char>, CallErrorView> {
        match self {
            Value::List(_) => Err(cast_error("list"@, "string"@)),
            Value::String(text) => Ok(text),
            Value::Float(_) => Ok(float_text),
            Value::Integer(number) => Ok(signed_decimal(number)),
            Value::Boolean(truth) => Ok(
                if truth {
                    "true"@
                } else {
                    "false"@
                },
            ),
            Value::Regex(source) => Ok(source),
            Value::Null => Ok(Seq::empty()),
        }
    }
}

/// Whether `outcome` is what `parse_float` may give for the text `text`.
pub open spec fn reads_float<P: Fn(&str) -> Option<Float64>>(
    parse_float: &P,
    text: Seq<char>,
    outcome: Option<Float64>,
) -> bool {
    exists|t: &str| #[trigger] t@ == text && parse_float.ensures((t,), outcome)
}

/// Whether `text` is what `format_float` may write for the number `number`.
pub open spec fn writes_float<F: Fn(Float64) -> String>(
    format_float: &F,
    number: Float64,
    text: Seq<char>,
) -> bool {
    exists|t: String| #[trigger] t@ == text && format_float.ensures((number,), t)
}

/// The text of an outcome.
pub open spec fn text_outcome(r: Result<Cow<str>, CallError>) -> Result<Seq<char>, CallErrorView> {
    match r {
        Ok(text) => Ok(text@),
        Err(e) => Err(e@),
    }
}

impl Value {
    /// Whether `r` is an outcome of converting this value to a number, where
    /// `parse_float` reads a text as a floating-point number.
    pub open spec fn converts_to_number<P: Fn(&str) -> Option<Float64>>(
        self,
        parse_float: &P,
        r: Result<DynamicNumber, CallErrorView>,
    ) -> bool {
        if self.number_needs_float_read() {
            exists|float_read: Option<Float64>|
                #![auto]
                reads_float(parse_float, self->String_0, float_read) && r == self.as_number(
                    float_read,
                )
        } else {
            r == self.as_number(None)
        }
    }

    /// Whether `r` is an outcome of converting this value to a
    /// floating-point number, where `parse_float` reads a text as one.
    pub open spec fn converts_to_f64<P: Fn(&str) -> Option<Float64>>(
        self,
        parse_float: &P,
        r: Result<Float64, CallErrorView>,
    ) -> bool {
        if self is String {
            exists|float_read: Option<Float64>|
                #![auto]
                reads_float(parse_float, self->String_0, float_read) && r == self.as_f64(
                    float_read,
                )
        } else {
            r == self.as_f64(None)
        }
    }

    /// Whether `r` is an outcome of converting this value to a text, where
    /// `format_float` writes a floating-point number.
    pub open spec fn converts_to_text<F: Fn(Float64) -> String>(
        self,
        format_float: &F,
        r: Result<Seq<char>, CallErrorView>,
    ) -> bool {
        if self is Float {
            exists|float_text: Seq<char>|
                #![auto]
                writes_float(format_float, self->Float_0, float_text) && r == self.as_text(
                    float_text,
                )
        } else {
            r == self.as_text(Seq::empty())
        }
    }
}

/// The runs of bytes `parts` in a row, with `separator` between each two.
pub open spec fn join(parts: Seq<Seq<u8>>, separator: Seq<u8>) -> Seq<u8>
    decreases parts.len(),
{
    if parts.len() == 0 {
        Seq::empty()
    } else if parts.len() == 1 {
        parts[0]
    } else {
        join(parts.drop_last(), separator) + separator + parts.last()
    }
}

impl Value {
    /// Whether `bytes` is a way to write this value out. A list is written
    /// as its values, each written out, with `separator` between each two;
    /// any other value as the bytes of its text, where the text of a
    /// floating-point number is one that `format_float` may write.
    pub open spec fn renders<F: Fn(Float64) -> String>(
        self,
        separator: Seq<u8>,
        format_float: &F,
        bytes: Seq<u8>,
    ) -> bool
        decreases self,
    {
        match self {
            Value::List(items) => exists|parts: Seq<Seq<u8>>|
                #![auto]
                parts.len() == items.len() && (forall|i: int|
                    0 <= i < items.len() ==> items[i].renders(
                        separator,
                        format_float,
                        #[trigger] parts[i],
                    )) && bytes == join(parts, separator),
            Value::Float(number) => exists|text: Seq<char>|
                #![auto]
                writes_float(format_float, number, text) && bytes == encode_utf8(text),
            _ => self.as_text(Seq::empty()) matches Ok(text) && bytes == encode_utf8(text),
        }
    }
}

/// Adds the bytes of `other` at the end of `bytes`.
pub fn append_bytes(bytes: &mut Vec<u8>, other: &[u8])
    ensures
        final(bytes)@ == old(bytes)@ + other@,
{
    let mut i: usize = 0;
    while i < other.len()
        invariant
            i <= other.len(),
            bytes@ == old(bytes)@ + other@.take(i as int),
        decreases other.len() - i,
    {
        bytes.push(other[i]);
        assert(other@.take(i + 1) =~= other@.take(i as int).push(other@[i as int]));
        i = i + 1;
    }
    assert(other@.take(i as int) =~= other@);
}

/// The bytes that are held or lent.
pub fn held_bytes<'a>(bytes: &'a Cow<'a, [u8]>) -> (r: &'a [u8])
    ensures
        r@ == bytes@,
{
    match bytes {
        Cow::Borrowed(lent) => lent,
        Cow::Owned(held) => held.as_slice(),
    }
}

impl DynamicValue {
    /// The name of the type of this value.
    pub fn type_of(&self) -> (name: &'static str)
        ensures
            name@ == self@.type_label(),
    {
        match self {
            Self::List(_) => "list",
            Self::String(_) => "string",
            Self::Float(_) => "float",
            Self::Integer(_) => "integer",
            Self::Boolean(_) => "boolean",
            Self::Regex(_) => "regex",
            Self::Null => "none",
        }
    }

    /// The pattern that this value is. Only a pattern converts to one.
    pub fn try_as_regex(&self) -> (r: Result<&Pattern, CallError>)
        ensures
            match r {
                Ok(pattern) => *self == DynamicValue::Regex(*pattern),
                Err(e) => !(self is Regex) && e@ == cast_error(self@.type_label(), "regex"@),
            },
    {
        match self {
            Self::Regex(pattern) => Ok(pattern),
            value => Err(CallError::cast(value.type_of(), "regex")),
        }
    }

    /// The values of the list that this value is. Only a list converts to
    /// one.
    pub fn try_as_list(&self) -> (r: Result<&Vec<DynamicValue>, CallError>)
        ensures
            match r {
                Ok(list) => *self == DynamicValue::List(*list),
                Err(e) => !(self is List) && e@ == cast_error(self@.type_label(), "list"@),
            },
    {
        match self {
            Self::List(list) => Ok(list),
            value => Err(CallError::cast(value.type_of(), "list")),
        }
    }

    /// The values of the list that this value is, taken out of it. Only a
    /// list converts to one.
    pub fn try_into_list(self) -> (r: Result<Vec<DynamicValue>, CallError>)
        ensures
            match r {
                Ok(list) => self == DynamicValue::List(list),
                Err(e) => !(self is List) && e@ == cast_error(self@.type_label(), "list"@),
            },
    {
        match self {
            Self::List(list) => Ok(list),
            value => Err(CallError::cast(value.type_of(), "list")),
        }
    }

    /// The index or count that this value converts to. A text converts where
    /// it writes one in decimal, a number where it is whole and not below
    /// zero, true to one and false to zero. Nothing else converts.
    pub fn try_as_usize(&self) -> (r: Result<usize, CallError>)
        ensures
            outcome(r) == self@.as_usize(),
    {
        match self {
            Self::String(string) => match parse_usize(string.as_str()) {
                None => Err(CallError::cast("string", "unsigned_number")),
                Some(value) => Ok(value),
            },
            Self::Float(value) => match value.to_i64() {
                Some(safe_downgraded_value) => match i64_to_index(safe_downgraded_value) {
                    Some(index) => Ok(index),
                    None => Err(CallError::cast("float", "unsigned_number")),
                },
                None => Err(CallError::cast("float", "unsigned_number")),
            },
            Self::Integer(value) => match i64_to_index(*value) {
                Some(index) => Ok(index),
                None => Err(CallError::cast("integer", "unsigned_number")),
            },
            Self::Boolean(value) => Ok(
                if *value {
                    1
                } else {
                    0
                },
            ),
            value => Err(CallError::cast(value.type_of(), "unsigned_number")),
        }
    }

    /// The whole number that this value converts to. A text converts where
    /// it writes one in decimal, a floating-point number where it equals
    /// one, true to one and false to zero. Nothing else converts.
    pub fn try_as_i64(&self) -> (r: Result<i64, CallError>)
        ensures
            outcome(r) == self@.as_i64(),
    {
        match self {
            Self::String(string) => match parse_i64(string.as_str()) {
                None => Err(CallError::cast("string", "integer")),
                Some(value) => Ok(value),
            },
            Self::Float(value) => match value.to_i64() {
                Some(safe_downgraded_value) => Ok(safe_downgraded_value),
                None => Err(CallError::cast("float", "integer")),
            },
            Self::Integer(value) => Ok(*value),
            Self::Boolean(value) => Ok(
                if *value {
                    1
                } else {
                    0
                },
            ),
            value => Err(CallError::cast(value.type_of(), "integer")),
        }
    }

    /// Whether this value counts as true.
    pub fn is_truthy(&self) -> (r: bool)
        ensures
            r == self@.truthy(),
    {
        match self {
            Self::List(value) => value.len() != 0,
            Self::String(value) => !value.as_str().is_empty(),
            Self::Float(value) => value.equals_zero(),
            Self::Integer(value) => *value != 0,
            Self::Boolean(value) => *value,
            Self::Regex(pattern) => !pattern.as_str().is_empty(),
            Self::Null => false,
        }
    }

    /// Whether this value counts as false.
    pub fn is_falsey(&self) -> (r: bool)
        ensures
            r == !self@.truthy(),
    {
        !self.is_truthy()
    }
}

impl DynamicValue {
    /// The number that this value converts to, where `float_read` is what
    /// its text reads as when taken for a floating-point number.
    pub fn number_from(&self, float_read: Option<Float64>) -> (r: Result<DynamicNumber, CallError>)
        ensures
            outcome(r) == self@.as_number(float_read),
    {
        match self {
            Self::String(string) => match parse_i64(string.as_str()) {
                Some(value) => Ok(DynamicNumber::Integer(value)),
                None => match float_read {
                    Some(value) => Ok(DynamicNumber::Float(value)),
                    None => Err(CallError::cast("string", "number")),
                },
            },
            Self::Integer(value) => Ok(DynamicNumber::Integer(*value)),
            Self::Float(value) => Ok(DynamicNumber::Float(*value)),
            Self::Boolean(value) => Ok(
                DynamicNumber::Integer(
                    if *value {
                        1
                    } else {
                        0
                    },
                ),
            ),
            value => Err(CallError::cast(value.type_of(), "number")),
        }
    }

    /// The number that this value converts to. A text converts to the whole
    /// number that it writes in decimal; where it writes none, to what
    /// `parse_float` reads it as. A number converts to itself, true to one
    /// and false to zero. Nothing else converts.
    pub fn try_as_number<P: Fn(&str) -> Option<Float64>>(&self, parse_float: &P) -> (r: Result<
        DynamicNumber,
        CallError,
    >)
        requires
            forall|t: &str| #[trigger] parse_float.requires((t,)),
        ensures
            self@.converts_to_number(parse_float, outcome(r)),
    {
        match self {
            Self::String(string) => {
                let text = string.as_str();
                match parse_i64(text) {
                    Some(_) => self.number_from(None),
                    None => {
                        let float_read = parse_float(text);
                        assert(reads_float(parse_float, self@->String_0, float_read)) by {
                            assert(text@ == self@->String_0);
                        }
                        self.number_from(float_read)
                    },
                }
            },
            _ => self.number_from(None),
        }
    }

    /// The floating-point number that this value converts to, where
    /// `float_read` is what its text reads as.
    pub fn f64_from(&self, float_read: Option<Float64>) -> (r: Result<Float64, CallError>)
        ensures
            outcome(r) == self@.as_f64(float_read),
    {
        match self {
            Self::String(_) => match float_read {
                Some(value) => Ok(value),
                None => Err(CallError::cast("string", "float")),
            },
            Self::Float(value) => Ok(*value),
            Self::Integer(value) => Ok(Float64::from_i64(*value)),
            Self::Boolean(value) => Ok(
                if *value {
                    Float64::one()
                } else {
                    Float64::from_i64(0)
                },
            ),
            value => Err(CallError::cast(value.type_of(), "float")),
        }
    }

    /// The floating-point number that this value converts to. A text
    /// converts to what `parse_float` reads it as, a whole number to the
    /// number that stands for it, true to one and false to zero. Nothing else
    /// converts.
    pub fn try_as_f64<P: Fn(&str) -> Option<Float64>>(&self, parse_float: &P) -> (r: Result<
        Float64,
        CallError,
    >)
        requires
            forall|t: &str| #[trigger] parse_float.requires((t,)),
        ensures
            self@.converts_to_f64(parse_float, outcome(r)),
    {
        match self {
            Self::String(string) => {
                let text = string.as_str();
                let float_read = parse_float(text);
                assert(reads_float(parse_float, self@->String_0, float_read)) by {
                    assert(text@ == self@->String_0);
                }
                self.f64_from(float_read)
            },
            _ => self.f64_from(None),
        }
    }

    /// The text that this value converts to, where `float_text` is what a
    /// floating-point number is written as.
    pub fn text_from<'a>(&'a self, float_text: String) -> (r: Result<Cow<'a, str>, CallError>)
        ensures
            text_outcome(r) == self@.as_text(float_text@),
    {
        Ok(
            match self {
                Self::List(_) => {
                    return Err(CallError::cast("list", "string"));
                },
                Self::String(value) => Cow::Borrowed(value.as_str()),
                Self::Float(_) => Cow::Owned(float_text),
                Self::Integer(value) => Cow::Owned(i64_to_string(*value)),
                Self::Boolean(value) => {
                    if *value {
                        Cow::Borrowed("true")
                    } else {
                        Cow::Borrowed("false")
                    }
                },
                Self::Regex(pattern) => Cow::Borrowed(pattern.as_str()),
                Self::Null => {
                    proof {
                        reveal_strlit("");
                    }
                    assert(""@ =~= Seq::<char>::empty());
                    Cow::Borrowed("")
                },
            },
        )
    }

    /// The text that this value converts to: a text itself, a whole number
    /// in decimal, a floating-point number as `format_float` writes it,
    /// `true` or `false`, the source of a pattern, and nothing for the absent
    /// value. A list converts to no text.
    pub fn try_as_str<'a, F: Fn(Float64) -> String>(&'a self, format_float: &F) -> (r: Result<
        Cow<'a, str>,
        CallError,
    >)
        requires
            forall|f: Float64| #[trigger] format_float.requires((f,)),
        ensures
            self@.converts_to_text(format_float, text_outcome(r)),
    {
        match self {
            Self::Float(value) => {
                let float_text = format_float(*value);
                assert(writes_float(format_float, *value, float_text@));
                self.text_from(float_text)
            },
            _ => self.text_from(String::new()),
        }
    }

    /// Writes this value out as bytes. A list is written as its values, each
    /// written out, with `plural_separator` between each two; any other value
    /// as the bytes of the text that it converts to.
    pub fn serialize_as_bytes<'a, F: Fn(Float64) -> String>(
        &'a self,
        plural_separator: &[u8],
        format_float: &F,
    ) -> (bytes: Cow<'a, [u8]>)
        requires
            forall|f: Float64| #[trigger] format_float.requires((f,)),
        ensures
            self@.renders(plural_separator@, format_float, bytes@),
        decreases self,
    {
        match self {
            Self::List(list) => {
                let mut bytes: Vec<u8> = Vec::new();
                let ghost mut parts: Seq<Seq<u8>> = Seq::empty();
                let mut i: usize = 0;
                while i < list.len()
                    invariant
                        self is List && self->List_0 == *list,
                        forall|f: Float64| #[trigger] format_float.requires((f,)),
                        i <= list.len(),
                        parts.len() == i,
                        forall|j: int|
                            0 <= j < i ==> list@[j]@.renders(
                                plural_separator@,
                                format_float,
                                #[trigger] parts[j],
                            ),
                        bytes@ == join(parts, plural_separator@),
                    decreases list.len() - i,
                {
                    if i > 0 {
                        append_bytes(&mut bytes, plural_separator);
                    }
                    assert(decreases_to!(*list => list[i as int]));
                    let part = list[i].serialize_as_bytes(plural_separator, format_float);
                    append_bytes(&mut bytes, held_bytes(&part));
                    proof {
                        let longer = parts.push(part@);
                        assert(longer.drop_last() =~= parts);
                        assert(bytes@ =~= join(longer, plural_separator@));
                        parts = longer;
                    }
                    i = i + 1;
                }
                proof {
                    lemma_view_of_list(*list);
                    let items = self@->List_0;
                    assert forall|j: int| 0 <= j < items.len() implies items[j].renders(
                        plural_separator@,
                        format_float,
                        #[trigger] parts[j],
                    ) by {
                        assert(items[j] == list@[j]@);
                    }
                }
                Cow::Owned(bytes)
            },
            Self::Float(value) => {
                let float_text = format_float(*value);
                assert(writes_float(format_float, *value, float_text@));
                Cow::Owned(float_text.as_str().as_bytes_vec())
            },
            Self::String(value) => Cow::Borrowed(value.as_str().as_bytes()),
            Self::Integer(value) => Cow::Owned(i64_to_string(*value).as_str().as_bytes_vec()),
            Self::Boolean(value) => {
                if *value {
                    Cow::Borrowed("true".as_bytes())
                } else {
                    Cow::Borrowed("false".as_bytes())
                }
            },
            Self::Regex(pattern) => Cow::Borrowed(pattern.as_str().as_bytes()),
            Self::Null => {
                proof {
                    reveal_strlit("");
                }
                assert(""@ =~= Seq::<char>::empty());
                Cow::Borrowed("".as_bytes())
            },
        }
    }
}

} // verus!

//! When two values are the same.

use crate::value::{lemma_view_of_list, views, DynamicValue, Value};
use vstd::prelude::*;
use vstd::std_specs::cmp::PartialEqSpecImpl;

verus! {

impl Value {
    /// Whether two values are the same: they are of the same type, and the
    /// same within it. Two lists are the same where they are as long as each
    /// other and hold the same values in the same order; two floating-point
    /// numbers where they are equal as numbers, so that not-a-number is not
    /// the same as itself; two patterns where their source texts are. A
    /// whole number is never the same as a floating-point one.
    pub open spec fn same_value(self, other: Value) -> bool
        decreases self,
    {
        match (self, other) {
            (Value::Regex(a), Value::Regex(b)) => a == b,
            (Value::Boolean(a), Value::Boolean(b)) => a == b,
            (Value::String(a), Value::String(b)) => a == b,
            (Value::Float(a), Value::Float(b)) => a.same_number(b),
            (Value::Integer(a), Value::Integer(b)) => a == b,
            (Value::List(a), Value::List(b)) => a.len() == b.len() && forall|i: int|
                0 <= i < a.len() ==> (#[trigger] a[i]).same_value(b[i]),
            (Value::Null, Value::Null) => true,
            _ => false,
        }
    }
}

impl PartialEq for DynamicValue {
    fn eq(&self, other: &Self) -> (r: bool)
        decreases self,
    {
        match (self, other) {
            (Self::Regex(a), Self::Regex(b)) => a.same_source(b),
            (Self::Boolean(a), Self::Boolean(b)) => *a == *b,
            (Self::String(a), Self::String(b)) => *a == *b,
            (Self::Float(a), Self::Float(b)) => a.equals(*b),
            (Self::Integer(a), Self::Integer(b)) => *a == *b,
            (Self::List(a), Self::List(b)) => {
                proof {
                    lemma_view_of_list(*a);
                    lemma_view_of_list(*b);
                }
                if a.len() != b.len() {
                    return false;
                }
                let mut i: usize = 0;
                while i < a.len()
                    invariant
                        self is List && self->List_0 == *a,
                        self@ == Value::List(views(a@)),
                        other@ == Value::List(views(b@)),
                        a.len() == b.len(),
                        i <= a.len(),
                        forall|j: int| 0 <= j < i ==> (#[trigger] views(a@)[j]).same_value(views(b@)[j]),
                    decreases a.len() - i,
                {
                    assert(decreases_to!(*a => a[i as int]));
                    if !a[i].eq(&b[i]) {
                        assert(!views(a@)[i as int].same_value(views(b@)[i as int]));
                        return false;
                    }
                    i = i + 1;
                }
                true
            },
            (Self::Null, Self::Null) => true,
            _ => false,
        }
    }
}

impl PartialEqSpecImpl for DynamicValue {
    open spec fn obeys_eq_spec() -> bool {
        true
    }

    open spec fn eq_spec(&self, other: &Self) -> bool {
        self@.same_value(other@)
    }
}

} // verus!

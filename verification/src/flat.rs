//! Walking the values of a nested list as if it were flat.

use crate::value::{DynamicValue, Value};
use std::collections::VecDeque;
use vstd::prelude::*;

verus! {

impl Value {
    /// The values within this one that are no lists, from left to right: a
    /// value that is no list is its own only leaf, and the leaves of a list
    /// are those of its values, one after the other.
    pub open spec fn leaves(self) -> Seq<Value>
        decreases self,
    {
        match self {
            Value::List(items) => leaves_of(items),
            _ => seq![self],
        }
    }

    /// How many values there are in this one, itself and lists included.
    pub open spec fn weight(self) -> nat
        decreases self,
    {
        match self {
            Value::List(items) => 1 + weight_of(items),
            _ => 1,
        }
    }
}

/// The leaves of each value of `items`, one after the other.
pub open spec fn leaves_of(items: Seq<Value>) -> Seq<Value>
    decreases items,
{
    if items.len() == 0 {
        Seq::empty()
    } else {
        items[0].leaves() + leaves_of(items.drop_first())
    }
}

/// How many values there are in `items`, lists and what they hold included.
pub open spec fn weight_of(items: Seq<Value>) -> nat
    decreases items,
{
    if items.len() == 0 {
        0
    } else {
        items[0].weight() + weight_of(items.drop_first())
    }
}

/// The leaves of two rows of values, one after the other, are the leaves of
/// the one row that the two make.
pub proof fn lemma_leaves_of_concat(a: Seq<Value>, b: Seq<Value>)
    ensures
        leaves_of(a + b) == leaves_of(a) + leaves_of(b),
        weight_of(a + b) == weight_of(a) + weight_of(b),
    decreases a.len(),
{
    if a.len() == 0 {
        assert(a + b =~= b);
        assert(leaves_of(a) + leaves_of(b) =~= leaves_of(b));
    } else {
        lemma_leaves_of_concat(a.drop_first(), b);
        assert((a + b).drop_first() =~= a.drop_first() + b);
        assert(leaves_of(a + b) =~= leaves_of(a) + leaves_of(b));
    }
}

/// No leaf is a list.
pub proof fn lemma_leaves_are_no_lists(value: Value, i: int)
    requires
        0 <= i < value.leaves().len(),
    ensures
        !(value.leaves()[i] is List),
    decreases value,
{
    match value {
        Value::List(items) => {
            lemma_leaves_of_are_no_lists(items, i);
        },
        _ => {},
    }
}

/// No leaf of a row of values is a list.
pub proof fn lemma_leaves_of_are_no_lists(items: Seq<Value>, i: int)
    requires
        0 <= i < leaves_of(items).len(),
    ensures
        !(leaves_of(items)[i] is List),
    decreases items,
{
    if items.len() > 0 {
        let first = items[0].leaves();
        if i < first.len() {
            lemma_leaves_are_no_lists(items[0], i);
        } else {
            lemma_leaves_of_are_no_lists(items.drop_first(), i - first.len());
        }
    }
}

/// What each of the values that `queue` refers to is.
pub open spec fn referred(queue: Seq<&DynamicValue>) -> Seq<Value> {
    Seq::new(queue.len(), |i: int| queue[i]@)
}

/// A walk over the leaves of a value, from left to right.
pub struct DynamicValueFlatIter<'a> {
    queue: VecDeque<&'a DynamicValue>,
}

impl<'a> DynamicValueFlatIter<'a> {
    /// The leaves that the walk has yet to give, in the order in which it
    /// will give them.
    pub closed spec fn remaining(&self) -> Seq<Value> {
        leaves_of(referred(self.queue@))
    }

    /// The walk over the leaves of `value`, at its start.
    pub fn new(value: &'a DynamicValue) -> (iter: Self)
        ensures
            iter.remaining() == value@.leaves(),
    {
        let initial_capacity = match value {
            DynamicValue::List(list) => list.len(),
            _ => 1,
        };
        let mut queue: VecDeque<&DynamicValue> = VecDeque::with_capacity(initial_capacity);
        queue.push_back(value);
        proof {
            let row = referred(queue@);
            assert(row =~= seq![value@]);
            assert(row.drop_first() =~= Seq::<Value>::empty());
            assert(leaves_of(row.drop_first()) =~= Seq::<Value>::empty());
            assert(leaves_of(row) =~= value@.leaves() + leaves_of(row.drop_first()));
            assert(leaves_of(row) =~= value@.leaves());
        }
        DynamicValueFlatIter { queue }
    }

    /// The next leaf, and `None` once every leaf was given.
    pub fn next(&mut self) -> (r: Option<&'a DynamicValue>)
        ensures
            match r {
                Some(value) => old(self).remaining().len() > 0 && value@ == old(
                    self,
                ).remaining()[0] && final(self).remaining() == old(self).remaining().drop_first(),
                None => old(self).remaining().len() == 0 && final(self).remaining().len() == 0,
            },
    {
        loop
            invariant
                self.remaining() == old(self).remaining(),
            decreases weight_of(referred(self.queue@)),
        {
            let ghost before = referred(self.queue@);
            match self.queue.pop_front() {
                None => {
                    assert(before =~= Seq::<Value>::empty());
                    return None;
                },
                Some(value) => {
                    let ghost rest = referred(self.queue@);
                    assert(before.drop_first() =~= rest);
                    assert(before[0] == value@);
                    match value {
                        DynamicValue::List(list) => {
                            let ghost children = crate::value::views(list@);
                            proof {
                                crate::value::lemma_view_of_list(*list);
                            }
                            let mut k: usize = list.len();
                            while k > 0
                                invariant
                                    k <= list.len(),
                                    children == crate::value::views(list@),
                                    referred(self.queue@) == children.skip(k as int) + rest,
                                decreases k,
                            {
                                k = k - 1;
                                let ghost queued = referred(self.queue@);
                                self.queue.push_front(&list[k]);
                                assert(referred(self.queue@) =~= seq![list@[k as int]@] + queued);
                                assert(children.skip(k as int) =~= seq![children[k as int]]
                                    + children.skip(k + 1));
                                assert(referred(self.queue@) =~= children.skip(k as int) + rest);
                            }
                            proof {
                                assert(children.skip(0) =~= children);
                                lemma_leaves_of_concat(children, rest);
                                assert(value@ == Value::List(children));
                                assert(leaves_of(before) == value@.leaves() + leaves_of(rest));
                                assert(weight_of(before) == value@.weight() + weight_of(rest));
                                assert(value@.weight() == 1 + weight_of(children));
                            }
                        },
                        _ => {
                            proof {
                                assert(value@.leaves() =~= seq![value@]);
                                assert(leaves_of(before) =~= seq![value@] + leaves_of(rest));
                                assert(leaves_of(before).drop_first() =~= leaves_of(rest));
                            }
                            return Some(value);
                        },
                    }
                },
            }
        }
    }

    /// The leaves that are left, all at once.
    pub fn into_vec(self) -> (leaves: Vec<&'a DynamicValue>)
        ensures
            referred(leaves@) == self.remaining(),
    {
        let mut iter = self;
        let mut leaves: Vec<&'a DynamicValue> = Vec::new();
        loop
            invariant
                referred(leaves@) + iter.remaining() == self.remaining(),
            decreases iter.remaining().len(),
        {
            let ghost before = iter.remaining();
            match iter.next() {
                None => {
                    assert(referred(leaves@) + before =~= referred(leaves@));
                    return leaves;
                },
                Some(value) => {
                    let ghost given = referred(leaves@);
                    leaves.push(value);
                    assert(referred(leaves@) =~= given + seq![value@]);
                    assert(before =~= seq![value@] + before.drop_first());
                    assert(referred(leaves@) + iter.remaining() =~= given + before);
                },
            }
        }
    }
}

impl DynamicValue {
    /// A walk over the leaves of this value: the values within it that are
    /// no lists, from left to right.
    pub fn flat_iter(&self) -> (iter: DynamicValueFlatIter<'_>)
        ensures
            iter.remaining() == self@.leaves(),
    {
        DynamicValueFlatIter::new(self)
    }
}

} // verus!

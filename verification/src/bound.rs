//! The arguments of one call: bound, counted, and handed to the function in
//! the type that it works on.

use crate::error::{
    cast_error,
    outcome,
    strict_arity_error,
    ArityView,
    CallError,
    CallErrorView,
};
use crate::float::Float64;
use crate::number::DynamicNumber;
use crate::value::{text_outcome, views, DynamicValue, Value};
use std::borrow::Cow;
use std::ops::RangeInclusive;
use vstd::prelude::*;

verus! {

/// One argument of a call: a value of its own, or one lent by the row or by
/// another binding.
pub type BoundArgument<'a> = Cow<'a, DynamicValue>;

/// What each of the arguments is.
pub open spec fn bound_views(stack: Seq<BoundArgument>) -> Seq<Value> {
    Seq::new(stack.len(), |i: int| stack[i]@)
}

/// The value of an argument, held or lent.
pub fn bound_value<'b, 'a>(arg: &'b BoundArgument<'a>) -> (value: &'b DynamicValue)
    ensures
        value@ == arg@,
{
    match arg {
        Cow::Borrowed(lent) => lent,
        Cow::Owned(held) => held,
    }
}

/// The arguments of one call, in the order in which they were bound.
pub struct BoundArguments<'a> {
    stack: Vec<BoundArgument<'a>>,
}

impl<'a> View for BoundArguments<'a> {
    type V = Seq<Value>;

    closed spec fn view(&self) -> Seq<Value> {
        bound_views(self.stack@)
    }
}

/// The outcome of asking for exactly `expected` arguments of a call that
/// bound `got`.
pub open spec fn strict_arity(expected: nat, got: nat) -> Result<(), CallErrorView> {
    if got == expected {
        Ok(())
    } else {
        Err(strict_arity_error(expected, got))
    }
}

/// The outcome of asking for `min` arguments or more of a call that bound
/// `got`.
pub open spec fn min_arity(min: nat, got: nat) -> Result<(), CallErrorView> {
    if got >= min {
        Ok(())
    } else {
        Err(CallErrorView::InvalidArity { expected: ArityView::Min(min), got })
    }
}

/// The outcome of asking for `min` to `max` arguments of a call that bound
/// `got`.
pub open spec fn range_arity(min: nat, max: nat, got: nat) -> Result<(), CallErrorView> {
    if min <= got <= max {
        Ok(())
    } else {
        Err(CallErrorView::InvalidArity { expected: ArityView::Range(min, max), got })
    }
}

/// The outcome of two conversions, one after the other: both results, or
/// the first error, where the second conversion is not made once the first
/// failed.
pub open spec fn pair_of<T>(first: Result<T, CallErrorView>, second: Result<T, CallErrorView>) -> Result<
    (T, T),
    CallErrorView,
> {
    match first {
        Err(e) => Err(e),
        Ok(a) => match second {
            Err(e) => Err(e),
            Ok(b) => Ok((a, b)),
        },
    }
}

/// The texts of an outcome.
pub open spec fn texts_outcome(r: Result<(Cow<str>, Cow<str>), CallError>) -> Result<
    (Seq<char>, Seq<char>),
    CallErrorView,
> {
    match r {
        Ok((a, b)) => Ok((a@, b@)),
        Err(e) => Err(e@),
    }
}

impl<'a> BoundArguments<'a> {
    /// No arguments yet, with room for `capacity` of them.
    pub fn with_capacity(capacity: usize) -> (args: Self)
        ensures
            args@ == Seq::<Value>::empty(),
    {
        let args = Self { stack: Vec::with_capacity(capacity) };
        assert(args@ =~= Seq::<Value>::empty());
        args
    }

    /// How many arguments are bound.
    pub fn len(&self) -> (n: usize)
        ensures
            n == self@.len(),
    {
        self.stack.len()
    }

    /// Binds one more argument, after those already bound.
    pub fn push(&mut self, arg: BoundArgument<'a>)
        ensures
            final(self)@ == old(self)@.push(arg@),
    {
        self.stack.push(arg);
        assert(self@ =~= old(self)@.push(arg@));
    }

    /// Checks that exactly `expected` arguments are bound.
    pub fn validate_arity(&self, expected: usize) -> (r: Result<(), CallError>)
        ensures
            outcome(r) == strict_arity(expected as nat, self@.len()),
    {
        if self.len() != expected {
            Err(CallError::from_invalid_arity(expected, self.len()))
        } else {
            Ok(())
        }
    }

    /// Checks that `min` arguments or more are bound.
    pub fn validate_min_arity(&self, min: usize) -> (r: Result<(), CallError>)
        ensures
            outcome(r) == min_arity(min as nat, self@.len()),
    {
        if self.len() < min {
            Err(CallError::from_invalid_min_arity(min, self.len()))
        } else {
            Ok(())
        }
    }

    /// Checks that no fewer than `min` and no more than `max` arguments are
    /// bound.
    pub fn validate_min_max_arity(&self, min: usize, max: usize) -> (r: Result<(), CallError>)
        ensures
            outcome(r) == range_arity(min as nat, max as nat, self@.len()),
    {
        if self.len() < min || self.len() > max {
            Err(CallError::from_range_arity(RangeInclusive::new(min, max), self.len()))
        } else {
            Ok(())
        }
    }

    /// The argument at position `i`, and `None` where fewer are bound.
    pub fn get(&self, i: usize) -> (r: Option<&BoundArgument<'a>>)
        ensures
            match r {
                Some(arg) => i < self@.len() && arg@ == self@[i as int],
                None => i >= self@.len(),
            },
    {
        if i < self.stack.len() {
            Some(&self.stack[i])
        } else {
            None
        }
    }

    /// The arguments at the first `n` positions, with `None` at each
    /// position where none is bound.
    pub fn getn_opt(&self, n: usize) -> (selection: Vec<Option<&BoundArgument<'a>>>)
        ensures
            selection@.len() == n,
            forall|i: int|
                0 <= i < n ==> match #[trigger] selection@[i] {
                    Some(arg) => i < self@.len() && arg@ == self@[i],
                    None => i >= self@.len(),
                },
    {
        let mut selection: Vec<Option<&BoundArgument>> = Vec::new();
        let mut i: usize = 0;
        while i < n
            invariant
                i <= n,
                selection@.len() == i,
                forall|j: int|
                    0 <= j < i ==> match #[trigger] selection@[j] {
                        Some(arg) => j < self@.len() && arg@ == self@[j],
                        None => j >= self@.len(),
                    },
            decreases n - i,
        {
            selection.push(self.get(i));
            i = i + 1;
        }
        selection
    }

    /// The only argument. An error where fewer or more than one are bound.
    pub fn get1(&self) -> (r: Result<&BoundArgument<'a>, CallError>)
        ensures
            match r {
                Ok(arg) => self@.len() == 1 && arg@ == self@[0],
                Err(e) => self@.len() != 1 && e@ == strict_arity_error(1, self@.len()),
            },
    {
        if self.stack.len() != 1 {
            return Err(CallError::from_invalid_arity(1, self.stack.len()));
        }
        Ok(&self.stack[0])
    }

    /// Takes the only argument out. An error where fewer or more than one
    /// are bound, and the arguments then stay as they are.
    pub fn pop1(&mut self) -> (r: Result<BoundArgument<'a>, CallError>)
        ensures
            match r {
                Ok(arg) => old(self)@.len() == 1 && arg@ == old(self)@[0] && final(self)@.len()
                    == 0,
                Err(e) => old(self)@.len() != 1 && e@ == strict_arity_error(1, old(self)@.len())
                    && final(self)@ == old(self)@,
            },
    {
        if self.stack.len() != 1 {
            return Err(CallError::from_invalid_arity(1, self.stack.len()));
        }
        Ok(self.stack.pop().unwrap())
    }

    /// The two arguments. An error where fewer or more than two are bound.
    pub fn get2(&self) -> (r: Result<(&BoundArgument<'a>, &BoundArgument<'a>), CallError>)
        ensures
            match r {
                Ok((a, b)) => self@.len() == 2 && a@ == self@[0] && b@ == self@[1],
                Err(e) => self@.len() != 2 && e@ == strict_arity_error(2, self@.len()),
            },
    {
        if self.stack.len() != 2 {
            return Err(CallError::from_invalid_arity(2, self.stack.len()));
        }
        Ok((&self.stack[0], &self.stack[1]))
    }

    /// The three arguments. An error where fewer or more than three are
    /// bound.
    pub fn get3(&self) -> (r: Result<
        (&BoundArgument<'a>, &BoundArgument<'a>, &BoundArgument<'a>),
        CallError,
    >)
        ensures
            match r {
                Ok((a, b, c)) => self@.len() == 3 && a@ == self@[0] && b@ == self@[1] && c@
                    == self@[2],
                Err(e) => self@.len() != 3 && e@ == strict_arity_error(3, self@.len()),
            },
    {
        if self.stack.len() != 3 {
            return Err(CallError::from_invalid_arity(3, self.stack.len()));
        }
        Ok((&self.stack[0], &self.stack[1], &self.stack[2]))
    }

    /// Whether the only argument counts as true, taking it out.
    pub fn pop1_bool(&mut self) -> (r: Result<bool, CallError>)
        ensures
            outcome(r) == (if old(self)@.len() == 1 {
                Ok(old(self)@[0].truthy())
            } else {
                Err(strict_arity_error(1, old(self)@.len()))
            }),
            r is Ok ==> final(self)@.len() == 0,
            r is Err ==> final(self)@ == old(self)@,
    {
        match self.pop1() {
            Ok(value) => Ok(bound_value(&value).is_truthy()),
            Err(e) => Err(e),
        }
    }

    /// Whether each of the two arguments counts as true.
    pub fn get2_bool(&self) -> (r: Result<(bool, bool), CallError>)
        ensures
            outcome(r) == (if self@.len() == 2 {
                Ok((self@[0].truthy(), self@[1].truthy()))
            } else {
                Err(strict_arity_error(2, self@.len()))
            }),
    {
        match self.get2() {
            Ok((a, b)) => Ok((bound_value(a).is_truthy(), bound_value(b).is_truthy())),
            Err(e) => Err(e),
        }
    }

    /// The only argument as a text, as `DynamicValue::try_as_str` converts
    /// it.
    pub fn get1_str<F: Fn(Float64) -> String>(&self, format_float: &F) -> (r: Result<
        Cow<'_, str>,
        CallError,
    >)
        requires
            forall|f: Float64| #[trigger] format_float.requires((f,)),
        ensures
            self@.len() != 1 ==> text_outcome(r) == Err::<Seq<char>, CallErrorView>(
                strict_arity_error(1, self@.len()),
            ),
            self@.len() == 1 ==> self@[0].converts_to_text(format_float, text_outcome(r)),
    {
        match self.get1() {
            Ok(value) => bound_value(value).try_as_str(format_float),
            Err(e) => Err(e),
        }
    }

    /// The values of the list that the only argument is, taking it out.
    /// Only a list converts to one.
    pub fn pop1_list(&mut self) -> (r: Result<Cow<'a, Vec<DynamicValue>>, CallError>)
        ensures
            match r {
                Ok(list) => old(self)@.len() == 1 && old(self)@[0] == Value::List(views(list@)),
                Err(e) => e@ == (if old(self)@.len() != 1 {
                    strict_arity_error(1, old(self)@.len())
                } else {
                    cast_error(old(self)@[0].type_label(), "list"@)
                }) && (old(self)@.len() == 1 ==> !(old(self)@[0] is List)),
            },
            old(self)@.len() == 1 ==> final(self)@.len() == 0,
            old(self)@.len() != 1 ==> final(self)@ == old(self)@,
    {
        match self.pop1() {
            Err(e) => Err(e),
            Ok(Cow::Owned(v)) => match v.try_into_list() {
                Ok(list) => {
                    proof {
                        crate::value::lemma_view_of_list(list);
                    }
                    Ok(Cow::Owned(list))
                },
                Err(e) => Err(e),
            },
            Ok(Cow::Borrowed(v)) => match v.try_as_list() {
                Ok(list) => {
                    proof {
                        crate::value::lemma_view_of_list(*list);
                    }
                    Ok(Cow::Borrowed(list))
                },
                Err(e) => Err(e),
            },
        }
    }

    /// The only argument as a number, as `DynamicValue::try_as_number`
    /// converts it, taking it out.
    pub fn pop1_number<P: Fn(&str) -> Option<Float64>>(&mut self, parse_float: &P) -> (r: Result<
        DynamicNumber,
        CallError,
    >)
        requires
            forall|t: &str| #[trigger] parse_float.requires((t,)),
        ensures
            old(self)@.len() != 1 ==> outcome(r) == Err::<DynamicNumber, CallErrorView>(
                strict_arity_error(1, old(self)@.len()),
            ) && final(self)@ == old(self)@,
            old(self)@.len() == 1 ==> old(self)@[0].converts_to_number(parse_float, outcome(r))
                && final(self)@.len() == 0,
    {
        match self.pop1() {
            Ok(value) => bound_value(&value).try_as_number(parse_float),
            Err(e) => Err(e),
        }
    }

    /// The two arguments as texts, as `DynamicValue::try_as_str` converts
    /// them. Where the first does not convert, the second is not looked at.
    pub fn get2_str<F: Fn(Float64) -> String>(&self, format_float: &F) -> (r: Result<
        (Cow<'_, str>, Cow<'_, str>),
        CallError,
    >)
        requires
            forall|f: Float64| #[trigger] format_float.requires((f,)),
        ensures
            self@.len() != 2 ==> texts_outcome(r) == Err::<(Seq<char>, Seq<char>), CallErrorView>(
                strict_arity_error(2, self@.len()),
            ),
            self@.len() == 2 ==> exists|
                first: Result<Seq<char>, CallErrorView>,
                second: Result<Seq<char>, CallErrorView>,
            |
                #![auto]
                self@[0].converts_to_text(format_float, first) && (first is Ok
                    ==> self@[1].converts_to_text(format_float, second)) && texts_outcome(r)
                    == pair_of(first, second),
    {
        let (a, b) = match self.get2() {
            Ok(pair) => pair,
            Err(e) => {
                return Err(e);
            },
        };
        let first = bound_value(a).try_as_str(format_float);
        let first = match first {
            Ok(text) => text,
            Err(e) => {
                assert(pair_of(
                    Err::<Seq<char>, CallErrorView>(e@),
                    Err::<Seq<char>, CallErrorView>(e@),
                ) == Err::<(Seq<char>, Seq<char>), CallErrorView>(e@));
                return Err(e);
            },
        };
        let second = bound_value(b).try_as_str(format_float);
        assert(texts_outcome(
            match second {
                Ok(text) => Ok((first, text)),
                Err(e) => Err(e),
            },
        ) == pair_of(Ok::<Seq<char>, CallErrorView>(first@), text_outcome(second)));
        match second {
            Ok(text) => Ok((first, text)),
            Err(e) => Err(e),
        }
    }

    /// The two arguments as numbers, as `DynamicValue::try_as_number`
    /// converts them. Where the first does not convert, the second is not
    /// looked at.
    pub fn get2_number<P: Fn(&str) -> Option<Float64>>(&self, parse_float: &P) -> (r: Result<
        (DynamicNumber, DynamicNumber),
        CallError,
    >)
        requires
            forall|t: &str| #[trigger] parse_float.requires((t,)),
        ensures
            self@.len() != 2 ==> outcome(r) == Err::<(DynamicNumber, DynamicNumber), CallErrorView>(
                strict_arity_error(2, self@.len()),
            ),
            self@.len() == 2 ==> exists|
                first: Result<DynamicNumber, CallErrorView>,
                second: Result<DynamicNumber, CallErrorView>,
            |
                #![auto]
                self@[0].converts_to_number(parse_float, first) && (first is Ok
                    ==> self@[1].converts_to_number(parse_float, second)) && outcome(r)
                    == pair_of(first, second),
    {
        let (a, b) = match self.get2() {
            Ok(pair) => pair,
            Err(e) => {
                return Err(e);
            },
        };
        let first = bound_value(a).try_as_number(parse_float);
        let first = match first {
            Ok(number) => number,
            Err(e) => {
                assert(pair_of(
                    Err::<DynamicNumber, CallErrorView>(e@),
                    Err::<DynamicNumber, CallErrorView>(e@),
                ) == Err::<(DynamicNumber, DynamicNumber), CallErrorView>(e@));
                return Err(e);
            },
        };
        let second = bound_value(b).try_as_number(parse_float);
        assert(outcome(
            match second {
                Ok(number) => Ok((first, number)),
                Err(e) => Err(e),
            },
        ) == pair_of(Ok::<DynamicNumber, CallErrorView>(first), outcome(second)));
        match second {
            Ok(number) => Ok((first, number)),
            Err(e) => Err(e),
        }
    }
}

/// The arguments of a call, handed over one by one in the order in which
/// they were bound.
pub struct BoundArgumentsIntoIterator<'a>(Vec<BoundArgument<'a>>);

impl<'a> BoundArgumentsIntoIterator<'a> {
    /// The arguments that are yet to be handed over, the next one first.
    pub closed spec fn remaining(&self) -> Seq<Value> {
        bound_views(self.0@.reverse())
    }

    /// The next argument, and `None` once all were handed over.
    pub fn next(&mut self) -> (r: Option<BoundArgument<'a>>)
        ensures
            match r {
                Some(arg) => old(self).remaining().len() > 0 && arg@ == old(self).remaining()[0]
                    && final(self).remaining() == old(self).remaining().drop_first(),
                None => old(self).remaining().len() == 0 && final(self).remaining().len() == 0,
            },
    {
        let r = self.0.pop();
        proof {
            if r is Some {
                assert(self.remaining() =~= old(self).remaining().drop_first());
            }
        }
        r
    }
}

impl<'a> BoundArguments<'a> {
    /// Hands the arguments over, one by one, in the order in which they were
    /// bound.
    pub fn into_iter(self) -> (iter: BoundArgumentsIntoIterator<'a>)
        ensures
            iter.remaining() == self@,
    {
        let mut stack = self.stack;
        let mut reversed: Vec<BoundArgument<'a>> = Vec::with_capacity(stack.len());
        while stack.len() > 0
            invariant
                stack@ + reversed@.reverse() == self.stack@,
            decreases stack@.len(),
        {
            let ghost before = stack@;
            let ghost turned = reversed@;
            let arg = stack.pop().unwrap();
            reversed.push(arg);
            assert(reversed@.reverse() =~= seq![arg] + turned.reverse());
            assert(stack@ + reversed@.reverse() =~= before + turned.reverse());
        }
        assert(reversed@.reverse() =~= self.stack@);
        BoundArgumentsIntoIterator(reversed)
    }
}

} // verus!

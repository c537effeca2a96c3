//! Numbers of the expression language: whole or floating-point, and how the
//! two mix.
//!
//! Two whole numbers stay whole under sum, difference and product. As soon
//! as one operand is floating-point the other is turned into the
//! floating-point number that stands for it, and so is the result. What the
//! sum, the product or the quotient of two floating-point numbers is, the
//! caller's own arithmetic says: each operation takes it as a function.

use crate::float::{lemma_floor_of_fraction, Float64, TWO_63};
use crate::text::{i64_to_string, signed_decimal};
use std::cmp::Ordering;
use vstd::prelude::*;
use vstd::std_specs::cmp::{PartialEqSpecImpl, PartialOrdSpecImpl};

verus! {

/// A number: floating-point or whole.
#[derive(Debug, Clone, Copy)]
pub enum DynamicNumber {
    Float(Float64),
    Integer(i64),
}

/// The greatest integer not above the quotient of `a` by `b`.
pub open spec fn floor_quotient(a: int, b: int) -> int
    recommends
        b != 0,
{
    if b > 0 {
        a / b
    } else {
        (-a) / (-b)
    }
}

/// The integer within the range of a signed 64-bit integer that is nearest to `v`.
pub open spec fn saturated(v: int) -> int {
    if v < i64::MIN {
        i64::MIN as int
    } else if v > i64::MAX {
        i64::MAX as int
    } else {
        v
    }
}

impl DynamicNumber {
    /// This number as a floating-point number: itself, or the one that
    /// stands for the whole number.
    pub open spec fn as_float(self) -> Float64 {
        match self {
            DynamicNumber::Float(f) => f,
            DynamicNumber::Integer(n) => Float64::of_i64(n),
        }
    }

    /// Whether an operation on the two numbers is done on whole numbers.
    pub open spec fn both_whole(self, other: DynamicNumber) -> bool {
        self is Integer && other is Integer
    }

    /// Equality of numbers: two whole numbers are compared as such, any
    /// other pair as floating-point numbers.
    pub open spec fn same_number(self, other: DynamicNumber) -> bool {
        match (self, other) {
            (DynamicNumber::Integer(a), DynamicNumber::Integer(b)) => a == b,
            _ => self.as_float().same_number(other.as_float()),
        }
    }

    /// How this number compares with the other: two whole numbers are
    /// compared as such, any other pair as floating-point numbers.
    pub open spec fn ordering(self, other: DynamicNumber) -> Option<Ordering> {
        match (self, other) {
            (DynamicNumber::Integer(a), DynamicNumber::Integer(b)) => Some(
                if a < b {
                    Ordering::Less
                } else if a == b {
                    Ordering::Equal
                } else {
                    Ordering::Greater
                },
            ),
            _ => self.as_float().ordering(other.as_float()),
        }
    }

    /// Whether this number is below the other.
    pub open spec fn below(self, other: DynamicNumber) -> bool {
        self.ordering(other) == Some(Ordering::Less)
    }

    /// Whether this number is below the other or equal to it.
    pub open spec fn at_most(self, other: DynamicNumber) -> bool {
        self.ordering(other) == Some(Ordering::Less) || self.ordering(other) == Some(
            Ordering::Equal,
        )
    }

    /// This number as a floating-point number.
    pub fn to_float(&self) -> (r: Float64)
        ensures
            r == self.as_float(),
    {
        match self {
            DynamicNumber::Float(f) => *f,
            DynamicNumber::Integer(n) => Float64::from_i64(*n),
        }
    }
}

impl PartialEq for DynamicNumber {
    fn eq(&self, other: &Self) -> (r: bool) {
        match (self, other) {
            (DynamicNumber::Integer(a), DynamicNumber::Integer(b)) => *a == *b,
            _ => self.to_float().equals(other.to_float()),
        }
    }
}

impl PartialEqSpecImpl for DynamicNumber {
    open spec fn obeys_eq_spec() -> bool {
        true
    }

    open spec fn eq_spec(&self, other: &Self) -> bool {
        self.same_number(*other)
    }
}

impl PartialOrd for DynamicNumber {
    fn partial_cmp(&self, other: &Self) -> (r: Option<Ordering>) {
        match (self, other) {
            (DynamicNumber::Integer(a), DynamicNumber::Integer(b)) => Some(
                if *a < *b {
                    Ordering::Less
                } else if *a == *b {
                    Ordering::Equal
                } else {
                    Ordering::Greater
                },
            ),
            _ => self.to_float().compare(other.to_float()),
        }
    }
}

impl PartialOrdSpecImpl for DynamicNumber {
    open spec fn obeys_partial_cmp_spec() -> bool {
        true
    }

    open spec fn partial_cmp_spec(&self, other: &Self) -> Option<Ordering> {
        self.ordering(*other)
    }
}

impl DynamicNumber {
    /// Whether this number is below the other.
    pub fn is_below(&self, other: &DynamicNumber) -> (r: bool)
        ensures
            r == self.below(*other),
    {
        match self.partial_cmp(other) {
            Some(Ordering::Less) => true,
            _ => false,
        }
    }

    /// Whether this number is below the other or equal to it.
    pub fn is_at_most(&self, other: &DynamicNumber) -> (r: bool)
        ensures
            r == self.at_most(*other),
    {
        match self.partial_cmp(other) {
            Some(Ordering::Less) => true,
            Some(Ordering::Equal) => true,
            _ => false,
        }
    }
}

/// Applies to two numbers the operation on whole numbers where both are
/// whole, and the operation on floating-point numbers where either is not.
pub fn apply_op<F1, F2>(
    lhs: DynamicNumber,
    rhs: DynamicNumber,
    op_int: F1,
    op_float: F2,
) -> (r: DynamicNumber) where F1: FnOnce(i64, i64) -> i64, F2: FnOnce(Float64, Float64) -> Float64
    requires
        lhs.both_whole(rhs) ==> op_int.requires((lhs->Integer_0, rhs->Integer_0)),
        !lhs.both_whole(rhs) ==> op_float.requires((lhs.as_float(), rhs.as_float())),
    ensures
        lhs.both_whole(rhs) ==> r is Integer && op_int.ensures(
            (lhs->Integer_0, rhs->Integer_0),
            r->Integer_0,
        ),
        !lhs.both_whole(rhs) ==> r is Float && op_float.ensures(
            (lhs.as_float(), rhs.as_float()),
            r->Float_0,
        ),
{
    match lhs {
        DynamicNumber::Integer(a) => match rhs {
            DynamicNumber::Integer(b) => DynamicNumber::Integer(op_int(a, b)),
            DynamicNumber::Float(b) => DynamicNumber::Float(op_float(Float64::from_i64(a), b)),
        },
        DynamicNumber::Float(a) => match rhs {
            DynamicNumber::Integer(b) => DynamicNumber::Float(op_float(a, Float64::from_i64(b))),
            DynamicNumber::Float(b) => DynamicNumber::Float(op_float(a, b)),
        },
    }
}

/// The floor of the quotient of two whole numbers, kept within the range of
/// a signed 64-bit integer.
pub fn floor_divide(a: i64, b: i64) -> (q: i64)
    requires
        b != 0,
    ensures
        q == saturated(floor_quotient(a as int, b as int)),
{
    let ua: u64 = magnitude_of(a);
    let ub: u64 = magnitude_of(b);
    let uq: u64 = ua / ub;
    let ur: u64 = ua % ub;
    proof {
        lemma_floor_of_fraction(ua as nat, ub as nat);
    }
    if (a < 0) == (b < 0) {
        if uq >= TWO_63 {
            i64::MAX
        } else {
            uq as i64
        }
    } else if ur != 0 {
        if uq >= TWO_63 {
            i64::MIN
        } else {
            -(uq as i64) - 1
        }
    } else if uq >= TWO_63 {
        i64::MIN
    } else {
        -(uq as i64)
    }
}

/// The sum of two whole numbers.
fn whole_sum(a: i64, b: i64) -> (c: i64)
    requires
        i64::MIN <= a + b <= i64::MAX,
    ensures
        c == a + b,
{
    a + b
}

/// The difference of two whole numbers.
fn whole_difference(a: i64, b: i64) -> (c: i64)
    requires
        i64::MIN <= a - b <= i64::MAX,
    ensures
        c == a - b,
{
    a - b
}

/// The product of two whole numbers.
fn whole_product(a: i64, b: i64) -> (c: i64)
    requires
        i64::MIN <= a * b <= i64::MAX,
    ensures
        c == a * b,
{
    a * b
}

/// The magnitude of a whole number.
pub fn magnitude_of(n: i64) -> (m: u64)
    ensures
        m == vstd::math::abs(n as int),
{
    if n == i64::MIN {
        TWO_63
    } else if n < 0 {
        (-n) as u64
    } else {
        n as u64
    }
}

impl DynamicNumber {
    /// The number without its sign.
    pub fn abs(&self) -> (r: Self)
        requires
            *self matches DynamicNumber::Integer(n) ==> n != i64::MIN,
        ensures
            match *self {
                DynamicNumber::Integer(n) => r == DynamicNumber::Integer(vstd::math::abs(n as int) as i64),
                DynamicNumber::Float(f) => r is Float && !r->Float_0.sign() && r->Float_0.exponent()
                    == f.exponent() && r->Float_0.fraction() == f.fraction(),
            },
    {
        match self {
            Self::Float(n) => Self::Float(n.magnitude()),
            Self::Integer(n) => Self::Integer(
                if *n < 0 {
                    -*n
                } else {
                    *n
                },
            ),
        }
    }

    /// The number with the other sign.
    pub fn neg(self) -> (r: Self)
        requires
            self matches DynamicNumber::Integer(n) ==> n != i64::MIN,
        ensures
            match self {
                DynamicNumber::Integer(n) => r == DynamicNumber::Integer((-n) as i64),
                DynamicNumber::Float(f) => r is Float && r->Float_0.sign() == !f.sign()
                    && r->Float_0.exponent() == f.exponent() && r->Float_0.fraction()
                    == f.fraction(),
            },
    {
        match self {
            Self::Float(v) => DynamicNumber::Float(v.negated()),
            Self::Integer(v) => DynamicNumber::Integer(-v),
        }
    }

    /// The number plus one. For a floating-point number, `float_add` says
    /// what the sum with one is.
    pub fn inc<F: FnOnce(Float64, Float64) -> Float64>(&self, float_add: F) -> (r: Self)
        requires
            *self matches DynamicNumber::Integer(n) ==> n < i64::MAX,
            *self matches DynamicNumber::Float(f) ==> float_add.requires((f, Float64::of_i64(1))),
        ensures
            match *self {
                DynamicNumber::Integer(n) => r == DynamicNumber::Integer((n + 1) as i64),
                DynamicNumber::Float(f) => r is Float && float_add.ensures(
                    (f, Float64::of_i64(1)),
                    r->Float_0,
                ),
            },
    {
        match self {
            Self::Float(n) => Self::Float(float_add(*n, Float64::one())),
            Self::Integer(n) => Self::Integer(*n + 1),
        }
    }

    /// The number minus one. For a floating-point number, `float_add` says
    /// what the sum with minus one is.
    pub fn dec<F: FnOnce(Float64, Float64) -> Float64>(&self, float_add: F) -> (r: Self)
        requires
            *self matches DynamicNumber::Integer(n) ==> n > i64::MIN,
            *self matches DynamicNumber::Float(f) ==> float_add.requires((f, Float64::of_i64(-1i64))),
        ensures
            match *self {
                DynamicNumber::Integer(n) => r == DynamicNumber::Integer((n - 1) as i64),
                DynamicNumber::Float(f) => r is Float && float_add.ensures(
                    (f, Float64::of_i64(-1i64)),
                    r->Float_0,
                ),
            },
    {
        match self {
            Self::Float(n) => Self::Float(float_add(*n, Float64::minus_one())),
            Self::Integer(n) => Self::Integer(*n - 1),
        }
    }

    /// The sum of two numbers. Where either is floating-point, `float_add`
    /// says what the sum of the two as floating-point numbers is.
    pub fn add<F: FnOnce(Float64, Float64) -> Float64>(self, rhs: Self, float_add: F) -> (r: Self)
        requires
            self.both_whole(rhs) ==> i64::MIN <= self->Integer_0 + rhs->Integer_0 <= i64::MAX,
            !self.both_whole(rhs) ==> float_add.requires((self.as_float(), rhs.as_float())),
        ensures
            self.both_whole(rhs) ==> r == DynamicNumber::Integer(
                (self->Integer_0 + rhs->Integer_0) as i64,
            ),
            !self.both_whole(rhs) ==> r is Float && float_add.ensures(
                (self.as_float(), rhs.as_float()),
                r->Float_0,
            ),
    {
        apply_op(
            self,
            rhs,
            whole_sum,
            float_add,
        )
    }

    /// The difference of two numbers. Where either is floating-point,
    /// `float_sub` says what the difference of the two as floating-point
    /// numbers is.
    pub fn sub<F: FnOnce(Float64, Float64) -> Float64>(self, rhs: Self, float_sub: F) -> (r: Self)
        requires
            self.both_whole(rhs) ==> i64::MIN <= self->Integer_0 - rhs->Integer_0 <= i64::MAX,
            !self.both_whole(rhs) ==> float_sub.requires((self.as_float(), rhs.as_float())),
        ensures
            self.both_whole(rhs) ==> r == DynamicNumber::Integer(
                (self->Integer_0 - rhs->Integer_0) as i64,
            ),
            !self.both_whole(rhs) ==> r is Float && float_sub.ensures(
                (self.as_float(), rhs.as_float()),
                r->Float_0,
            ),
    {
        apply_op(
            self,
            rhs,
            whole_difference,
            float_sub,
        )
    }

    /// The product of two numbers. Where either is floating-point,
    /// `float_mul` says what the product of the two as floating-point
    /// numbers is.
    pub fn mul<F: FnOnce(Float64, Float64) -> Float64>(self, rhs: Self, float_mul: F) -> (r: Self)
        requires
            self.both_whole(rhs) ==> i64::MIN <= self->Integer_0 * rhs->Integer_0 <= i64::MAX,
            !self.both_whole(rhs) ==> float_mul.requires((self.as_float(), rhs.as_float())),
        ensures
            self.both_whole(rhs) ==> r == DynamicNumber::Integer(
                (self->Integer_0 * rhs->Integer_0) as i64,
            ),
            !self.both_whole(rhs) ==> r is Float && float_mul.ensures(
                (self.as_float(), rhs.as_float()),
                r->Float_0,
            ),
    {
        apply_op(
            self,
            rhs,
            whole_product,
            float_mul,
        )
    }

    /// Adds a number to this one, as `add` does.
    pub fn add_assign<F: FnOnce(Float64, Float64) -> Float64>(&mut self, rhs: Self, float_add: F)
        requires
            old(self).both_whole(rhs) ==> i64::MIN <= old(self)->Integer_0 + rhs->Integer_0
                <= i64::MAX,
            !old(self).both_whole(rhs) ==> float_add.requires(
                (old(self).as_float(), rhs.as_float()),
            ),
        ensures
            old(self).both_whole(rhs) ==> *final(self) == DynamicNumber::Integer(
                (old(self)->Integer_0 + rhs->Integer_0) as i64,
            ),
            !old(self).both_whole(rhs) ==> *final(self) is Float && float_add.ensures(
                (old(self).as_float(), rhs.as_float()),
                final(self)->Float_0,
            ),
    {
        *self = self.add(rhs, float_add);
    }

    /// The quotient of two numbers, always floating-point: `float_div` says
    /// what the quotient of the two as floating-point numbers is.
    pub fn div<F: FnOnce(Float64, Float64) -> Float64>(self, rhs: Self, float_div: F) -> (r: Self)
        requires
            float_div.requires((self.as_float(), rhs.as_float())),
        ensures
            r is Float,
            float_div.ensures((self.as_float(), rhs.as_float()), r->Float_0),
    {
        DynamicNumber::Float(float_div(self.to_float(), rhs.to_float()))
    }

    /// Whether the floored quotient of the two numbers is computed on whole
    /// numbers: both are whole and the divisor is not zero.
    pub open spec fn divides_whole(self, rhs: DynamicNumber) -> bool {
        self.both_whole(rhs) && rhs->Integer_0 != 0
    }

    /// The floor of the quotient of two numbers, always whole, and kept
    /// within the range of a signed 64-bit integer. Two whole numbers with a
    /// divisor other than zero are divided as such. For any other pair,
    /// `float_div` says what the quotient of the two as floating-point numbers
    /// is, and the result is its floor.
    pub fn idiv<F: FnOnce(Float64, Float64) -> Float64>(self, rhs: Self, float_div: F) -> (r: Self)
        requires
            !self.divides_whole(rhs) ==> float_div.requires((self.as_float(), rhs.as_float())),
        ensures
            self.divides_whole(rhs) ==> r == DynamicNumber::Integer(
                saturated(floor_quotient(self->Integer_0 as int, rhs->Integer_0 as int)) as i64,
            ),
            !self.divides_whole(rhs) ==> exists|quotient: Float64|
                #![auto]
                float_div.ensures((self.as_float(), rhs.as_float()), quotient) && r
                    == DynamicNumber::Integer(quotient.saturated_floor() as i64),
    {
        match (self, rhs) {
            (DynamicNumber::Integer(a), DynamicNumber::Integer(b)) if b != 0 => {
                DynamicNumber::Integer(floor_divide(a, b))
            },
            _ => {
                let quotient = float_div(self.to_float(), rhs.to_float());
                DynamicNumber::Integer(quotient.floor_to_i64())
            },
        }
    }

    /// The text of this number: decimal digits for a whole number, and what
    /// `format_float` writes for a floating-point one.
    pub fn to_string<F: Fn(Float64) -> String>(&self, format_float: &F) -> (s: String)
        requires
            *self matches DynamicNumber::Float(f) ==> format_float.requires((f,)),
        ensures
            match *self {
                DynamicNumber::Integer(n) => s@ == signed_decimal(n as int),
                DynamicNumber::Float(f) => format_float.ensures((f,), s),
            },
    {
        match self {
            Self::Integer(n) => i64_to_string(*n),
            Self::Float(n) => format_float(*n),
        }
    }
}

/// Whether an operation on numbers of these two kinds gives a floating-point
/// number: it does as soon as one of them is floating-point.
pub open spec fn promotes(lhs_is_float: bool, rhs_is_float: bool) -> bool {
    lhs_is_float || rhs_is_float
}

/// Promotion does not depend on how a chain of operations is grouped, nor on
/// the order of its operands: the result is floating-point exactly when one
/// operand is.
pub proof fn lemma_promotion_is_associative(a: bool, b: bool, c: bool)
    ensures
        promotes(promotes(a, b), c) == promotes(a, promotes(b, c)),
        promotes(a, b) == promotes(b, a),
        promotes(promotes(a, b), c) == (a || b || c),
{
}

} // verus!

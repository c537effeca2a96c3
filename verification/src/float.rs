//! Binary64 floating-point numbers, held and read by their bit pattern.
//!
//! A number is a sign, eleven bits of exponent and fifty-two bits of
//! fraction. Everything here is integer arithmetic on those three parts:
//! which numbers are whole, which integer is nearest, which is zero. Sums and
//! products of such numbers, their text and the reading of it, are not
//! computed here: the functions that need them take them from their caller.

use std::cmp::Ordering;
use vstd::arithmetic::div_mod::{
    lemma_div_by_multiple,
    lemma_fundamental_div_mod,
    lemma_fundamental_div_mod_converse,
    lemma_mod_multiples_basic,
    lemma_small_mod,
};
use vstd::arithmetic::mul::lemma_mul_inequality;
use vstd::arithmetic::power2::{
    lemma2_to64,
    lemma2_to64_rest,
    lemma_pow2_adds,
    lemma_pow2_pos,
    lemma_pow2_strictly_increases,
    lemma_pow2_unfold,
    pow2,
};
use vstd::prelude::*;

verus! {

/// Two to the power 52: the weight of the hidden bit of a significand.
pub const TWO_52: u64 = 0x10_0000_0000_0000;

/// Two to the power 53: above every significand.
pub const TWO_53: u64 = 0x20_0000_0000_0000;

/// Two to the power 63: the weight of the sign bit.
pub const TWO_63: u64 = 0x8000_0000_0000_0000;

/// The exponent field at which a significand counts units.
pub const UNIT_EXPONENT: u64 = 1075;

/// The exponent field of infinities and of what is not a number.
pub const TOP_EXPONENT: u64 = 2047;

/// A binary64 number, as the 64 bits that encode it.
#[derive(Clone, Copy, Debug)]
pub struct Float64(pub u64);

impl Float64 {
    /// Whether the sign bit is set.
    pub open spec fn sign(self) -> bool {
        self.0 >= TWO_63
    }

    /// The exponent field, from 0 to 2047.
    pub open spec fn exponent(self) -> nat {
        (self.0 as nat / TWO_52 as nat) % 2048
    }

    /// The fraction field, below two to the power 52.
    pub open spec fn fraction(self) -> nat {
        self.0 as nat % TWO_52 as nat
    }

    /// Neither an infinity nor not-a-number.
    pub open spec fn is_finite(self) -> bool {
        self.exponent() != TOP_EXPONENT
    }

    /// Not a number.
    pub open spec fn is_nan(self) -> bool {
        self.exponent() == TOP_EXPONENT && self.fraction() != 0
    }

    /// Zero, of either sign.
    pub open spec fn is_zero(self) -> bool {
        self.exponent() == 0 && self.fraction() == 0
    }

    /// The significand: the fraction, with the hidden bit where the exponent
    /// field is not zero.
    pub open spec fn significand(self) -> nat {
        if self.exponent() == 0 {
            self.fraction()
        } else {
            TWO_52 as nat + self.fraction()
        }
    }

    /// The exponent field that scales the significand: a zero field scales as
    /// a field of one does.
    pub open spec fn scale(self) -> nat {
        if self.exponent() == 0 {
            1
        } else {
            self.exponent()
        }
    }

    /// The magnitude of a finite number where it is a whole number. The
    /// magnitude is the significand times two to the power `scale - 1075`.
    pub open spec fn whole_magnitude(self) -> Option<nat> {
        if !self.is_finite() {
            None
        } else if self.scale() >= UNIT_EXPONENT {
            Some(self.significand() * pow2((self.scale() - UNIT_EXPONENT) as nat))
        } else if self.significand() % pow2((UNIT_EXPONENT - self.scale()) as nat) == 0 {
            Some(self.significand() / pow2((UNIT_EXPONENT - self.scale()) as nat))
        } else {
            None
        }
    }

    /// The integer that this number equals, if it equals one. Both zeros equal
    /// the integer zero; infinities and not-a-number equal none.
    pub open spec fn int_value(self) -> Option<int> {
        match self.whole_magnitude() {
            Some(m) => Some(
                if self.sign() {
                    -(m as int)
                } else {
                    m as int
                },
            ),
            None => None,
        }
    }

    /// The number with these bits.
    pub fn from_bits(bits: u64) -> (r: Float64)
        ensures
            r == Float64(bits),
    {
        Float64(bits)
    }

    /// The bits of this number.
    pub fn to_bits(self) -> (bits: u64)
        ensures
            bits == self.0,
    {
        self.0
    }

    /// Positive zero.
    pub fn zero() -> (r: Float64)
        ensures
            r == Float64(0),
            r.int_value() == Some(0int),
    {
        proof {
            lemma_pow2_pos(1074);
        }
        Float64(0)
    }

    /// The number one.
    pub fn one() -> (r: Float64)
        ensures
            r == Float64(0x3ff0_0000_0000_0000),
            r == Float64::of_i64(1),
            r.int_value() == Some(1int),
    {
        let r = Float64(0x3ff0_0000_0000_0000);
        proof {
            lemma2_to64_rest();
            assert(r.exponent() == 1023);
            assert(r.fraction() == 0);
            assert(pow2(52) == TWO_52);
            assert((UNIT_EXPONENT - r.scale()) as nat == 52);
            assert(r.whole_magnitude() == Some(1nat));
            lemma_nearest_whole_is_exact(1);
            assert(r.stands_for(1));
            lemma_stands_for_one(r, Float64::nearest(1), 1);
        }
        r
    }

    /// The number minus one.
    pub fn minus_one() -> (r: Float64)
        ensures
            r == Float64(0xbff0_0000_0000_0000),
            r == Float64::of_i64(-1i64),
            r.int_value() == Some(-1int),
    {
        let r = Float64(0xbff0_0000_0000_0000);
        proof {
            lemma2_to64_rest();
            assert(r.exponent() == 1023);
            assert(r.fraction() == 0);
            assert(pow2(52) == TWO_52);
            assert((UNIT_EXPONENT - r.scale()) as nat == 52);
            assert(r.whole_magnitude() == Some(1nat));
            lemma_nearest_whole_is_exact(-1);
            assert(r.stands_for(-1));
            lemma_stands_for_one(r, Float64::nearest(-1), -1);
        }
        r
    }

    /// Whether this is not a number.
    pub fn is_not_a_number(self) -> (r: bool)
        ensures
            r == self.is_nan(),
    {
        (self.0 / TWO_52) % 2048 == TOP_EXPONENT && self.0 % TWO_52 != 0
    }

    /// Whether this is zero, of either sign.
    pub fn equals_zero(self) -> (r: bool)
        ensures
            r == self.is_zero(),
    {
        self.0 == 0 || self.0 == TWO_63
    }

    /// The same number with the other sign.
    pub fn negated(self) -> (r: Float64)
        ensures
            r.sign() == !self.sign(),
            r.exponent() == self.exponent(),
            r.fraction() == self.fraction(),
    {
        if self.0 >= TWO_63 {
            Float64(self.0 - TWO_63)
        } else {
            Float64(self.0 + TWO_63)
        }
    }

    /// The same number with the sign cleared.
    pub fn magnitude(self) -> (r: Float64)
        ensures
            !r.sign(),
            r.exponent() == self.exponent(),
            r.fraction() == self.fraction(),
    {
        if self.0 >= TWO_63 {
            Float64(self.0 - TWO_63)
        } else {
            self
        }
    }

    /// The integer that this number equals, where it equals one that a signed
    /// 64-bit integer can hold.
    pub fn to_i64(self) -> (r: Option<i64>)
        ensures
            r == match self.int_value() {
                Some(v) => if i64::MIN <= v <= i64::MAX {
                    Some(v as i64)
                } else {
                    None
                },
                None => None,
            },
    {
        let exponent = (self.0 / TWO_52) % 2048;
        let fraction = self.0 % TWO_52;
        let negative = self.0 >= TWO_63;
        if exponent == TOP_EXPONENT {
            return None;
        }
        let significand = if exponent == 0 {
            fraction
        } else {
            TWO_52 + fraction
        };
        let scale = if exponent == 0 {
            1
        } else {
            exponent
        };
        if scale >= UNIT_EXPONENT {
            let k = scale - UNIT_EXPONENT;
            if k > 11 {
                proof {
                    lemma_beyond_i64(significand as nat, k as nat);
                }
                return None;
            }
            let unit = power_of_two(k);
            proof {
                lemma2_to64();
                if k < 11 {
                    lemma_pow2_strictly_increases(k as nat, 11);
                }
                assert(significand * unit <= (TWO_53 - 1) * 2048) by (nonlinear_arith)
                    requires
                        significand <= TWO_53 - 1,
                        unit <= 2048,
                ;
            }
            let m = significand * unit;
            if negative {
                if m > TWO_63 {
                    None
                } else if m == TWO_63 {
                    Some(i64::MIN)
                } else {
                    Some(-(m as i64))
                }
            } else if m >= TWO_63 {
                None
            } else {
                Some(m as i64)
            }
        } else {
            let s = UNIT_EXPONENT - scale;
            if s > 52 {
                proof {
                    lemma2_to64_rest();
                    lemma_pow2_strictly_increases(52, s as nat);
                    lemma_pow2_unfold(53);
                    if s > 53 {
                        lemma_pow2_strictly_increases(53, s as nat);
                    }
                    lemma_small_mod(significand as nat, pow2(s as nat));
                    if significand == 0 {
                        lemma_pow2_pos(s as nat);
                    }
                }
                return if significand == 0 {
                    Some(0)
                } else {
                    None
                };
            }
            let unit = power_of_two(s);
            proof {
                lemma_pow2_pos(s as nat);
            }
            if significand % unit != 0 {
                return None;
            }
            let m = significand / unit;
            if negative {
                Some(-(m as i64))
            } else {
                Some(m as i64)
            }
        }
    }
}

/// How many low bits a magnitude has beyond the 53 that a significand holds.
pub open spec fn excess_bits(m: nat) -> nat
    decreases m,
{
    if m < TWO_53 {
        0
    } else {
        1 + excess_bits(m / 2)
    }
}

/// The multiple of `unit` nearest to `m`; of two equally near, the even one.
pub open spec fn round_to_multiple(m: nat, unit: nat) -> nat {
    let q = m / unit;
    let r = m % unit;
    if 2 * r > unit || (2 * r == unit && q % 2 == 1) {
        (q + 1) * unit
    } else {
        q * unit
    }
}

/// The whole number nearest to `v` among those that a significand of 53 bits
/// can write; of two equally near, the one with the even significand.
pub open spec fn nearest_whole(v: int) -> int {
    if v < 0 {
        -(round_to_multiple((-v) as nat, pow2(excess_bits((-v) as nat))) as int)
    } else {
        round_to_multiple(v as nat, pow2(excess_bits(v as nat))) as int
    }
}

/// An integer of at most 53 bits is its own nearest whole number.
pub proof fn lemma_nearest_whole_is_exact(v: int)
    requires
        -(TWO_53 as int) <= v <= TWO_53 as int,
    ensures
        nearest_whole(v) == v,
{
    lemma2_to64();
    let m: nat = if v < 0 {
        (-v) as nat
    } else {
        v as nat
    };
    if m == TWO_53 {
        assert(excess_bits(m / 2) == 0);
        assert(excess_bits(m) == 1);
    } else {
        assert(excess_bits(m) == 0);
    }
}

impl Float64 {
    /// The number nearest to the integer `n`. Integers of up to 53 bits are
    /// met exactly; a longer one is rounded to 53 bits, to even on a tie.
    pub fn from_i64(n: i64) -> (r: Float64)
        ensures
            r == Float64::of_i64(n),
            r.stands_for(n as int),
    {
        if n == 0 {
            let r = Float64::zero();
            proof {
                lemma_nearest_whole_is_exact(0);
                assert(r.stands_for(0));
                lemma_stands_for_one(r, Float64::nearest(0), 0);
            }
            return r;
        }
        proof {
            lemma2_to64();
            if -(TWO_53 as int) < n < TWO_53 as int {
                lemma_nearest_whole_is_exact(n as int);
            }
        }
        let negative = n < 0;
        let m: u64 = if n == i64::MIN {
            TWO_63
        } else if negative {
            (-n) as u64
        } else {
            n as u64
        };
        let r = if m < TWO_53 {
            Self::encode_small(negative, m)
        } else {
            Self::encode_large(negative, m)
        };
        proof {
            assert(r.stands_for(n as int));
            lemma_stands_for_one(r, Float64::nearest(n as int), n as int);
        }
        r
    }

    /// The number of magnitude `m` and the given sign, for a magnitude that a
    /// significand holds exactly.
    fn encode_small(negative: bool, m: u64) -> (r: Float64)
        requires
            0 < m < TWO_53,
        ensures
            r.whole_magnitude() == Some(m as nat),
            r.sign() == negative,
            r.exponent() >= 1023,
    {
        let mut q: u64 = m;
        let mut scale: u64 = UNIT_EXPONENT;
        let ghost mut j: nat = 0;
        proof {
            lemma2_to64();
        }
        while q < TWO_52
            invariant
                0 < m,
                0 < q < TWO_53,
                j <= 52,
                q == m * pow2(j),
                scale + j == UNIT_EXPONENT,
            decreases TWO_53 - q,
        {
            proof {
                lemma2_to64_rest();
                lemma_pow2_pos(j);
                lemma_mul_inequality(1, m as int, pow2(j) as int);
                if j >= 52 {
                    if j > 52 {
                        lemma_pow2_strictly_increases(52, j);
                    }
                    assert(false);
                }
                lemma_pow2_unfold(j + 1);
                assert(q * 2 == m * pow2(j + 1)) by (nonlinear_arith)
                    requires
                        q == m * pow2(j),
                        pow2(j + 1) == 2 * pow2(j),
                ;
            }
            q = q * 2;
            scale = scale - 1;
            proof {
                j = j + 1;
            }
        }
        let r = Self::assemble(negative, scale, q);
        proof {
            lemma_pow2_pos(j);
            lemma_mod_multiples_basic(m as int, pow2(j) as int);
            lemma_div_by_multiple(m as int, pow2(j) as int);
        }
        r
    }

    /// The number nearest to the magnitude `m` with the given sign, for a
    /// magnitude too long for a significand.
    fn encode_large(negative: bool, m: u64) -> (r: Float64)
        requires
            TWO_53 <= m <= TWO_63,
        ensures
            r.whole_magnitude() == Some(
                round_to_multiple(m as nat, pow2(excess_bits(m as nat))),
            ),
            r.sign() == negative,
            r.exponent() >= 1023,
    {
        let mut k: u64 = 1;
        let mut unit: u64 = 2;
        proof {
            lemma2_to64();
        }
        while m / unit >= TWO_53
            invariant
                TWO_53 <= m <= TWO_63,
                1 <= k <= 11,
                unit == pow2(k as nat),
                unit == 2 || unit == 4 || unit == 8 || unit == 16 || unit == 32 || unit == 64
                    || unit == 128 || unit == 256 || unit == 512 || unit == 1024 || unit == 2048,
                m / unit >= TWO_52,
                excess_bits(m as nat) == k + excess_bits((m / unit) as nat),
            decreases 2048 - unit,
        {
            proof {
                lemma2_to64();
                lemma_pow2_unfold((k + 1) as nat);
            }
            unit = unit * 2;
            k = k + 1;
        }
        let q = round_quotient(m, unit);
        let ghost target: nat = round_to_multiple(m as nat, unit as nat);
        if q == TWO_53 {
            proof {
                lemma_pow2_unfold((k + 1) as nat);
                assert(target == TWO_52 * pow2((k + 1) as nat)) by (nonlinear_arith)
                    requires
                        target == TWO_53 * unit,
                        pow2((k + 1) as nat) == 2 * unit,
                ;
            }
            Self::assemble(negative, UNIT_EXPONENT + k + 1, TWO_52)
        } else {
            Self::assemble(negative, UNIT_EXPONENT + k, q)
        }
    }

    /// The normal number with the given sign, exponent field and significand.
    fn assemble(negative: bool, scale: u64, q: u64) -> (r: Float64)
        requires
            1 <= scale < TOP_EXPONENT,
            TWO_52 <= q < TWO_53,
        ensures
            r.sign() == negative,
            r.exponent() == scale,
            r.scale() == scale,
            r.significand() == q,
            r.is_finite(),
    {
        let bits: u64 = if negative {
            TWO_63 + scale * TWO_52 + (q - TWO_52)
        } else {
            scale * TWO_52 + (q - TWO_52)
        };
        let r = Float64(bits);
        assert(r.exponent() == scale);
        assert(r.fraction() == q - TWO_52);
        r
    }
}

/// The quotient of `m` by `unit`, rounded to the nearest integer, and to the
/// even one of two equally near.
fn round_quotient(m: u64, unit: u64) -> (q: u64)
    requires
        0 < unit,
        m / unit < u64::MAX,
    ensures
        q * unit == round_to_multiple(m as nat, unit as nat),
        m / unit <= q <= m / unit + 1,
{
    let q: u64 = m / unit;
    let rest: u64 = m % unit;
    if rest > unit - rest || (rest == unit - rest && q % 2 == 1) {
        q + 1
    } else {
        q
    }
}

impl Float64 {
    /// The magnitude of a finite number, counted in units of two to the
    /// power -1074, the smallest step between two numbers.
    pub open spec fn scaled_magnitude(self) -> nat {
        self.significand() * pow2((self.scale() - 1) as nat)
    }

    /// Whether this is the number that stands for the integer `n`: the one
    /// that equals the whole number nearest to `n`, with the sign of `n`.
    pub open spec fn stands_for(self, n: int) -> bool {
        &&& self.int_value() == Some(nearest_whole(n))
        &&& self.sign() == (n < 0)
    }

    /// The number that stands for the integer `n`.
    pub open spec fn nearest(n: int) -> Float64 {
        choose|f: Float64| f.stands_for(n)
    }

    /// The number that stands for a signed 64-bit integer.
    pub open spec fn of_i64(n: i64) -> Float64 {
        Float64::nearest(n as int)
    }
}

/// A number is told by its sign, its exponent field and its fraction.
pub proof fn lemma_fields_tell_the_bits(f: Float64, g: Float64)
    requires
        f.sign() == g.sign(),
        f.exponent() == g.exponent(),
        f.fraction() == g.fraction(),
    ensures
        f == g,
{
    let a = f.0 as nat / TWO_52 as nat;
    let b = g.0 as nat / TWO_52 as nat;
    assert(a < 4096 && b < 4096);
    assert(f.sign() == (a >= 2048));
    assert(g.sign() == (b >= 2048));
    assert(a == b);
    assert(f.0 == g.0);
}

/// The magnitude of a whole number, counted in the smallest steps.
pub proof fn lemma_scaled_magnitude_of_whole(f: Float64, w: nat)
    requires
        f.whole_magnitude() == Some(w),
    ensures
        f.scaled_magnitude() == w * pow2(1074),
{
    let m = f.significand();
    let s = f.scale();
    if s >= UNIT_EXPONENT {
        let k = (s - UNIT_EXPONENT) as nat;
        lemma_pow2_adds(k, 1074);
        assert(m * pow2(k) * pow2(1074) == m * (pow2(k) * pow2(1074))) by (nonlinear_arith);
    } else {
        let k = (UNIT_EXPONENT - s) as nat;
        let p = pow2(k);
        lemma_pow2_pos(k);
        lemma_fundamental_div_mod(m as int, p as int);
        lemma_pow2_adds(k, (s - 1) as nat);
        assert(m == p * w);
        assert((p * w) * pow2((s - 1) as nat) == w * (p * pow2((s - 1) as nat)))
            by (nonlinear_arith);
    }
}

/// Two finite numbers of the same magnitude have the same exponent field and
/// the same fraction.
pub proof fn lemma_magnitude_tells_the_fields(f: Float64, g: Float64)
    requires
        f.is_finite(),
        g.is_finite(),
        f.scaled_magnitude() == g.scaled_magnitude(),
    ensures
        f.exponent() == g.exponent(),
        f.fraction() == g.fraction(),
{
    let mf = f.significand();
    let mg = g.significand();
    let sf = f.scale();
    let sg = g.scale();
    if sf == sg {
        lemma_pow2_pos((sf - 1) as nat);
        assert(mf == mg) by (nonlinear_arith)
            requires
                mf * pow2((sf - 1) as nat) == mg * pow2((sf - 1) as nat),
                pow2((sf - 1) as nat) > 0,
        ;
        assert(f.exponent() == g.exponent()) by {
            if f.exponent() != g.exponent() {
                // One field is zero and the other is one: the hidden bit differs.
                assert(mf != mg);
            }
        }
    } else if sf < sg {
        lemma_larger_scale_is_larger(f, g);
    } else {
        lemma_larger_scale_is_larger(g, f);
    }
}

/// Of two finite numbers, the one with the larger scale is the larger.
proof fn lemma_larger_scale_is_larger(f: Float64, g: Float64)
    requires
        f.is_finite(),
        g.is_finite(),
        f.scale() < g.scale(),
    ensures
        f.scaled_magnitude() < g.scaled_magnitude(),
{
    let mf = f.significand();
    let mg = g.significand();
    let sf = (f.scale() - 1) as nat;
    let sg = (g.scale() - 1) as nat;
    let d = (sg - sf) as nat;
    lemma_pow2_adds(d, sf);
    lemma_pow2_pos(sf);
    lemma_pow2_pos(d);
    lemma2_to64();
    if d > 1 {
        lemma_pow2_strictly_increases(1, d);
    }
    assert(pow2(d) >= 2);
    assert(mg >= TWO_52);
    assert(mf < TWO_53);
    assert(mf * pow2(sf) < mg * (pow2(d) * pow2(sf))) by (nonlinear_arith)
        requires
            mf < 2 * mg,
            pow2(d) >= 2,
            pow2(sf) > 0,
    ;
}

/// One number only stands for an integer.
pub proof fn lemma_stands_for_one(f: Float64, g: Float64, n: int)
    requires
        f.stands_for(n),
        g.stands_for(n),
    ensures
        f == g,
{
    let w = f.whole_magnitude()->0;
    assert(g.whole_magnitude() == Some(w));
    lemma_scaled_magnitude_of_whole(f, w);
    lemma_scaled_magnitude_of_whole(g, w);
    lemma_magnitude_tells_the_fields(f, g);
    lemma_fields_tell_the_bits(f, g);
}

impl Float64 {
    /// The significand with the number's sign.
    pub open spec fn signed_significand(self) -> int {
        if self.sign() {
            -(self.significand() as int)
        } else {
            self.significand() as int
        }
    }

    /// The greatest integer not above a finite number.
    pub open spec fn floor_value(self) -> int {
        if self.scale() >= UNIT_EXPONENT {
            self.signed_significand() * pow2((self.scale() - UNIT_EXPONENT) as nat)
        } else {
            self.signed_significand() / (pow2((UNIT_EXPONENT - self.scale()) as nat) as int)
        }
    }

    /// What a conversion to a signed 64-bit integer gives for the floor of
    /// this number: the floor itself where the type holds it, the nearest end
    /// of the type's range where it does not, and zero for not-a-number.
    pub open spec fn saturated_floor(self) -> int {
        if self.is_nan() {
            0
        } else if !self.is_finite() {
            if self.sign() {
                i64::MIN as int
            } else {
                i64::MAX as int
            }
        } else if self.floor_value() < i64::MIN {
            i64::MIN as int
        } else if self.floor_value() > i64::MAX {
            i64::MAX as int
        } else {
            self.floor_value()
        }
    }

    /// The floor of this number as a signed 64-bit integer, kept within the
    /// type's range; zero for not-a-number.
    pub fn floor_to_i64(self) -> (r: i64)
        ensures
            r == self.saturated_floor(),
    {
        let exponent = (self.0 / TWO_52) % 2048;
        let fraction = self.0 % TWO_52;
        let negative = self.0 >= TWO_63;
        if exponent == TOP_EXPONENT {
            return if fraction != 0 {
                0
            } else if negative {
                i64::MIN
            } else {
                i64::MAX
            };
        }
        let significand = if exponent == 0 {
            fraction
        } else {
            TWO_52 + fraction
        };
        let scale = if exponent == 0 {
            1
        } else {
            exponent
        };
        if scale >= UNIT_EXPONENT {
            let k = scale - UNIT_EXPONENT;
            if k > 11 {
                proof {
                    lemma_beyond_i64(significand as nat, k as nat);
                    assert((-(significand as int)) * pow2(k as nat) == -(significand * pow2(
                        k as nat,
                    ))) by (nonlinear_arith);
                }
                return if negative {
                    i64::MIN
                } else {
                    i64::MAX
                };
            }
            let unit = power_of_two(k);
            proof {
                lemma2_to64();
                if k < 11 {
                    lemma_pow2_strictly_increases(k as nat, 11);
                }
                assert(significand * unit <= (TWO_53 - 1) * 2048) by (nonlinear_arith)
                    requires
                        significand <= TWO_53 - 1,
                        unit <= 2048,
                ;
                assert((-(significand as int)) * unit == -(significand * unit)) by (nonlinear_arith);
            }
            let m = significand * unit;
            if negative {
                if m >= TWO_63 {
                    i64::MIN
                } else {
                    -(m as i64)
                }
            } else if m >= TWO_63 {
                i64::MAX
            } else {
                m as i64
            }
        } else {
            let s = UNIT_EXPONENT - scale;
            if s > 52 {
                proof {
                    lemma2_to64_rest();
                    lemma_pow2_unfold(53);
                    if s > 53 {
                        lemma_pow2_strictly_increases(53, s as nat);
                    }
                    lemma_small_mod(significand as nat, pow2(s as nat));
                    vstd::arithmetic::div_mod::lemma_basic_div(
                        significand as int,
                        pow2(s as nat) as int,
                    );
                    lemma_floor_of_fraction(significand as nat, pow2(s as nat));
                }
                return if negative && significand != 0 {
                    -1
                } else {
                    0
                };
            }
            let unit = power_of_two(s);
            proof {
                lemma_pow2_pos(s as nat);
            }
            let q = significand / unit;
            let rest = significand % unit;
            proof {
                lemma_floor_of_fraction(significand as nat, unit as nat);
            }
            if negative {
                if rest != 0 {
                    -(q as i64) - 1
                } else {
                    -(q as i64)
                }
            } else {
                q as i64
            }
        }
    }

    /// The place of this number in the order of all numbers but not-a-number:
    /// the bits below the sign count upwards with the magnitude, and a set
    /// sign mirrors them below zero. The two zeros share the place zero.
    pub open spec fn order_key(self) -> int {
        if self.sign() {
            -(self.0 as int - TWO_63 as int)
        } else {
            self.0 as int
        }
    }

    /// Equality of numbers: the two zeros are equal, and not-a-number equals
    /// nothing, itself included.
    pub open spec fn same_number(self, other: Float64) -> bool {
        !self.is_nan() && !other.is_nan() && self.order_key() == other.order_key()
    }

    /// The order of numbers; not-a-number is below nothing and above nothing.
    pub open spec fn below(self, other: Float64) -> bool {
        !self.is_nan() && !other.is_nan() && self.order_key() < other.order_key()
    }

    /// How this number compares with the other: `None` where either is
    /// not-a-number.
    pub open spec fn ordering(self, other: Float64) -> Option<Ordering> {
        if self.is_nan() || other.is_nan() {
            None
        } else if self.order_key() < other.order_key() {
            Some(Ordering::Less)
        } else if self.order_key() == other.order_key() {
            Some(Ordering::Equal)
        } else {
            Some(Ordering::Greater)
        }
    }

    /// How this number compares with the other.
    pub fn compare(self, other: Float64) -> (r: Option<Ordering>)
        ensures
            r == self.ordering(other),
    {
        if self.is_not_a_number() || other.is_not_a_number() {
            None
        } else if self.equals(other) {
            Some(Ordering::Equal)
        } else if self.less_than(other) {
            Some(Ordering::Less)
        } else {
            Some(Ordering::Greater)
        }
    }

    /// Whether the two numbers are equal.
    pub fn equals(self, other: Float64) -> (r: bool)
        ensures
            r == self.same_number(other),
    {
        if self.is_not_a_number() || other.is_not_a_number() {
            false
        } else {
            self.0 == other.0 || (self.equals_zero() && other.equals_zero())
        }
    }

    /// Whether this number is below the other.
    pub fn less_than(self, other: Float64) -> (r: bool)
        ensures
            r == self.below(other),
    {
        if self.is_not_a_number() || other.is_not_a_number() {
            false
        } else if self.0 >= TWO_63 {
            if other.0 >= TWO_63 {
                self.0 > other.0
            } else {
                self.0 != TWO_63 || other.0 != 0
            }
        } else {
            other.0 < TWO_63 && self.0 < other.0
        }
    }
}

impl Float64 {
    /// The bits below the sign: the exponent field and the fraction, as one
    /// number.
    pub open spec fn magnitude_bits(self) -> nat {
        self.0 as nat % TWO_63 as nat
    }
}

/// Among finite numbers, more in the bits below the sign is more magnitude.
pub proof fn lemma_magnitude_grows_with_bits(f: Float64, g: Float64)
    requires
        f.is_finite(),
        g.is_finite(),
        f.magnitude_bits() < g.magnitude_bits(),
    ensures
        f.scaled_magnitude() < g.scaled_magnitude(),
{
    assert(f.magnitude_bits() == f.exponent() * TWO_52 + f.fraction());
    assert(g.magnitude_bits() == g.exponent() * TWO_52 + g.fraction());
    if f.scale() < g.scale() {
        lemma_larger_scale_is_larger(f, g);
    } else {
        assert(f.scale() == g.scale());
        assert(f.significand() < g.significand());
        lemma_pow2_pos((f.scale() - 1) as nat);
        assert(f.significand() * pow2((f.scale() - 1) as nat) < g.significand() * pow2(
            (f.scale() - 1) as nat,
        )) by (nonlinear_arith)
            requires
                f.significand() < g.significand(),
                pow2((f.scale() - 1) as nat) > 0,
        ;
    }
}

/// Two finite numbers with the same bits below the sign have the same
/// magnitude, and the other way round.
pub proof fn lemma_magnitude_follows_bits(f: Float64, g: Float64)
    requires
        f.is_finite(),
        g.is_finite(),
    ensures
        f.magnitude_bits() < g.magnitude_bits() <==> f.scaled_magnitude() < g.scaled_magnitude(),
        f.magnitude_bits() == g.magnitude_bits() <==> f.scaled_magnitude()
            == g.scaled_magnitude(),
{
    if f.magnitude_bits() < g.magnitude_bits() {
        lemma_magnitude_grows_with_bits(f, g);
    } else if g.magnitude_bits() < f.magnitude_bits() {
        lemma_magnitude_grows_with_bits(g, f);
    } else {
        assert(f.exponent() == g.exponent());
        assert(f.fraction() == g.fraction());
    }
}

/// Numbers that equal integers stand in the order of those integers, and
/// are equal where the integers are.
pub proof fn lemma_order_of_whole_numbers(f: Float64, g: Float64, x: int, y: int)
    requires
        f.int_value() == Some(x),
        g.int_value() == Some(y),
    ensures
        f.below(g) <==> x < y,
        f.same_number(g) <==> x == y,
{
    let a = f.whole_magnitude()->0;
    let b = g.whole_magnitude()->0;
    lemma_scaled_magnitude_of_whole(f, a);
    lemma_scaled_magnitude_of_whole(g, b);
    lemma_magnitude_follows_bits(f, g);
    lemma_pow2_pos(1074);
    let unit = pow2(1074);
    assert(a < b <==> a * unit < b * unit) by (nonlinear_arith)
        requires
            unit > 0,
    ;
    assert(a == b <==> a * unit == b * unit) by (nonlinear_arith)
        requires
            unit > 0,
    ;
    assert(a == 0 <==> f.magnitude_bits() == 0) by {
        assert(a == 0 <==> a * unit == 0) by (nonlinear_arith)
            requires
                unit > 0,
        ;
        lemma_pow2_pos((f.scale() - 1) as nat);
        assert(f.scaled_magnitude() == 0 <==> f.significand() == 0) by (nonlinear_arith)
            requires
                f.scaled_magnitude() == f.significand() * pow2((f.scale() - 1) as nat),
                pow2((f.scale() - 1) as nat) > 0,
        ;
        assert(f.magnitude_bits() == f.exponent() * TWO_52 + f.fraction());
    }
    assert(b == 0 <==> g.magnitude_bits() == 0) by {
        assert(b == 0 <==> b * unit == 0) by (nonlinear_arith)
            requires
                unit > 0,
        ;
        lemma_pow2_pos((g.scale() - 1) as nat);
        assert(g.scaled_magnitude() == 0 <==> g.significand() == 0) by (nonlinear_arith)
            requires
                g.scaled_magnitude() == g.significand() * pow2((g.scale() - 1) as nat),
                pow2((g.scale() - 1) as nat) > 0,
        ;
        assert(g.magnitude_bits() == g.exponent() * TWO_52 + g.fraction());
    }
    assert(f.order_key() == (if f.sign() {
        -(f.magnitude_bits() as int)
    } else {
        f.magnitude_bits() as int
    }));
    assert(g.order_key() == (if g.sign() {
        -(g.magnitude_bits() as int)
    } else {
        g.magnitude_bits() as int
    }));
}

/// The floor of a number that equals an integer is that integer.
pub proof fn lemma_floor_of_whole(f: Float64, x: int)
    requires
        f.int_value() == Some(x),
    ensures
        f.floor_value() == x,
{
    let m = f.significand();
    if f.scale() >= UNIT_EXPONENT {
        let p = pow2((f.scale() - UNIT_EXPONENT) as nat);
        assert((-(m as int)) * p == -(m * p)) by (nonlinear_arith);
    } else {
        let p = pow2((UNIT_EXPONENT - f.scale()) as nat);
        lemma_pow2_pos((UNIT_EXPONENT - f.scale()) as nat);
        lemma_floor_of_fraction(m, p);
    }
}

/// The floor of the negation of a fraction, from the quotient and the
/// remainder of the fraction.
pub proof fn lemma_floor_of_fraction(a: nat, d: nat)
    requires
        d > 0,
    ensures
        (-(a as int)) / (d as int) == (if a % d == 0 {
            -((a / d) as int)
        } else {
            -((a / d) as int) - 1
        }),
{
    let q = (a / d) as int;
    let r = (a % d) as int;
    lemma_fundamental_div_mod(a as int, d as int);
    assert(a == q * d + r) by (nonlinear_arith)
        requires
            a == d * q + r,
    ;
    if r == 0 {
        assert(-(a as int) == (-q) * d + 0) by (nonlinear_arith)
            requires
                a == q * d,
        ;
        lemma_fundamental_div_mod_converse(-(a as int), d as int, -q, 0);
    } else {
        assert(-(a as int) == (-q - 1) * d + (d - r)) by (nonlinear_arith)
            requires
                a == q * d + r,
        ;
        lemma_fundamental_div_mod_converse(-(a as int), d as int, -q - 1, d - r);
    }
}

/// Two to the power `k`.
pub fn power_of_two(k: u64) -> (r: u64)
    requires
        k < 64,
    ensures
        r == pow2(k as nat),
{
    let mut r: u64 = 1;
    let mut i: u64 = 0;
    proof {
        lemma2_to64();
    }
    while i < k
        invariant
            i <= k < 64,
            r == pow2(i as nat),
        decreases k - i,
    {
        proof {
            lemma_pow2_unfold((i + 1) as nat);
            lemma2_to64();
            lemma2_to64_rest();
            if i + 1 < 63 {
                lemma_pow2_strictly_increases((i + 1) as nat, 63);
            }
        }
        r = r * 2;
        i = i + 1;
    }
    r
}

/// A significand with its hidden bit, scaled by two to the power twelve or
/// more, is beyond every signed 64-bit integer.
proof fn lemma_beyond_i64(significand: nat, k: nat)
    requires
        significand >= TWO_52,
        k > 11,
    ensures
        significand * pow2(k) > TWO_63,
{
    lemma2_to64();
    lemma_pow2_strictly_increases(11, k);
    lemma_mul_inequality(TWO_52 as int, significand as int, pow2(k) as int);
    assert(TWO_52 * pow2(k) > TWO_63) by (nonlinear_arith)
        requires
            pow2(k) > 2048,
    ;
}

} // verus!

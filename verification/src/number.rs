//! Numbers of the turtle language: IEEE-754 double precision values, carried as
//! their 64-bit patterns.
//!
//! Everything that can be read off a bit pattern (sign, class, ordering, the
//! integer part) is defined and proved here. Rounded arithmetic and the two
//! trigonometric functions are computed by the `const_soft_float` crate, which
//! works on the same bit patterns; their results are named, not defined.

use vstd::arithmetic::div_mod::{
    lemma_div_is_ordered, lemma_fundamental_div_mod, lemma_fundamental_div_mod_converse,
};
use vstd::arithmetic::power2::{
    lemma2_to64, lemma2_to64_rest, lemma_pow2_adds, lemma_pow2_pos, lemma_pow2_strictly_increases,
    lemma_pow2_unfold, pow2,
};
use vstd::bits::{lemma_u64_shl_is_mul, lemma_u64_shr_is_div};
use vstd::prelude::*;

verus! {

/// The sign bit of a pattern.
pub const SIGN_BIT: u64 = 0x8000_0000_0000_0000;

/// The magnitude of an infinity; every larger magnitude is a NaN.
pub const INFINITY_BITS: u64 = 0x7FF0_0000_0000_0000;

/// Two to the 52nd power: the number of patterns that share one exponent.
pub const FRACTION_RANGE: u64 = 0x0010_0000_0000_0000;

/// The largest magnitude that `sine` and `cosine` take (the pattern of 7.0).
pub const TRIG_LIMIT_BITS: u64 = 0x401C_0000_0000_0000;

/// The pattern of the sum that `const_soft_float` computes for `a + b`.
pub uninterp spec fn float_sum(a: u64, b: u64) -> u64;

/// The pattern of the product that `const_soft_float` computes for `a * b`.
pub uninterp spec fn float_product(a: u64, b: u64) -> u64;

/// The pattern of the quotient that `const_soft_float` computes for `a / b`.
pub uninterp spec fn float_quotient(a: u64, b: u64) -> u64;

/// The pattern of the sine that `const_soft_float` computes for `a` radians.
pub uninterp spec fn float_sine(a: u64) -> u64;

/// The pattern of the cosine that `const_soft_float` computes for `a` radians.
pub uninterp spec fn float_cosine(a: u64) -> u64;

/// Calls `const_soft_float::soft_f64::SoftF64::add` on the two patterns. The
/// crate computes the sum with integer operations on the patterns alone, for
/// every pair of patterns, so the result is a function of the arguments.
#[verifier::external_body]
fn soft_add(a: u64, b: u64) -> (r: u64)
    ensures
        r == float_sum(a, b),
{
    const_soft_float::soft_f64::SoftF64::from_bits(a).add(
        const_soft_float::soft_f64::SoftF64::from_bits(b),
    ).to_bits()
}

/// Calls `const_soft_float::soft_f64::SoftF64::mul` on the two patterns; the
/// product is a function of the arguments, computed for every pair of patterns.
#[verifier::external_body]
fn soft_mul(a: u64, b: u64) -> (r: u64)
    ensures
        r == float_product(a, b),
{
    const_soft_float::soft_f64::SoftF64::from_bits(a).mul(
        const_soft_float::soft_f64::SoftF64::from_bits(b),
    ).to_bits()
}

/// Calls `const_soft_float::soft_f64::SoftF64::div` on the two patterns; the
/// quotient is a function of the arguments, computed for every pair of patterns
/// (a zero divisor gives an infinity or a NaN, as IEEE-754 asks).
#[verifier::external_body]
fn soft_div(a: u64, b: u64) -> (r: u64)
    ensures
        r == float_quotient(a, b),
{
    const_soft_float::soft_f64::SoftF64::from_bits(a).div(
        const_soft_float::soft_f64::SoftF64::from_bits(b),
    ).to_bits()
}

/// Calls `const_soft_float::soft_f64::SoftF64::sin`. The argument is kept to
/// magnitudes of at most 7, where the crate reduces it by its short path.
#[verifier::external_body]
fn soft_sin(a: u64) -> (r: u64)
    requires
        (Number { bits: a }).magnitude() <= TRIG_LIMIT_BITS,
    ensures
        r == float_sine(a),
{
    const_soft_float::soft_f64::SoftF64::from_bits(a).sin().to_bits()
}

/// Calls `const_soft_float::soft_f64::SoftF64::cos`. The argument is kept to
/// magnitudes of at most 7, where the crate reduces it by its short path.
#[verifier::external_body]
fn soft_cos(a: u64) -> (r: u64)
    requires
        (Number { bits: a }).magnitude() <= TRIG_LIMIT_BITS,
    ensures
        r == float_cosine(a),
{
    const_soft_float::soft_f64::SoftF64::from_bits(a).cos().to_bits()
}

/// A double precision number, held as its bit pattern.
///
/// `==` on `Number` compares patterns; `same_value`, `less_than` and
/// `at_most` compare the numbers that the patterns stand for.
#[derive(Clone, Copy, Debug, PartialEq, Eq, Structural)]
pub struct Number {
    pub bits: u64,
}

impl Number {
    /// The pattern without its sign bit.
    pub open spec fn magnitude(self) -> u64 {
        if self.bits >= SIGN_BIT {
            (self.bits - SIGN_BIT) as u64
        } else {
            self.bits
        }
    }

    /// Whether the sign bit is set (true of `-0.0` too).
    pub open spec fn sign_set(self) -> bool {
        self.bits >= SIGN_BIT
    }

    /// Not a number: a magnitude beyond that of the infinities.
    pub open spec fn is_nan(self) -> bool {
        self.magnitude() > INFINITY_BITS
    }

    /// Neither a NaN nor an infinity.
    pub open spec fn is_finite(self) -> bool {
        self.magnitude() < INFINITY_BITS
    }

    /// Either zero.
    pub open spec fn is_zero(self) -> bool {
        self.magnitude() == 0
    }

    /// An integer that is ordered as the numbers are: the magnitudes of
    /// non-NaN patterns grow with the absolute value, and the sign mirrors
    /// them around zero. Both zeros have rank 0.
    pub open spec fn rank(self) -> int {
        if self.sign_set() {
            -(self.magnitude() as int)
        } else {
            self.magnitude() as int
        }
    }

    /// Numeric `<`: false whenever a NaN takes part.
    pub open spec fn less_than_spec(self, other: Number) -> bool {
        !self.is_nan() && !other.is_nan() && self.rank() < other.rank()
    }

    /// Numeric `<=`: false whenever a NaN takes part.
    pub open spec fn at_most_spec(self, other: Number) -> bool {
        !self.is_nan() && !other.is_nan() && self.rank() <= other.rank()
    }

    /// Numeric `==`: false whenever a NaN takes part, true of the two zeros.
    pub open spec fn same_value_spec(self, other: Number) -> bool {
        !self.is_nan() && !other.is_nan() && self.rank() == other.rank()
    }

    /// The number with the opposite sign.
    pub open spec fn negated(self) -> Number {
        if self.bits >= SIGN_BIT {
            Number { bits: (self.bits - SIGN_BIT) as u64 }
        } else {
            Number { bits: (self.bits + SIGN_BIT) as u64 }
        }
    }

    /// The sum, rounded as `const_soft_float` rounds it.
    pub open spec fn plus_spec(self, other: Number) -> Number {
        Number { bits: float_sum(self.bits, other.bits) }
    }

    /// `a - b` is `a + (-b)`, in IEEE-754 as in `const_soft_float`.
    pub open spec fn minus_spec(self, other: Number) -> Number {
        self.plus_spec(other.negated())
    }

    /// The product, rounded as `const_soft_float` rounds it.
    pub open spec fn times_spec(self, other: Number) -> Number {
        Number { bits: float_product(self.bits, other.bits) }
    }

    /// The quotient, unless the divisor is a zero.
    pub open spec fn divided_by_spec(self, other: Number) -> Option<Number> {
        if other.is_zero() {
            None
        } else {
            Some(Number { bits: float_quotient(self.bits, other.bits) })
        }
    }

    /// The quotient as IEEE-754 has it: an infinity or a NaN where the
    /// divisor is a zero.
    pub open spec fn ratio_spec(self, other: Number) -> Number {
        Number { bits: float_quotient(self.bits, other.bits) }
    }

    /// Whether `sine` and `cosine` take this number.
    pub open spec fn within_trig_limit(self) -> bool {
        self.magnitude() <= TRIG_LIMIT_BITS
    }

    /// The sine of `self` radians, as `const_soft_float` computes it.
    pub open spec fn sine_spec(self) -> Number {
        Number { bits: float_sine(self.bits) }
    }

    /// The cosine of `self` radians, as `const_soft_float` computes it.
    pub open spec fn cosine_spec(self) -> Number {
        Number { bits: float_cosine(self.bits) }
    }

    /// The number with the pattern `bits`, as `f64::from_bits` reads it.
    pub fn from_bits(bits: u64) -> (r: Number)
        ensures
            r.bits == bits,
    {
        Number { bits }
    }

    /// The pattern, as `f64::to_bits` gives it.
    pub fn to_bits(self) -> (r: u64)
        ensures
            r == self.bits,
    {
        self.bits
    }

    /// `0.0`
    pub fn zero() -> (r: Number)
        ensures
            r == Number::spec_zero(),
    {
        Number { bits: 0 }
    }

    /// `0.0`
    pub open spec fn spec_zero() -> Number {
        Number { bits: 0 }
    }

    /// The pattern of the absolute value.
    pub fn abs_bits(self) -> (r: u64)
        ensures
            r == self.magnitude(),
    {
        if self.bits >= SIGN_BIT {
            self.bits - SIGN_BIT
        } else {
            self.bits
        }
    }

    /// Whether the number is `0.0` or `-0.0`.
    pub fn has_zero_value(self) -> (r: bool)
        ensures
            r == self.is_zero(),
    {
        self.abs_bits() == 0
    }

    fn order_rank(self) -> (r: i128)
        ensures
            r == self.rank(),
    {
        let m: u64 = self.abs_bits();
        if self.bits >= SIGN_BIT {
            -(m as i128)
        } else {
            m as i128
        }
    }

    /// Numeric `<`.
    pub fn less_than(self, other: Number) -> (r: bool)
        ensures
            r == self.less_than_spec(other),
    {
        self.abs_bits() <= INFINITY_BITS && other.abs_bits() <= INFINITY_BITS && self.order_rank()
            < other.order_rank()
    }

    /// Numeric `<=`.
    pub fn at_most(self, other: Number) -> (r: bool)
        ensures
            r == self.at_most_spec(other),
    {
        self.abs_bits() <= INFINITY_BITS && other.abs_bits() <= INFINITY_BITS && self.order_rank()
            <= other.order_rank()
    }

    /// Numeric `==`.
    pub fn same_value(self, other: Number) -> (r: bool)
        ensures
            r == self.same_value_spec(other),
    {
        self.abs_bits() <= INFINITY_BITS && other.abs_bits() <= INFINITY_BITS && self.order_rank()
            == other.order_rank()
    }

    /// Flips the sign.
    pub fn negate(self) -> (r: Number)
        ensures
            r == self.negated(),
    {
        if self.bits >= SIGN_BIT {
            Number { bits: self.bits - SIGN_BIT }
        } else {
            Number { bits: self.bits + SIGN_BIT }
        }
    }

    /// Adds.
    pub fn plus(self, other: Number) -> (r: Number)
        ensures
            r == self.plus_spec(other),
    {
        Number { bits: soft_add(self.bits, other.bits) }
    }

    /// Subtracts: adds the negated `other`.
    pub fn minus(self, other: Number) -> (r: Number)
        ensures
            r == self.minus_spec(other),
    {
        self.plus(other.negate())
    }

    /// Multiplies.
    pub fn times(self, other: Number) -> (r: Number)
        ensures
            r == self.times_spec(other),
    {
        Number { bits: soft_mul(self.bits, other.bits) }
    }

    /// Divides, and refuses a divisor that is `0.0` or `-0.0`.
    pub fn divided_by(self, other: Number) -> (r: Option<Number>)
        ensures
            r == self.divided_by_spec(other),
    {
        if other.has_zero_value() {
            None
        } else {
            Some(Number { bits: soft_div(self.bits, other.bits) })
        }
    }

    /// Divides as IEEE-754 does, a zero divisor included.
    pub fn ratio(self, other: Number) -> (r: Number)
        ensures
            r == self.ratio_spec(other),
    {
        Number { bits: soft_div(self.bits, other.bits) }
    }

    /// The sine of `self` radians, for magnitudes of at most 7.
    pub fn sine(self) -> (r: Option<Number>)
        ensures
            r == (if self.within_trig_limit() {
                Some(self.sine_spec())
            } else {
                None
            }),
    {
        if self.abs_bits() <= TRIG_LIMIT_BITS {
            Some(Number { bits: soft_sin(self.bits) })
        } else {
            None
        }
    }

    /// The cosine of `self` radians, for magnitudes of at most 7.
    pub fn cosine(self) -> (r: Option<Number>)
        ensures
            r == (if self.within_trig_limit() {
                Some(self.cosine_spec())
            } else {
                None
            }),
    {
        if self.abs_bits() <= TRIG_LIMIT_BITS {
            Some(Number { bits: soft_cos(self.bits) })
        } else {
            None
        }
    }
}

/// Negating twice gives the pattern back, and negation keeps the magnitude.
pub proof fn negation_is_an_involution(n: Number)
    ensures
        n.negated().negated() == n,
        n.negated().magnitude() == n.magnitude(),
        n.negated().sign_set() != n.sign_set(),
{
}

/// The numeric order is strict and total on the numbers that are no NaN:
/// of `a < b`, `a == b` and `b < a` exactly one holds.
pub proof fn order_is_total(a: Number, b: Number)
    requires
        !a.is_nan(),
        !b.is_nan(),
    ensures
        a.less_than_spec(b) || a.same_value_spec(b) || b.less_than_spec(a),
        !(a.less_than_spec(b) && b.less_than_spec(a)),
        !(a.less_than_spec(b) && a.same_value_spec(b)),
        a.at_most_spec(b) == (a.less_than_spec(b) || a.same_value_spec(b)),
{
}

/// The exponent field of 1.0: a pattern with exponent field `e` and
/// significand `m` stands for `m * 2^(e - 1075)`.
pub const EXPONENT_OF_ONE: u64 = 1023;

/// The exponent field at which the significand is the integer part itself.
pub const EXPONENT_OF_UNIT_STEP: u64 = 1075;

/// The position of the highest set bit of `i`: the integer part of its binary
/// logarithm (0 for 0 and 1).
pub open spec fn top_bit(i: nat) -> nat
    decreases i,
{
    if i <= 1 {
        0
    } else {
        1 + top_bit(i / 2)
    }
}

/// `i` lies between the power of two of its top bit and the next power.
pub proof fn top_bit_brackets(i: nat)
    requires
        i >= 1,
    ensures
        pow2(top_bit(i)) <= i < pow2(top_bit(i) + 1),
    decreases i,
{
    lemma2_to64();
    if i > 1 {
        top_bit_brackets(i / 2);
        let p = top_bit(i / 2);
        lemma_pow2_adds(p, 1);
        lemma_pow2_adds(p + 1, 1);
        assert(top_bit(i) == p + 1);
    }
}

proof fn top_bit_of_u64(i: u64)
    requires
        i >= 1,
    ensures
        top_bit(i as nat) <= 63,
{
    top_bit_brackets(i as nat);
    lemma2_to64();
    if top_bit(i as nat) > 63 {
        if top_bit(i as nat) > 64 {
            lemma_pow2_strictly_increases(64, top_bit(i as nat));
        }
    }
}

proof fn product_brackets(i: nat, p: nat, k: nat)
    requires
        pow2(p) <= i < pow2(p + 1),
    ensures
        pow2(p + k) <= i * pow2(k) < pow2(p + 1 + k),
{
    lemma_pow2_adds(p, k);
    lemma_pow2_adds(p + 1, k);
    lemma_pow2_pos(k);
    let a = pow2(p) as int;
    let b = pow2(p + 1) as int;
    let c = pow2(k) as int;
    let x = i as int;
    assert(a * c <= x * c < b * c) by (nonlinear_arith)
        requires
            a <= x < b,
            c > 0,
    ;
}

proof fn quotient_brackets(i: nat, p: nat, k: nat)
    requires
        k <= p,
        pow2(p) <= i < pow2(p + 1),
    ensures
        pow2((p - k) as nat) <= i / pow2(k) < pow2((p - k + 1) as nat),
{
    lemma_pow2_adds((p - k) as nat, k);
    lemma_pow2_adds((p - k + 1) as nat, k);
    lemma_pow2_pos(k);
    let c = pow2(k) as int;
    let a = pow2((p - k) as nat) as int;
    let b = pow2((p - k + 1) as nat) as int;
    let x = i as int;
    lemma_fundamental_div_mod(x, c);
    let q = x / c;
    let r = x % c;
    assert(a <= q < b) by (nonlinear_arith)
        requires
            a * c <= x < b * c,
            x == c * q + r,
            0 <= r < c,
    ;
}

impl Number {
    /// The eleven bits above the fraction.
    pub open spec fn exponent_field(self) -> nat {
        (self.magnitude() / FRACTION_RANGE) as nat
    }

    /// The low 52 bits.
    pub open spec fn fraction_field(self) -> nat {
        (self.magnitude() % FRACTION_RANGE) as nat
    }

    /// The integer part of the absolute value of a finite number (for an
    /// infinity, a number beyond every `u64`).
    pub open spec fn whole_part(self) -> nat {
        let e = self.exponent_field();
        let m: nat = FRACTION_RANGE as nat + self.fraction_field();
        if e < EXPONENT_OF_ONE {
            0
        } else if e <= EXPONENT_OF_UNIT_STEP {
            m / pow2((EXPONENT_OF_UNIT_STEP - e) as nat)
        } else {
            m * pow2((e - EXPONENT_OF_UNIT_STEP) as nat)
        }
    }

    /// The number as a count: its integer part, cut off at `u64::MAX`. A NaN
    /// and a number below zero are no count.
    pub open spec fn count_spec(self) -> Option<u64> {
        if self.is_nan() || (self.sign_set() && !self.is_zero()) {
            None
        } else if self.whole_part() > u64::MAX {
            Some(u64::MAX)
        } else {
            Some(self.whole_part() as u64)
        }
    }

    /// The largest double that is at most `i`; it is `i` itself up to two to
    /// the 53rd power.
    pub open spec fn index_spec(i: u64) -> Number {
        if i == 0 {
            Number { bits: 0 }
        } else {
            let p = top_bit(i as nat);
            let m: nat = if p <= 52 {
                i as nat * pow2((52 - p) as nat)
            } else {
                i as nat / pow2((p - 52) as nat)
            };
            Number { bits: ((EXPONENT_OF_ONE - 1 + p) * FRACTION_RANGE + m) as u64 }
        }
    }

    /// Truncates towards zero and converts to a count.
    pub fn to_count(self) -> (r: Option<u64>)
        ensures
            r == self.count_spec(),
    {
        let m: u64 = self.abs_bits();
        if m > INFINITY_BITS || (self.bits >= SIGN_BIT && m != 0) {
            return None;
        }
        let e: u64 = m / FRACTION_RANGE;
        let significand: u64 = FRACTION_RANGE + m % FRACTION_RANGE;
        proof {
            lemma2_to64();
        }
        if e < EXPONENT_OF_ONE {
            Some(0)
        } else if e <= EXPONENT_OF_UNIT_STEP {
            let shift: u64 = EXPONENT_OF_UNIT_STEP - e;
            proof {
                lemma_u64_shr_is_div(significand, shift);
            }
            Some(significand >> shift)
        } else if e <= EXPONENT_OF_UNIT_STEP + 11 {
            let shift: u64 = e - EXPONENT_OF_UNIT_STEP;
            proof {
                if shift < 11 {
                    lemma_pow2_strictly_increases(shift as nat, 11);
                }
                let k = pow2(shift as nat) as int;
                let s = significand as int;
                assert(s * k <= 0xFFFF_FFFF_FFFF_FFFF) by (nonlinear_arith)
                    requires
                        0 <= s < 0x20_0000_0000_0000,
                        0 <= k <= 0x800,
                ;
                lemma_u64_shl_is_mul(significand, shift);
            }
            Some(significand << shift)
        } else {
            proof {
                let shift = (e - EXPONENT_OF_UNIT_STEP) as nat;
                if shift > 12 {
                    lemma_pow2_strictly_increases(12, shift);
                }
                let k = pow2(shift) as int;
                let s = significand as int;
                assert(s * k > 0xFFFF_FFFF_FFFF_FFFF) by (nonlinear_arith)
                    requires
                        s >= 0x10_0000_0000_0000,
                        k >= 0x1000,
                ;
            }
            Some(u64::MAX)
        }
    }

    /// Converts a count to a number, rounding towards zero where the count
    /// has more than 53 significant bits.
    pub fn from_index(i: u64) -> (r: Number)
        ensures
            r == Number::index_spec(i),
    {
        if i == 0 {
            return Number { bits: 0 };
        }
        let mut p: u64 = 0;
        let mut t: u64 = i;
        proof {
            top_bit_of_u64(i);
        }
        while t > 1
            invariant
                t >= 1,
                top_bit(i as nat) == p + top_bit(t as nat),
                top_bit(i as nat) <= 63,
            decreases t,
        {
            t = t / 2;
            p = p + 1;
        }
        proof {
            top_bit_brackets(i as nat);
            lemma2_to64();
            lemma2_to64_rest();
        }
        let m: u64 = if p <= 52 {
            let shift: u64 = 52 - p;
            proof {
                product_brackets(i as nat, p as nat, shift as nat);
                lemma_u64_shl_is_mul(i, shift);
            }
            i << shift
        } else {
            let shift: u64 = p - 52;
            proof {
                quotient_brackets(i as nat, p as nat, shift as nat);
                lemma_u64_shr_is_div(i, shift);
            }
            i >> shift
        };
        assert(0x10_0000_0000_0000 <= m < 0x20_0000_0000_0000);
        Number { bits: (EXPONENT_OF_ONE - 1 + p) * FRACTION_RANGE + m }
    }
}

/// The number made of a count stands for a whole number that is at most the
/// count, and for the count itself where the count has no more than 53
/// significant bits. It is finite and not below zero.
pub proof fn index_truncates(i: u64)
    ensures
        Number::index_spec(i).whole_part() <= i,
        top_bit(i as nat) <= 52 ==> Number::index_spec(i).whole_part() == i,
        top_bit(i as nat) > 52 ==> Number::index_spec(i).whole_part() == (i as nat / pow2(
            (top_bit(i as nat) - 52) as nat,
        )) * pow2((top_bit(i as nat) - 52) as nat),
        Number::index_spec(i).is_finite(),
        !Number::index_spec(i).sign_set(),
        i > 0 ==> !Number::index_spec(i).is_zero(),
{
    lemma2_to64();
    lemma2_to64_rest();
    if i > 0 {
        let p = top_bit(i as nat);
        top_bit_brackets(i as nat);
        top_bit_of_u64(i);
        let n = Number::index_spec(i);
        let m: nat = if p <= 52 {
            i as nat * pow2((52 - p) as nat)
        } else {
            i as nat / pow2((p - 52) as nat)
        };
        if p <= 52 {
            product_brackets(i as nat, p, (52 - p) as nat);
        } else {
            quotient_brackets(i as nat, p, (p - 52) as nat);
        }
        assert(0x10_0000_0000_0000 <= m < 0x20_0000_0000_0000);
        let bits = (EXPONENT_OF_ONE - 1 + p) * FRACTION_RANGE + m;
        assert(n.bits == bits);
        assert(n.magnitude() == bits);
        lemma_fundamental_div_mod_converse(
            bits as int,
            FRACTION_RANGE as int,
            (EXPONENT_OF_ONE + p) as int,
            (m - FRACTION_RANGE) as int,
        );
        assert(n.exponent_field() == EXPONENT_OF_ONE + p);
        assert(n.fraction_field() == m - FRACTION_RANGE);
        if p <= 52 {
            let k = pow2((52 - p) as nat);
            lemma_pow2_pos((52 - p) as nat);
            assert(i * k == k * i) by (nonlinear_arith);
            lemma_fundamental_div_mod_converse(m as int, k as int, i as int, 0);
            assert(n.whole_part() == i);
        } else {
            let k = pow2((p - 52) as nat) as int;
            lemma_pow2_pos((p - 52) as nat);
            lemma_fundamental_div_mod(i as int, k);
            let q = i as int / k;
            let r = i as int % k;
            assert(n.whole_part() == m * pow2((p - 52) as nat));
            assert(q * k <= i) by (nonlinear_arith)
                requires
                    i == k * q + r,
                    0 <= r,
            ;
        }
    }
}

/// Up to two to the 53rd power a count survives the way into a number and
/// back: the number made of `i` is no NaN, is not below zero, and its integer
/// part is `i`.
pub proof fn index_round_trip(i: u64)
    requires
        i <= 0x20_0000_0000_0000,
    ensures
        Number::index_spec(i).count_spec() == Some(i),
        Number::index_spec(i).is_finite(),
        !Number::index_spec(i).sign_set(),
{
    lemma2_to64();
    lemma2_to64_rest();
    index_truncates(i);
    if i > 0 {
        let p = top_bit(i as nat);
        top_bit_brackets(i as nat);
        if p > 53 {
            lemma_pow2_strictly_increases(53, p);
        }
        if p == 53 {
            lemma_pow2_adds(52, 1);
            assert(i == 0x20_0000_0000_0000);
            assert(pow2((p - 52) as nat) == 2);
            assert(i as nat / 2 == 0x10_0000_0000_0000);
            assert(Number::index_spec(i).whole_part() == i);
        }
    }
}

/// For two numbers of one exponent, the one with the smaller fraction has
/// the smaller integer part, or the same.
proof fn whole_part_grows_with_fraction(a: Number, b: Number)
    requires
        a.exponent_field() == b.exponent_field(),
        a.fraction_field() <= b.fraction_field(),
    ensures
        a.whole_part() <= b.whole_part(),
{
    let e = a.exponent_field();
    let x = (FRACTION_RANGE + a.fraction_field()) as int;
    let y = (FRACTION_RANGE + b.fraction_field()) as int;
    if e < EXPONENT_OF_ONE {
    } else if e <= EXPONENT_OF_UNIT_STEP {
        let d = pow2((EXPONENT_OF_UNIT_STEP - e) as nat) as int;
        lemma_pow2_pos((EXPONENT_OF_UNIT_STEP - e) as nat);
        lemma_div_is_ordered(x, y, d);
    } else {
        let k = pow2((e - EXPONENT_OF_UNIT_STEP) as nat) as int;
        lemma_pow2_pos((e - EXPONENT_OF_UNIT_STEP) as nat);
        assert(x * k <= y * k) by (nonlinear_arith)
            requires
                x <= y,
                0 < k,
        ;
    }
}

/// The first number of an exponent has an integer part that is no smaller
/// than that of any number of the exponent before.
proof fn whole_part_grows_with_exponent(a: Number, b: Number)
    requires
        b.exponent_field() == a.exponent_field() + 1,
        b.fraction_field() == 0,
    ensures
        a.whole_part() <= b.whole_part(),
{
    lemma2_to64();
    lemma2_to64_rest();
    let e = a.exponent_field();
    let range = FRACTION_RANGE as int;
    let x = range + a.fraction_field();
    assert(x < 2 * range);
    if e + 1 < EXPONENT_OF_ONE {
    } else if e + 1 == EXPONENT_OF_ONE {
        assert(pow2(52) == range);
    } else if e < EXPONENT_OF_UNIT_STEP {
        let k = (EXPONENT_OF_UNIT_STEP - e) as nat;
        let d = pow2(k) as int;
        let half = pow2((k - 1) as nat) as int;
        lemma_pow2_unfold(k);
        lemma_pow2_pos((k - 1) as nat);
        lemma_pow2_adds((53 - k) as nat, (k - 1) as nat);
        let q = pow2((53 - k) as nat) as int;
        assert(range == q * half);
        lemma_fundamental_div_mod_converse(range, half, q, 0);
        assert(b.whole_part() == q);
        lemma_fundamental_div_mod(x, d);
        let xq = x / d;
        let xr = x % d;
        assert(xq <= q) by (nonlinear_arith)
            requires
                x == d * xq + xr,
                0 <= xr,
                x < 2 * range,
                range == q * half,
                d == 2 * half,
                0 < half,
        ;
    } else if e == EXPONENT_OF_UNIT_STEP {
        assert(pow2(0) == 1);
        assert(pow2(1) == 2);
        assert(a.whole_part() == x / 1);
        assert(b.whole_part() == range * 2);
    } else {
        let j = (e - EXPONENT_OF_UNIT_STEP) as nat;
        let k = pow2(j) as int;
        lemma_pow2_unfold(j + 1);
        lemma_pow2_pos(j);
        assert(x * k <= range * (2 * k)) by (nonlinear_arith)
            requires
                x < 2 * range,
                0 < k,
        ;
    }
}

/// The integer part grows with the magnitude: of two numbers, the one that
/// is closer to zero has the smaller integer part, or the same.
pub proof fn whole_part_grows(a: Number, b: Number)
    requires
        a.magnitude() <= b.magnitude(),
    ensures
        a.whole_part() <= b.whole_part(),
    decreases b.exponent_field() - a.exponent_field(),
{
    let range = FRACTION_RANGE as int;
    lemma_fundamental_div_mod(a.magnitude() as int, range);
    lemma_fundamental_div_mod(b.magnitude() as int, range);
    lemma_div_is_ordered(a.magnitude() as int, b.magnitude() as int, range);
    let ea = a.exponent_field() as int;
    let eb = b.exponent_field() as int;
    if ea == eb {
        whole_part_grows_with_fraction(a, b);
    } else {
        assert((ea + 1) * range <= eb * range) by (nonlinear_arith)
            requires
                ea + 1 <= eb,
                0 < range,
        ;
        assert(range * eb == eb * range) by (nonlinear_arith);
        let c = Number { bits: ((ea + 1) * range) as u64 };
        assert(c.bits == (ea + 1) * range);
        assert(c.magnitude() == c.bits);
        lemma_fundamental_div_mod_converse(c.bits as int, range, ea + 1, 0);
        whole_part_grows_with_exponent(a, c);
        whole_part_grows(c, b);
    }
}

} // verus!

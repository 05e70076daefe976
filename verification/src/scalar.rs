//! Real numbers as the renderer stores them: IEEE 754 doubles, held as their
//! 64-bit words.
//!
//! A word has a sign bit, eleven bits of exponent and fifty-two bits of
//! fraction. Every word but a NaN stands for a whole number of steps of
//! 2^-1074, the smallest positive double; an infinity counts as a number
//! beyond every finite one. The order of two numbers is read off their words,
//! and proved to be the order of their steps; the integer part of a number is
//! stated over its steps and computed on the word.

use vstd::arithmetic::div_mod::{
    lemma_basic_div, lemma_div_by_multiple, lemma_div_denominator,
    lemma_div_is_ordered_by_denominator,
};
use vstd::arithmetic::mul::{
    lemma_mul_inequality, lemma_mul_is_associative, lemma_mul_is_commutative,
    lemma_mul_strict_inequality,
};
use vstd::arithmetic::power2::{
    lemma2_to64, lemma2_to64_rest, lemma_pow2_adds, lemma_pow2_pos,
    lemma_pow2_strictly_increases, lemma_pow2_unfold, pow2,
};
use vstd::bits::lemma_u64_shr_is_div;
use vstd::prelude::*;

verus! {

/// The sign bit of a double.
pub const SIGN_BIT: u64 = 0x8000_0000_0000_0000;

/// The word of positive infinity. Every magnitude above it is a NaN.
pub const INFINITY_BITS: u64 = 0x7FF0_0000_0000_0000;

/// The word of 0.
pub const ZERO_BITS: u64 = 0;

/// The word of 1.
pub const ONE_BITS: u64 = 0x3FF0_0000_0000_0000;

/// The word of 0.5.
pub const HALF_BITS: u64 = 0x3FE0_0000_0000_0000;

/// The word of -1.
pub const MINUS_ONE_BITS: u64 = 0xBFF0_0000_0000_0000;

/// The word of negative infinity.
pub const MINUS_INFINITY_BITS: u64 = 0xFFF0_0000_0000_0000;

/// The word of 1e-7, the tolerance of the intersection test.
pub const EPSILON_BITS: u64 = 0x3E7A_D7F2_9ABC_AF48;

/// The number of words that share one exponent: 2^52.
pub const FRACTION_SPAN: u64 = 0x10_0000_0000_0000;

/// A number of the renderer, held as the word of an IEEE 754 double.
///
/// Two scalars are `==` when their words are the same; the order of the numbers
/// they stand for is given by `precedes`.
#[derive(Clone, Copy, Debug, PartialEq, Eq)]
pub struct Scalar {
    pub bits: u64,
}

impl Scalar {
    /// The word without its sign bit.
    pub open spec fn magnitude(self) -> int {
        if self.bits >= SIGN_BIT {
            self.bits - SIGN_BIT
        } else {
            self.bits as int
        }
    }

    /// Whether the sign bit is set.
    pub open spec fn signed(self) -> bool {
        self.bits >= SIGN_BIT
    }

    /// Whether the word is a NaN: its exponent is all ones and its fraction is
    /// not 0, which puts its magnitude above that of infinity.
    pub open spec fn nan(self) -> bool {
        self.magnitude() > INFINITY_BITS
    }

    /// The place of the word among the words that are numbers. A double is a
    /// sign and a magnitude, and of two magnitudes the larger word is the
    /// larger number, so the magnitude with its sign orders the numbers as
    /// their values do (`lemma_order_is_numeric`). Both zeros have place 0.
    pub open spec fn rank(self) -> int {
        if self.signed() {
            -self.magnitude()
        } else {
            self.magnitude()
        }
    }

    /// `self < other` as IEEE 754 compares: the first number is the smaller,
    /// and neither is a NaN.
    pub open spec fn precedes(self, other: Scalar) -> bool {
        !self.nan() && !other.nan() && self.rank() < other.rank()
    }

    /// `self > 0`.
    pub open spec fn positive(self) -> bool {
        !self.nan() && self.rank() > 0
    }

    /// The absolute value: the same word with the sign bit cleared.
    pub open spec fn absolute(self) -> Scalar {
        Scalar { bits: self.magnitude() as u64 }
    }

    /// The exponent field of the word.
    pub open spec fn exponent(self) -> int {
        self.magnitude() / (FRACTION_SPAN as int)
    }

    /// The fraction field of the word.
    pub open spec fn fraction(self) -> int {
        self.magnitude() % (FRACTION_SPAN as int)
    }

    /// The digits of the number: the fraction field, with the implicit leading
    /// bit unless the number is subnormal.
    pub open spec fn significand(self) -> int {
        if self.exponent() == 0 {
            self.fraction()
        } else {
            FRACTION_SPAN + self.fraction()
        }
    }

    /// The binary place of the digits: the exponent field, and 1 for a
    /// subnormal.
    pub open spec fn scale(self) -> int {
        if self.exponent() == 0 {
            1
        } else {
            self.exponent()
        }
    }

    /// The absolute value in steps of 2^-1074: `significand * 2^(scale - 1)`.
    pub open spec fn size(self) -> int {
        self.significand() * pow2((self.scale() - 1) as nat)
    }

    /// The number in steps of 2^-1074. Both zeros are 0 steps.
    pub open spec fn steps(self) -> int {
        if self.signed() {
            -self.size()
        } else {
            self.size()
        }
    }

    /// The largest integer that is not above the absolute value: one is 2^1074
    /// steps. `lemma_whole_part` reads it off the fields of the word.
    pub open spec fn whole(self) -> int {
        self.size() / (pow2(1074) as int)
    }

    /// The number as a `u32`: cut towards zero and kept inside the type, with 0
    /// for a NaN.
    pub open spec fn truncated(self) -> int {
        if self.nan() || self.signed() {
            0
        } else if self.whole() > u32::MAX {
            u32::MAX as int
        } else {
            self.whole()
        }
    }

    /// The scalar with the given word.
    pub fn from_bits(bits: u64) -> (s: Scalar)
        ensures
            s.bits == bits,
    {
        Scalar { bits }
    }

    /// The word of the scalar.
    pub fn to_bits(self) -> (bits: u64)
        ensures
            bits == self.bits,
    {
        self.bits
    }

    /// Whether the scalar is a NaN.
    pub fn is_nan(self) -> (r: bool)
        ensures
            r == self.nan(),
    {
        if self.bits >= SIGN_BIT {
            self.bits - SIGN_BIT > INFINITY_BITS
        } else {
            self.bits > INFINITY_BITS
        }
    }

    /// `self < other`.
    pub fn lt(self, other: Scalar) -> (r: bool)
        ensures
            r == self.precedes(other),
    {
        if self.is_nan() || other.is_nan() {
            false
        } else if self.bits >= SIGN_BIT {
            if other.bits >= SIGN_BIT {
                self.bits > other.bits
            } else {
                self.bits > SIGN_BIT || other.bits > 0
            }
        } else {
            other.bits < SIGN_BIT && self.bits < other.bits
        }
    }

    /// `self > other`.
    pub fn gt(self, other: Scalar) -> (r: bool)
        ensures
            r == other.precedes(self),
    {
        other.lt(self)
    }

    /// `self > 0`.
    pub fn is_positive(self) -> (r: bool)
        ensures
            r == self.positive(),
    {
        self.bits < SIGN_BIT && 0 < self.bits && self.bits <= INFINITY_BITS
    }

    /// The absolute value.
    pub fn abs(self) -> (r: Scalar)
        ensures
            r == self.absolute(),
    {
        if self.bits >= SIGN_BIT {
            Scalar { bits: self.bits - SIGN_BIT }
        } else {
            self
        }
    }

    /// The number as a `u32`, as a cast converts it: the part after the point
    /// is dropped, a number out of range becomes the nearest bound, a NaN 0.
    pub fn to_u32(self) -> (n: u32)
        ensures
            n == self.truncated(),
    {
        if self.bits >= SIGN_BIT || self.bits > INFINITY_BITS {
            return 0;
        }
        let exponent: u64 = self.bits / FRACTION_SPAN;
        let fraction: u64 = self.bits % FRACTION_SPAN;
        let significand: u64 = if exponent == 0 {
            fraction
        } else {
            FRACTION_SPAN + fraction
        };
        proof {
            lemma2_to64();
            lemma2_to64_rest();
            lemma_whole_part(self);
        }
        if exponent < 1023 {
            proof {
                let down = (1075 - self.scale()) as nat;
                if down > 53 {
                    lemma_pow2_strictly_increases(53, down);
                }
                lemma_basic_div(significand as int, pow2(down) as int);
            }
            0
        } else if exponent >= 1055 {
            proof {
                if exponent >= 1075 {
                    let up = (exponent - 1075) as nat;
                    lemma_pow2_pos(up);
                    lemma_mul_inequality(1, pow2(up) as int, significand as int);
                    lemma_mul_is_commutative(pow2(up) as int, significand as int);
                } else {
                    let down = (1075 - exponent) as nat;
                    lemma_pow2_pos(down);
                    if down < 20 {
                        lemma_pow2_strictly_increases(down, 20);
                    }
                    lemma_div_is_ordered_by_denominator(
                        significand as int,
                        pow2(down) as int,
                        pow2(20) as int,
                    );
                    assert(significand as int / 0x10_0000 >= 0x1_0000_0000);
                }
            }
            u32::MAX
        } else {
            let down: u64 = 1075 - exponent;
            let whole: u64 = significand >> down;
            proof {
                lemma_u64_shr_is_div(significand, down);
                lemma_pow2_pos(down as nat);
                if down > 21 {
                    lemma_pow2_strictly_increases(21, down as nat);
                }
                lemma_div_is_ordered_by_denominator(
                    significand as int,
                    pow2(21) as int,
                    pow2(down as nat) as int,
                );
                assert(significand as int / 0x20_0000 < 0x1_0000_0000);
            }
            whole as u32
        }
    }
}

/// Only the words of zero stand for 0 steps, and no word for fewer.
pub proof fn lemma_size_of_zero(a: Scalar)
    ensures
        a.size() >= 0,
        a.size() == 0 <==> a.magnitude() == 0,
{
    let place = pow2((a.scale() - 1) as nat) as int;
    lemma_pow2_pos((a.scale() - 1) as nat);
    if a.significand() > 0 {
        lemma_mul_strict_inequality(0, a.significand(), place);
    } else {
        assert(a.significand() * place == 0);
    }
}

/// Without the sign, the larger word stands for the larger number: the order
/// of the words is the order of the numbers.
pub proof fn lemma_size_follows_magnitude(a: Scalar, b: Scalar)
    ensures
        a.magnitude() < b.magnitude() <==> a.size() < b.size(),
        a.magnitude() == b.magnitude() <==> a.size() == b.size(),
{
    if a.magnitude() < b.magnitude() {
        lemma_size_increases(a, b);
    } else if b.magnitude() < a.magnitude() {
        lemma_size_increases(b, a);
    }
}

/// The order read off the words is the order of the numbers: one number
/// precedes another exactly when it is fewer steps of 2^-1074, and is positive
/// exactly when it is more than 0 steps. A NaN is the one kind of word with all
/// ones for an exponent and a fraction that is not 0.
pub proof fn lemma_order_is_numeric(a: Scalar, b: Scalar)
    ensures
        a.nan() <==> a.exponent() == 2047 && a.fraction() != 0,
        a.rank() < b.rank() <==> a.steps() < b.steps(),
        a.rank() == b.rank() <==> a.steps() == b.steps(),
        a.precedes(b) <==> !a.nan() && !b.nan() && a.steps() < b.steps(),
        a.positive() <==> !a.nan() && a.steps() > 0,
{
    lemma_size_follows_magnitude(a, b);
    lemma_size_of_zero(a);
    lemma_size_of_zero(b);
}

/// One half of `lemma_size_follows_magnitude`: within one exponent the larger
/// fraction is the larger number, and a word with a larger exponent lies at
/// least one binary place higher.
proof fn lemma_size_increases(a: Scalar, b: Scalar)
    requires
        a.magnitude() < b.magnitude(),
    ensures
        a.size() < b.size(),
{
    let span = FRACTION_SPAN as int;
    let place_a = pow2((a.scale() - 1) as nat) as int;
    let place_b = pow2((b.scale() - 1) as nat) as int;
    lemma_pow2_pos((a.scale() - 1) as nat);
    lemma_pow2_pos((b.scale() - 1) as nat);
    lemma2_to64();
    if a.exponent() == b.exponent() {
        lemma_mul_strict_inequality(a.significand(), b.significand(), place_a);
    } else {
        // `b` is normal, so its digits are at least 2^52
        lemma_mul_inequality(span, b.significand(), place_b);
        if a.exponent() == 0 {
            assert(a.size() == a.fraction() * 1);
            lemma_mul_inequality(1, place_b, span);
            lemma_mul_is_commutative(place_b, span);
        } else {
            // the digits of `a` are below 2^53, and `b` lies at least one
            // binary place higher
            let e = a.exponent() as nat;
            lemma_mul_strict_inequality(a.significand(), 2 * span, place_a);
            lemma_pow2_unfold(e);
            lemma_mul_is_associative(span, 2, place_a);
            assert((2 * span) * place_a == span * pow2(e));
            if e < b.exponent() - 1 {
                lemma_pow2_strictly_increases(e, (b.exponent() - 1) as nat);
            }
            lemma_mul_inequality(pow2(e) as int, place_b, span);
            lemma_mul_is_commutative(pow2(e) as int, span);
            lemma_mul_is_commutative(place_b, span);
        }
    }
}

/// The integer part, by the binary place of the digits: digits at or above
/// place 1075 are whole and are shifted up, digits below it are cut off.
pub proof fn lemma_whole_part(a: Scalar)
    ensures
        a.scale() >= 1075 ==> a.whole() == a.significand() * pow2((a.scale() - 1075) as nat),
        a.scale() < 1075 ==> a.whole() == a.significand() / (pow2((1075 - a.scale()) as nat) as int),
{
    let digits = a.significand();
    let one = pow2(1074) as int;
    lemma_pow2_pos(1074);
    if a.scale() >= 1075 {
        let up = pow2((a.scale() - 1075) as nat) as int;
        lemma_pow2_pos((a.scale() - 1075) as nat);
        lemma_pow2_adds((a.scale() - 1075) as nat, 1074);
        assert(pow2((a.scale() - 1) as nat) == up * one);
        lemma_mul_is_associative(digits, up, one);
        lemma_mul_inequality(0, digits, up);
        lemma_div_by_multiple(digits * up, one);
    } else {
        let place = pow2((a.scale() - 1) as nat) as int;
        let down = pow2((1075 - a.scale()) as nat) as int;
        lemma_pow2_pos((a.scale() - 1) as nat);
        lemma_pow2_pos((1075 - a.scale()) as nat);
        lemma_pow2_adds((a.scale() - 1) as nat, (1075 - a.scale()) as nat);
        assert(one == place * down);
        lemma_mul_inequality(0, digits, place);
        lemma_div_denominator(digits * place, place, down);
        lemma_div_by_multiple(digits, place);
    }
}

} // verus!

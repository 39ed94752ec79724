//! Single-precision numbers as bit patterns.
//!
//! Every quantity the renderer produces (a ray parameter, a dot product, a
//! colour channel) is an IEEE 754 binary32 number. The arithmetic that rounds
//! happens outside this crate; what is decided from a number is decided here,
//! on its 32 bits, against the number those bits denote.
use vstd::arithmetic::mul::*;
use vstd::arithmetic::power2::*;
use vstd::prelude::*;

verus! {

/// The bit that carries the sign.
pub const SIGN_BIT: u32 = 0x8000_0000;

/// The number of patterns of the 23 fraction bits.
pub const FRACTION_SPAN: u32 = 0x0080_0000;

/// The magnitude bits of an infinity: exponent field all ones, fraction zero.
pub const INFINITY_BITS: u32 = 0x7f80_0000;

/// The pattern of the number one.
pub const ONE_BITS: u32 = 0x3f80_0000;

/// A binary32 number, held as its bit pattern. Two of them are equal when
/// their patterns are: a NaN equals itself, and the two zeros differ.
#[derive(Clone, Copy, Debug, PartialEq, Eq, Structural)]
pub struct Scalar {
    pub bits: u32,
}

impl Scalar {
    /// Whether the sign bit is set.
    pub open spec fn negative(self) -> bool {
        self.bits >= SIGN_BIT
    }

    /// The pattern without its sign bit.
    pub open spec fn low(self) -> nat {
        (self.bits % SIGN_BIT) as nat
    }

    /// The biased exponent field, 0 to 255.
    pub open spec fn exponent(self) -> nat {
        (self.bits as nat / FRACTION_SPAN as nat) % 256
    }

    /// The fraction field, 0 to 2^23 - 1.
    pub open spec fn fraction(self) -> nat {
        self.bits as nat % FRACTION_SPAN as nat
    }

    /// Not a number: exponent field all ones, fraction not zero.
    pub open spec fn nan(self) -> bool {
        self.exponent() == 255 && self.fraction() != 0
    }

    /// Plus or minus infinity.
    pub open spec fn infinite(self) -> bool {
        self.exponent() == 255 && self.fraction() == 0
    }

    /// The absolute value in units of 2^-149, the smallest positive binary32
    /// number, so that every finite number has an integer here. An infinity is
    /// given 2^277, above every finite magnitude. Meaningless for a NaN.
    pub open spec fn magnitude(self) -> nat {
        if self.exponent() == 0 {
            self.fraction()
        } else {
            (FRACTION_SPAN as nat + self.fraction()) * pow2((self.exponent() - 1) as nat)
        }
    }

    /// The value in units of 2^-149. Both zeros have the value 0.
    pub open spec fn value(self) -> int {
        if self.negative() {
            -(self.magnitude() as int)
        } else {
            self.magnitude() as int
        }
    }

    /// `self < other` as IEEE 754 orders numbers: false when either is a NaN.
    pub open spec fn lt_spec(self, other: Scalar) -> bool {
        !self.nan() && !other.nan() && self.value() < other.value()
    }

    /// `self <= other` as IEEE 754 orders numbers: false when either is a NaN.
    pub open spec fn le_spec(self, other: Scalar) -> bool {
        !self.nan() && !other.nan() && self.value() <= other.value()
    }

    /// Positive zero.
    pub open spec fn zero_spec() -> Scalar {
        Scalar { bits: 0 }
    }

    /// The number one.
    pub open spec fn one_spec() -> Scalar {
        Scalar { bits: ONE_BITS }
    }

    /// Zero, of either sign.
    pub open spec fn vanishes(self) -> bool {
        !self.nan() && self.value() == 0
    }

    /// A share: a number from zero to one, both included.
    pub open spec fn share(self) -> bool {
        !self.nan() && 0 <= self.value() <= pow2(149)
    }

    /// A number above zero.
    pub open spec fn positive(self) -> bool {
        !self.nan() && self.value() > 0
    }

    /// The pattern with its sign bit flipped.
    pub open spec fn neg_spec(self) -> Scalar {
        if self.bits >= SIGN_BIT {
            Scalar { bits: (self.bits - SIGN_BIT) as u32 }
        } else {
            Scalar { bits: (self.bits + SIGN_BIT) as u32 }
        }
    }

    /// The lesser of two numbers; where one is a NaN, the other.
    pub open spec fn min_spec(self, other: Scalar) -> Scalar {
        if self.nan() {
            other
        } else if other.lt_spec(self) {
            other
        } else {
            self
        }
    }

    /// The number with the given bit pattern.
    pub fn from_bits(bits: u32) -> (r: Scalar)
        ensures
            r.bits == bits,
    {
        Scalar { bits }
    }

    /// The bit pattern of the number.
    pub fn to_bits(self) -> (r: u32)
        ensures
            r == self.bits,
    {
        self.bits
    }

    /// Positive zero.
    pub fn zero() -> (r: Scalar)
        ensures
            r == Self::zero_spec(),
            !r.nan(),
            r.value() == 0,
    {
        Scalar { bits: 0 }
    }

    /// The number one.
    pub fn one() -> (r: Scalar)
        ensures
            r == Self::one_spec(),
            r.positive(),
            r.value() == pow2(149),
    {
        let r = Scalar { bits: ONE_BITS };
        proof {
            lemma_one(r);
        }
        r
    }

    /// Whether the number is a NaN.
    pub fn is_nan(self) -> (r: bool)
        ensures
            r == self.nan(),
    {
        self.bits % SIGN_BIT > INFINITY_BITS
    }

    /// The number with the opposite sign. The magnitude is untouched, a NaN
    /// stays a NaN, and each zero becomes the other.
    pub fn neg(self) -> (r: Scalar)
        ensures
            r == self.neg_spec(),
            r.nan() == self.nan(),
            r.magnitude() == self.magnitude(),
            r.value() == -self.value(),
    {
        if self.bits >= SIGN_BIT {
            Scalar { bits: self.bits - SIGN_BIT }
        } else {
            Scalar { bits: self.bits + SIGN_BIT }
        }
    }

    /// Whether the number is zero, of either sign.
    pub fn is_zero(self) -> (r: bool)
        ensures
            r == self.vanishes(),
    {
        proof {
            lemma_magnitude_zero(self);
            lemma_fields(self);
        }
        self.bits % SIGN_BIT == 0
    }

    /// Whether the number is above zero.
    pub fn is_positive(self) -> (r: bool)
        ensures
            r == self.positive(),
    {
        Scalar::zero().lt(self)
    }

    /// `self < other`.
    pub fn lt(self, other: Scalar) -> (r: bool)
        ensures
            r == self.lt_spec(other),
    {
        if self.is_nan() || other.is_nan() {
            return false;
        }
        let a: u32 = self.bits % SIGN_BIT;
        let b: u32 = other.bits % SIGN_BIT;
        proof {
            lemma_magnitude_order(self, other);
            lemma_magnitude_zero(self);
            lemma_magnitude_zero(other);
        }
        if self.bits >= SIGN_BIT {
            if other.bits >= SIGN_BIT {
                b < a
            } else {
                a != 0 || b != 0
            }
        } else {
            if other.bits >= SIGN_BIT {
                false
            } else {
                a < b
            }
        }
    }

    /// `self <= other`.
    pub fn le(self, other: Scalar) -> (r: bool)
        ensures
            r == self.le_spec(other),
    {
        if self.is_nan() || other.is_nan() {
            return false;
        }
        !other.lt(self)
    }

    /// The lesser of two numbers; where one is a NaN, the other.
    pub fn min(self, other: Scalar) -> (r: Scalar)
        ensures
            r == self.min_spec(other),
    {
        if self.is_nan() {
            other
        } else if other.lt(self) {
            other
        } else {
            self
        }
    }
}

/// One is 2^149 units of 2^-149.
pub proof fn lemma_one(one: Scalar)
    requires
        one.bits == ONE_BITS,
    ensures
        !one.nan(),
        !one.negative(),
        one.exponent() == 127,
        one.fraction() == 0,
        one.magnitude() == pow2(149),
        one.value() == pow2(149),
        one.positive(),
{
    lemma_pow2_pos(149);
    assert(one.exponent() == 127);
    assert(one.fraction() == 0);
    lemma_pow2_adds(23, 126);
    lemma2_to64();
    assert(pow2(23) == 0x80_0000);
}

/// Every number that is neither a NaN nor an infinity lies strictly between
/// the two infinities.
pub proof fn lemma_finite_is_bounded(a: Scalar, infinity: Scalar)
    requires
        !a.nan(),
        !a.infinite(),
        infinity.bits == INFINITY_BITS,
    ensures
        !infinity.nan(),
        -infinity.value() < a.value() < infinity.value(),
{
    assert(infinity.exponent() == 255 && infinity.fraction() == 0);
    assert(a.low() < infinity.low());
    lemma_magnitude_order(a, infinity);
}

/// Only the two zeros have magnitude zero.
pub proof fn lemma_magnitude_zero(a: Scalar)
    ensures
        a.magnitude() == 0 <==> a.low() == 0,
{
    if a.exponent() != 0 {
        lemma_pow2_pos((a.exponent() - 1) as nat);
        lemma_mul_strictly_positive(
            FRACTION_SPAN as int + a.fraction() as int,
            pow2((a.exponent() - 1) as nat) as int,
        );
    }
}

/// Among patterns of one exponent field, magnitude grows with the fraction;
/// a larger exponent field gives a larger magnitude whatever the fractions.
proof fn lemma_magnitude_increases(a: Scalar, b: Scalar)
    requires
        a.low() < b.low(),
    ensures
        a.magnitude() < b.magnitude(),
{
    let ea = a.exponent();
    let eb = b.exponent();
    let fa = a.fraction() as int;
    let fb = b.fraction() as int;
    let span = FRACTION_SPAN as int;
    lemma_fields(a);
    lemma_fields(b);
    assert(ea <= eb);
    assert(eb >= 1 ==> pow2((eb - 1) as nat) >= 1) by {
        if eb >= 1 {
            lemma_pow2_pos((eb - 1) as nat);
        }
    }
    if ea == eb {
        assert(fa < fb);
        if ea != 0 {
            let p = pow2((ea - 1) as nat) as int;
            lemma_mul_strict_inequality(span + fa, span + fb, p);
        }
    } else {
        let pb = pow2((eb - 1) as nat) as int;
        assert(span * pb <= (span + fb) * pb) by {
            lemma_mul_inequality(span, span + fb, pb);
        }
        if ea == 0 {
            assert(span * 1 <= span * pb) by {
                lemma_mul_left_inequality(span, 1, pb);
            }
        } else {
            let pa = pow2((ea - 1) as nat) as int;
            lemma_pow2_pos((ea - 1) as nat);
            assert((span + fa) * pa < (2 * span) * pa) by {
                lemma_mul_strict_inequality(span + fa, 2 * span, pa);
            }
            assert((2 * span) * pa == span * (2 * pa)) by {
                lemma_mul_is_associative(span, 2, pa);
                lemma_mul_is_commutative(span, 2);
            }
            lemma_pow2_unfold(ea);
            assert(pow2(ea) <= pb) by {
                if ea < eb - 1 {
                    lemma_pow2_strictly_increases(ea, (eb - 1) as nat);
                }
            }
            assert(span * (2 * pa) <= span * pb) by {
                lemma_mul_left_inequality(span, 2 * pa, pb);
            }
        }
    }
}

/// The pattern without its sign bit is the exponent field above the
/// fraction field.
pub proof fn lemma_fields(a: Scalar)
    ensures
        a.low() == a.exponent() * FRACTION_SPAN + a.fraction(),
        a.fraction() < FRACTION_SPAN,
        a.exponent() < 256,
{
}

/// The patterns without their sign bits stand in the order of the magnitudes
/// they denote.
pub proof fn lemma_magnitude_order(a: Scalar, b: Scalar)
    ensures
        a.low() < b.low() <==> a.magnitude() < b.magnitude(),
        a.low() == b.low() <==> a.magnitude() == b.magnitude(),
{
    if a.low() < b.low() {
        lemma_magnitude_increases(a, b);
        assert(a.magnitude() < b.magnitude());
    } else if b.low() < a.low() {
        lemma_magnitude_increases(b, a);
        assert(b.magnitude() < a.magnitude());
    } else {
        lemma_fields(a);
        lemma_fields(b);
        assert(a.exponent() == b.exponent());
        assert(a.fraction() == b.fraction());
        assert(a.magnitude() == b.magnitude());
    }
}

} // verus!

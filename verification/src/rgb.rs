//! Linear radiance and its conversion to display bytes.
//!
//! A pixel's channel is the sum of what its samples gathered. The byte that
//! is shown for it is `255 * sqrt(sum / samples)`, held between 0 and 255 and
//! rounded to the nearest whole number, halves upwards. The square root is
//! the gamma correction. Here the byte is found without any rounding on the
//! way: the byte reaches `k` exactly when `255 * sqrt(sum / samples)` is at
//! least `k - 1/2`, which is `(2k - 1)^2 * samples <= 4 * 255^2 * sum`.
use crate::scalar::Scalar;
use crate::scalar::FRACTION_SPAN;
use crate::vector::Vec3;
use vstd::arithmetic::mul::*;
use vstd::arithmetic::power2::*;
use vstd::prelude::*;

verus! {

/// Four times the square of 255.
pub const FULL_SCALE: u64 = 260100;

/// Linear radiance: red in `x`, green in `y`, blue in `z`.
#[derive(Clone, Copy, Debug, PartialEq, Eq, Structural)]
pub struct Rgb(pub Vec3);

/// Whether the byte for a channel sum of `units` times 2^-149 over `samples`
/// samples is `k` or more, for `k` from 1: whether `255 * sqrt(sum / samples)`
/// is at least `k - 1/2`.
pub open spec fn reaches(k: nat, units: int, samples: nat) -> bool {
    (2 * k - 1) * (2 * k - 1) * (samples * pow2(149)) <= FULL_SCALE * units
}

/// The largest of the bytes 1 to `k` that the sum reaches, or 0.
pub open spec fn level(k: nat, units: int, samples: nat) -> nat
    decreases k,
{
    if k == 0 {
        0
    } else if reaches(k, units, samples) {
        k
    } else {
        level((k - 1) as nat, units, samples)
    }
}

/// The display byte for a channel sum over a number of samples. A NaN and
/// every sum that is not above zero give 0. A sum above zero over no sample
/// at all gives 255, as an unbounded average does.
pub open spec fn encoded(sum: Scalar, samples: u16) -> u8 {
    if !sum.positive() {
        0
    } else if samples == 0 {
        255
    } else {
        level(255, sum.value(), samples as nat) as u8
    }
}

/// A byte that the sum reaches is reached by every smaller one too.
pub proof fn lemma_reaches_below(j: nat, k: nat, units: int, samples: nat)
    requires
        1 <= j <= k,
        reaches(k, units, samples),
    ensures
        reaches(j, units, samples),
{
    let scale = (samples * pow2(149)) as int;
    let a = (2 * j - 1) as int;
    let b = (2 * k - 1) as int;
    assert(a * a <= b * b) by (nonlinear_arith)
        requires
            0 <= a <= b,
    ;
    lemma_mul_inequality(a * a, b * b, scale);
}

/// `level` never exceeds its bound.
pub proof fn lemma_level_bound(k: nat, units: int, samples: nat)
    ensures
        level(k, units, samples) <= k,
    decreases k,
{
    if k > 0 {
        lemma_level_bound((k - 1) as nat, units, samples);
    }
}

/// `level` is the byte that is reached while the next one is not.
pub proof fn lemma_level_is(n: nat, b: nat, units: int, samples: nat)
    requires
        b <= n,
        b == 0 || reaches(b, units, samples),
        b == n || !reaches(b + 1, units, samples),
    ensures
        level(n, units, samples) == b,
    decreases n,
{
    if n > b {
        if reaches(n, units, samples) {
            lemma_reaches_below(b + 1, n, units, samples);
        }
        lemma_level_is((n - 1) as nat, b, units, samples);
    }
}

/// The byte lies nearest to `255 * sqrt(sum / samples)`: the sum reaches it
/// and, unless the byte is 255, does not reach the next.
pub proof fn lemma_level_nearest(n: nat, units: int, samples: nat)
    ensures
        level(n, units, samples) >= 1 ==> reaches(level(n, units, samples), units, samples),
        level(n, units, samples) < n ==> !reaches(level(n, units, samples) + 1, units, samples),
    decreases n,
{
    if n > 0 && !reaches(n, units, samples) {
        lemma_level_nearest((n - 1) as nat, units, samples);
        lemma_level_bound((n - 1) as nat, units, samples);
    }
}

/// A larger sum reaches every byte that a smaller one reaches, so its byte
/// is no smaller.
pub proof fn lemma_level_increases(n: nat, units: int, more: int, samples: nat)
    requires
        units <= more,
    ensures
        level(n, units, samples) <= level(n, more, samples),
    decreases n,
{
    if n > 0 {
        lemma_level_increases((n - 1) as nat, units, more, samples);
        lemma_level_bound((n - 1) as nat, units, samples);
    }
}

/// The display byte never falls as the sum grows.
pub proof fn lemma_encoded_increases(sum: Scalar, more: Scalar, samples: u16)
    requires
        sum.le_spec(more),
    ensures
        encoded(sum, samples) <= encoded(more, samples),
{
    if sum.value() > 0 && samples > 0 {
        lemma_level_increases(255, sum.value(), more.value(), samples as nat);
        lemma_level_bound(255, more.value(), samples as nat);
    }
}

/// A sum of `mantissa * 2^low` units reaches the byte `k` exactly when
/// `(2k - 1)^2 * samples * 2^shift <= 4 * 255^2 * mantissa`, where `low` and
/// `shift` add up to 149.
proof fn lemma_reaches_scaled(k: nat, mantissa: nat, low: nat, shift: nat, samples: nat)
    requires
        low + shift == 149,
    ensures
        reaches(k, (mantissa * pow2(low)) as int, samples) <==> (2 * k - 1) * (2 * k - 1) * samples * pow2(
            shift,
        ) <= FULL_SCALE * mantissa,
{
    let odd = (2 * k - 1) * (2 * k - 1);
    let c = pow2(low) as int;
    let p = pow2(shift) as int;
    let x = odd * samples * p;
    let y = FULL_SCALE * mantissa;
    lemma_pow2_adds(shift, low);
    lemma_pow2_pos(low);
    assert(pow2(149) == p * c);
    assert(odd * (samples * (p * c)) == x * c) by (nonlinear_arith)
        requires
            x == odd * samples * p,
    ;
    assert(FULL_SCALE * (mantissa * c) == y * c) by (nonlinear_arith)
        requires
            y == FULL_SCALE * mantissa,
    ;
    assert(x * c <= y * c <==> x <= y) by (nonlinear_arith)
        requires
            c > 0,
    ;
}

/// A product stays under a bound exactly when one factor stays under the
/// bound's quotient by the other.
proof fn lemma_quotient_bound(a: int, p: int, b: int)
    requires
        p > 0,
        a >= 0,
        b >= 0,
    ensures
        a * p <= b <==> a <= b / p,
{
    vstd::arithmetic::div_mod::lemma_fundamental_div_mod(b, p);
    vstd::arithmetic::div_mod::lemma_mod_bound(b, p);
    let q = b / p;
    let r = b % p;
    assert(b == p * q + r);
    if a <= q {
        assert(a * p <= q * p) by (nonlinear_arith)
            requires
                a <= q,
                p > 0,
        ;
        assert(q * p == p * q) by (nonlinear_arith);
    } else {
        assert(a * p >= (q + 1) * p) by (nonlinear_arith)
            requires
                a >= q + 1,
                p > 0,
        ;
        assert((q + 1) * p == p * q + p) by (nonlinear_arith);
    }
}

/// The display byte for a channel sum over a number of samples: 0 for a
/// sum of zero, 255 for an average of one or more, and between them the
/// whole number nearest to `255 * sqrt(sum / samples)`, halves upwards.
pub fn encode(sum: Scalar, samples: u16) -> (r: u8)
    ensures
        r == encoded(sum, samples),
        !sum.positive() ==> r == 0,
        sum.positive() && sum.value() >= samples * pow2(149) ==> r == 255,
        sum.positive() && samples > 0 ==> {
            &&& r >= 1 ==> reaches(r as nat, sum.value(), samples as nat)
            &&& r < 255 ==> !reaches((r + 1) as nat, sum.value(), samples as nat)
        },
{
    if !sum.is_positive() {
        return 0;
    }
    if samples == 0 {
        return 255;
    }
    let exponent: u32 = sum.bits / FRACTION_SPAN;
    let fraction: u32 = sum.bits % FRACTION_SPAN;
    proof {
        lemma_level_nearest(255, sum.value(), samples as nat);
        lemma_level_bound(255, sum.value(), samples as nat);
        lemma_full(sum, samples);
        assert(exponent == sum.exponent());
        assert(fraction == sum.fraction());
    }
    if exponent >= 150 {
        proof {
            lemma_large(sum, samples);
        }
        return 255;
    }
    let mantissa: u64 = if exponent == 0 {
        fraction as u64
    } else {
        (FRACTION_SPAN + fraction) as u64
    };
    let shift: u32 = if exponent == 0 {
        149
    } else {
        150 - exponent
    };
    let ghost low: nat = (149 - shift) as nat;
    let ghost units: int = sum.value();
    let ghost count: nat = samples as nat;
    proof {
        assert(units == mantissa * pow2(low)) by {
            lemma2_to64();
            if exponent == 0 {
                assert(pow2(0) == 1);
                assert(mantissa * pow2(0) == mantissa) by (nonlinear_arith)
                    requires
                        pow2(0) == 1,
                ;
            }
        }
        assert forall|k: nat|
            reaches(k, units, count) <==> (2 * k - 1) * (2 * k - 1) * count * pow2(shift as nat)
                <= FULL_SCALE * mantissa by {
            lemma_reaches_scaled(k, mantissa as nat, low, shift as nat, count);
        }
    }
    if shift > 42 {
        proof {
            lemma2_to64();
            lemma2_to64_rest();
            if shift > 43 {
                lemma_pow2_strictly_increases(43, shift as nat);
            }
            assert(pow2(43) == 0x800_0000_0000) by {
                lemma_pow2_adds(32, 11);
            }
            assert(1 * 1 * count * pow2(shift as nat) > FULL_SCALE * mantissa) by (nonlinear_arith)
                requires
                    count >= 1,
                    pow2(shift as nat) >= 0x800_0000_0000,
                    mantissa < 0x100_0000,
            ;
            assert(!reaches(1, units, count));
            lemma_level_is(255, 0, units, count);
        }
        return 0;
    }
    let span: u64 = 1u64 << shift;
    proof {
        vstd::bits::lemma_u64_pow2_no_overflow(shift as nat);
        vstd::bits::lemma_u64_shl_is_mul(1, shift as u64);
        assert(span == pow2(shift as nat));
    }
    let budget: u64 = (FULL_SCALE * mantissa) / span;
    let count64: u64 = samples as u64;
    proof {
        assert forall|k: nat|
            reaches(k, units, count) <==> (2 * k - 1) * (2 * k - 1) * count <= budget by {
            assert((2 * k - 1) * (2 * k - 1) * count >= 0) by (nonlinear_arith);
            lemma_quotient_bound(
                (2 * k - 1) * (2 * k - 1) * count,
                span as int,
                FULL_SCALE * mantissa,
            );
        }
    }
    let mut lo: u64 = 0;
    let mut hi: u64 = 255;
    while lo < hi
        invariant
            lo <= hi <= 255,
            count64 == count,
            0 < count64 <= 0xffff,
            lo == 0 || reaches(lo as nat, units, count),
            hi == 255 || !reaches((hi + 1) as nat, units, count),
            forall|k: nat|
                reaches(k, units, count) <==> (2 * k - 1) * (2 * k - 1) * count <= budget,
        decreases hi - lo,
    {
        let mid: u64 = (lo + hi + 1) / 2;
        let odd: u64 = 2 * mid - 1;
        assert(odd * odd <= 509 * 509) by (nonlinear_arith)
            requires
                odd <= 509,
        ;
        assert(odd * odd * count64 <= 509 * 509 * 0xffff) by (nonlinear_arith)
            requires
                odd * odd <= 509 * 509,
                count64 <= 0xffff,
        ;
        if odd * odd * count64 <= budget {
            assert(reaches(mid as nat, units, count));
            lo = mid;
        } else {
            assert(!reaches(mid as nat, units, count));
            hi = mid - 1;
        }
    }
    proof {
        lemma_level_is(255, lo as nat, units, count);
    }
    lo as u8
}

/// An average of one or more reaches the byte 255.
proof fn lemma_full(sum: Scalar, samples: u16)
    requires
        !sum.nan(),
        sum.value() > 0,
        samples > 0,
    ensures
        sum.value() >= samples * pow2(149) ==> level(255, sum.value(), samples as nat) == 255,
{
    let scale = samples * pow2(149);
    if sum.value() >= scale {
        assert(509 * 509 * scale <= FULL_SCALE * sum.value()) by (nonlinear_arith)
            requires
                sum.value() >= scale,
                scale >= 0,
        ;
    }
}

/// A sum of 2^23 or more is an average of one or more, whatever the number
/// of samples.
proof fn lemma_large(sum: Scalar, samples: u16)
    requires
        !sum.negative(),
        150 <= sum.exponent(),
    ensures
        sum.value() >= samples * pow2(149),
{
    let e = (sum.exponent() - 1) as nat;
    let m = FRACTION_SPAN as nat + sum.fraction();
    if e > 149 {
        lemma_pow2_strictly_increases(149, e);
    }
    assert(m * pow2(e) >= samples * pow2(149)) by (nonlinear_arith)
        requires
            m >= 0x80_0000,
            samples <= 0xffff,
            pow2(e) >= pow2(149),
    ;
}

impl Rgb {
    /// The display bytes of the colour, red first, for sums over `samples`
    /// samples.
    pub open spec fn bytes(self, samples: u16) -> Seq<u8> {
        seq![
            encoded(self.0.x, samples),
            encoded(self.0.y, samples),
            encoded(self.0.z, samples),
        ]
    }

    /// A colour that takes light away and adds none: every channel is a
    /// share, from zero to one.
    pub open spec fn shares(self) -> bool {
        self.0.x.share() && self.0.y.share() && self.0.z.share()
    }

    /// A colour of light: no channel is a NaN or below zero.
    pub open spec fn light(self) -> bool {
        &&& !self.0.x.nan() && self.0.x.value() >= 0
        &&& !self.0.y.nan() && self.0.y.value() >= 0
        &&& !self.0.z.nan() && self.0.z.value() >= 0
    }

    /// Black: no light in any channel.
    pub open spec fn black_spec() -> Rgb {
        Rgb(Vec3 { x: Scalar::zero_spec(), y: Scalar::zero_spec(), z: Scalar::zero_spec() })
    }

    /// White: one in every channel. Light that is multiplied by it is kept.
    pub open spec fn white_spec() -> Rgb {
        Rgb(Vec3 { x: Scalar::one_spec(), y: Scalar::one_spec(), z: Scalar::one_spec() })
    }

    /// The colour with the given channels.
    pub fn new(red: Scalar, green: Scalar, blue: Scalar) -> (r: Rgb)
        ensures
            r == Rgb(Vec3 { x: red, y: green, z: blue }),
    {
        Rgb(Vec3 { x: red, y: green, z: blue })
    }

    /// Black: no light in any channel.
    pub fn black() -> (r: Rgb)
        ensures
            r == Self::black_spec(),
    {
        let zero = Scalar::zero();
        Rgb(Vec3 { x: zero, y: zero, z: zero })
    }

    /// White: one in every channel.
    pub fn white() -> (r: Rgb)
        ensures
            r == Self::white_spec(),
    {
        let one = Scalar::one();
        Rgb(Vec3 { x: one, y: one, z: one })
    }

    /// The bytes of the colour in display order: red, green, blue.
    pub fn iter(self, samples: u16) -> (r: RgbIter)
        ensures
            r@ == self.bytes(samples),
    {
        RgbIter { inner: self, idx: RgbIterIdx::Red, samples }
    }
}

/// The channel that comes next.
#[derive(Clone, Copy, Debug)]
enum RgbIterIdx {
    Red,
    Green,
    Blue,
    Finished,
}

/// Hands out the three display bytes of a colour, one at a time.
#[derive(Clone, Copy, Debug)]
pub struct RgbIter {
    inner: Rgb,
    idx: RgbIterIdx,
    samples: u16,
}

impl View for RgbIter {
    type V = Seq<u8>;

    /// The bytes that are still to come, in order.
    closed spec fn view(&self) -> Seq<u8> {
        let all = self.inner.bytes(self.samples);
        match self.idx {
            RgbIterIdx::Red => all,
            RgbIterIdx::Green => all.skip(1),
            RgbIterIdx::Blue => all.skip(2),
            RgbIterIdx::Finished => Seq::empty(),
        }
    }
}

impl RgbIter {
    /// The next byte, or `None` once blue has been handed out.
    pub fn next(&mut self) -> (r: Option<u8>)
        ensures
            old(self)@.len() == 0 ==> r is None && final(self)@ == old(self)@,
            old(self)@.len() > 0 ==> r == Some(old(self)@[0]) && final(self)@ == old(self)@.skip(1),
            old(self)@.len() <= 3,
    {
        let ghost all = self.inner.bytes(self.samples);
        match self.idx {
            RgbIterIdx::Red => {
                self.idx = RgbIterIdx::Green;
                Some(encode(self.inner.0.x, self.samples))
            },
            RgbIterIdx::Green => {
                self.idx = RgbIterIdx::Blue;
                assert(all.skip(1).skip(1) == all.skip(2));
                Some(encode(self.inner.0.y, self.samples))
            },
            RgbIterIdx::Blue => {
                self.idx = RgbIterIdx::Finished;
                assert(all.skip(2).skip(1) == Seq::<u8>::empty());
                Some(encode(self.inner.0.z, self.samples))
            },
            RgbIterIdx::Finished => None,
        }
    }
}

} // verus!

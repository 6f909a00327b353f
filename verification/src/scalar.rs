//! Single-precision numbers as bit patterns.
//!
//! The arithmetic of a render (sums, products, square roots) is carried out by
//! the caller in hardware. Everything this crate decides about a number (is it
//! inside a window, which of two is closer, which byte does it quantize to) is
//! decided here, on the 32 bits of its IEEE 754 binary32 encoding, with
//! integer arithmetic only.

use vstd::prelude::*;
use vstd::arithmetic::div_mod::{
    lemma_basic_div, lemma_div_is_ordered, lemma_div_multiples_vanish,
    lemma_div_multiples_vanish_quotient, lemma_fundamental_div_mod,
};
use vstd::arithmetic::power2::{
    lemma2_to64, lemma_pow2_adds, lemma_pow2_pos, lemma_pow2_strictly_increases,
    lemma_pow2_unfold, pow2,
};
use vstd::bits::lemma_u32_shr_is_div;

verus! {

/// The sign bit of an encoding.
pub const SIGN_BIT: u32 = 0x8000_0000;

/// The encoding of positive infinity. A larger magnitude encodes no number.
pub const INFINITY_BITS: u32 = 0x7f80_0000;

/// Two to the power 23: the weight of the exponent field and the hidden bit
/// of a normal number's significand.
pub const HIDDEN_BIT: u32 = 0x80_0000;

/// The encoding of `0.0`.
pub const ZERO_BITS: u32 = 0x0000_0000;

/// The encoding of `0.5`.
pub const HALF_BITS: u32 = 0x3f00_0000;

/// The encoding of `1.0`.
pub const ONE_BITS: u32 = 0x3f80_0000;

/// One binary32 number, held by its encoding.
///
/// `==` on scalars compares encodings, so it tells `0.0` from `-0.0`. The
/// numeric comparisons are [`Scalar::le`], [`Scalar::ge`] and [`Scalar::gt`].
#[derive(Clone, Copy, Debug, PartialEq, Eq, Structural)]
pub struct Scalar {
    pub bits: u32,
}

impl Scalar {
    /// The encoding without its sign bit.
    pub open spec fn magnitude(self) -> int {
        if self.bits >= SIGN_BIT {
            self.bits - SIGN_BIT
        } else {
            self.bits as int
        }
    }

    /// The sign bit is set (true of `-0.0` too).
    pub open spec fn is_negative(self) -> bool {
        self.bits >= SIGN_BIT
    }

    /// The encoding stands for no number.
    pub open spec fn spec_is_nan(self) -> bool {
        self.magnitude() > INFINITY_BITS
    }

    /// The number is neither an infinity nor no number.
    pub open spec fn is_finite(self) -> bool {
        self.magnitude() < INFINITY_BITS
    }

    /// The biased exponent field.
    pub open spec fn exponent(self) -> int {
        self.magnitude() / (HIDDEN_BIT as int)
    }

    /// The fraction field.
    pub open spec fn fraction(self) -> int {
        self.magnitude() % (HIDDEN_BIT as int)
    }

    /// The absolute value of a finite number, times `2^149`. That product is
    /// an integer: a number whose exponent field is positive is
    /// `(2^23 + fraction) * 2^(exponent - 150)`, and one whose exponent field
    /// is 0 is `fraction * 2^(-149)`.
    pub open spec fn scaled_magnitude(self) -> nat {
        if self.exponent() == 0 {
            self.fraction() as nat
        } else {
            ((HIDDEN_BIT + self.fraction()) * pow2((self.exponent() - 1) as nat)) as nat
        }
    }

    /// A finite number, times `2^149`.
    pub open spec fn scaled_value(self) -> int {
        if self.is_negative() {
            -(self.scaled_magnitude() as int)
        } else {
            self.scaled_magnitude() as int
        }
    }

    /// The step from a finite number to the next one away from zero, times
    /// `2^149`.
    pub open spec fn scaled_step(self) -> nat {
        if self.exponent() == 0 {
            1
        } else {
            pow2((self.exponent() - 1) as nat)
        }
    }

    /// The number is the fraction `numerator / denominator`, or as close to
    /// it as the encoding allows: no further than half a step away. This is
    /// how a decimal constant is encoded.
    pub open spec fn encodes(self, numerator: int, denominator: int) -> bool {
        &&& self.is_finite()
        &&& denominator > 0
        &&& 2 * (denominator * self.scaled_value() - numerator * pow2(149)) <= denominator
            * self.scaled_step()
        &&& 2 * (numerator * pow2(149) - denominator * self.scaled_value()) <= denominator
            * self.scaled_step()
    }

    /// The place of the number on the number line: of two numbers, the one
    /// with the smaller rank is the smaller
    /// ([`lemma_rank_orders_by_value`]). Both zeros have rank 0, the
    /// infinities have the extreme ranks.
    pub open spec fn rank(self) -> int {
        if self.is_negative() {
            -self.magnitude()
        } else {
            self.magnitude()
        }
    }

    /// `self <= other` as numbers; false when either is no number.
    pub open spec fn spec_le(self, other: Scalar) -> bool {
        !self.spec_is_nan() && !other.spec_is_nan() && self.rank() <= other.rank()
    }

    /// `self >= other` as numbers; false when either is no number.
    pub open spec fn spec_ge(self, other: Scalar) -> bool {
        other.spec_le(self)
    }

    /// `self > other` as numbers; false when either is no number.
    pub open spec fn spec_gt(self, other: Scalar) -> bool {
        !self.spec_is_nan() && !other.spec_is_nan() && self.rank() > other.rank()
    }

    /// `t_min <= self <= t_max` as numbers.
    pub open spec fn within(self, t_min: Scalar, t_max: Scalar) -> bool {
        t_min.spec_le(self) && self.spec_le(t_max)
    }

    /// The integer part of the absolute value of a finite number.
    pub open spec fn whole_part(self) -> nat {
        self.scaled_magnitude() / pow2(149)
    }

    /// The byte that a number truncates to: its integer part, held to the
    /// range of a byte. Anything below zero gives 0, and so does what is no
    /// number.
    pub open spec fn spec_to_byte(self) -> u8 {
        if self.spec_is_nan() || self.is_negative() {
            0
        } else if !self.is_finite() || self.whole_part() > 255 {
            255
        } else {
            self.whole_part() as u8
        }
    }

    /// The scalar with the given encoding.
    pub fn from_bits(bits: u32) -> (s: Scalar)
        ensures
            s.bits == bits,
    {
        Scalar { bits }
    }

    /// The encoding.
    pub fn to_bits(self) -> (bits: u32)
        ensures
            bits == self.bits,
    {
        self.bits
    }

    /// `0.0`.
    pub fn zero() -> (s: Scalar)
        ensures
            s.bits == ZERO_BITS,
            s.encodes(0, 1),
    {
        let s = Scalar { bits: ZERO_BITS };
        proof {
            lemma_pow2_pos(149);
        }
        s
    }

    /// `0.5`.
    pub fn half() -> (s: Scalar)
        ensures
            s.bits == HALF_BITS,
            s.encodes(1, 2),
    {
        let s = Scalar { bits: HALF_BITS };
        proof {
            lemma2_to64();
            lemma_encodes(s, 1, 2, 24);
        }
        s
    }

    /// `1.0`.
    pub fn one() -> (s: Scalar)
        ensures
            s.bits == ONE_BITS,
            s.encodes(1, 1),
    {
        let s = Scalar { bits: ONE_BITS };
        proof {
            lemma2_to64();
            lemma_encodes(s, 1, 1, 23);
        }
        s
    }

    /// Whether the encoding stands for no number.
    #[verifier::when_used_as_spec(spec_is_nan)]
    pub fn is_nan(self) -> (r: bool)
        ensures
            r == self.spec_is_nan(),
    {
        if self.bits >= SIGN_BIT {
            self.bits - SIGN_BIT > INFINITY_BITS
        } else {
            self.bits > INFINITY_BITS
        }
    }

    fn key(self) -> (k: i64)
        ensures
            k == self.rank(),
    {
        if self.bits >= SIGN_BIT {
            let m: u32 = self.bits - SIGN_BIT;
            -(m as i64)
        } else {
            self.bits as i64
        }
    }

    /// `self <= other`, as the hardware compares the two numbers.
    #[verifier::when_used_as_spec(spec_le)]
    pub fn le(self, other: Scalar) -> (r: bool)
        ensures
            r == self.spec_le(other),
    {
        !self.is_nan() && !other.is_nan() && self.key() <= other.key()
    }

    /// `self >= other`, as the hardware compares the two numbers.
    #[verifier::when_used_as_spec(spec_ge)]
    pub fn ge(self, other: Scalar) -> (r: bool)
        ensures
            r == self.spec_ge(other),
    {
        other.le(self)
    }

    /// `self > other`, as the hardware compares the two numbers.
    #[verifier::when_used_as_spec(spec_gt)]
    pub fn gt(self, other: Scalar) -> (r: bool)
        ensures
            r == self.spec_gt(other),
    {
        !self.is_nan() && !other.is_nan() && self.key() > other.key()
    }

    /// The number truncated to a byte, as a saturating cast does it: the
    /// fractional part is dropped, anything under 0 gives 0, anything from 256
    /// on gives 255, and what is no number gives 0.
    #[verifier::when_used_as_spec(spec_to_byte)]
    pub fn to_byte(self) -> (b: u8)
        ensures
            b == self.spec_to_byte(),
    {
        if self.is_nan() || self.bits >= SIGN_BIT {
            return 0;
        }
        let exponent: u32 = self.bits / HIDDEN_BIT;
        if exponent < 127 {
            proof {
                lemma_below_one(self);
            }
            0
        } else if exponent >= 135 {
            proof {
                if self.is_finite() {
                    lemma_from_256_on(self);
                }
            }
            255
        } else {
            let fraction: u32 = self.bits % HIDDEN_BIT;
            let shift: u32 = 150 - exponent;
            let whole: u32 = (HIDDEN_BIT + fraction) >> shift;
            proof {
                lemma_whole_part_is_shift(self);
                lemma_u32_shr_is_div((HIDDEN_BIT + fraction) as u32, shift);
            }
            whole as u8
        }
    }
}

/// A number with a positive exponent field `e` encodes a fraction when its
/// significand, counted in units of `2^(e - 150)`, is no further than half a
/// unit from the fraction. `shift` is `150 - e`.
pub proof fn lemma_encodes(s: Scalar, numerator: int, denominator: int, shift: nat)
    requires
        s.is_finite(),
        s.exponent() >= 1,
        shift == 150 - s.exponent(),
        denominator > 0,
        if s.is_negative() {
            -denominator <= 2 * (denominator * (HIDDEN_BIT + s.fraction()) + numerator * pow2(shift))
                <= denominator
        } else {
            -denominator <= 2 * (denominator * (HIDDEN_BIT + s.fraction()) - numerator * pow2(shift))
                <= denominator
        },
    ensures
        s.encodes(numerator, denominator),
{
    let e = (s.exponent() - 1) as nat;
    let step = pow2(e) as int;
    let unit = pow2(shift) as int;
    let significand = HIDDEN_BIT + s.fraction();
    lemma_pow2_pos(e);
    lemma_pow2_adds(e, shift);
    assert(pow2(149) == step * unit);
    if s.is_negative() {
        assert(denominator * (-(significand * step)) - numerator * (step * unit) == -(step * (
        denominator * significand + numerator * unit))) by (nonlinear_arith);
        assert(2 * (step * (denominator * significand + numerator * unit)) <= denominator * step
            && -(2 * (step * (denominator * significand + numerator * unit))) <= denominator
            * step) by (nonlinear_arith)
            requires
                -denominator <= 2 * (denominator * significand + numerator * unit) <= denominator,
                step > 0,
        ;
    } else {
        assert(denominator * (significand * step) - numerator * (step * unit) == step * (
        denominator * significand - numerator * unit)) by (nonlinear_arith);
        assert(2 * (step * (denominator * significand - numerator * unit)) <= denominator * step
            && -(2 * (step * (denominator * significand - numerator * unit))) <= denominator
            * step) by (nonlinear_arith)
            requires
                -denominator <= 2 * (denominator * significand - numerator * unit) <= denominator,
                step > 0,
        ;
    }
}

/// A finite number whose exponent field is under 127 is below 1.
proof fn lemma_below_one(s: Scalar)
    requires
        s.exponent() < 127,
    ensures
        s.whole_part() == 0,
{
    lemma_pow2_pos(149);
    lemma2_to64();
    if s.exponent() == 0 {
        lemma_pow2_strictly_increases(23, 149);
    } else {
        let e = (s.exponent() - 1) as nat;
        let significand = HIDDEN_BIT + s.fraction();
        lemma_pow2_pos(e);
        if e < 125 {
            lemma_pow2_strictly_increases(e, 125);
        }
        lemma_pow2_adds(24, 125);
        assert(significand * pow2(e) < pow2(24) * pow2(125)) by (nonlinear_arith)
            requires
                0 <= significand < pow2(24),
                0 < pow2(e) <= pow2(125),
        ;
    }
    lemma_basic_div(s.scaled_magnitude() as int, pow2(149) as int);
}

/// A finite number whose exponent field is 135 or more is at least 256.
proof fn lemma_from_256_on(s: Scalar)
    requires
        s.exponent() >= 135,
    ensures
        s.whole_part() >= 256,
{
    let e = (s.exponent() - 1) as nat;
    let significand = HIDDEN_BIT + s.fraction();
    lemma_pow2_pos(149);
    lemma2_to64();
    if e > 134 {
        lemma_pow2_strictly_increases(134, e);
    }
    lemma_pow2_adds(8, 149);
    lemma_pow2_adds(23, 134);
    assert(significand * pow2(e) >= pow2(23) * pow2(134)) by (nonlinear_arith)
        requires
            significand >= pow2(23),
            pow2(e) >= pow2(134) > 0,
    ;
    assert(pow2(157) == pow2(149) * 256) by (nonlinear_arith)
        requires
            pow2(157) == pow2(8) * pow2(149),
            pow2(8) == 256,
    ;
    lemma_div_multiples_vanish(256, pow2(149) as int);
    lemma_div_is_ordered((pow2(149) * 256) as int, s.scaled_magnitude() as int, pow2(149) as int);
}

/// The integer part of a number between 1 and 256 is its significand
/// without the bits that stand behind the binary point.
pub proof fn lemma_whole_part_is_shift(s: Scalar)
    requires
        127 <= s.exponent() < 135,
    ensures
        s.whole_part() == (HIDDEN_BIT + s.fraction()) / (pow2((150 - s.exponent()) as nat) as int),
        s.whole_part() < 256,
{
    let e = (s.exponent() - 1) as nat;
    let shift = (150 - s.exponent()) as nat;
    let significand = HIDDEN_BIT + s.fraction();
    lemma_pow2_pos(e);
    lemma_pow2_pos(shift);
    lemma_pow2_adds(e, shift);
    lemma_div_multiples_vanish_quotient(pow2(e) as int, significand, pow2(shift) as int);
    assert(significand * pow2(e) == pow2(e) * significand) by (nonlinear_arith);
    lemma2_to64();
    lemma_pow2_strictly_increases(15, shift);
    assert(significand / (pow2(shift) as int) < 256) by (nonlinear_arith)
        requires
            0 <= significand < 0x100_0000,
            pow2(shift) >= 65536,
    ;
}

/// Among finite numbers, a larger encoding without its sign stands for a
/// larger absolute value.
proof fn lemma_magnitude_orders_by_value(a: Scalar, b: Scalar)
    requires
        a.is_finite(),
        b.is_finite(),
        a.magnitude() < b.magnitude(),
    ensures
        a.scaled_magnitude() < b.scaled_magnitude(),
{
    lemma_fundamental_div_mod(a.magnitude(), HIDDEN_BIT as int);
    lemma_fundamental_div_mod(b.magnitude(), HIDDEN_BIT as int);
    let (ea, fa) = (a.exponent(), a.fraction());
    let (eb, fb) = (b.exponent(), b.fraction());
    assert(ea <= eb) by {
        if ea > eb {
            assert(HIDDEN_BIT * ea >= HIDDEN_BIT * (eb + 1)) by (nonlinear_arith)
                requires
                    ea >= eb + 1,
            ;
        }
    }
    if ea == eb {
        if ea > 0 {
            let p = pow2((ea - 1) as nat);
            lemma_pow2_pos((ea - 1) as nat);
            assert((HIDDEN_BIT + fa) * p < (HIDDEN_BIT + fb) * p) by (nonlinear_arith)
                requires
                    fa < fb,
                    p > 0,
            ;
        }
    } else {
        let q = pow2((eb - 1) as nat);
        lemma_pow2_pos((eb - 1) as nat);
        assert((HIDDEN_BIT + fb) * q >= HIDDEN_BIT * q >= HIDDEN_BIT) by (nonlinear_arith)
            requires
                fb >= 0,
                q >= 1,
        ;
        if ea > 0 {
            let p = pow2((ea - 1) as nat);
            lemma_pow2_pos((ea - 1) as nat);
            lemma_pow2_unfold(ea as nat);
            if ea < eb - 1 {
                lemma_pow2_strictly_increases(ea as nat, (eb - 1) as nat);
            }
            assert((HIDDEN_BIT + fa) * p < HIDDEN_BIT * q) by (nonlinear_arith)
                requires
                    0 <= fa < HIDDEN_BIT,
                    p > 0,
                    2 * p <= q,
            ;
        }
    }
}

/// The rank orders the finite numbers as their values do, and an infinity
/// lies beyond every finite number: the comparisons of scalars compare
/// numbers.
pub proof fn lemma_rank_orders_by_value(a: Scalar, b: Scalar)
    requires
        a.is_finite(),
    ensures
        b.is_finite() ==> (a.rank() <= b.rank() <==> a.scaled_value() <= b.scaled_value()),
        b.is_finite() ==> (a.rank() == b.rank() <==> a.scaled_value() == b.scaled_value()),
        b.magnitude() == INFINITY_BITS && !b.is_negative() ==> a.rank() < b.rank(),
        b.magnitude() == INFINITY_BITS && b.is_negative() ==> b.rank() < a.rank(),
{
    if b.is_finite() {
        if a.magnitude() < b.magnitude() {
            lemma_magnitude_orders_by_value(a, b);
        }
        if b.magnitude() < a.magnitude() {
            lemma_magnitude_orders_by_value(b, a);
        }
        let zero = Scalar { bits: 0 };
        assert(zero.scaled_magnitude() == 0);
        if a.magnitude() == 0 {
            assert(a.scaled_magnitude() == 0);
        } else {
            lemma_magnitude_orders_by_value(zero, a);
        }
        if b.magnitude() == 0 {
            assert(b.scaled_magnitude() == 0);
        } else {
            lemma_magnitude_orders_by_value(zero, b);
        }
    }
}

/// The comparison of scalars is a total preorder on the numbers: any two
/// numbers compare one way or the other, and the comparison is transitive.
pub proof fn lemma_le_total_preorder(a: Scalar, b: Scalar, c: Scalar)
    ensures
        !a.spec_is_nan() ==> a.spec_le(a),
        !a.spec_is_nan() && !b.spec_is_nan() ==> a.spec_le(b) || b.spec_le(a),
        a.spec_le(b) && b.spec_le(c) ==> a.spec_le(c),
        a.spec_gt(b) <==> !a.spec_is_nan() && !b.spec_is_nan() && !a.spec_le(b),
{
}

/// Truncation drops what stands behind the binary point and nothing else:
/// a finite number that is not negative lies between the byte it truncates
/// to and that byte and one, unless it is 256 or more, which gives 255.
pub proof fn lemma_to_byte_truncates(s: Scalar)
    requires
        s.is_finite(),
        !s.is_negative(),
    ensures
        s.scaled_magnitude() < 256 * pow2(149) ==> s.spec_to_byte() * pow2(149)
            <= s.scaled_magnitude() < (s.spec_to_byte() + 1) * pow2(149),
        s.scaled_magnitude() >= 256 * pow2(149) ==> s.spec_to_byte() == 255,
{
    let unit = pow2(149) as int;
    let x = s.scaled_magnitude() as int;
    lemma_pow2_pos(149);
    lemma_fundamental_div_mod(x, unit);
    if x < 256 * unit {
        if x / unit >= 256 {
            assert(unit * (x / unit) >= unit * 256) by (nonlinear_arith)
                requires
                    x / unit >= 256,
                    unit > 0,
            ;
        }
        assert((x / unit + 1) * unit == unit * (x / unit) + unit) by (nonlinear_arith);
        assert((x / unit) * unit == unit * (x / unit)) by (nonlinear_arith);
    } else {
        lemma_div_multiples_vanish(256, unit);
        lemma_div_is_ordered(unit * 256, x, unit);
    }
}

} // verus!

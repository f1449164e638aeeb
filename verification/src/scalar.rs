//! Single-precision numbers by their bit patterns: order and truncation.

use vstd::arithmetic::power2::pow2;
use vstd::prelude::*;

verus! {

/// The sign bit of a single-precision pattern.
pub const SIGN_BIT: u32 = 0x8000_0000;

/// The pattern of positive infinity; every magnitude above it is a NaN.
pub const INFINITY_BITS: u32 = 0x7f80_0000;

/// The pattern of 1.0.
pub const ONE_BITS: u32 = 0x3f80_0000;

/// An IEEE 754 single-precision number, held by its bit pattern.
#[derive(Clone, Copy, Debug)]
pub struct Scalar {
    pub bits: u32,
}

/// The size of a number in units of 2^-149, the smallest step between two
/// numbers, where `magnitude` is its pattern without the sign bit. With
/// exponent field `e` and fraction field `f` a number is `f * 2^-149` where
/// `e` is 0, and `(2^23 + f) * 2^(e - 150)` otherwise. Infinity has the
/// greatest exponent field and comes to stand at 2^277 units, beyond every
/// finite number.
pub open spec fn size(magnitude: int) -> int {
    let exponent = magnitude / 0x80_0000;
    let fraction = magnitude % 0x80_0000;
    if exponent == 0 {
        fraction
    } else {
        (0x80_0000 + fraction) * pow2((exponent - 1) as nat)
    }
}

impl Scalar {
    /// The pattern without its sign bit.
    pub open spec fn magnitude(self) -> int {
        if self.bits >= SIGN_BIT {
            self.bits - SIGN_BIT
        } else {
            self.bits as int
        }
    }

    /// Whether the sign bit is set.
    pub open spec fn negative(self) -> bool {
        self.bits >= SIGN_BIT
    }

    /// Whether the pattern is a NaN.
    pub open spec fn nan(self) -> bool {
        self.magnitude() > INFINITY_BITS
    }

    /// The biased exponent field.
    pub open spec fn exponent(self) -> int {
        self.magnitude() / 0x80_0000
    }

    /// The fraction field.
    pub open spec fn fraction(self) -> int {
        self.magnitude() % 0x80_0000
    }

    /// The number in units of 2^-149: a whole number of them for every
    /// pattern that is not a NaN. Both zeros are 0 units.
    pub open spec fn units(self) -> int {
        if self.negative() {
            -size(self.magnitude())
        } else {
            size(self.magnitude())
        }
    }

    /// `self < other` as IEEE 754 defines it: false when either is a NaN.
    pub open spec fn below(self, other: Scalar) -> bool {
        !self.nan() && !other.nan() && self.units() < other.units()
    }

    /// `self == other` as IEEE 754 defines it: false when either is a NaN, and
    /// true of the two zeros.
    pub open spec fn same(self, other: Scalar) -> bool {
        !self.nan() && !other.nan() && self.units() == other.units()
    }

    /// The number held between `low` and `high`: `low` where the number lies
    /// below it, `high` where it lies above, and the number itself otherwise,
    /// a NaN too.
    pub open spec fn clamped(self, low: Scalar, high: Scalar) -> Scalar {
        if self.below(low) {
            low
        } else if high.below(self) {
            high
        } else {
            self
        }
    }

    /// The number cut down to a whole number and held to a byte, as a
    /// conversion that saturates does it: 0 for a NaN and for a negative
    /// number, 255 for whatever does not lie below 256, and else the number
    /// without its fractional part.
    pub open spec fn truncated(self) -> int {
        if self.nan() || self.units() < 0 {
            0
        } else if self.units() / (pow2(149) as int) > 255 {
            255
        } else {
            self.units() / (pow2(149) as int)
        }
    }

    /// The place of a pattern in the order of all numbers: its magnitude,
    /// counted downward from zero where the sign bit is set.
    spec fn rank(self) -> int {
        if self.negative() {
            -self.magnitude()
        } else {
            self.magnitude()
        }
    }

    pub fn from_bits(bits: u32) -> (r: Scalar)
        ensures
            r.bits == bits,
    {
        Scalar { bits }
    }

    pub fn to_bits(self) -> (r: u32)
        ensures
            r == self.bits,
    {
        self.bits
    }

    /// Positive zero.
    pub fn zero() -> (r: Scalar)
        ensures
            r.bits == 0,
            r.units() == 0,
    {
        Scalar { bits: 0 }
    }

    /// The number 1.
    pub fn one() -> (r: Scalar)
        ensures
            r.bits == ONE_BITS,
            r.units() == pow2(149),
    {
        proof {
            vstd::arithmetic::power2::lemma2_to64();
            vstd::arithmetic::power2::lemma_pow2_adds(23, 126);
        }
        Scalar { bits: ONE_BITS }
    }

    /// Positive infinity: every other number lies below it.
    pub fn infinity() -> (r: Scalar)
        ensures
            r.bits == INFINITY_BITS,
            forall|x: Scalar| !x.nan() && x.bits != INFINITY_BITS ==> #[trigger] x.below(r),
    {
        let r = Scalar { bits: INFINITY_BITS };
        proof {
            assert forall|x: Scalar| !x.nan() && x.bits != INFINITY_BITS implies #[trigger] x.below(
                r,
            ) by {
                lemma_size_increases(0, x.magnitude());
                lemma_size_increases(x.magnitude(), INFINITY_BITS as int);
            }
        }
        r
    }

    fn magnitude_bits(self) -> (m: u32)
        ensures
            m == self.magnitude(),
    {
        if self.bits >= SIGN_BIT {
            self.bits - SIGN_BIT
        } else {
            self.bits
        }
    }

    pub fn is_nan(self) -> (r: bool)
        ensures
            r == self.nan(),
    {
        self.magnitude_bits() > INFINITY_BITS
    }

    fn place(self) -> (k: i64)
        ensures
            k == self.rank(),
    {
        let m: i64 = self.magnitude_bits() as i64;
        if self.bits >= SIGN_BIT {
            -m
        } else {
            m
        }
    }

    /// `self < other`.
    pub fn lt(self, other: Scalar) -> (r: bool)
        ensures
            r == self.below(other),
    {
        proof {
            lemma_rank_orders(self, other);
        }
        !self.is_nan() && !other.is_nan() && self.place() < other.place()
    }

    /// `self > other`.
    pub fn gt(self, other: Scalar) -> (r: bool)
        ensures
            r == other.below(self),
    {
        other.lt(self)
    }
}

impl Scalar {
    /// Holds the number between 0 and 1.
    pub fn saturate(self) -> (r: Scalar)
        ensures
            r == self.clamped(Scalar { bits: 0 }, Scalar { bits: ONE_BITS }),
    {
        if self.lt(Scalar::zero()) {
            Scalar::zero()
        } else if self.gt(Scalar::one()) {
            Scalar::one()
        } else {
            self
        }
    }

    /// Cuts the number down to a byte.
    pub fn to_byte(self) -> (byte: u8)
        ensures
            byte == self.truncated(),
    {
        let magnitude = self.magnitude_bits();
        proof {
            lemma_size_increases(0, magnitude as int);
            vstd::arithmetic::power2::lemma_pow2_pos(149);
        }
        if self.bits >= SIGN_BIT || magnitude > INFINITY_BITS {
            return 0;
        }
        proof {
            lemma_truncated_by_fields(self);
        }
        let exponent: u32 = magnitude / 0x80_0000;
        let fraction: u32 = magnitude % 0x80_0000;
        if exponent < 127 {
            0
        } else if exponent > 134 {
            255
        } else {
            let significand: u32 = 0x80_0000 + fraction;
            let shift: u32 = 150 - exponent;
            proof {
                vstd::bits::lemma_u32_shr_is_div(significand, shift);
                lemma_whole_part(significand as int, shift as int);
            }
            (significand >> shift) as u8
        }
    }
}

/// A significand of 24 bits, cut by 16 to 23 bits, leaves a byte that is not
/// zero.
proof fn lemma_whole_part(significand: int, shift: int)
    requires
        0x80_0000 <= significand < 0x100_0000,
        16 <= shift <= 23,
    ensures
        1 <= significand / (pow2(shift as nat) as int) <= 255,
{
    vstd::arithmetic::power2::lemma2_to64();
    let whole = significand / (pow2(shift as nat) as int);
    if shift == 16 {
        assert(whole == significand / 0x1_0000);
    } else if shift == 17 {
        assert(whole == significand / 0x2_0000);
    } else if shift == 18 {
        assert(whole == significand / 0x4_0000);
    } else if shift == 19 {
        assert(whole == significand / 0x8_0000);
    } else if shift == 20 {
        assert(whole == significand / 0x10_0000);
    } else if shift == 21 {
        assert(whole == significand / 0x20_0000);
    } else if shift == 22 {
        assert(whole == significand / 0x40_0000);
    } else {
        assert(whole == significand / 0x80_0000);
    }
}

/// The greater magnitude is the greater size: patterns without their sign
/// are in the order of the numbers that they stand for.
pub proof fn lemma_size_increases(magnitude1: int, magnitude2: int)
    requires
        0 <= magnitude1 <= magnitude2,
    ensures
        0 <= size(magnitude1) <= size(magnitude2),
        magnitude1 < magnitude2 ==> size(magnitude1) < size(magnitude2),
        size(0) == 0,
{
    let exponent1 = magnitude1 / 0x80_0000;
    let fraction1 = magnitude1 % 0x80_0000;
    let exponent2 = magnitude2 / 0x80_0000;
    let fraction2 = magnitude2 % 0x80_0000;
    if exponent1 > 0 {
        vstd::arithmetic::power2::lemma_pow2_pos((exponent1 - 1) as nat);
        assert(0 <= (0x80_0000 + fraction1) * pow2((exponent1 - 1) as nat)) by (nonlinear_arith)
            requires
                0 <= fraction1,
                pow2((exponent1 - 1) as nat) > 0,
        ;
    }
    if exponent1 == exponent2 {
        if exponent1 > 0 {
            let step = pow2((exponent1 - 1) as nat) as int;
            let low = 0x80_0000 + fraction1;
            let high = 0x80_0000 + fraction2;
            assert(low * step <= high * step) by (nonlinear_arith)
                requires
                    low <= high,
                    step > 0,
            ;
            assert(low < high ==> low * step < high * step) by (nonlinear_arith)
                requires
                    step > 0,
            ;
        }
    } else {
        let step2 = pow2((exponent2 - 1) as nat) as int;
        vstd::arithmetic::power2::lemma_pow2_pos((exponent2 - 1) as nat);
        assert((0x80_0000 + fraction2) * step2 >= 0x80_0000 * step2) by (nonlinear_arith)
            requires
                fraction2 >= 0,
                step2 > 0,
        ;
        if exponent1 == 0 {
            assert(0x80_0000 * step2 >= 0x80_0000) by (nonlinear_arith)
                requires
                    step2 >= 1,
            ;
        } else {
            let step1 = pow2((exponent1 - 1) as nat) as int;
            vstd::arithmetic::power2::lemma_pow2_unfold(exponent1 as nat);
            if exponent1 < exponent2 - 1 {
                vstd::arithmetic::power2::lemma_pow2_strictly_increases(
                    exponent1 as nat,
                    (exponent2 - 1) as nat,
                );
            }
            assert((0x80_0000 + fraction1) * step1 < 0x80_0000 * step2) by (nonlinear_arith)
                requires
                    fraction1 < 0x80_0000,
                    step1 > 0,
                    2 * step1 <= step2,
            ;
        }
    }
}

/// Patterns compare by their ranks as the numbers that they stand for
/// compare.
proof fn lemma_rank_orders(a: Scalar, b: Scalar)
    ensures
        a.rank() < b.rank() <==> a.units() < b.units(),
        a.rank() == b.rank() <==> a.units() == b.units(),
{
    lemma_size_increases(0, a.magnitude());
    lemma_size_increases(0, b.magnitude());
    if a.magnitude() <= b.magnitude() {
        lemma_size_increases(a.magnitude(), b.magnitude());
    } else {
        lemma_size_increases(b.magnitude(), a.magnitude());
    }
}

/// What cutting down comes to on the fields of a number that is neither a
/// NaN nor negative: numbers below 1 have an exponent field below 127, and
/// numbers from 256 on one above 134; between them the whole part is the
/// head of the significand.
proof fn lemma_truncated_by_fields(x: Scalar)
    requires
        !x.nan(),
        !x.negative(),
    ensures
        x.truncated() == if x.exponent() < 127 {
            0
        } else if x.exponent() > 134 {
            255
        } else {
            (0x80_0000 + x.fraction()) / (pow2((150 - x.exponent()) as nat) as int)
        },
{
    let e = x.exponent();
    let significand = 0x80_0000 + x.fraction();
    let unit = pow2(149) as int;
    vstd::arithmetic::power2::lemma2_to64();
    vstd::arithmetic::power2::lemma_pow2_pos(149);
    lemma_size_increases(0, x.magnitude());
    if e == 0 {
        vstd::arithmetic::power2::lemma_pow2_strictly_increases(23, 149);
        vstd::arithmetic::div_mod::lemma_basic_div(x.units(), unit);
    } else {
        let step = pow2((e - 1) as nat) as int;
        vstd::arithmetic::power2::lemma_pow2_pos((e - 1) as nat);
        if e < 127 {
            vstd::arithmetic::power2::lemma_pow2_adds(24, (e - 1) as nat);
            if e + 23 < 149 {
                vstd::arithmetic::power2::lemma_pow2_strictly_increases((e + 23) as nat, 149);
            }
            assert(significand * step < 0x100_0000 * step) by (nonlinear_arith)
                requires
                    significand < 0x100_0000,
                    step > 0,
            ;
            vstd::arithmetic::div_mod::lemma_basic_div(x.units(), unit);
        } else if e > 134 {
            vstd::arithmetic::power2::lemma_pow2_adds(8, 149);
            vstd::arithmetic::power2::lemma_pow2_adds(23, (e - 1) as nat);
            if 157 < e + 22 {
                vstd::arithmetic::power2::lemma_pow2_strictly_increases(157, (e + 22) as nat);
            }
            assert(significand * step >= 0x80_0000 * step) by (nonlinear_arith)
                requires
                    significand >= 0x80_0000,
                    step > 0,
            ;
            assert(256 * unit <= x.units());
            vstd::arithmetic::div_mod::lemma_div_is_ordered(256 * unit, x.units(), unit);
            vstd::arithmetic::div_mod::lemma_div_multiples_vanish(256, unit);
        } else {
            let cut = pow2((150 - e) as nat) as int;
            vstd::arithmetic::power2::lemma_pow2_pos((150 - e) as nat);
            vstd::arithmetic::power2::lemma_pow2_adds((e - 1) as nat, (150 - e) as nat);
            vstd::arithmetic::div_mod::lemma_div_multiples_vanish_quotient(step, significand, cut);
            assert(significand * step == step * significand) by (nonlinear_arith);
            lemma_whole_part(significand, 150 - e);
        }
    }
}

/// A pattern without the sign bit that is neither zero nor a NaN is a number
/// above zero.
pub proof fn lemma_positive(x: Scalar)
    requires
        0 < x.bits <= INFINITY_BITS,
    ensures
        (Scalar { bits: 0 }).below(x),
{
    lemma_size_increases(0, x.magnitude());
}

/// `below` orders the numbers strictly: no number lies below itself, no two
/// lie below each other, and what lies below a number lies below all that
/// this one lies below.
pub proof fn lemma_below_is_a_strict_order(a: Scalar, b: Scalar, c: Scalar)
    ensures
        !a.below(a),
        a.below(b) ==> !b.below(a),
        a.below(b) && b.below(c) ==> a.below(c),
{
}

/// Of two numbers exactly one thing holds: the first lies below the second,
/// they are the same, or the second lies below the first. Two numbers are
/// the same where their patterns are, or where both are zero.
pub proof fn lemma_numbers_compare(a: Scalar, b: Scalar)
    requires
        !a.nan(),
        !b.nan(),
    ensures
        a.below(b) || a.same(b) || b.below(a),
        !(a.below(b) && a.same(b)),
        !(b.below(a) && a.same(b)),
        a.same(b) <==> (a.bits == b.bits || (a.magnitude() == 0 && b.magnitude() == 0)),
{
    lemma_rank_orders(a, b);
}

/// A number that is held between two bounds lies below neither the lower
/// one nor above the upper one.
pub proof fn lemma_clamped_is_held(x: Scalar, low: Scalar, high: Scalar)
    requires
        !x.nan(),
        low.below(high) || low.same(high),
    ensures
        !x.clamped(low, high).below(low),
        !high.below(x.clamped(low, high)),
{
}

/// Cutting a number down gives a byte.
pub proof fn lemma_truncated_is_a_byte(x: Scalar)
    ensures
        0 <= x.truncated() <= 255,
{
    vstd::arithmetic::power2::lemma_pow2_pos(149);
    if !x.nan() && x.units() >= 0 {
        vstd::arithmetic::div_mod::lemma_div_pos_is_pos(x.units(), pow2(149) as int);
    }
}

/// Cutting down keeps the order: a number below another is not cut down to a
/// greater byte.
pub proof fn lemma_truncated_is_monotone(a: Scalar, b: Scalar)
    requires
        a.below(b),
    ensures
        a.truncated() <= b.truncated(),
{
    vstd::arithmetic::power2::lemma_pow2_pos(149);
    lemma_truncated_is_a_byte(b);
    if a.units() >= 0 {
        vstd::arithmetic::div_mod::lemma_div_is_ordered(a.units(), b.units(), pow2(149) as int);
    }
}

} // verus!

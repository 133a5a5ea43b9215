use vstd::arithmetic::div_mod::{
    lemma_basic_div, lemma_fundamental_div_mod, lemma_fundamental_div_mod_converse,
    lemma_mod_bound,
};
use vstd::arithmetic::power2::{
    lemma2_to64, lemma2_to64_rest, lemma_pow2_pos, lemma_pow2_strictly_increases, pow2,
};
use vstd::bits::{lemma_u64_pow2_no_overflow, lemma_u64_shl_is_mul};
use vstd::prelude::*;

verus! {

/// A single-precision IEEE 754 number, held by its bit pattern: one sign
/// bit, eight bits of biased exponent, twenty-three bits of fraction.
///
/// A finite number is exactly `±significand * 2^exponent`, so every product
/// with an integer is a fraction over a power of two, and rounding it is
/// integer arithmetic.
#[derive(Clone, Copy, Debug, PartialEq, Eq, Structural)]
pub struct Binary32 {
    pub bits: u32,
}

/// The fraction `num / den` rounded to the nearest integer, halves away from zero.
pub open spec fn round_half_away(num: int, den: int) -> int
    recommends
        den > 0,
{
    if num >= 0 {
        (2 * num + den) / (2 * den)
    } else {
        -((den - 2 * num) / (2 * den))
    }
}

/// `value` confined to `low..=high`.
pub open spec fn clamp_to(value: int, low: int, high: int) -> int
    recommends
        low <= high,
{
    if value < low {
        low
    } else if value > high {
        high
    } else {
        value
    }
}

impl Binary32 {
    /// Whether the sign bit is set. Holds of negative zero too.
    pub open spec fn negative(self) -> bool {
        self.bits >= 0x8000_0000
    }

    /// The biased exponent, `0..=255`.
    pub open spec fn exponent_field(self) -> int {
        ((self.bits / 0x80_0000) % 0x100) as int
    }

    /// The fraction bits, `0..2^23`.
    pub open spec fn fraction_field(self) -> int {
        (self.bits % 0x80_0000) as int
    }

    pub open spec fn is_nan(self) -> bool {
        self.exponent_field() == 255 && self.fraction_field() != 0
    }

    pub open spec fn is_infinite(self) -> bool {
        self.exponent_field() == 255 && self.fraction_field() == 0
    }

    /// Zero, subnormal or normal.
    pub open spec fn is_finite(self) -> bool {
        self.exponent_field() != 255
    }

    /// The magnitude of a finite number in units of `2^exponent`: the fraction
    /// bits, with the implicit leading one unless the number is subnormal.
    pub open spec fn significand(self) -> int {
        if self.exponent_field() == 0 {
            self.fraction_field()
        } else {
            0x80_0000 + self.fraction_field()
        }
    }

    /// The power of two that a finite number's significand counts.
    pub open spec fn exponent(self) -> int {
        if self.exponent_field() == 0 {
            -149
        } else {
            self.exponent_field() - 150
        }
    }

    /// The denominator over which the products of a finite number with
    /// integers are written: `2^-exponent`, or one where the number is an
    /// integer itself.
    pub open spec fn denominator(self) -> int {
        if self.exponent() < 0 {
            pow2((-self.exponent()) as nat) as int
        } else {
            1
        }
    }

    /// The numerator of `factor` times a finite number, over `denominator()`.
    pub open spec fn numerator(self, factor: int) -> int {
        let whole = if self.exponent() > 0 {
            pow2(self.exponent() as nat) as int
        } else {
            1
        };
        if self.negative() {
            -(self.significand() * factor * whole)
        } else {
            self.significand() * factor * whole
        }
    }

    /// `factor * self + offset` of a finite number, rounded to the nearest
    /// integer, halves away from zero.
    #[verifier::opaque]
    pub open spec fn affine_round(self, factor: int, offset: int) -> int {
        round_half_away(self.numerator(factor) + offset * self.denominator(), self.denominator())
    }

    /// The largest integer not above `factor * self`, for a finite number.
    #[verifier::opaque]
    pub open spec fn scaled_floor(self, factor: int) -> int {
        self.numerator(factor) / self.denominator()
    }

    /// `affine_round` confined to `0..=max`. The infinities go to the end of
    /// the range on their side; a NaN goes to zero.
    pub open spec fn saturated_round(self, factor: int, offset: int, max: int) -> int {
        if self.is_nan() {
            0
        } else if self.is_infinite() {
            if self.negative() {
                0
            } else {
                max
            }
        } else {
            clamp_to(self.affine_round(factor, offset), 0, max)
        }
    }

    /// Whether `affine_round` lies within `0..=max` without being confined.
    /// No infinity does; a NaN is neither below zero nor above `max`, and
    /// counts as within.
    pub open spec fn round_fits(self, factor: int, offset: int, max: int) -> bool {
        if self.is_finite() {
            0 <= self.affine_round(factor, offset) <= max
        } else {
            self.is_nan()
        }
    }

    /// `scaled_floor` confined to `0..=factor`, which is `factor * self` confined
    /// to that range with its fractional part dropped. The infinities go to the
    /// end of the range on their side; a NaN goes to zero.
    pub open spec fn saturated_floor(self, factor: int) -> int {
        if self.is_nan() {
            0
        } else if self.is_infinite() {
            if self.negative() {
                0
            } else {
                factor
            }
        } else {
            clamp_to(self.scaled_floor(factor), 0, factor)
        }
    }

    /// Wraps a bit pattern, as `to_bits` of a native number gives it.
    pub fn from_bits(bits: u32) -> (number: Self)
        ensures
            number.bits == bits,
    {
        Binary32 { bits }
    }

    /// The bit pattern.
    pub fn to_bits(self) -> (bits: u32)
        ensures
            bits == self.bits,
    {
        self.bits
    }
}

/// Rounding gives the nearest whole number: the affine image of a finite
/// number lies within a half of `affine_round`, and where it lies exactly a
/// half from two whole numbers, `affine_round` is the one farther from zero.
/// The floor of a product lies below it by less than one.
pub proof fn lemma_round_nearest(x: Binary32, factor: int, offset: int)
    requires
        x.is_finite(),
    ensures
        ({
            let den = x.denominator();
            let num = x.numerator(factor) + offset * den;
            let gap = 2 * (num - x.affine_round(factor, offset) * den);
            &&& den > 0
            &&& num >= 0 ==> -den <= gap < den
            &&& num < 0 ==> -den < gap <= den
            &&& 0 <= x.numerator(factor) - x.scaled_floor(factor) * den < den
        }),
{
    reveal(Binary32::affine_round);
    reveal(Binary32::scaled_floor);
    let den = x.denominator();
    if x.exponent() < 0 {
        lemma_pow2_pos((-x.exponent()) as nat);
    }
    let num = x.numerator(factor) + offset * den;
    let level = x.affine_round(factor, offset);
    if num >= 0 {
        lemma_fundamental_div_mod(2 * num + den, 2 * den);
        lemma_mod_bound(2 * num + den, 2 * den);
        assert(level * den * 2 == (2 * den) * level) by (nonlinear_arith);
    } else {
        let below = (den - 2 * num) / (2 * den);
        lemma_fundamental_div_mod(den - 2 * num, 2 * den);
        lemma_mod_bound(den - 2 * num, 2 * den);
        assert(level * den * 2 == -((2 * den) * below)) by (nonlinear_arith)
            requires
                level == -below,
        ;
    }
    let floor = x.scaled_floor(factor);
    lemma_fundamental_div_mod(x.numerator(factor), den);
    lemma_mod_bound(x.numerator(factor), den);
    assert(floor * den == den * floor) by (nonlinear_arith);
}

/// Rounding is exact on whole numbers: where `factor` times a finite number
/// is the whole number `whole`, the affine image rounds to `whole + offset`
/// and the floor of the product is `whole`.
pub proof fn lemma_round_exact(x: Binary32, factor: int, offset: int, whole: int)
    requires
        x.is_finite(),
        x.numerator(factor) == whole * x.denominator(),
    ensures
        x.affine_round(factor, offset) == whole + offset,
        x.scaled_floor(factor) == whole,
{
    reveal(Binary32::affine_round);
    reveal(Binary32::scaled_floor);
    let d = x.denominator();
    if x.exponent() < 0 {
        lemma_pow2_pos((-x.exponent()) as nat);
    }
    let level = whole + offset;
    let num = x.numerator(factor) + offset * d;
    assert(num == level * d && level * (2 * d) == 2 * num && (-level) * (2 * d) == -2 * num)
        by (nonlinear_arith)
        requires
            num == whole * d + offset * d,
            level == whole + offset,
    ;
    assert(level >= 0 <==> num >= 0) by (nonlinear_arith)
        requires
            num == level * d,
            d > 0,
    ;
    if num >= 0 {
        lemma_fundamental_div_mod_converse(2 * num + d, 2 * d, level, d);
    } else {
        lemma_fundamental_div_mod_converse(d - 2 * num, 2 * d, -level, d);
    }
    lemma_fundamental_div_mod_converse(x.numerator(factor), d, whole, 0);
}

/// A number taken apart.
struct Parts {
    negative: bool,
    field: u32,
    fraction: u32,
}

impl Parts {
    /// Whether these are the parts of `x`.
    spec fn of(self, x: Binary32) -> bool {
        &&& self.negative == x.negative()
        &&& self.field == x.exponent_field()
        &&& self.fraction == x.fraction_field()
    }
}

/// Takes a number apart by shifts and masks.
fn parts(x: Binary32) -> (p: Parts)
    ensures
        p.of(x),
        p.field <= 255,
        p.fraction < 0x80_0000,
{
    let bits: u32 = x.bits;
    assert((bits >> 31) == 1 <==> bits >= 0x8000_0000) by (bit_vector);
    assert((bits >> 23) & 0xFF == (bits / 0x80_0000) % 0x100) by (bit_vector);
    assert(bits & 0x7F_FFFF == bits % 0x80_0000) by (bit_vector);
    Parts { negative: (bits >> 31) == 1, field: (bits >> 23) & 0xFF, fraction: bits & 0x7F_FFFF }
}

/// The significand of a number that has binary places, times `factor`, and
/// the count of those places.
fn scale(x: Binary32, p: &Parts, factor: u32) -> (r: (u64, u32))
    requires
        p.of(x),
        p.field < 150,
        factor <= 255,
    ensures
        1 <= r.1 <= 149,
        r.0 <= 0xFF_FFFF * 255,
        r.0 == x.significand() * factor,
        x.denominator() == pow2(r.1 as nat),
        x.numerator(factor as int) == (if x.negative() {
            -r.0
        } else {
            r.0 as int
        }),
{
    let significand: u64 = if p.field == 0 {
        p.fraction as u64
    } else {
        p.fraction as u64 + 0x80_0000
    };
    let shift: u32 = if p.field == 0 {
        149
    } else {
        150 - p.field
    };
    assert(significand * factor <= 0xFF_FFFF * 255) by (nonlinear_arith)
        requires
            significand <= 0xFF_FFFF,
            factor <= 255,
    ;
    (significand * (factor as u64), shift)
}

/// A finite number with a biased exponent of 150 or more is an integer of
/// magnitude `2^23` at least: rounding leaves it as it is, far outside any
/// sixteen-bit range.
proof fn lemma_round_whole(x: Binary32, factor: int, offset: int)
    requires
        150 <= x.exponent_field() < 255,
        1 <= factor,
        0 <= offset <= 0xFFFF,
    ensures
        x.negative() ==> x.affine_round(factor, offset) < 0,
        !x.negative() ==> x.affine_round(factor, offset) >= 0x80_0000,
        x.negative() ==> x.scaled_floor(factor) < 0,
        !x.negative() ==> x.scaled_floor(factor) >= 0x80_0000,
{
    reveal(Binary32::affine_round);
    reveal(Binary32::scaled_floor);
    let whole = if x.exponent() > 0 {
        pow2(x.exponent() as nat) as int
    } else {
        1
    };
    if x.exponent() > 0 {
        lemma_pow2_pos(x.exponent() as nat);
    }
    let m = x.significand();
    let product = m * factor * whole;
    assert(product >= 0x80_0000) by (nonlinear_arith)
        requires
            product == m * factor * whole,
            m >= 0x80_0000,
            factor >= 1,
            whole >= 1,
    ;
    assert(x.denominator() == 1);
    let n = x.numerator(factor);
    assert(n == if x.negative() {
        -product
    } else {
        product
    });
    assert(n / 1 == n);
}

/// Where the denominator exceeds twice the scaled significand, the product is
/// less than a half in magnitude: it rounds to the offset and its floor is
/// zero, or minus one below zero.
proof fn lemma_round_tiny(x: Binary32, factor: int, offset: int)
    requires
        x.exponent_field() < 150,
        1 <= factor,
        0 <= offset,
        2 * (x.significand() * factor) < x.denominator(),
    ensures
        x.affine_round(factor, offset) == offset,
        -1 <= x.scaled_floor(factor) <= 0,
        !x.negative() ==> x.scaled_floor(factor) == 0,
{
    reveal(Binary32::affine_round);
    reveal(Binary32::scaled_floor);
    let d = x.denominator();
    let s = x.significand() * factor;
    assert(s >= 0) by (nonlinear_arith)
        requires
            s == x.significand() * factor,
            x.significand() >= 0,
            factor >= 1,
    ;
    let n = x.numerator(factor);
    assert(n == if x.negative() {
        -s
    } else {
        s
    });
    let base = offset * d;
    assert(base >= 0 && (offset >= 1 ==> base >= d)) by (nonlinear_arith)
        requires
            base == offset * d,
            offset >= 0,
            d > 0,
    ;
    assert(offset * (2 * d) == 2 * base) by (nonlinear_arith)
        requires
            base == offset * d,
    ;
    let num = n + base;
    if num >= 0 {
        lemma_fundamental_div_mod_converse(2 * num + d, 2 * d, offset, 2 * n + d);
    } else {
        assert(offset == 0);
        lemma_basic_div(d - 2 * num, 2 * d);
    }
    if n >= 0 {
        lemma_basic_div(n, d);
    } else {
        lemma_fundamental_div_mod_converse(n, d, -1, n + d);
    }
}

/// `factor * x + offset` rounded to the nearest integer and confined to
/// `0..=max`, with whether it lay in that range unconfined.
pub(crate) fn round_affine(x: Binary32, factor: u32, offset: u32, max: u32) -> (r: (u32, bool))
    requires
        1 <= factor <= 255,
        offset <= max <= 0xFFFF,
    ensures
        r.0 == x.saturated_round(factor as int, offset as int, max as int),
        r.1 == x.round_fits(factor as int, offset as int, max as int),
{
    let p = parts(x);
    if p.field == 255 {
        if p.fraction != 0 {
            return (0, true);
        }
        return if p.negative {
            (0, false)
        } else {
            (max, false)
        };
    }
    if p.field >= 150 {
        proof {
            lemma_round_whole(x, factor as int, offset as int);
        }
        return if p.negative {
            (0, false)
        } else {
            (max, false)
        };
    }
    let (scaled, shift) = scale(x, &p, factor);
    proof {
        reveal(Binary32::affine_round);
        reveal(Binary32::scaled_floor);
        lemma2_to64();
        lemma2_to64_rest();
        lemma_pow2_pos(shift as nat);
    }
    if shift >= 33 {
        proof {
            if shift > 33 {
                lemma_pow2_strictly_increases(33, shift as nat);
            }
            lemma_round_tiny(x, factor as int, offset as int);
        }
        return (offset, true);
    }
    proof {
        lemma_pow2_strictly_increases(shift as nat, 33);
        lemma_u64_pow2_no_overflow(shift as nat);
        lemma_u64_shl_is_mul(1, shift as u64);
    }
    let den: u64 = 1u64 << shift;
    assert(den == x.denominator());
    assert(offset * den <= 0xFFFF * 0x2_0000_0000) by (nonlinear_arith)
        requires
            offset <= 0xFFFF,
            den <= 0x2_0000_0000,
    ;
    let base: u64 = (offset as u64) * den;
    if !p.negative || scaled <= base {
        let num: u64 = if p.negative {
            base - scaled
        } else {
            base + scaled
        };
        assert(num == x.numerator(factor as int) + offset * x.denominator());
        let level: u64 = (2 * num + den) / (2 * den);
        if level > max as u64 {
            (max, false)
        } else {
            (level as u32, true)
        }
    } else {
        let excess: u64 = scaled - base;
        assert(-excess == x.numerator(factor as int) + offset * x.denominator());
        let below: u64 = (den + 2 * excess) / (2 * den);
        (0, below == 0)
    }
}

/// `factor * x` confined to `0..=factor`, its fractional part dropped.
pub(crate) fn floor_scaled(x: Binary32, factor: u32) -> (level: u32)
    requires
        1 <= factor <= 255,
    ensures
        level == x.saturated_floor(factor as int),
{
    let p = parts(x);
    if p.field == 255 {
        return if p.fraction != 0 || p.negative {
            0
        } else {
            factor
        };
    }
    if p.field >= 150 {
        proof {
            lemma_round_whole(x, factor as int, 0);
        }
        return if p.negative {
            0
        } else {
            factor
        };
    }
    let (scaled, shift) = scale(x, &p, factor);
    proof {
        reveal(Binary32::affine_round);
        reveal(Binary32::scaled_floor);
        lemma2_to64();
        lemma2_to64_rest();
        lemma_pow2_pos(shift as nat);
    }
    if p.negative {
        proof {
            lemma_floor_of_negative(-(scaled as int), x.denominator());
        }
        return 0;
    }
    if shift >= 33 {
        proof {
            if shift > 33 {
                lemma_pow2_strictly_increases(33, shift as nat);
            }
            lemma_round_tiny(x, factor as int, 0);
        }
        return 0;
    }
    proof {
        lemma_pow2_strictly_increases(shift as nat, 33);
        lemma_u64_pow2_no_overflow(shift as nat);
        lemma_u64_shl_is_mul(1, shift as u64);
    }
    let den: u64 = 1u64 << shift;
    let whole: u64 = scaled / den;
    if whole > factor as u64 {
        factor
    } else {
        whole as u32
    }
}

/// A fraction that is zero or less has a floor that is zero or less.
proof fn lemma_floor_of_negative(num: int, den: int)
    by (nonlinear_arith)
    requires
        num <= 0,
        den > 0,
    ensures
        num / den <= 0,
{
}

} // verus!

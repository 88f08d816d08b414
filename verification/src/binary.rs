//! Floating-point numbers carried as their IEEE 754 bit patterns.
//!
//! Coordinates, zoom levels and opacities pass through the library without
//! arithmetic: they are stored, compared, clamped and rounded to whole zoom
//! levels. All of that is decided by the bit pattern, so that is what the
//! library keeps.

use vstd::arithmetic::div_mod::{
    lemma_basic_div, lemma_div_denominator, lemma_div_is_ordered, lemma_div_multiples_vanish,
    lemma_fundamental_div_mod, lemma_fundamental_div_mod_converse_div, lemma_mod_bound,
};
use vstd::arithmetic::mul::{
    lemma_mul_inequality, lemma_mul_is_commutative, lemma_mul_strict_inequality,
};
use vstd::arithmetic::power2::{
    lemma2_to64, lemma2_to64_rest, lemma_pow2_adds, lemma_pow2_pos, lemma_pow2_strictly_increases,
    lemma_pow2_unfold, pow2,
};
use vstd::bits::{lemma_u64_shl_is_mul, lemma_u64_shr_is_div};
use vstd::prelude::*;

verus! {

/// The implicit leading bit of a normal significand.
pub const HIDDEN_BIT: u64 = 0x0010_0000_0000_0000;

/// The sign bit.
pub const SIGN_BIT: u64 = 0x8000_0000_0000_0000;

/// The magnitude bits of an infinity. Larger magnitude bits are not numbers.
pub const INFINITY_BITS: u64 = 0x7ff0_0000_0000_0000;

/// A double-precision number, as its bit pattern.
#[derive(Clone, Copy, Debug)]
pub struct Binary64 {
    pub bits: u64,
}

/// A single-precision number, as its bit pattern.
#[derive(Clone, Copy, Debug)]
pub struct Binary32 {
    pub bits: u32,
}

/// The number of units of `2^-1074` in one.
pub open spec fn one() -> nat {
    pow2(1074)
}

/// What the magnitude bits `m` of a number are worth, in units of `2^-1074`.
/// An infinity is worth the first power of two past the finite numbers.
pub open spec fn magnitude(m: int) -> int {
    let exponent = m / (HIDDEN_BIT as int);
    let fraction = m % (HIDDEN_BIT as int);
    if exponent == 0 {
        fraction
    } else {
        (HIDDEN_BIT + fraction) * pow2((exponent - 1) as nat)
    }
}

/// `value` rounded down to a whole number.
pub open spec fn floor(value: int) -> int {
    value / (one() as int)
}

/// `value` rounded to the nearest whole number, halves away from zero.
pub open spec fn round(value: int) -> int {
    if value >= 0 {
        (2 * value + one()) / (2 * one() as int)
    } else {
        -((-2 * value + one()) / (2 * one() as int))
    }
}

/// `x`, or the nearer end of `low..=high` where `x` lies outside.
pub open spec fn clamp(x: int, low: int, high: int) -> int {
    if x < low {
        low
    } else if x > high {
        high
    } else {
        x
    }
}

impl Binary64 {
    /// The bits below the sign.
    pub open spec fn magnitude_bits(self) -> int {
        (self.bits % SIGN_BIT) as int
    }

    pub open spec fn is_nan(self) -> bool {
        self.magnitude_bits() > INFINITY_BITS
    }

    pub open spec fn is_negative(self) -> bool {
        self.bits >= SIGN_BIT
    }

    /// The number, in units of `2^-1074`.
    pub open spec fn value(self) -> int {
        if self.is_negative() {
            -magnitude(self.magnitude_bits())
        } else {
            magnitude(self.magnitude_bits())
        }
    }

    /// The order of the numbers. What is not a number is in no relation.
    pub open spec fn less(self, other: Binary64) -> bool {
        !self.is_nan() && !other.is_nan() && self.value() < other.value()
    }

    /// Equality of the numbers. What is not a number equals nothing.
    pub open spec fn same(self, other: Binary64) -> bool {
        !self.is_nan() && !other.is_nan() && self.value() == other.value()
    }

    /// The smaller of two; where one is not a number, the other.
    pub open spec fn smaller(self, other: Binary64) -> Binary64 {
        if self.is_nan() || other.less(self) {
            other
        } else {
            self
        }
    }

    /// The larger of two; where one is not a number, the other.
    pub open spec fn larger(self, other: Binary64) -> Binary64 {
        if self.is_nan() || self.less(other) {
            other
        } else {
            self
        }
    }
}

/// More magnitude bits are worth more.
pub proof fn lemma_magnitude_increases(a: int, b: int)
    requires
        0 <= a < b,
    ensures
        magnitude(a) < magnitude(b),
{
    let h = HIDDEN_BIT as int;
    let (ea, fa) = (a / h, a % h);
    let (eb, fb) = (b / h, b % h);
    assert(ea <= eb);
    if ea == eb {
        assert(fa < fb);
        if ea > 0 {
            lemma_pow2_pos((ea - 1) as nat);
            lemma_mul_strict_inequality(h + fa, h + fb, pow2((ea - 1) as nat) as int);
        }
    } else {
        lemma_pow2_pos((eb - 1) as nat);
        let pb = pow2((eb - 1) as nat) as int;
        lemma_mul_inequality(h, h + fb, pb);
        assert(magnitude(b) >= h * pb);
        if ea == 0 {
            lemma_mul_inequality(1, pb, h);
            lemma_mul_is_commutative(h, pb);
        } else {
            let pa = pow2((ea - 1) as nat) as int;
            lemma_pow2_pos((ea - 1) as nat);
            lemma_mul_strict_inequality(h + fa, 2 * h, pa);
            lemma_pow2_unfold(ea as nat);
            assert(pow2(ea as nat) == 2 * pa);
            assert(2 * h * pa == h * (2 * pa)) by (nonlinear_arith);
            if ea < eb - 1 {
                lemma_pow2_strictly_increases(ea as nat, (eb - 1) as nat);
            }
            lemma_mul_inequality(2 * pa, pb, h);
            lemma_mul_is_commutative(h, pb);
            lemma_mul_is_commutative(h, 2 * pa);
        }
    }
}

proof fn lemma_magnitude_order(a: int, b: int)
    requires
        0 <= a,
        0 <= b,
    ensures
        a < b <==> magnitude(a) < magnitude(b),
        a == b <==> magnitude(a) == magnitude(b),
        magnitude(0) == 0,
        magnitude(a) >= 0,
{
    if a < b {
        lemma_magnitude_increases(a, b);
    } else if b < a {
        lemma_magnitude_increases(b, a);
    }
    if a > 0 {
        lemma_magnitude_increases(0, a);
    }
}

impl Binary64 {
    fn magnitude_of(&self) -> (r: u64)
        ensures
            r == self.magnitude_bits(),
    {
        self.bits % SIGN_BIT
    }

    fn nan(&self) -> (r: bool)
        ensures
            r == self.is_nan(),
    {
        self.magnitude_of() > INFINITY_BITS
    }

    /// `<` on the numbers.
    pub fn lt(&self, other: &Binary64) -> (r: bool)
        ensures
            r == self.less(*other),
    {
        let a = self.magnitude_of();
        let b = other.magnitude_of();
        proof {
            lemma_magnitude_order(a as int, b as int);
            lemma_magnitude_order(0, a as int);
            lemma_magnitude_order(0, b as int);
        }
        if self.nan() || other.nan() {
            return false;
        }
        if self.bits >= SIGN_BIT {
            if other.bits >= SIGN_BIT {
                b < a
            } else {
                a > 0 || b > 0
            }
        } else if other.bits >= SIGN_BIT {
            false
        } else {
            a < b
        }
    }

    /// `==` on the numbers.
    pub fn equals(&self, other: &Binary64) -> (r: bool)
        ensures
            r == self.same(*other),
    {
        let a = self.magnitude_of();
        let b = other.magnitude_of();
        proof {
            lemma_magnitude_order(a as int, b as int);
            lemma_magnitude_order(0, a as int);
            lemma_magnitude_order(0, b as int);
        }
        if self.nan() || other.nan() {
            false
        } else if (self.bits >= SIGN_BIT) == (other.bits >= SIGN_BIT) {
            a == b
        } else {
            a == 0 && b == 0
        }
    }

    /// The smaller of two numbers.
    pub fn min(&self, other: &Binary64) -> (r: Binary64)
        ensures
            r == self.smaller(*other),
    {
        if self.nan() || other.lt(self) {
            *other
        } else {
            *self
        }
    }

    /// The larger of two numbers.
    pub fn max(&self, other: &Binary64) -> (r: Binary64)
        ensures
            r == self.larger(*other),
    {
        if self.nan() || self.lt(other) {
            *other
        } else {
            *self
        }
    }
}

impl PartialEq for Binary64 {
    fn eq(&self, other: &Binary64) -> (r: bool) {
        self.equals(other)
    }
}

impl vstd::std_specs::cmp::PartialEqSpecImpl for Binary64 {
    open spec fn obeys_eq_spec() -> bool {
        true
    }

    open spec fn eq_spec(&self, other: &Binary64) -> bool {
        self.same(*other)
    }
}

impl Binary32 {
    /// The bits below the sign.
    pub open spec fn magnitude_bits(self) -> int {
        (self.bits % 0x8000_0000) as int
    }

    pub open spec fn is_nan(self) -> bool {
        self.magnitude_bits() > 0x7f80_0000
    }

    /// Equality of the numbers: zero has two bit patterns, every other number
    /// has one. What is not a number equals nothing.
    pub open spec fn same(self, other: Binary32) -> bool {
        !self.is_nan() && !other.is_nan() && (self.bits == other.bits || (self.magnitude_bits() == 0
            && other.magnitude_bits() == 0))
    }

    /// `==` on the numbers.
    pub fn equals(&self, other: &Binary32) -> (r: bool)
        ensures
            r == self.same(*other),
    {
        let a: u32 = self.bits % 0x8000_0000;
        let b: u32 = other.bits % 0x8000_0000;
        a <= 0x7f80_0000 && b <= 0x7f80_0000 && (self.bits == other.bits || (a == 0 && b == 0))
    }
}

impl PartialEq for Binary32 {
    fn eq(&self, other: &Binary32) -> (r: bool) {
        self.equals(other)
    }
}

impl vstd::std_specs::cmp::PartialEqSpecImpl for Binary32 {
    open spec fn obeys_eq_spec() -> bool {
        true
    }

    open spec fn eq_spec(&self, other: &Binary32) -> bool {
        self.same(*other)
    }
}

/// The magnitude bits of a power of two.
proof fn lemma_power_magnitude(k: int)
    requires
        -1 <= k <= 8,
    ensures
        magnitude((1023 + k) * HIDDEN_BIT) == pow2((1074 + k) as nat),
{
    let h = HIDDEN_BIT as int;
    assert(((1023 + k) * h) / h == 1023 + k && ((1023 + k) * h) % h == 0);
    lemma2_to64_rest();
    lemma_pow2_adds(52, (1022 + k) as nat);
}

/// Where the magnitude bits have exponent `1023 + j`, one is this many units
/// of the significand.
proof fn lemma_significand(m: int, j: int)
    requires
        0 <= j <= 7,
        m / (HIDDEN_BIT as int) == 1023 + j,
    ensures
        ({
            let sig = HIDDEN_BIT + m % (HIDDEN_BIT as int);
            let q = pow2((52 - j) as nat) as int;
            &&& q > 0
            &&& magnitude(m) / (one() as int) == sig / q
            &&& (2 * magnitude(m) + one()) / (2 * one() as int) == (2 * sig + q) / (2 * q)
        }),
{
    let sig = HIDDEN_BIT + m % (HIDDEN_BIT as int);
    let p = pow2((1022 + j) as nat) as int;
    let q = pow2((52 - j) as nat) as int;
    lemma_pow2_pos((1022 + j) as nat);
    lemma_pow2_pos((52 - j) as nat);
    lemma_pow2_adds((1022 + j) as nat, (52 - j) as nat);
    assert(one() == p * q);
    assert(magnitude(m) == p * sig) by {
        lemma_mul_is_commutative(sig, p);
    }
    lemma_div_multiples_vanish(sig, p);
    lemma_div_denominator(p * sig, p, q);
    assert(2 * (p * sig) + p * q == p * (2 * sig + q)) by (nonlinear_arith);
    assert(2 * (p * q) == p * (2 * q)) by (nonlinear_arith);
    lemma_div_multiples_vanish(2 * sig + q, p);
    lemma_div_denominator(p * (2 * sig + q), p, 2 * q);
}

proof fn lemma_below(m: int, k: int)
    requires
        0 <= m,
        -1 <= k <= 8,
    ensures
        m / (HIDDEN_BIT as int) < 1023 + k ==> magnitude(m) < pow2((1074 + k) as nat),
        m / (HIDDEN_BIT as int) >= 1023 + k ==> magnitude(m) >= pow2((1074 + k) as nat),
        magnitude(m) >= 0,
{
    lemma_power_magnitude(k);
    lemma_magnitude_order(m, (1023 + k) * HIDDEN_BIT);
}

impl Binary64 {
    /// The number rounded down and brought into `0..=high`; 0 for what is not
    /// a number.
    pub fn floor_to(&self, high: u8) -> (r: u8)
        ensures
            r == if self.is_nan() {
                0
            } else {
                clamp(floor(self.value()), 0, high as int)
            },
    {
        let m = self.magnitude_of();
        let exponent = m / HIDDEN_BIT;
        proof {
            lemma_pow2_pos(1074);
            lemma_below(m as int, 0);
            lemma_below(m as int, 8);
        }
        if self.nan() {
            return 0;
        }
        if self.bits >= SIGN_BIT {
            proof {
                lemma_div_is_ordered(self.value(), 0, one() as int);
                lemma_basic_div(0, one() as int);
            }
            return 0;
        }
        if exponent < 1023 {
            proof {
                lemma_basic_div(self.value(), one() as int);
            }
            return 0;
        }
        if exponent >= 1031 {
            proof {
                lemma2_to64();
                lemma_pow2_adds(1074, 8);
                lemma_div_is_ordered(256 * one() as int, self.value(), one() as int);
                lemma_div_multiples_vanish(256, one() as int);
                lemma_mul_is_commutative(256, one() as int);
            }
            return high;
        }
        let sig: u64 = HIDDEN_BIT + m % HIDDEN_BIT;
        let shift: u64 = 1075 - exponent;
        let whole: u64 = sig >> shift;
        proof {
            lemma_significand(m as int, exponent - 1023);
            lemma_u64_shr_is_div(sig, shift);
        }
        if whole > high as u64 {
            high
        } else {
            whole as u8
        }
    }

    /// The number rounded to the nearest whole one, halves away from zero, and
    /// brought into `low..=high`; 0 for what is not a number.
    pub fn round_to(&self, low: u8, high: u8) -> (r: u8)
        requires
            low <= high,
        ensures
            r == if self.is_nan() {
                0
            } else {
                clamp(round(self.value()), low as int, high as int)
            },
    {
        let m = self.magnitude_of();
        let exponent = m / HIDDEN_BIT;
        proof {
            lemma_pow2_pos(1074);
            lemma_below(m as int, -1);
            lemma_below(m as int, 0);
            lemma_below(m as int, 8);
            lemma_pow2_unfold(1074);
        }
        if self.nan() {
            return 0;
        }
        if self.bits >= SIGN_BIT {
            proof {
                let v = self.value();
                if v == 0 {
                    lemma_basic_div(one() as int, 2 * one() as int);
                } else {
                    lemma_div_is_ordered(0, -2 * v + one(), 2 * one() as int);
                    lemma_basic_div(0, 2 * one() as int);
                }
            }
            return low;
        }
        if exponent < 1022 {
            proof {
                lemma_basic_div(2 * self.value() + one(), 2 * one() as int);
            }
            return low;
        }
        if exponent >= 1031 {
            proof {
                let v = self.value();
                lemma2_to64();
                lemma_pow2_adds(1074, 8);
                lemma_div_is_ordered(256 * (2 * one() as int), 2 * v + one(), 2 * one() as int);
                lemma_div_multiples_vanish(256, 2 * one() as int);
                lemma_mul_is_commutative(256, 2 * one() as int);
            }
            return high;
        }
        let nearest: u64 = if exponent == 1022 {
            proof {
                let x = 2 * self.value() + one();
                let d = 2 * one() as int;
                lemma_fundamental_div_mod_converse_div(x, d, 1, x - d);
            }
            1
        } else {
            let sig: u64 = HIDDEN_BIT + m % HIDDEN_BIT;
            let shift: u64 = 1075 - exponent;
            let half: u64 = 1u64 << (1074 - exponent);
            proof {
                let j = exponent - 1023;
                let half_shift = (1074 - exponent) as u64;
                lemma_significand(m as int, j);
                lemma_pow2_unfold((52 - j) as nat);
                lemma_pow2_pos((51 - j) as nat);
                lemma2_to64_rest();
                lemma2_to64();
                if j > 0 {
                    lemma_pow2_strictly_increases((51 - j) as nat, 51);
                }
                lemma_u64_shl_is_mul(1, half_shift);
                assert(half == pow2((51 - j) as nat));
                let q = pow2((52 - j) as nat) as int;
                assert(2 * sig + q == 2 * (sig + half));
                lemma_div_denominator(2 * (sig + half), 2, q);
                lemma_div_multiples_vanish(sig + half, 2);
                lemma_u64_shr_is_div((sig + half) as u64, shift);
            }
            (sig + half) >> shift
        };
        if nearest < low as u64 {
            low
        } else if nearest > high as u64 {
            high
        } else {
            nearest as u8
        }
    }
}

/// The bits of a number are a sign, an exponent and a fraction, of which the
/// number is made. The largest exponent is that of the infinities, and with a
/// fraction it is not a number.
pub proof fn numbers_are_made_of_their_bits(
    x: Binary64,
    negative: bool,
    exponent: int,
    fraction: int,
)
    requires
        0 <= exponent < 2048,
        0 <= fraction < 0x10_0000_0000_0000,
        x.bits == (if negative {
            0x8000_0000_0000_0000int
        } else {
            0
        }) + exponent * 0x10_0000_0000_0000 + fraction,
    ensures
        x.is_nan() <==> exponent == 2047 && fraction > 0,
        exponent == 0 && !negative ==> x.value() == fraction,
        exponent == 0 && negative ==> x.value() == -fraction,
        exponent > 0 && !negative ==> x.value() == (0x10_0000_0000_0000 + fraction) * pow2(
            (exponent - 1) as nat,
        ),
        exponent > 0 && negative ==> x.value() == -((0x10_0000_0000_0000 + fraction) * pow2(
            (exponent - 1) as nat,
        )),
{
    let m = exponent * 0x10_0000_0000_0000 + fraction;
    assert(m / 0x10_0000_0000_0000 == exponent);
    assert(m % 0x10_0000_0000_0000 == fraction);
    assert(x.magnitude_bits() == m);
}

/// One number is less than another, or equal to it, as their values are. What is
/// not a number is neither less than anything nor equal to anything.
pub proof fn numbers_compare_by_value(a: Binary64, b: Binary64)
    ensures
        a.is_nan() || b.is_nan() ==> !a.less(b) && !a.same(b),
        !a.is_nan() && !b.is_nan() ==> (a.less(b) <==> a.value() < b.value()),
        !a.is_nan() && !b.is_nan() ==> (a.same(b) <==> a.value() == b.value()),
{
}

/// The smaller of two numbers is one of them and not above either, the larger
/// is one of them and not below either, and of equal ones it is the first. What
/// is not a number gives way to the other.
pub proof fn extremes_bound_both(a: Binary64, b: Binary64)
    ensures
        a.smaller(b) == a || a.smaller(b) == b,
        a.larger(b) == a || a.larger(b) == b,
        !a.is_nan() && !b.is_nan() ==> a.smaller(b).value() <= a.value() && a.smaller(b).value()
            <= b.value() && a.larger(b).value() >= a.value() && a.larger(b).value() >= b.value(),
        !a.is_nan() && !b.is_nan() && a.value() == b.value() ==> a.smaller(b) == a && a.larger(b)
            == a,
        a.is_nan() ==> a.smaller(b) == b && a.larger(b) == b,
        b.is_nan() && !a.is_nan() ==> a.smaller(b) == a && a.larger(b) == a,
{
}

/// Rounding down gives the whole number at or below a value.
pub proof fn floor_is_just_below(value: int)
    ensures
        floor(value) * pow2(1074) <= value < (floor(value) + 1) * pow2(1074),
{
    lemma_pow2_pos(1074);
    let d = pow2(1074) as int;
    lemma_fundamental_div_mod(value, d);
    lemma_mod_bound(value, d);
    assert(d * (value / d) == (value / d) * d) by (nonlinear_arith);
    assert((value / d + 1) * d == (value / d) * d + d) by (nonlinear_arith);
}

/// Rounding gives a whole number at most one half away, and of two that are one
/// half away the one farther from zero.
pub proof fn round_is_nearest(value: int)
    ensures
        value >= 0 ==> (2 * round(value) - 1) * pow2(1074) <= 2 * value < (2 * round(value) + 1)
            * pow2(1074),
        value < 0 ==> (2 * round(value) - 1) * pow2(1074) < 2 * value <= (2 * round(value) + 1)
            * pow2(1074),
{
    lemma_pow2_pos(1074);
    let d = pow2(1074) as int;
    let v = if value >= 0 {
        value
    } else {
        -value
    };
    let x = 2 * v + d;
    let q = x / (2 * d);
    lemma_fundamental_div_mod(x, 2 * d);
    lemma_mod_bound(x, 2 * d);
    assert((2 * d) * q == (2 * q) * d) by (nonlinear_arith);
    assert((2 * q - 1) * d == (2 * q) * d - d) by (nonlinear_arith);
    assert((2 * q + 1) * d == (2 * q) * d + d) by (nonlinear_arith);
    assert((2 * (-q) - 1) * d == -((2 * q) * d) - d) by (nonlinear_arith);
    assert((2 * (-q) + 1) * d == -((2 * q) * d) + d) by (nonlinear_arith);
}

/// A number in the range stays, one below goes to the lower end and one above
/// to the upper end.
pub proof fn clamp_stays_in_range(x: int, low: int, high: int)
    requires
        low <= high,
    ensures
        low <= clamp(x, low, high) <= high,
        low <= x <= high ==> clamp(x, low, high) == x,
        x < low ==> clamp(x, low, high) == low,
        x > high ==> clamp(x, low, high) == high,
{
}

/// Two single-precision numbers are equal if they have the same bits or are
/// both zero. What has more magnitude bits than infinity equals nothing.
pub proof fn single_numbers_compare_by_bits(a: Binary32, b: Binary32)
    ensures
        a.bits % 0x8000_0000 > 0x7f80_0000 || b.bits % 0x8000_0000 > 0x7f80_0000 ==> !a.same(b),
        a.bits % 0x8000_0000 <= 0x7f80_0000 && b.bits % 0x8000_0000 <= 0x7f80_0000 ==> (a.same(b)
            <==> a.bits == b.bits || (a.bits % 0x8000_0000 == 0 && b.bits % 0x8000_0000 == 0)),
{
}

} // verus!

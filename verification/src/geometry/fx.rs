//! The fixed-point scalar used for all world-space arithmetic.
//!
//! A value is stored as a signed 64-bit count of `1 / 2^32` units.  Every
//! operation rounds toward negative infinity, so each result is a single,
//! exactly specified integer: the contracts below pin the outcome of every
//! geometric computation in the crate down to the last bit.

use vstd::prelude::*;

verus! {

use crate::geometry::lvec::fits_i64;
use vstd::arithmetic::div_mod::lemma_fundamental_div_mod;
use vstd::arithmetic::div_mod::lemma_fundamental_div_mod_converse;
use vstd::arithmetic::power2::lemma2_to64;
use vstd::arithmetic::power2::lemma_pow2_adds;
use vstd::arithmetic::power2::lemma_pow2_strictly_increases;
use vstd::arithmetic::power2::pow2;
use vstd::bits::lemma_u64_shl_is_mul;

/// Number of raw units in 1.0: the fixed-point scale.
pub const FX_SCALE: i64 = 0x1_0000_0000;

/// The raw representation of 0.5.
pub const FX_HALF_SCALE: i64 = 0x8000_0000;

/// The mathematical value of the raw product of two fixed-point numbers,
/// rescaled back with flooring: `floor(a * b / 2^32)`.
pub open spec fn fx_mul_raw(a: int, b: int) -> int {
    (a * b) / (FX_SCALE as int)
}

/// The mathematical value of the raw quotient of two fixed-point numbers
/// with a positive divisor, with flooring: `floor(a * 2^32 / b)`.
pub open spec fn fx_div_raw(a: int, b: int) -> int {
    (a * (FX_SCALE as int)) / b
}

/// Flooring division of `n` by a positive divisor, exactly the mathematical
/// `n / d` rounded toward negative infinity.
pub fn floor_div_i128(n: i128, d: i128) -> (q: i128)
    requires
        d > 0,
        n > i128::MIN,
    ensures
        q == (n as int) / (d as int),
{
    if n >= 0 {
        let q = (n as u128) / (d as u128);
        q as i128
    } else {
        let m = (-n) as u128;
        let q = m / (d as u128);
        let rem = m % (d as u128);
        if rem == 0 {
            proof {
                lemma_fundamental_div_mod(m as int, d as int);
                assert(n as int == -(q as int) * (d as int) + 0) by (nonlinear_arith)
                    requires
                        m as int == (d as int) * ((m as int) / (d as int)) + (m as int) % (d as int),
                        q as int == (m as int) / (d as int),
                        (m as int) % (d as int) == 0,
                        n as int == -(m as int),
                ;
                lemma_fundamental_div_mod_converse(n as int, d as int, -(q as int), 0);
            }
            -(q as i128)
        } else {
            proof {
                lemma_fundamental_div_mod(m as int, d as int);
                assert(n as int == (-(q as int) - 1) * (d as int) + (d - rem)) by (nonlinear_arith)
                    requires
                        m as int == (d as int) * ((m as int) / (d as int)) + (m as int) % (d as int),
                        q as int == (m as int) / (d as int),
                        rem as int == (m as int) % (d as int),
                        n as int == -(m as int),
                        d > 0,
                ;
                lemma_fundamental_div_mod_converse(
                    n as int,
                    d as int,
                    -(q as int) - 1,
                    d as int - rem as int,
                );
            }
            -(q as i128) - 1
        }
    }
}

/// A fixed-point scalar: the field holds the value scaled by `2^32`.
#[derive(Copy, Clone, Eq, PartialEq, Structural, Debug, Hash)]
pub struct Fx(pub i64);

impl Fx {
    /// Builds a scalar from its raw `1 / 2^32`-unit representation.
    pub fn from_raw(raw: i64) -> (r: Fx)
        ensures
            r == Fx(raw),
    {
        Fx(raw)
    }

    /// The scalar holding exactly the integer `n`.
    pub fn from_int(n: i64) -> (r: Fx)
        requires
            fits_i64(n * (FX_SCALE as int)),
        ensures
            r == Fx((n * (FX_SCALE as int)) as i64),
    {
        Fx(n * FX_SCALE)
    }

    /// Exactly 0.
    pub fn zero() -> (r: Fx)
        ensures
            r == Fx(0i64),
    {
        Fx(0)
    }

    /// Exactly 1.
    pub fn one() -> (r: Fx)
        ensures
            r == Fx(FX_SCALE),
    {
        Fx(FX_SCALE)
    }

    /// The sum.
    pub fn add(self, other: Fx) -> (r: Fx)
        requires
            fits_i64(self.0 + other.0),
        ensures
            r == Fx((self.0 + other.0) as i64),
    {
        Fx(self.0 + other.0)
    }

    /// The difference.
    pub fn sub(self, other: Fx) -> (r: Fx)
        requires
            fits_i64(self.0 - other.0),
        ensures
            r == Fx((self.0 - other.0) as i64),
    {
        Fx(self.0 - other.0)
    }

    /// The negation.
    pub fn neg(self) -> (r: Fx)
        requires
            self.0 > i64::MIN,
        ensures
            r == Fx((-self.0) as i64),
    {
        Fx(-self.0)
    }

    /// The product, rounded toward negative infinity.
    pub fn mul(self, other: Fx) -> (r: Fx)
        requires
            fits_i64(fx_mul_raw(self.0 as int, other.0 as int)),
        ensures
            r == Fx(fx_mul_raw(self.0 as int, other.0 as int) as i64),
    {
        proof {
            assert(i128::MIN < (self.0 as int) * (other.0 as int) <= i128::MAX) by (nonlinear_arith)
                requires
                    i64::MIN <= self.0 <= i64::MAX,
                    i64::MIN <= other.0 <= i64::MAX,
            ;
        }
        let p: i128 = (self.0 as i128) * (other.0 as i128);
        let q = floor_div_i128(p, FX_SCALE as i128);
        Fx(q as i64)
    }

    /// The quotient by a positive divisor, rounded toward negative infinity.
    pub fn div_pos(self, other: Fx) -> (r: Fx)
        requires
            other.0 > 0,
            fits_i64(fx_div_raw(self.0 as int, other.0 as int)),
        ensures
            r == Fx(fx_div_raw(self.0 as int, other.0 as int) as i64),
    {
        let p: i128 = (self.0 as i128) * (FX_SCALE as i128);
        let q = floor_div_i128(p, other.0 as i128);
        Fx(q as i64)
    }

    /// Whether the scalar is strictly less than `other`.
    pub fn lt(self, other: Fx) -> (r: bool)
        ensures
            r == (self.0 < other.0),
    {
        self.0 < other.0
    }
}

/// Division toward zero by a positive divisor: the sign-symmetric rounding,
/// used where a result must negate exactly when its argument does.
pub open spec fn div_trunc(n: int, d: int) -> int {
    if n >= 0 {
        n / d
    } else {
        -((-n) / d)
    }
}

/// The raw truncating quotient of two fixed-point numbers with a positive
/// divisor: `a * 2^32 / b` rounded toward zero.
pub open spec fn fx_div_trunc_raw(a: int, b: int) -> int {
    div_trunc(a * (FX_SCALE as int), b)
}

/// The raw truncating product of two fixed-point numbers:
/// `a * b / 2^32` rounded toward zero.
pub open spec fn fx_mul_trunc_raw(a: int, b: int) -> int {
    div_trunc(a * b, FX_SCALE as int)
}

/// Truncating division of `n` by a positive divisor, toward zero.
pub fn trunc_div_i128(n: i128, d: i128) -> (q: i128)
    requires
        d > 0,
        n > i128::MIN,
    ensures
        q == div_trunc(n as int, d as int),
{
    if n >= 0 {
        let q = (n as u128) / (d as u128);
        q as i128
    } else {
        let m = (-n) as u128;
        let q = m / (d as u128);
        proof {
            vstd::arithmetic::div_mod::lemma_div_pos_is_pos(m as int, d as int);
            assert((m as int) / (d as int) <= m as int) by {
                vstd::arithmetic::div_mod::lemma_div_is_ordered_by_denominator(
                    m as int,
                    1,
                    d as int,
                );
            }
        }
        -(q as i128)
    }
}

/// Truncation never rounds away from zero: the magnitude of the quotient
/// is bounded by the magnitude bound of the dividend over the divisor.
pub proof fn lemma_div_trunc_bound(n: int, d: int, bn: int)
    requires
        d > 0,
        0 <= bn,
        -bn <= n <= bn,
    ensures
        -(bn / d) <= div_trunc(n, d) <= bn / d,
{
    vstd::arithmetic::div_mod::lemma_div_pos_is_pos(bn, d);
    if n >= 0 {
        vstd::arithmetic::div_mod::lemma_div_is_ordered(n, bn, d);
        vstd::arithmetic::div_mod::lemma_div_pos_is_pos(n, d);
    } else {
        vstd::arithmetic::div_mod::lemma_div_is_ordered(-n, bn, d);
        vstd::arithmetic::div_mod::lemma_div_pos_is_pos(-n, d);
    }
}

impl Fx {
    /// The product, rounded toward zero.
    pub fn mul_trunc(self, other: Fx) -> (r: Fx)
        requires
            fits_i64(fx_mul_trunc_raw(self.0 as int, other.0 as int)),
        ensures
            r == Fx(fx_mul_trunc_raw(self.0 as int, other.0 as int) as i64),
    {
        proof {
            assert(i128::MIN < (self.0 as int) * (other.0 as int) <= i128::MAX)
                by (nonlinear_arith)
                requires
                    i64::MIN <= self.0 <= i64::MAX,
                    i64::MIN <= other.0 <= i64::MAX,
            ;
        }
        let p: i128 = (self.0 as i128) * (other.0 as i128);
        let q = trunc_div_i128(p, FX_SCALE as i128);
        Fx(q as i64)
    }

    /// The quotient by a positive divisor, rounded toward zero.
    pub fn div_pos_trunc(self, other: Fx) -> (r: Fx)
        requires
            other.0 > 0,
            fits_i64(fx_div_trunc_raw(self.0 as int, other.0 as int)),
        ensures
            r == Fx(fx_div_trunc_raw(self.0 as int, other.0 as int) as i64),
    {
        let p: i128 = (self.0 as i128) * (FX_SCALE as i128);
        let q = trunc_div_i128(p, other.0 as i128);
        Fx(q as i64)
    }
}


/// The executable `2^i` for `i < 64`, as a `u64`.
pub fn pow2_u64(i: u32) -> (r: u64)
    requires
        i < 64,
    ensures
        r as nat == pow2(i as nat),
        r >= 1,
{
    proof {
        lemma2_to64();
        if i < 64 {
            lemma_pow2_strictly_increases(i as nat, 64);
        }
        lemma_u64_shl_is_mul(1u64, i as u64);
        vstd::arithmetic::power2::lemma_pow2_pos(i as nat);
    }
    1u64 << (i as u64)
}

/// The mathematical integer square root of a non-negative integer: the
/// greatest `r` with `r * r <= x`.
pub open spec fn sqrt_floor(x: int) -> int {
    choose|r: int| r >= 0 && #[trigger] (r * r) <= x && x < ((r + 1) * (r + 1))
}

/// `sqrt_floor` is pinned down by any witness satisfying its defining
/// property.
pub proof fn lemma_sqrt_floor(x: int, r: int)
    requires
        r >= 0,
        r * r <= x,
        x < ((r + 1) * (r + 1)),
    ensures
        sqrt_floor(x) == r,
{
    assert(exists|w: int| w >= 0 && #[trigger] (w * w) <= x && x < ((w + 1) * (w + 1))) by {
        assert(r >= 0 && r * r <= x && x < ((r + 1) * (r + 1)));
    }
    let w = choose|w: int| w >= 0 && #[trigger] (w * w) <= x && x < ((w + 1) * (w + 1));
    assert(w == r) by (nonlinear_arith)
        requires
            w >= 0,
            w * w <= x,
            x < ((w + 1) * (w + 1)),
            r >= 0,
            r * r <= x,
            x < ((r + 1) * (r + 1)),
    ;
}

/// For any non-negative integer, `sqrt_floor` satisfies its defining
/// property.
pub proof fn lemma_sqrt_floor_inverse(x: int)
    requires
        x >= 0,
    ensures
        sqrt_floor(x) >= 0,
        sqrt_floor(x) * sqrt_floor(x) <= x,
        x < ((sqrt_floor(x) + 1) * (sqrt_floor(x) + 1)),
    decreases x,
{
    if x == 0 {
        lemma_sqrt_floor(0, 0);
    } else {
        lemma_sqrt_floor_inverse(x - 1);
        let r = sqrt_floor(x - 1);
        if x < ((r + 1) * (r + 1)) {
            lemma_sqrt_floor(x, r);
        } else {
            assert(x == (r + 1) * (r + 1));
            assert(x < (((r + 1) + 1) * ((r + 1) + 1))) by (nonlinear_arith)
                requires
                    r >= 0,
                    x == (r + 1) * (r + 1),
            ;
            lemma_sqrt_floor(x, r + 1);
        }
    }
}

/// The integer square root is monotone.
pub proof fn lemma_sqrt_floor_monotone(x: int, y: int)
    requires
        0 <= x <= y,
    ensures
        sqrt_floor(x) <= sqrt_floor(y),
{
    lemma_sqrt_floor_inverse(x);
    lemma_sqrt_floor_inverse(y);
    let rx = sqrt_floor(x);
    let ry = sqrt_floor(y);
    if rx > ry {
        assert(false) by (nonlinear_arith)
            requires
                rx >= 0,
                ry >= 0,
                rx > ry,
                rx * rx <= x,
                y < ((ry + 1) * (ry + 1)),
                x <= y,
        ;
    }
}

/// The integer square root: the greatest `r` with `r * r <= x`.
pub fn isqrt_u128(x: u128) -> (r: u64)
    ensures
        (r as int) * (r as int) <= x as int,
        (x as int) < (((r as int) + 1) * ((r as int) + 1)),
        r as int == sqrt_floor(x as int),
{
    proof {
        lemma2_to64();
        lemma_pow2_adds(64, 64);
        assert((pow2(64) * pow2(64)) as int == 0x10000000000000000 * 0x10000000000000000);
    }
    let mut r: u64 = 0;
    let mut i: u32 = 64;
    while i > 0
        invariant
            i <= 64,
            (r as int) * (r as int) <= x as int,
            (x as int) < (((r as int) + pow2(i as nat)) * ((r as int) + pow2(i as nat))),
            (r as int) + pow2(i as nat) <= pow2(64),
            pow2(64) == 0x10000000000000000,
        decreases i,
    {
        i = i - 1;
        proof {
            lemma2_to64();
            lemma_pow2_adds(i as nat, 1);
            assert(pow2((i + 1) as nat) == pow2(i as nat) * 2);
            vstd::arithmetic::power2::lemma_pow2_pos(i as nat);
        }
        let bit: u64 = pow2_u64(i);
        let cand: u64 = r + bit;
        proof {
            assert((cand as int) * (cand as int) <= u128::MAX) by (nonlinear_arith)
                requires
                    0 <= cand as int <= 0xffffffffffffffffu64,
            ;
        }
        let sq: u128 = (cand as u128) * (cand as u128);
        if sq <= x {
            r = cand;
        }
    }
    proof {
        lemma2_to64();
        lemma_sqrt_floor(x as int, r as int);
    }
    r
}

} // verus!

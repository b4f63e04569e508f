//! Fixed-point 3-vectors: world-space positions, velocities, momenta, forces
//! and penetration vectors.

use vstd::prelude::*;

verus! {

use crate::geometry::IVec;
use crate::geometry::fx::FX_SCALE;
use crate::geometry::fx::Fx;
use crate::geometry::fx::fx_div_trunc_raw;
use crate::geometry::fx::fx_mul_raw;
use crate::geometry::fx::isqrt_u128;
use crate::geometry::fx::sqrt_floor;
use crate::geometry::lvec::fits_i64;

/// Bound on the raw coordinates accepted by the length computations: squares
/// of three such coordinates always fit the 128-bit intermediates.
pub const FX_COORD_MAX: i64 = 0x4000_0000_0000_0000;

/// A fixed-point 3-vector.
#[derive(Copy, Clone, Eq, PartialEq, Structural, Debug, Hash)]
pub struct FxVec {
    pub x: Fx,
    pub y: Fx,
    pub z: Fx,
}

/// The squared length of the vector, over the raw representations: scaled by
/// `2^64`.
pub open spec fn mag_sq_raw(v: FxVec) -> int {
    (v.x.0 as int) * (v.x.0 as int) + (v.y.0 as int) * (v.y.0 as int) + (v.z.0 as int) * (v.z.0
        as int)
}

/// The raw length of the vector: the integer square root of the raw squared
/// length, which is again at the `2^32` scale.
pub open spec fn mag_raw(v: FxVec) -> int {
    sqrt_floor(mag_sq_raw(v))
}

/// Holds when all three raw coordinates are small enough for the length
/// computations.
pub open spec fn coords_bounded(v: FxVec) -> bool {
    &&& -FX_COORD_MAX <= v.x.0 <= FX_COORD_MAX
    &&& -FX_COORD_MAX <= v.y.0 <= FX_COORD_MAX
    &&& -FX_COORD_MAX <= v.z.0 <= FX_COORD_MAX
}

impl FxVec {
    /// Builds the vector `(x, y, z)`.
    pub fn new(x: Fx, y: Fx, z: Fx) -> (r: FxVec)
        ensures
            r == (FxVec { x, y, z }),
    {
        FxVec { x, y, z }
    }

    /// The zero vector.
    pub fn zero() -> (r: FxVec)
        ensures
            r == (FxVec { x: Fx(0i64), y: Fx(0i64), z: Fx(0i64) }),
    {
        FxVec { x: Fx(0), y: Fx(0), z: Fx(0) }
    }

    /// The all-ones vector.
    pub fn one() -> (r: FxVec)
        ensures
            r == (FxVec { x: Fx(FX_SCALE), y: Fx(FX_SCALE), z: Fx(FX_SCALE) }),
    {
        FxVec { x: Fx(FX_SCALE), y: Fx(FX_SCALE), z: Fx(FX_SCALE) }
    }

    /// Embeds a lattice position into world space; exact.
    pub fn from_ivec(v: IVec) -> (r: FxVec)
        ensures
            r.x.0 == (v.x as int) * (FX_SCALE as int),
            r.y.0 == (v.y as int) * (FX_SCALE as int),
            r.z.0 == (v.z as int) * (FX_SCALE as int),
    {
        FxVec {
            x: Fx((v.x as i64) * FX_SCALE),
            y: Fx((v.y as i64) * FX_SCALE),
            z: Fx((v.z as i64) * FX_SCALE),
        }
    }

    /// Componentwise sum.
    pub fn add(self, other: FxVec) -> (r: FxVec)
        requires
            fits_i64(self.x.0 + other.x.0),
            fits_i64(self.y.0 + other.y.0),
            fits_i64(self.z.0 + other.z.0),
        ensures
            r.x.0 == self.x.0 + other.x.0,
            r.y.0 == self.y.0 + other.y.0,
            r.z.0 == self.z.0 + other.z.0,
    {
        FxVec { x: self.x.add(other.x), y: self.y.add(other.y), z: self.z.add(other.z) }
    }

    /// Componentwise difference.
    pub fn sub(self, other: FxVec) -> (r: FxVec)
        requires
            fits_i64(self.x.0 - other.x.0),
            fits_i64(self.y.0 - other.y.0),
            fits_i64(self.z.0 - other.z.0),
        ensures
            r.x.0 == self.x.0 - other.x.0,
            r.y.0 == self.y.0 - other.y.0,
            r.z.0 == self.z.0 - other.z.0,
    {
        FxVec { x: self.x.sub(other.x), y: self.y.sub(other.y), z: self.z.sub(other.z) }
    }

    /// Componentwise negation.
    pub fn neg(self) -> (r: FxVec)
        requires
            self.x.0 > i64::MIN,
            self.y.0 > i64::MIN,
            self.z.0 > i64::MIN,
        ensures
            r.x.0 == -self.x.0,
            r.y.0 == -self.y.0,
            r.z.0 == -self.z.0,
    {
        FxVec { x: self.x.neg(), y: self.y.neg(), z: self.z.neg() }
    }

    /// The vector scaled by the fixed-point factor `k`, each component
    /// rounded toward negative infinity.
    pub fn scale(self, k: Fx) -> (r: FxVec)
        requires
            fits_i64(fx_mul_raw(self.x.0 as int, k.0 as int)),
            fits_i64(fx_mul_raw(self.y.0 as int, k.0 as int)),
            fits_i64(fx_mul_raw(self.z.0 as int, k.0 as int)),
        ensures
            r.x.0 == fx_mul_raw(self.x.0 as int, k.0 as int),
            r.y.0 == fx_mul_raw(self.y.0 as int, k.0 as int),
            r.z.0 == fx_mul_raw(self.z.0 as int, k.0 as int),
    {
        FxVec { x: self.x.mul(k), y: self.y.mul(k), z: self.z.mul(k) }
    }

    /// The Euclidean length, rounded toward negative infinity in raw units.
    pub fn mag(self) -> (r: Fx)
        requires
            coords_bounded(self),
        ensures
            r.0 == mag_raw(self),
            0 <= r.0 <= 0x7000_0000_0000_0000,
    {
        proof {
            lemma_mag_sq_bounds(self);
        }
        let xx: i128 = (self.x.0 as i128) * (self.x.0 as i128);
        let yy: i128 = (self.y.0 as i128) * (self.y.0 as i128);
        let zz: i128 = (self.z.0 as i128) * (self.z.0 as i128);
        let sum: u128 = (xx + yy + zz) as u128;
        let root = isqrt_u128(sum);
        proof {
            assert(root as int <= 0x7000_0000_0000_0000) by (nonlinear_arith)
                requires
                    root as int >= 0,
                    (root as int) * (root as int) <= sum as int,
                    sum as int <= 3 * ((FX_COORD_MAX as int) * (FX_COORD_MAX as int)),
            ;
        }
        Fx(root as i64)
    }

    /// The cross product, each component rounded toward negative infinity.
    pub fn cross(self, other: FxVec) -> (r: FxVec)
        requires
            cross_fits(self, other),
        ensures
            r.x.0 == fx_mul_raw(self.y.0 as int, other.z.0 as int) - fx_mul_raw(
                self.z.0 as int,
                other.y.0 as int,
            ),
            r.y.0 == fx_mul_raw(self.z.0 as int, other.x.0 as int) - fx_mul_raw(
                self.x.0 as int,
                other.z.0 as int,
            ),
            r.z.0 == fx_mul_raw(self.x.0 as int, other.y.0 as int) - fx_mul_raw(
                self.y.0 as int,
                other.x.0 as int,
            ),
    {
        FxVec {
            x: self.y.mul(other.z).sub(self.z.mul(other.y)),
            y: self.z.mul(other.x).sub(self.x.mul(other.z)),
            z: self.x.mul(other.y).sub(self.y.mul(other.x)),
        }
    }

    /// The unit vector in the direction of `self`, each component rounded
    /// toward zero; the zero vector when `self` is zero, where no direction
    /// exists.
    pub fn normalized(self) -> (r: FxVec)
        requires
            coords_bounded(self),
        ensures
            r == spec_normalized(self),
    {
        let m = self.mag();
        if m.0 == 0 {
            proof {
                lemma_mag_zero(self);
            }
            FxVec::zero()
        } else {
            proof {
                lemma_mag_component_bound(self);
                lemma_norm_div_bounds(self.x.0 as int, m.0 as int);
                lemma_norm_div_bounds(self.y.0 as int, m.0 as int);
                lemma_norm_div_bounds(self.z.0 as int, m.0 as int);
            }
            FxVec { x: self.x.div_pos_trunc(m), y: self.y.div_pos_trunc(m), z: self.z.div_pos_trunc(m) }
        }
    }
}

/// The normalized direction of `v`: each raw component divided by the raw
/// length, rounded toward zero so that negating `v` negates the result
/// exactly; the zero vector for `v == 0`.
pub open spec fn spec_normalized(v: FxVec) -> FxVec {
    if mag_raw(v) == 0 {
        FxVec { x: Fx(0i64), y: Fx(0i64), z: Fx(0i64) }
    } else {
        FxVec {
            x: Fx(fx_div_trunc_raw(v.x.0 as int, mag_raw(v)) as i64),
            y: Fx(fx_div_trunc_raw(v.y.0 as int, mag_raw(v)) as i64),
            z: Fx(fx_div_trunc_raw(v.z.0 as int, mag_raw(v)) as i64),
        }
    }
}

/// The components of a normalized vector stay within one fixed-point unit.
pub proof fn lemma_normalized_bounded(v: FxVec)
    requires
        coords_bounded(v),
    ensures
        -(FX_SCALE as int) <= spec_normalized(v).x.0 <= FX_SCALE as int,
        -(FX_SCALE as int) <= spec_normalized(v).y.0 <= FX_SCALE as int,
        -(FX_SCALE as int) <= spec_normalized(v).z.0 <= FX_SCALE as int,
{
    lemma_mag_sq_bounds(v);
    crate::geometry::fx::lemma_sqrt_floor_inverse(mag_sq_raw(v));
    if mag_raw(v) != 0 {
        lemma_mag_component_bound(v);
        lemma_norm_div_bounds(v.x.0 as int, mag_raw(v));
        lemma_norm_div_bounds(v.y.0 as int, mag_raw(v));
        lemma_norm_div_bounds(v.z.0 as int, mag_raw(v));
    }
}

/// Holds when every intermediate of the cross product fits an `i64`.
pub open spec fn cross_fits(a: FxVec, b: FxVec) -> bool {
    &&& fits_i64(fx_mul_raw(a.y.0 as int, b.z.0 as int))
    &&& fits_i64(fx_mul_raw(a.z.0 as int, b.y.0 as int))
    &&& fits_i64(fx_mul_raw(a.z.0 as int, b.x.0 as int))
    &&& fits_i64(fx_mul_raw(a.x.0 as int, b.z.0 as int))
    &&& fits_i64(fx_mul_raw(a.x.0 as int, b.y.0 as int))
    &&& fits_i64(fx_mul_raw(a.y.0 as int, b.x.0 as int))
    &&& fits_i64(
        fx_mul_raw(a.y.0 as int, b.z.0 as int) - fx_mul_raw(a.z.0 as int, b.y.0 as int),
    )
    &&& fits_i64(
        fx_mul_raw(a.z.0 as int, b.x.0 as int) - fx_mul_raw(a.x.0 as int, b.z.0 as int),
    )
    &&& fits_i64(
        fx_mul_raw(a.x.0 as int, b.y.0 as int) - fx_mul_raw(a.y.0 as int, b.x.0 as int),
    )
}

/// For bounded coordinates the squared length fits the 128-bit intermediate
/// and is non-negative.
proof fn lemma_mag_sq_bounds(v: FxVec)
    requires
        coords_bounded(v),
    ensures
        0 <= mag_sq_raw(v) <= 3 * ((FX_COORD_MAX as int) * (FX_COORD_MAX as int)),
        3 * ((FX_COORD_MAX as int) * (FX_COORD_MAX as int)) < u128::MAX,
        (v.x.0 as int) * (v.x.0 as int) <= (FX_COORD_MAX as int) * (FX_COORD_MAX as int),
        (v.y.0 as int) * (v.y.0 as int) <= (FX_COORD_MAX as int) * (FX_COORD_MAX as int),
        (v.z.0 as int) * (v.z.0 as int) <= (FX_COORD_MAX as int) * (FX_COORD_MAX as int),
        (v.x.0 as int) * (v.x.0 as int) >= 0,
        (v.y.0 as int) * (v.y.0 as int) >= 0,
        (v.z.0 as int) * (v.z.0 as int) >= 0,
{
    assert(0 <= ((v.x.0 as int) * (v.x.0 as int)) <= ((FX_COORD_MAX as int) * (FX_COORD_MAX
        as int))) by (nonlinear_arith)
        requires
            -FX_COORD_MAX <= v.x.0 <= FX_COORD_MAX,
    ;
    assert(0 <= ((v.y.0 as int) * (v.y.0 as int)) <= ((FX_COORD_MAX as int) * (FX_COORD_MAX
        as int))) by (nonlinear_arith)
        requires
            -FX_COORD_MAX <= v.y.0 <= FX_COORD_MAX,
    ;
    assert(0 <= ((v.z.0 as int) * (v.z.0 as int)) <= ((FX_COORD_MAX as int) * (FX_COORD_MAX
        as int))) by (nonlinear_arith)
        requires
            -FX_COORD_MAX <= v.z.0 <= FX_COORD_MAX,
    ;
}

/// A vector of bounded coordinates with zero length is the zero vector.
proof fn lemma_mag_zero(v: FxVec)
    requires
        coords_bounded(v),
        mag_raw(v) == 0,
    ensures
        v.x.0 == 0 && v.y.0 == 0 && v.z.0 == 0,
{
    lemma_mag_sq_bounds(v);
    assert(mag_sq_raw(v) < 1) by {
        crate::geometry::fx::lemma_sqrt_floor_inverse(mag_sq_raw(v));
    }
    assert(v.x.0 == 0 && v.y.0 == 0 && v.z.0 == 0) by (nonlinear_arith)
        requires
            (v.x.0 as int) * (v.x.0 as int) + (v.y.0 as int) * (v.y.0 as int) + (v.z.0 as int)
                * (v.z.0 as int) < 1,
    ;
}

/// Each coordinate is bounded in magnitude by the vector's length.
proof fn lemma_mag_component_bound(v: FxVec)
    requires
        coords_bounded(v),
    ensures
        -mag_raw(v) <= v.x.0 <= mag_raw(v),
        -mag_raw(v) <= v.y.0 <= mag_raw(v),
        -mag_raw(v) <= v.z.0 <= mag_raw(v),
{
    lemma_mag_sq_bounds(v);
    crate::geometry::fx::lemma_sqrt_floor_inverse(mag_sq_raw(v));
    let m = mag_raw(v);
    assert(-m <= v.x.0 <= m && -m <= v.y.0 <= m && -m <= v.z.0 <= m) by (nonlinear_arith)
        requires
            m >= 0,
            mag_sq_raw(v) < ((m + 1) * (m + 1)),
            mag_sq_raw(v) == (v.x.0 as int) * (v.x.0 as int) + (v.y.0 as int) * (v.y.0 as int) + (
            v.z.0 as int) * (v.z.0 as int),
    ;
}

/// Bounds the truncating quotient of a coordinate by the vector length:
/// the normalized component stays within +-1.
proof fn lemma_norm_div_bounds(a: int, m: int)
    requires
        m > 0,
        -m <= a <= m,
    ensures
        -(FX_SCALE as int) <= fx_div_trunc_raw(a, m) <= FX_SCALE as int,
{
    let s = FX_SCALE as int;
    assert(-(m * s) <= a * s <= m * s) by (nonlinear_arith)
        requires
            -m <= a <= m,
            s > 0,
    ;
    crate::geometry::fx::lemma_div_trunc_bound(a * s, m, m * s);
    assert((m * s) / m == s) by {
        vstd::arithmetic::div_mod::lemma_div_multiples_vanish(s, m);
    }
}

/// The length of a bounded vector lies in the range the length computation
/// guarantees.
pub proof fn lemma_mag_in_range(v: FxVec)
    requires
        coords_bounded(v),
    ensures
        0 <= mag_raw(v) <= 0x7000_0000_0000_0000,
{
    lemma_mag_sq_bounds(v);
    crate::geometry::fx::lemma_sqrt_floor_inverse(mag_sq_raw(v));
    assert(mag_raw(v) <= 0x7000_0000_0000_0000) by (nonlinear_arith)
        requires
            mag_raw(v) >= 0,
            mag_raw(v) * mag_raw(v) <= mag_sq_raw(v),
            mag_sq_raw(v) <= 3 * ((FX_COORD_MAX as int) * (FX_COORD_MAX as int)),
    ;
}

/// Negating a vector negates its truncated normalization exactly: the
/// length is unchanged and truncation is sign-symmetric.
pub proof fn lemma_normalized_antisymmetric(v: FxVec)
    requires
        coords_bounded(v),
        v.x.0 > i64::MIN,
        v.y.0 > i64::MIN,
        v.z.0 > i64::MIN,
    ensures
        ({
            let n = spec_normalized(v);
            let w = FxVec { x: Fx((-v.x.0) as i64), y: Fx((-v.y.0) as i64), z: Fx((-v.z.0) as i64) };
            let nw = spec_normalized(w);
            nw.x.0 == -n.x.0 && nw.y.0 == -n.y.0 && nw.z.0 == -n.z.0
        }),
{
    let w = FxVec { x: Fx((-v.x.0) as i64), y: Fx((-v.y.0) as i64), z: Fx((-v.z.0) as i64) };
    assert(mag_sq_raw(w) == mag_sq_raw(v)) by (nonlinear_arith)
        requires
            w.x.0 as int == -(v.x.0 as int),
            w.y.0 as int == -(v.y.0 as int),
            w.z.0 as int == -(v.z.0 as int),
            mag_sq_raw(v) == (v.x.0 as int) * (v.x.0 as int) + (v.y.0 as int) * (v.y.0 as int) + (
            v.z.0 as int) * (v.z.0 as int),
            mag_sq_raw(w) == (w.x.0 as int) * (w.x.0 as int) + (w.y.0 as int) * (w.y.0 as int) + (
            w.z.0 as int) * (w.z.0 as int),
    ;
    lemma_mag_sq_bounds(v);
    crate::geometry::fx::lemma_sqrt_floor_inverse(mag_sq_raw(v));
    let m = mag_raw(v);
    assert(m >= 0);
    if m != 0 {
        lemma_mag_component_bound(v);
        lemma_norm_div_bounds(v.x.0 as int, m);
        lemma_norm_div_bounds(v.y.0 as int, m);
        lemma_norm_div_bounds(v.z.0 as int, m);
        lemma_trunc_component_antisym(v.x.0 as int, m);
        lemma_trunc_component_antisym(v.y.0 as int, m);
        lemma_trunc_component_antisym(v.z.0 as int, m);
    }
}

/// One component of the truncated normalization is odd in its argument.
proof fn lemma_trunc_component_antisym(a: int, m: int)
    requires
        m > 0,
    ensures
        fx_div_trunc_raw(-a, m) == -fx_div_trunc_raw(a, m),
{
    let s = FX_SCALE as int;
    assert((-a) * s == -(a * s)) by (nonlinear_arith);
}

} // verus!

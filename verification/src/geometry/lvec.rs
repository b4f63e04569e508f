//! Exact integer 3-vectors.  Used for mass-weighted position sums, where
//! exactness bounds numerical drift from repeated voxel add/remove cycles.

use vstd::prelude::*;

verus! {

use crate::geometry::IVec;

/// Holds whenever `x` is representable as an `i64`.
pub open spec fn fits_i64(x: int) -> bool {
    i64::MIN <= x <= i64::MAX
}

/// The mathematical dot product of `(a1, a2, a3)` and `(b1, b2, b3)`.
pub open spec fn dot3(a1: int, a2: int, a3: int, b1: int, b2: int, b3: int) -> int {
    a1 * b1 + a2 * b2 + a3 * b3
}

/// Holds when the dot product of `(a1, a2, a3)` and `(b1, b2, b3)` can be
/// computed left-to-right in `i64` arithmetic without overflow.
pub open spec fn dot3_fits(a1: int, a2: int, a3: int, b1: int, b2: int, b3: int) -> bool {
    &&& fits_i64(a1 * b1)
    &&& fits_i64(a2 * b2)
    &&& fits_i64(a3 * b3)
    &&& fits_i64(a1 * b1 + a2 * b2)
    &&& fits_i64(a1 * b1 + a2 * b2 + a3 * b3)
}

/// An exact integer 3-vector.
#[derive(Copy, Clone, Eq, PartialEq, Structural, Debug, Hash)]
pub struct LVec(pub i64, pub i64, pub i64);

impl LVec {
    /// Builds the vector `(x, y, z)`.
    pub fn new(x: i64, y: i64, z: i64) -> (r: LVec)
        ensures
            r == LVec(x, y, z),
    {
        LVec(x, y, z)
    }

    /// The sum of the three components.
    pub fn sum(self) -> (r: i64)
        requires
            fits_i64(self.0 + self.1),
            fits_i64(self.0 + self.1 + self.2),
        ensures
            r == self.0 + self.1 + self.2,
    {
        self.0 + self.1 + self.2
    }

    /// The zero vector.
    pub fn zero() -> (r: LVec)
        ensures
            r == LVec(0i64, 0i64, 0i64),
    {
        LVec(0, 0, 0)
    }

    /// Componentwise sum.
    pub fn add(self, other: LVec) -> (r: LVec)
        requires
            fits_i64(self.0 + other.0),
            fits_i64(self.1 + other.1),
            fits_i64(self.2 + other.2),
        ensures
            r == LVec((self.0 + other.0) as i64, (self.1 + other.1) as i64, (self.2 + other.2) as i64),
    {
        LVec(self.0 + other.0, self.1 + other.1, self.2 + other.2)
    }

    /// Componentwise difference.
    pub fn sub(self, other: LVec) -> (r: LVec)
        requires
            fits_i64(self.0 - other.0),
            fits_i64(self.1 - other.1),
            fits_i64(self.2 - other.2),
        ensures
            r == LVec((self.0 - other.0) as i64, (self.1 - other.1) as i64, (self.2 - other.2) as i64),
    {
        LVec(self.0 - other.0, self.1 - other.1, self.2 - other.2)
    }

    /// Componentwise negation.
    pub fn neg(self) -> (r: LVec)
        requires
            self.0 > i64::MIN,
            self.1 > i64::MIN,
            self.2 > i64::MIN,
        ensures
            r == LVec((-self.0) as i64, (-self.1) as i64, (-self.2) as i64),
    {
        LVec(-self.0, -self.1, -self.2)
    }

    /// The dot product with `other`.
    pub fn dot(self, other: LVec) -> (r: i64)
        requires
            dot3_fits(self.0 as int, self.1 as int, self.2 as int, other.0 as int, other.1 as int, other.2 as int),
        ensures
            r == dot3(self.0 as int, self.1 as int, self.2 as int, other.0 as int, other.1 as int, other.2 as int),
    {
        self.0 * other.0 + self.1 * other.1 + self.2 * other.2
    }

    /// The vector scaled by `k`.
    pub fn scale(self, k: i64) -> (r: LVec)
        requires
            fits_i64(self.0 * k),
            fits_i64(self.1 * k),
            fits_i64(self.2 * k),
        ensures
            r == LVec((self.0 * k) as i64, (self.1 * k) as i64, (self.2 * k) as i64),
    {
        LVec(self.0 * k, self.1 * k, self.2 * k)
    }

    /// Widens a lattice position into an exact integer vector.
    pub fn from_ivec(v: IVec) -> (r: LVec)
        ensures
            r == LVec(v.x as i64, v.y as i64, v.z as i64),
    {
        LVec(v.x as i64, v.y as i64, v.z as i64)
    }
}

} // verus!

//! Exact unsigned integer 3-vectors.

use vstd::prelude::*;

verus! {


/// Holds whenever `x` is representable as a `u64`.
pub open spec fn fits_u64(x: int) -> bool {
    u64::MIN <= x <= u64::MAX
}

/// The mathematical dot product of `(a1, a2, a3)` and `(b1, b2, b3)`.
pub open spec fn dot3(a1: int, a2: int, a3: int, b1: int, b2: int, b3: int) -> int {
    a1 * b1 + a2 * b2 + a3 * b3
}

/// Holds when the dot product of `(a1, a2, a3)` and `(b1, b2, b3)` can be
/// computed left-to-right in `u64` arithmetic without overflow.
pub open spec fn dot3_fits(a1: int, a2: int, a3: int, b1: int, b2: int, b3: int) -> bool {
    &&& fits_u64(a1 * b1)
    &&& fits_u64(a2 * b2)
    &&& fits_u64(a3 * b3)
    &&& fits_u64(a1 * b1 + a2 * b2)
    &&& fits_u64(a1 * b1 + a2 * b2 + a3 * b3)
}

/// An exact unsigned integer 3-vector.
#[derive(Copy, Clone, Eq, PartialEq, Structural, Debug, Hash)]
pub struct ULVec(pub u64, pub u64, pub u64);

impl ULVec {
    /// Builds the vector `(x, y, z)`.
    pub fn new(x: u64, y: u64, z: u64) -> (r: ULVec)
        ensures
            r == ULVec(x, y, z),
    {
        ULVec(x, y, z)
    }

    /// The sum of the three components.
    pub fn sum(self) -> (r: u64)
        requires
            fits_u64(self.0 + self.1),
            fits_u64(self.0 + self.1 + self.2),
        ensures
            r == self.0 + self.1 + self.2,
    {
        self.0 + self.1 + self.2
    }

    /// The zero vector.
    pub fn zero() -> (r: ULVec)
        ensures
            r == ULVec(0u64, 0u64, 0u64),
    {
        ULVec(0, 0, 0)
    }

    /// Componentwise sum.
    pub fn add(self, other: ULVec) -> (r: ULVec)
        requires
            fits_u64(self.0 + other.0),
            fits_u64(self.1 + other.1),
            fits_u64(self.2 + other.2),
        ensures
            r == ULVec((self.0 + other.0) as u64, (self.1 + other.1) as u64, (self.2 + other.2) as u64),
    {
        ULVec(self.0 + other.0, self.1 + other.1, self.2 + other.2)
    }

    /// Componentwise difference.
    pub fn sub(self, other: ULVec) -> (r: ULVec)
        requires
            fits_u64(self.0 - other.0),
            fits_u64(self.1 - other.1),
            fits_u64(self.2 - other.2),
        ensures
            r == ULVec((self.0 - other.0) as u64, (self.1 - other.1) as u64, (self.2 - other.2) as u64),
    {
        ULVec(self.0 - other.0, self.1 - other.1, self.2 - other.2)
    }


    /// The dot product with `other`.
    pub fn dot(self, other: ULVec) -> (r: u64)
        requires
            dot3_fits(self.0 as int, self.1 as int, self.2 as int, other.0 as int, other.1 as int, other.2 as int),
        ensures
            r == dot3(self.0 as int, self.1 as int, self.2 as int, other.0 as int, other.1 as int, other.2 as int),
    {
        self.0 * other.0 + self.1 * other.1 + self.2 * other.2
    }

    /// The vector scaled by `k`.
    pub fn scale(self, k: u64) -> (r: ULVec)
        requires
            fits_u64(self.0 * k),
            fits_u64(self.1 * k),
            fits_u64(self.2 * k),
        ensures
            r == ULVec((self.0 * k) as u64, (self.1 * k) as u64, (self.2 * k) as u64),
    {
        ULVec(self.0 * k, self.1 * k, self.2 * k)
    }

}

} // verus!

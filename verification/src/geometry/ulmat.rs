//! Exact unsigned integer 3x3 matrices, stored column-major: the three
//! fields are the columns.

use vstd::prelude::*;

verus! {

use crate::geometry::ulvec::ULVec;
use crate::geometry::ulvec::dot3;
use crate::geometry::ulvec::dot3_fits;
use crate::geometry::ulvec::fits_u64;

/// An exact unsigned integer 3x3 matrix; the fields are its columns.
#[derive(Copy, Clone, Eq, PartialEq, Structural, Debug, Hash)]
pub struct ULMat(pub ULVec, pub ULVec, pub ULVec);

/// Holds when the componentwise combination of `m` and `o` under `f` stays
/// within `u64` range; `f` is applied entry by entry.
pub open spec fn entrywise_fits(m: ULMat, o: ULMat, f: spec_fn(int, int) -> int) -> bool {
    &&& fits_u64(f(m.0.0 as int, o.0.0 as int))
    &&& fits_u64(f(m.0.1 as int, o.0.1 as int))
    &&& fits_u64(f(m.0.2 as int, o.0.2 as int))
    &&& fits_u64(f(m.1.0 as int, o.1.0 as int))
    &&& fits_u64(f(m.1.1 as int, o.1.1 as int))
    &&& fits_u64(f(m.1.2 as int, o.1.2 as int))
    &&& fits_u64(f(m.2.0 as int, o.2.0 as int))
    &&& fits_u64(f(m.2.1 as int, o.2.1 as int))
    &&& fits_u64(f(m.2.2 as int, o.2.2 as int))
}

/// Row `i` of `m`, as a triple of unbounded integers; rows index across the
/// three column fields.
pub open spec fn spec_row(m: ULMat, i: int) -> (int, int, int) {
    if i == 0 {
        (m.0.0 as int, m.1.0 as int, m.2.0 as int)
    } else if i == 1 {
        (m.0.1 as int, m.1.1 as int, m.2.1 as int)
    } else {
        (m.0.2 as int, m.1.2 as int, m.2.2 as int)
    }
}

/// Column `j` of `m`, as a triple of unbounded integers.
pub open spec fn spec_col(m: ULMat, j: int) -> (int, int, int) {
    if j == 0 {
        (m.0.0 as int, m.0.1 as int, m.0.2 as int)
    } else if j == 1 {
        (m.1.0 as int, m.1.1 as int, m.1.2 as int)
    } else {
        (m.2.0 as int, m.2.1 as int, m.2.2 as int)
    }
}

/// Entry `(i, j)` of the mathematical matrix product `m * o`: row `i` of `m`
/// dotted with column `j` of `o`.
pub open spec fn spec_mul_entry(m: ULMat, o: ULMat, i: int, j: int) -> int {
    dot3(
        spec_row(m, i).0,
        spec_row(m, i).1,
        spec_row(m, i).2,
        spec_col(o, j).0,
        spec_col(o, j).1,
        spec_col(o, j).2,
    )
}

/// Holds when every entry of the product `m * o` can be computed
/// left-to-right in `u64` arithmetic without overflow.
pub open spec fn mul_fits(m: ULMat, o: ULMat) -> bool {
    &&& dot3_fits(spec_row(m, 0).0, spec_row(m, 0).1, spec_row(m, 0).2, spec_col(o, 0).0, spec_col(o, 0).1, spec_col(o, 0).2)
    &&& dot3_fits(spec_row(m, 1).0, spec_row(m, 1).1, spec_row(m, 1).2, spec_col(o, 0).0, spec_col(o, 0).1, spec_col(o, 0).2)
    &&& dot3_fits(spec_row(m, 2).0, spec_row(m, 2).1, spec_row(m, 2).2, spec_col(o, 0).0, spec_col(o, 0).1, spec_col(o, 0).2)
    &&& dot3_fits(spec_row(m, 0).0, spec_row(m, 0).1, spec_row(m, 0).2, spec_col(o, 1).0, spec_col(o, 1).1, spec_col(o, 1).2)
    &&& dot3_fits(spec_row(m, 1).0, spec_row(m, 1).1, spec_row(m, 1).2, spec_col(o, 1).0, spec_col(o, 1).1, spec_col(o, 1).2)
    &&& dot3_fits(spec_row(m, 2).0, spec_row(m, 2).1, spec_row(m, 2).2, spec_col(o, 1).0, spec_col(o, 1).1, spec_col(o, 1).2)
    &&& dot3_fits(spec_row(m, 0).0, spec_row(m, 0).1, spec_row(m, 0).2, spec_col(o, 2).0, spec_col(o, 2).1, spec_col(o, 2).2)
    &&& dot3_fits(spec_row(m, 1).0, spec_row(m, 1).1, spec_row(m, 1).2, spec_col(o, 2).0, spec_col(o, 2).1, spec_col(o, 2).2)
    &&& dot3_fits(spec_row(m, 2).0, spec_row(m, 2).1, spec_row(m, 2).2, spec_col(o, 2).0, spec_col(o, 2).1, spec_col(o, 2).2)
}

impl ULMat {
    /// Builds the matrix with columns `x`, `y`, `z`.
    pub fn new(x: ULVec, y: ULVec, z: ULVec) -> (r: ULMat)
        ensures
            r == ULMat(x, y, z),
    {
        ULMat(x, y, z)
    }

    /// The transpose.
    pub fn transpose(self) -> (r: ULMat)
        ensures
            r == ULMat(
                ULVec(self.0.0, self.1.0, self.2.0),
                ULVec(self.0.1, self.1.1, self.2.1),
                ULVec(self.0.2, self.1.2, self.2.2),
            ),
    {
        ULMat(
            ULVec(self.0.0, self.1.0, self.2.0),
            ULVec(self.0.1, self.1.1, self.2.1),
            ULVec(self.0.2, self.1.2, self.2.2),
        )
    }

    /// Builds the matrix from its three rows.
    pub fn create(row1: [u64; 3], row2: [u64; 3], row3: [u64; 3]) -> (r: ULMat)
        ensures
            r == ULMat(
                ULVec(row1[0], row2[0], row3[0]),
                ULVec(row1[1], row2[1], row3[1]),
                ULVec(row1[2], row2[2], row3[2]),
            ),
    {
        ULMat(
            ULVec(row1[0], row2[0], row3[0]),
            ULVec(row1[1], row2[1], row3[1]),
            ULVec(row1[2], row2[2], row3[2]),
        )
    }

    /// The zero matrix.
    pub fn zero() -> (r: ULMat)
        ensures
            r == ULMat(ULVec(0u64, 0u64, 0u64), ULVec(0u64, 0u64, 0u64), ULVec(0u64, 0u64, 0u64)),
    {
        ULMat(ULVec(0, 0, 0), ULVec(0, 0, 0), ULVec(0, 0, 0))
    }

    /// The identity matrix.
    pub fn identity() -> (r: ULMat)
        ensures
            r == ULMat(ULVec(1u64, 0u64, 0u64), ULVec(0u64, 1u64, 0u64), ULVec(0u64, 0u64, 1u64)),
    {
        ULMat(ULVec(1, 0, 0), ULVec(0, 1, 0), ULVec(0, 0, 1))
    }

    /// Componentwise sum.
    pub fn add(self, other: ULMat) -> (r: ULMat)
        requires
            entrywise_fits(self, other, |a: int, b: int| a + b),
        ensures
            r == ULMat(
                ULVec(
                    (self.0.0 + other.0.0) as u64,
                    (self.0.1 + other.0.1) as u64,
                    (self.0.2 + other.0.2) as u64,
                ),
                ULVec(
                    (self.1.0 + other.1.0) as u64,
                    (self.1.1 + other.1.1) as u64,
                    (self.1.2 + other.1.2) as u64,
                ),
                ULVec(
                    (self.2.0 + other.2.0) as u64,
                    (self.2.1 + other.2.1) as u64,
                    (self.2.2 + other.2.2) as u64,
                ),
            ),
    {
        ULMat(self.0.add(other.0), self.1.add(other.1), self.2.add(other.2))
    }

    /// Componentwise difference.
    pub fn sub(self, other: ULMat) -> (r: ULMat)
        requires
            entrywise_fits(self, other, |a: int, b: int| a - b),
        ensures
            r == ULMat(
                ULVec(
                    (self.0.0 - other.0.0) as u64,
                    (self.0.1 - other.0.1) as u64,
                    (self.0.2 - other.0.2) as u64,
                ),
                ULVec(
                    (self.1.0 - other.1.0) as u64,
                    (self.1.1 - other.1.1) as u64,
                    (self.1.2 - other.1.2) as u64,
                ),
                ULVec(
                    (self.2.0 - other.2.0) as u64,
                    (self.2.1 - other.2.1) as u64,
                    (self.2.2 - other.2.2) as u64,
                ),
            ),
    {
        ULMat(self.0.sub(other.0), self.1.sub(other.1), self.2.sub(other.2))
    }


    /// The matrix product `self * other`.
    pub fn mul(self, other: ULMat) -> (r: ULMat)
        requires
            mul_fits(self, other),
        ensures
            r == ULMat(
                ULVec(
                    spec_mul_entry(self, other, 0, 0) as u64,
                    spec_mul_entry(self, other, 1, 0) as u64,
                    spec_mul_entry(self, other, 2, 0) as u64,
                ),
                ULVec(
                    spec_mul_entry(self, other, 0, 1) as u64,
                    spec_mul_entry(self, other, 1, 1) as u64,
                    spec_mul_entry(self, other, 2, 1) as u64,
                ),
                ULVec(
                    spec_mul_entry(self, other, 0, 2) as u64,
                    spec_mul_entry(self, other, 1, 2) as u64,
                    spec_mul_entry(self, other, 2, 2) as u64,
                ),
            ),
    {
        let sa = self.0;
        let sb = self.1;
        let sc = self.2;
        let oa = other.0;
        let ob = other.1;
        let oc = other.2;
        ULMat(
            ULVec(
                (sa.0 * oa.0) + (sb.0 * oa.1) + (sc.0 * oa.2),
                (sa.1 * oa.0) + (sb.1 * oa.1) + (sc.1 * oa.2),
                (sa.2 * oa.0) + (sb.2 * oa.1) + (sc.2 * oa.2),
            ),
            ULVec(
                (sa.0 * ob.0) + (sb.0 * ob.1) + (sc.0 * ob.2),
                (sa.1 * ob.0) + (sb.1 * ob.1) + (sc.1 * ob.2),
                (sa.2 * ob.0) + (sb.2 * ob.1) + (sc.2 * ob.2),
            ),
            ULVec(
                (sa.0 * oc.0) + (sb.0 * oc.1) + (sc.0 * oc.2),
                (sa.1 * oc.0) + (sb.1 * oc.1) + (sc.1 * oc.2),
                (sa.2 * oc.0) + (sb.2 * oc.1) + (sc.2 * oc.2),
            ),
        )
    }

    /// The matrix applied to a vector: `self * v`.
    pub fn mul_vec(self, v: ULVec) -> (r: ULVec)
        requires
            dot3_fits(self.0.0 as int, self.1.0 as int, self.2.0 as int, v.0 as int, v.1 as int, v.2 as int),
            dot3_fits(self.0.1 as int, self.1.1 as int, self.2.1 as int, v.0 as int, v.1 as int, v.2 as int),
            dot3_fits(self.0.2 as int, self.1.2 as int, self.2.2 as int, v.0 as int, v.1 as int, v.2 as int),
        ensures
            r == ULVec(
                dot3(self.0.0 as int, self.1.0 as int, self.2.0 as int, v.0 as int, v.1 as int, v.2 as int) as u64,
                dot3(self.0.1 as int, self.1.1 as int, self.2.1 as int, v.0 as int, v.1 as int, v.2 as int) as u64,
                dot3(self.0.2 as int, self.1.2 as int, self.2.2 as int, v.0 as int, v.1 as int, v.2 as int) as u64,
            ),
    {
        ULVec(
            (self.0.0 * v.0) + (self.1.0 * v.1) + (self.2.0 * v.2),
            (self.0.1 * v.0) + (self.1.1 * v.1) + (self.2.1 * v.2),
            (self.0.2 * v.0) + (self.1.2 * v.1) + (self.2.2 * v.2),
        )
    }

    /// The matrix scaled by `k`.
    pub fn scale(self, k: u64) -> (r: ULMat)
        requires
            fits_u64(self.0.0 * k),
            fits_u64(self.0.1 * k),
            fits_u64(self.0.2 * k),
            fits_u64(self.1.0 * k),
            fits_u64(self.1.1 * k),
            fits_u64(self.1.2 * k),
            fits_u64(self.2.0 * k),
            fits_u64(self.2.1 * k),
            fits_u64(self.2.2 * k),
        ensures
            r == ULMat(
                ULVec((self.0.0 * k) as u64, (self.0.1 * k) as u64, (self.0.2 * k) as u64),
                ULVec((self.1.0 * k) as u64, (self.1.1 * k) as u64, (self.1.2 * k) as u64),
                ULVec((self.2.0 * k) as u64, (self.2.1 * k) as u64, (self.2.2 * k) as u64),
            ),
    {
        ULMat(self.0.scale(k), self.1.scale(k), self.2.scale(k))
    }
}

} // verus!

//! Exact integer 3x3 matrices, stored column-major: the three fields are the
//! columns.  Used for inertia tensors about the body origin, which are
//! accumulated exactly.

use vstd::prelude::*;

verus! {

use crate::geometry::lvec::LVec;
use crate::geometry::lvec::dot3;
use crate::geometry::lvec::dot3_fits;
use crate::geometry::lvec::fits_i64;

/// An exact integer 3x3 matrix; the fields are its columns.
#[derive(Copy, Clone, Eq, PartialEq, Structural, Debug, Hash)]
pub struct LMat(pub LVec, pub LVec, pub LVec);

/// Holds when the componentwise combination of `m` and `o` under `f` stays
/// within `i64` range; `f` is applied entry by entry.
pub open spec fn entrywise_fits(m: LMat, o: LMat, f: spec_fn(int, int) -> int) -> bool {
    &&& fits_i64(f(m.0.0 as int, o.0.0 as int))
    &&& fits_i64(f(m.0.1 as int, o.0.1 as int))
    &&& fits_i64(f(m.0.2 as int, o.0.2 as int))
    &&& fits_i64(f(m.1.0 as int, o.1.0 as int))
    &&& fits_i64(f(m.1.1 as int, o.1.1 as int))
    &&& fits_i64(f(m.1.2 as int, o.1.2 as int))
    &&& fits_i64(f(m.2.0 as int, o.2.0 as int))
    &&& fits_i64(f(m.2.1 as int, o.2.1 as int))
    &&& fits_i64(f(m.2.2 as int, o.2.2 as int))
}

/// Row `i` of `m`, as a triple of unbounded integers; rows index across the
/// three column fields.
pub open spec fn spec_row(m: LMat, i: int) -> (int, int, int) {
    if i == 0 {
        (m.0.0 as int, m.1.0 as int, m.2.0 as int)
    } else if i == 1 {
        (m.0.1 as int, m.1.1 as int, m.2.1 as int)
    } else {
        (m.0.2 as int, m.1.2 as int, m.2.2 as int)
    }
}

/// Column `j` of `m`, as a triple of unbounded integers.
pub open spec fn spec_col(m: LMat, j: int) -> (int, int, int) {
    if j == 0 {
        (m.0.0 as int, m.0.1 as int, m.0.2 as int)
    } else if j == 1 {
        (m.1.0 as int, m.1.1 as int, m.1.2 as int)
    } else {
        (m.2.0 as int, m.2.1 as int, m.2.2 as int)
    }
}

/// Entry `(i, j)` of the mathematical matrix product `m * o`: row `i` of `m`
/// dotted with column `j` of `o`.
pub open spec fn spec_mul_entry(m: LMat, o: LMat, i: int, j: int) -> int {
    dot3(
        spec_row(m, i).0,
        spec_row(m, i).1,
        spec_row(m, i).2,
        spec_col(o, j).0,
        spec_col(o, j).1,
        spec_col(o, j).2,
    )
}

/// Holds when every entry of the product `m * o` can be computed
/// left-to-right in `i64` arithmetic without overflow.
pub open spec fn mul_fits(m: LMat, o: LMat) -> bool {
    &&& dot3_fits(spec_row(m, 0).0, spec_row(m, 0).1, spec_row(m, 0).2, spec_col(o, 0).0, spec_col(o, 0).1, spec_col(o, 0).2)
    &&& dot3_fits(spec_row(m, 1).0, spec_row(m, 1).1, spec_row(m, 1).2, spec_col(o, 0).0, spec_col(o, 0).1, spec_col(o, 0).2)
    &&& dot3_fits(spec_row(m, 2).0, spec_row(m, 2).1, spec_row(m, 2).2, spec_col(o, 0).0, spec_col(o, 0).1, spec_col(o, 0).2)
    &&& dot3_fits(spec_row(m, 0).0, spec_row(m, 0).1, spec_row(m, 0).2, spec_col(o, 1).0, spec_col(o, 1).1, spec_col(o, 1).2)
    &&& dot3_fits(spec_row(m, 1).0, spec_row(m, 1).1, spec_row(m, 1).2, spec_col(o, 1).0, spec_col(o, 1).1, spec_col(o, 1).2)
    &&& dot3_fits(spec_row(m, 2).0, spec_row(m, 2).1, spec_row(m, 2).2, spec_col(o, 1).0, spec_col(o, 1).1, spec_col(o, 1).2)
    &&& dot3_fits(spec_row(m, 0).0, spec_row(m, 0).1, spec_row(m, 0).2, spec_col(o, 2).0, spec_col(o, 2).1, spec_col(o, 2).2)
    &&& dot3_fits(spec_row(m, 1).0, spec_row(m, 1).1, spec_row(m, 1).2, spec_col(o, 2).0, spec_col(o, 2).1, spec_col(o, 2).2)
    &&& dot3_fits(spec_row(m, 2).0, spec_row(m, 2).1, spec_row(m, 2).2, spec_col(o, 2).0, spec_col(o, 2).1, spec_col(o, 2).2)
}

impl LMat {
    /// Builds the matrix with columns `x`, `y`, `z`.
    pub fn new(x: LVec, y: LVec, z: LVec) -> (r: LMat)
        ensures
            r == LMat(x, y, z),
    {
        LMat(x, y, z)
    }

    /// The transpose.
    pub fn transpose(self) -> (r: LMat)
        ensures
            r == LMat(
                LVec(self.0.0, self.1.0, self.2.0),
                LVec(self.0.1, self.1.1, self.2.1),
                LVec(self.0.2, self.1.2, self.2.2),
            ),
    {
        LMat(
            LVec(self.0.0, self.1.0, self.2.0),
            LVec(self.0.1, self.1.1, self.2.1),
            LVec(self.0.2, self.1.2, self.2.2),
        )
    }

    /// Builds the matrix from its three rows.
    pub fn create(row1: [i64; 3], row2: [i64; 3], row3: [i64; 3]) -> (r: LMat)
        ensures
            r == LMat(
                LVec(row1[0], row2[0], row3[0]),
                LVec(row1[1], row2[1], row3[1]),
                LVec(row1[2], row2[2], row3[2]),
            ),
    {
        LMat(
            LVec(row1[0], row2[0], row3[0]),
            LVec(row1[1], row2[1], row3[1]),
            LVec(row1[2], row2[2], row3[2]),
        )
    }

    /// The zero matrix.
    pub fn zero() -> (r: LMat)
        ensures
            r == LMat(LVec(0i64, 0i64, 0i64), LVec(0i64, 0i64, 0i64), LVec(0i64, 0i64, 0i64)),
    {
        LMat(LVec(0, 0, 0), LVec(0, 0, 0), LVec(0, 0, 0))
    }

    /// The identity matrix.
    pub fn identity() -> (r: LMat)
        ensures
            r == LMat(LVec(1i64, 0i64, 0i64), LVec(0i64, 1i64, 0i64), LVec(0i64, 0i64, 1i64)),
    {
        LMat(LVec(1, 0, 0), LVec(0, 1, 0), LVec(0, 0, 1))
    }

    /// Componentwise sum.
    pub fn add(self, other: LMat) -> (r: LMat)
        requires
            entrywise_fits(self, other, |a: int, b: int| a + b),
        ensures
            r == LMat(
                LVec(
                    (self.0.0 + other.0.0) as i64,
                    (self.0.1 + other.0.1) as i64,
                    (self.0.2 + other.0.2) as i64,
                ),
                LVec(
                    (self.1.0 + other.1.0) as i64,
                    (self.1.1 + other.1.1) as i64,
                    (self.1.2 + other.1.2) as i64,
                ),
                LVec(
                    (self.2.0 + other.2.0) as i64,
                    (self.2.1 + other.2.1) as i64,
                    (self.2.2 + other.2.2) as i64,
                ),
            ),
    {
        LMat(self.0.add(other.0), self.1.add(other.1), self.2.add(other.2))
    }

    /// Componentwise difference.
    pub fn sub(self, other: LMat) -> (r: LMat)
        requires
            entrywise_fits(self, other, |a: int, b: int| a - b),
        ensures
            r == LMat(
                LVec(
                    (self.0.0 - other.0.0) as i64,
                    (self.0.1 - other.0.1) as i64,
                    (self.0.2 - other.0.2) as i64,
                ),
                LVec(
                    (self.1.0 - other.1.0) as i64,
                    (self.1.1 - other.1.1) as i64,
                    (self.1.2 - other.1.2) as i64,
                ),
                LVec(
                    (self.2.0 - other.2.0) as i64,
                    (self.2.1 - other.2.1) as i64,
                    (self.2.2 - other.2.2) as i64,
                ),
            ),
    {
        LMat(self.0.sub(other.0), self.1.sub(other.1), self.2.sub(other.2))
    }

    /// Componentwise negation.
    pub fn neg(self) -> (r: LMat)
        requires
            self.0.0 > i64::MIN,
            self.0.1 > i64::MIN,
            self.0.2 > i64::MIN,
            self.1.0 > i64::MIN,
            self.1.1 > i64::MIN,
            self.1.2 > i64::MIN,
            self.2.0 > i64::MIN,
            self.2.1 > i64::MIN,
            self.2.2 > i64::MIN,
        ensures
            r == LMat(
                LVec((-self.0.0) as i64, (-self.0.1) as i64, (-self.0.2) as i64),
                LVec((-self.1.0) as i64, (-self.1.1) as i64, (-self.1.2) as i64),
                LVec((-self.2.0) as i64, (-self.2.1) as i64, (-self.2.2) as i64),
            ),
    {
        LMat(self.0.neg(), self.1.neg(), self.2.neg())
    }

    /// The matrix product `self * other`.
    pub fn mul(self, other: LMat) -> (r: LMat)
        requires
            mul_fits(self, other),
        ensures
            r == LMat(
                LVec(
                    spec_mul_entry(self, other, 0, 0) as i64,
                    spec_mul_entry(self, other, 1, 0) as i64,
                    spec_mul_entry(self, other, 2, 0) as i64,
                ),
                LVec(
                    spec_mul_entry(self, other, 0, 1) as i64,
                    spec_mul_entry(self, other, 1, 1) as i64,
                    spec_mul_entry(self, other, 2, 1) as i64,
                ),
                LVec(
                    spec_mul_entry(self, other, 0, 2) as i64,
                    spec_mul_entry(self, other, 1, 2) as i64,
                    spec_mul_entry(self, other, 2, 2) as i64,
                ),
            ),
    {
        let sa = self.0;
        let sb = self.1;
        let sc = self.2;
        let oa = other.0;
        let ob = other.1;
        let oc = other.2;
        LMat(
            LVec(
                (sa.0 * oa.0) + (sb.0 * oa.1) + (sc.0 * oa.2),
                (sa.1 * oa.0) + (sb.1 * oa.1) + (sc.1 * oa.2),
                (sa.2 * oa.0) + (sb.2 * oa.1) + (sc.2 * oa.2),
            ),
            LVec(
                (sa.0 * ob.0) + (sb.0 * ob.1) + (sc.0 * ob.2),
                (sa.1 * ob.0) + (sb.1 * ob.1) + (sc.1 * ob.2),
                (sa.2 * ob.0) + (sb.2 * ob.1) + (sc.2 * ob.2),
            ),
            LVec(
                (sa.0 * oc.0) + (sb.0 * oc.1) + (sc.0 * oc.2),
                (sa.1 * oc.0) + (sb.1 * oc.1) + (sc.1 * oc.2),
                (sa.2 * oc.0) + (sb.2 * oc.1) + (sc.2 * oc.2),
            ),
        )
    }

    /// The matrix applied to a vector: `self * v`.
    pub fn mul_vec(self, v: LVec) -> (r: LVec)
        requires
            dot3_fits(self.0.0 as int, self.1.0 as int, self.2.0 as int, v.0 as int, v.1 as int, v.2 as int),
            dot3_fits(self.0.1 as int, self.1.1 as int, self.2.1 as int, v.0 as int, v.1 as int, v.2 as int),
            dot3_fits(self.0.2 as int, self.1.2 as int, self.2.2 as int, v.0 as int, v.1 as int, v.2 as int),
        ensures
            r == LVec(
                dot3(self.0.0 as int, self.1.0 as int, self.2.0 as int, v.0 as int, v.1 as int, v.2 as int) as i64,
                dot3(self.0.1 as int, self.1.1 as int, self.2.1 as int, v.0 as int, v.1 as int, v.2 as int) as i64,
                dot3(self.0.2 as int, self.1.2 as int, self.2.2 as int, v.0 as int, v.1 as int, v.2 as int) as i64,
            ),
    {
        LVec(
            (self.0.0 * v.0) + (self.1.0 * v.1) + (self.2.0 * v.2),
            (self.0.1 * v.0) + (self.1.1 * v.1) + (self.2.1 * v.2),
            (self.0.2 * v.0) + (self.1.2 * v.1) + (self.2.2 * v.2),
        )
    }

    /// The matrix scaled by `k`.
    pub fn scale(self, k: i64) -> (r: LMat)
        requires
            fits_i64(self.0.0 * k),
            fits_i64(self.0.1 * k),
            fits_i64(self.0.2 * k),
            fits_i64(self.1.0 * k),
            fits_i64(self.1.1 * k),
            fits_i64(self.1.2 * k),
            fits_i64(self.2.0 * k),
            fits_i64(self.2.1 * k),
            fits_i64(self.2.2 * k),
        ensures
            r == LMat(
                LVec((self.0.0 * k) as i64, (self.0.1 * k) as i64, (self.0.2 * k) as i64),
                LVec((self.1.0 * k) as i64, (self.1.1 * k) as i64, (self.1.2 * k) as i64),
                LVec((self.2.0 * k) as i64, (self.2.1 * k) as i64, (self.2.2 * k) as i64),
            ),
    {
        LMat(self.0.scale(k), self.1.scale(k), self.2.scale(k))
    }
}

} // verus!

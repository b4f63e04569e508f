//! Fixed-point 3x3 matrices, stored column-major like their exact-integer
//! counterparts: rotation matrices and inertia tensors about the center of
//! mass.

use vstd::prelude::*;

verus! {

use crate::geometry::fx::FX_SCALE;
use crate::geometry::fx::Fx;
use crate::geometry::fx::fx_div_raw;
use crate::geometry::fx::fx_mul_raw;
use crate::geometry::fxvec::FxVec;
use crate::geometry::lvec::fits_i64;

/// A fixed-point 3x3 matrix; the fields are its columns.
#[derive(Copy, Clone, Eq, PartialEq, Structural, Debug, Hash)]
pub struct FxMat(pub FxVec, pub FxVec, pub FxVec);

/// The fixed-point dot product of `(a1, a2, a3)` and `(b1, b2, b3)` over raw
/// representations: each product floored separately, then summed.
pub open spec fn fx_dot3_raw(a1: int, a2: int, a3: int, b1: int, b2: int, b3: int) -> int {
    fx_mul_raw(a1, b1) + fx_mul_raw(a2, b2) + fx_mul_raw(a3, b3)
}

/// Holds when the fixed-point dot product can be computed in `i64`
/// arithmetic without overflow.
pub open spec fn fx_dot3_fits(a1: int, a2: int, a3: int, b1: int, b2: int, b3: int) -> bool {
    &&& fits_i64(fx_mul_raw(a1, b1))
    &&& fits_i64(fx_mul_raw(a2, b2))
    &&& fits_i64(fx_mul_raw(a3, b3))
    &&& fits_i64(fx_mul_raw(a1, b1) + fx_mul_raw(a2, b2))
    &&& fits_i64(fx_dot3_raw(a1, a2, a3, b1, b2, b3))
}

/// Row `i` of `m` as raw integers.
pub open spec fn fx_row(m: FxMat, i: int) -> (int, int, int) {
    if i == 0 {
        (m.0.x.0 as int, m.1.x.0 as int, m.2.x.0 as int)
    } else if i == 1 {
        (m.0.y.0 as int, m.1.y.0 as int, m.2.y.0 as int)
    } else {
        (m.0.z.0 as int, m.1.z.0 as int, m.2.z.0 as int)
    }
}

/// Column `j` of `m` as raw integers.
pub open spec fn fx_col(m: FxMat, j: int) -> (int, int, int) {
    if j == 0 {
        (m.0.x.0 as int, m.0.y.0 as int, m.0.z.0 as int)
    } else if j == 1 {
        (m.1.x.0 as int, m.1.y.0 as int, m.1.z.0 as int)
    } else {
        (m.2.x.0 as int, m.2.y.0 as int, m.2.z.0 as int)
    }
}

/// Raw entry `(i, j)` of the fixed-point matrix product `m * o`.
pub open spec fn fx_mul_entry(m: FxMat, o: FxMat, i: int, j: int) -> int {
    fx_dot3_raw(
        fx_row(m, i).0,
        fx_row(m, i).1,
        fx_row(m, i).2,
        fx_col(o, j).0,
        fx_col(o, j).1,
        fx_col(o, j).2,
    )
}

/// Holds when every entry of the fixed-point product `m * o` fits.
pub open spec fn fx_mul_fits(m: FxMat, o: FxMat) -> bool {
    forall|i: int, j: int|
        0 <= i < 3 && 0 <= j < 3 ==> #[trigger] fx_dot3_fits(
            fx_row(m, i).0,
            fx_row(m, i).1,
            fx_row(m, i).2,
            fx_col(o, j).0,
            fx_col(o, j).1,
            fx_col(o, j).2,
        )
}

/// The fixed-point matrix product as a value, entry by entry.
pub open spec fn spec_mat_mul(m: FxMat, o: FxMat) -> FxMat {
    FxMat(
        FxVec {
            x: Fx(fx_mul_entry(m, o, 0, 0) as i64),
            y: Fx(fx_mul_entry(m, o, 1, 0) as i64),
            z: Fx(fx_mul_entry(m, o, 2, 0) as i64),
        },
        FxVec {
            x: Fx(fx_mul_entry(m, o, 0, 1) as i64),
            y: Fx(fx_mul_entry(m, o, 1, 1) as i64),
            z: Fx(fx_mul_entry(m, o, 2, 1) as i64),
        },
        FxVec {
            x: Fx(fx_mul_entry(m, o, 0, 2) as i64),
            y: Fx(fx_mul_entry(m, o, 1, 2) as i64),
            z: Fx(fx_mul_entry(m, o, 2, 2) as i64),
        },
    )
}

/// The transpose as a value.
pub open spec fn spec_transpose(m: FxMat) -> FxMat {
    FxMat(
        FxVec { x: m.0.x, y: m.1.x, z: m.2.x },
        FxVec { x: m.0.y, y: m.1.y, z: m.2.y },
        FxVec { x: m.0.z, y: m.1.z, z: m.2.z },
    )
}

/// The fixed-point matrix-vector product as a value.
pub open spec fn spec_mat_vec(m: FxMat, v: FxVec) -> FxVec {
    FxVec {
        x: Fx(
            fx_dot3_raw(
                fx_row(m, 0).0,
                fx_row(m, 0).1,
                fx_row(m, 0).2,
                v.x.0 as int,
                v.y.0 as int,
                v.z.0 as int,
            ) as i64,
        ),
        y: Fx(
            fx_dot3_raw(
                fx_row(m, 1).0,
                fx_row(m, 1).1,
                fx_row(m, 1).2,
                v.x.0 as int,
                v.y.0 as int,
                v.z.0 as int,
            ) as i64,
        ),
        z: Fx(
            fx_dot3_raw(
                fx_row(m, 2).0,
                fx_row(m, 2).1,
                fx_row(m, 2).2,
                v.x.0 as int,
                v.y.0 as int,
                v.z.0 as int,
            ) as i64,
        ),
    }
}

/// Holds when the fixed-point matrix-vector product fits.
pub open spec fn mat_vec_fits(m: FxMat, v: FxVec) -> bool {
    forall|i: int|
        0 <= i < 3 ==> #[trigger] fx_dot3_fits(
            fx_row(m, i).0,
            fx_row(m, i).1,
            fx_row(m, i).2,
            v.x.0 as int,
            v.y.0 as int,
            v.z.0 as int,
        )
}

impl FxMat {
    /// Builds the matrix with columns `x`, `y`, `z`.
    pub fn new(x: FxVec, y: FxVec, z: FxVec) -> (r: FxMat)
        ensures
            r == FxMat(x, y, z),
    {
        FxMat(x, y, z)
    }

    /// The identity matrix.
    pub fn identity() -> (r: FxMat)
        ensures
            r == spec_identity(),
    {
        FxMat(
            FxVec { x: Fx(FX_SCALE), y: Fx(0), z: Fx(0) },
            FxVec { x: Fx(0), y: Fx(FX_SCALE), z: Fx(0) },
            FxVec { x: Fx(0), y: Fx(0), z: Fx(FX_SCALE) },
        )
    }

    /// The transpose.
    pub fn transpose(self) -> (r: FxMat)
        ensures
            r == spec_transpose(self),
    {
        FxMat(
            FxVec { x: self.0.x, y: self.1.x, z: self.2.x },
            FxVec { x: self.0.y, y: self.1.y, z: self.2.y },
            FxVec { x: self.0.z, y: self.1.z, z: self.2.z },
        )
    }

    /// Columnwise sum.
    pub fn add(self, other: FxMat) -> (r: FxMat)
        requires
            fits_i64(self.0.x.0 + other.0.x.0),
            fits_i64(self.0.y.0 + other.0.y.0),
            fits_i64(self.0.z.0 + other.0.z.0),
            fits_i64(self.1.x.0 + other.1.x.0),
            fits_i64(self.1.y.0 + other.1.y.0),
            fits_i64(self.1.z.0 + other.1.z.0),
            fits_i64(self.2.x.0 + other.2.x.0),
            fits_i64(self.2.y.0 + other.2.y.0),
            fits_i64(self.2.z.0 + other.2.z.0),
        ensures
            r == FxMat(
                FxVec {
                    x: Fx((self.0.x.0 + other.0.x.0) as i64),
                    y: Fx((self.0.y.0 + other.0.y.0) as i64),
                    z: Fx((self.0.z.0 + other.0.z.0) as i64),
                },
                FxVec {
                    x: Fx((self.1.x.0 + other.1.x.0) as i64),
                    y: Fx((self.1.y.0 + other.1.y.0) as i64),
                    z: Fx((self.1.z.0 + other.1.z.0) as i64),
                },
                FxVec {
                    x: Fx((self.2.x.0 + other.2.x.0) as i64),
                    y: Fx((self.2.y.0 + other.2.y.0) as i64),
                    z: Fx((self.2.z.0 + other.2.z.0) as i64),
                },
            ),
    {
        FxMat(self.0.add(other.0), self.1.add(other.1), self.2.add(other.2))
    }

    /// The fixed-point matrix product `self * other`.
    pub fn mul(self, other: FxMat) -> (r: FxMat)
        requires
            fx_mul_fits(self, other),
        ensures
            r == spec_mat_mul(self, other),
    {
        proof {
            assert forall|i: int| 0 <= i < 3 implies #[trigger] fx_dot3_fits(
                fx_row(self, i).0,
                fx_row(self, i).1,
                fx_row(self, i).2,
                other.0.x.0 as int,
                other.0.y.0 as int,
                other.0.z.0 as int,
            ) by {
                assert(fx_dot3_fits(
                    fx_row(self, i).0,
                    fx_row(self, i).1,
                    fx_row(self, i).2,
                    fx_col(other, 0).0,
                    fx_col(other, 0).1,
                    fx_col(other, 0).2,
                ));
            }
            assert forall|i: int| 0 <= i < 3 implies #[trigger] fx_dot3_fits(
                fx_row(self, i).0,
                fx_row(self, i).1,
                fx_row(self, i).2,
                other.1.x.0 as int,
                other.1.y.0 as int,
                other.1.z.0 as int,
            ) by {
                assert(fx_dot3_fits(
                    fx_row(self, i).0,
                    fx_row(self, i).1,
                    fx_row(self, i).2,
                    fx_col(other, 1).0,
                    fx_col(other, 1).1,
                    fx_col(other, 1).2,
                ));
            }
            assert forall|i: int| 0 <= i < 3 implies #[trigger] fx_dot3_fits(
                fx_row(self, i).0,
                fx_row(self, i).1,
                fx_row(self, i).2,
                other.2.x.0 as int,
                other.2.y.0 as int,
                other.2.z.0 as int,
            ) by {
                assert(fx_dot3_fits(
                    fx_row(self, i).0,
                    fx_row(self, i).1,
                    fx_row(self, i).2,
                    fx_col(other, 2).0,
                    fx_col(other, 2).1,
                    fx_col(other, 2).2,
                ));
            }
            assert(mat_vec_fits(self, other.0));
            assert(mat_vec_fits(self, other.1));
            assert(mat_vec_fits(self, other.2));
        }
        FxMat(
            self.mul_vec(other.0),
            self.mul_vec(other.1),
            self.mul_vec(other.2),
        )
    }

    /// The fixed-point matrix applied to a vector: `self * v`.
    pub fn mul_vec(self, v: FxVec) -> (r: FxVec)
        requires
            mat_vec_fits(self, v),
        ensures
            r == spec_mat_vec(self, v),
    {
        proof {
            assert(fx_dot3_fits(
                fx_row(self, 0).0,
                fx_row(self, 0).1,
                fx_row(self, 0).2,
                v.x.0 as int,
                v.y.0 as int,
                v.z.0 as int,
            ));
            assert(fx_dot3_fits(
                fx_row(self, 1).0,
                fx_row(self, 1).1,
                fx_row(self, 1).2,
                v.x.0 as int,
                v.y.0 as int,
                v.z.0 as int,
            ));
            assert(fx_dot3_fits(
                fx_row(self, 2).0,
                fx_row(self, 2).1,
                fx_row(self, 2).2,
                v.x.0 as int,
                v.y.0 as int,
                v.z.0 as int,
            ));
        }
        FxVec {
            x: self.0.x.mul(v.x).add(self.1.x.mul(v.y)).add(self.2.x.mul(v.z)),
            y: self.0.y.mul(v.x).add(self.1.y.mul(v.y)).add(self.2.y.mul(v.z)),
            z: self.0.z.mul(v.x).add(self.1.z.mul(v.y)).add(self.2.z.mul(v.z)),
        }
    }
}

/// The fixed-point identity matrix as a value.
pub open spec fn spec_identity() -> FxMat {
    FxMat(
        FxVec { x: Fx(FX_SCALE), y: Fx(0i64), z: Fx(0i64) },
        FxVec { x: Fx(0i64), y: Fx(FX_SCALE), z: Fx(0i64) },
        FxVec { x: Fx(0i64), y: Fx(0i64), z: Fx(FX_SCALE) },
    )
}

/// The raw fixed-point determinant of `m` by cofactor expansion along the
/// first row, every product floored.
pub open spec fn spec_det_raw(m: FxMat) -> int {
    let a = m.0.x.0 as int;
    let b = m.1.x.0 as int;
    let c = m.2.x.0 as int;
    let d = m.0.y.0 as int;
    let e = m.1.y.0 as int;
    let f = m.2.y.0 as int;
    let g = m.0.z.0 as int;
    let h = m.1.z.0 as int;
    let i = m.2.z.0 as int;
    fx_mul_raw(a, fx_mul_raw(e, i) - fx_mul_raw(f, h)) - fx_mul_raw(
        b,
        fx_mul_raw(d, i) - fx_mul_raw(f, g),
    ) + fx_mul_raw(c, fx_mul_raw(d, h) - fx_mul_raw(e, g))
}

/// The raw adjugate entries of `m`: entry `(i, j)` of the inverse before
/// division by the determinant, column-major.
pub open spec fn spec_adj_raw(m: FxMat) -> FxMat {
    let a = m.0.x.0 as int;
    let b = m.1.x.0 as int;
    let c = m.2.x.0 as int;
    let d = m.0.y.0 as int;
    let e = m.1.y.0 as int;
    let f = m.2.y.0 as int;
    let g = m.0.z.0 as int;
    let h = m.1.z.0 as int;
    let i = m.2.z.0 as int;
    FxMat(
        FxVec {
            x: Fx((fx_mul_raw(e, i) - fx_mul_raw(f, h)) as i64),
            y: Fx((fx_mul_raw(f, g) - fx_mul_raw(d, i)) as i64),
            z: Fx((fx_mul_raw(d, h) - fx_mul_raw(e, g)) as i64),
        },
        FxVec {
            x: Fx((fx_mul_raw(c, h) - fx_mul_raw(b, i)) as i64),
            y: Fx((fx_mul_raw(a, i) - fx_mul_raw(c, g)) as i64),
            z: Fx((fx_mul_raw(b, g) - fx_mul_raw(a, h)) as i64),
        },
        FxVec {
            x: Fx((fx_mul_raw(b, f) - fx_mul_raw(c, e)) as i64),
            y: Fx((fx_mul_raw(c, d) - fx_mul_raw(a, f)) as i64),
            z: Fx((fx_mul_raw(a, e) - fx_mul_raw(b, d)) as i64),
        },
    )
}

/// The fixed-point inverse of `m`: each adjugate entry divided by the
/// determinant, floored.
pub open spec fn spec_inversed(m: FxMat) -> FxMat {
    let det = spec_det_raw(m);
    let adj = spec_adj_raw(m);
    FxMat(
        FxVec {
            x: Fx(fx_div_raw(adj.0.x.0 as int, det) as i64),
            y: Fx(fx_div_raw(adj.0.y.0 as int, det) as i64),
            z: Fx(fx_div_raw(adj.0.z.0 as int, det) as i64),
        },
        FxVec {
            x: Fx(fx_div_raw(adj.1.x.0 as int, det) as i64),
            y: Fx(fx_div_raw(adj.1.y.0 as int, det) as i64),
            z: Fx(fx_div_raw(adj.1.z.0 as int, det) as i64),
        },
        FxVec {
            x: Fx(fx_div_raw(adj.2.x.0 as int, det) as i64),
            y: Fx(fx_div_raw(adj.2.y.0 as int, det) as i64),
            z: Fx(fx_div_raw(adj.2.z.0 as int, det) as i64),
        },
    )
}

/// Holds when the inverse computation fits `i64` arithmetic and the
/// determinant is positive, as it is for the inertia tensors inverted here.
pub open spec fn inverse_fits(m: FxMat) -> bool {
    let a = m.0.x.0 as int;
    let b = m.1.x.0 as int;
    let c = m.2.x.0 as int;
    let d = m.0.y.0 as int;
    let e = m.1.y.0 as int;
    let f = m.2.y.0 as int;
    let g = m.0.z.0 as int;
    let h = m.1.z.0 as int;
    let i = m.2.z.0 as int;
    let det = spec_det_raw(m);
    let adj = spec_adj_raw(m);
    &&& fits_i64(fx_mul_raw(e, i))
    &&& fits_i64(fx_mul_raw(f, h))
    &&& fits_i64(fx_mul_raw(d, i))
    &&& fits_i64(fx_mul_raw(f, g))
    &&& fits_i64(fx_mul_raw(d, h))
    &&& fits_i64(fx_mul_raw(e, g))
    &&& fits_i64(fx_mul_raw(c, h))
    &&& fits_i64(fx_mul_raw(b, i))
    &&& fits_i64(fx_mul_raw(a, i))
    &&& fits_i64(fx_mul_raw(c, g))
    &&& fits_i64(fx_mul_raw(b, g))
    &&& fits_i64(fx_mul_raw(a, h))
    &&& fits_i64(fx_mul_raw(b, f))
    &&& fits_i64(fx_mul_raw(c, e))
    &&& fits_i64(fx_mul_raw(c, d))
    &&& fits_i64(fx_mul_raw(a, f))
    &&& fits_i64(fx_mul_raw(a, e))
    &&& fits_i64(fx_mul_raw(b, d))
    &&& fits_i64(fx_mul_raw(e, i) - fx_mul_raw(f, h))
    &&& fits_i64(fx_mul_raw(f, g) - fx_mul_raw(d, i))
    &&& fits_i64(fx_mul_raw(d, h) - fx_mul_raw(e, g))
    &&& fits_i64(fx_mul_raw(c, h) - fx_mul_raw(b, i))
    &&& fits_i64(fx_mul_raw(a, i) - fx_mul_raw(c, g))
    &&& fits_i64(fx_mul_raw(b, g) - fx_mul_raw(a, h))
    &&& fits_i64(fx_mul_raw(b, f) - fx_mul_raw(c, e))
    &&& fits_i64(fx_mul_raw(c, d) - fx_mul_raw(a, f))
    &&& fits_i64(fx_mul_raw(a, e) - fx_mul_raw(b, d))
    &&& fits_i64(fx_mul_raw(d, i) - fx_mul_raw(f, g))
    &&& fits_i64(fx_mul_raw(a, fx_mul_raw(e, i) - fx_mul_raw(f, h)))
    &&& fits_i64(fx_mul_raw(b, fx_mul_raw(d, i) - fx_mul_raw(f, g)))
    &&& fits_i64(fx_mul_raw(c, fx_mul_raw(d, h) - fx_mul_raw(e, g)))
    &&& fits_i64(
        fx_mul_raw(a, fx_mul_raw(e, i) - fx_mul_raw(f, h)) - fx_mul_raw(
            b,
            fx_mul_raw(d, i) - fx_mul_raw(f, g),
        ),
    )
    &&& fits_i64(det)
    &&& det > 0
    &&& fits_i64(fx_div_raw(adj.0.x.0 as int, det))
    &&& fits_i64(fx_div_raw(adj.0.y.0 as int, det))
    &&& fits_i64(fx_div_raw(adj.0.z.0 as int, det))
    &&& fits_i64(fx_div_raw(adj.1.x.0 as int, det))
    &&& fits_i64(fx_div_raw(adj.1.y.0 as int, det))
    &&& fits_i64(fx_div_raw(adj.1.z.0 as int, det))
    &&& fits_i64(fx_div_raw(adj.2.x.0 as int, det))
    &&& fits_i64(fx_div_raw(adj.2.y.0 as int, det))
    &&& fits_i64(fx_div_raw(adj.2.z.0 as int, det))
}

impl FxMat {
    /// The fixed-point inverse: the adjugate divided by the determinant,
    /// every product and quotient floored.  The determinant must be
    /// positive, as it is for the inertia tensors inverted here.
    pub fn inversed(self) -> (r: FxMat)
        requires
            inverse_fits(self),
        ensures
            r == spec_inversed(self),
    {
        let a = self.0.x;
        let b = self.1.x;
        let c = self.2.x;
        let d = self.0.y;
        let e = self.1.y;
        let f = self.2.y;
        let g = self.0.z;
        let h = self.1.z;
        let i = self.2.z;
        let m00 = e.mul(i).sub(f.mul(h));
        let m01 = f.mul(g).sub(d.mul(i));
        let m02 = d.mul(h).sub(e.mul(g));
        let m10 = c.mul(h).sub(b.mul(i));
        let m11 = a.mul(i).sub(c.mul(g));
        let m12 = b.mul(g).sub(a.mul(h));
        let m20 = b.mul(f).sub(c.mul(e));
        let m21 = c.mul(d).sub(a.mul(f));
        let m22 = a.mul(e).sub(b.mul(d));
        let det = a.mul(m00).sub(b.mul(d.mul(i).sub(f.mul(g)))).add(c.mul(m02));
        FxMat(
            FxVec { x: m00.div_pos(det), y: m01.div_pos(det), z: m02.div_pos(det) },
            FxVec { x: m10.div_pos(det), y: m11.div_pos(det), z: m12.div_pos(det) },
            FxVec { x: m20.div_pos(det), y: m21.div_pos(det), z: m22.div_pos(det) },
        )
    }
}


} // verus!

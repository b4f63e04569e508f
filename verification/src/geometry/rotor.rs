//! Rotations as rotors: the unit-quaternion-equivalent representation used
//! for world transforms and angular integration.
//!
//! A rotor holds a scalar part and the three bivector components `xy`, `xz`,
//! `yz`.  Rotation of a vector goes through the standard rotor-to-matrix
//! conversion; all arithmetic is fixed point, so the result of every
//! operation is pinned exactly.

use vstd::prelude::*;

verus! {

use crate::geometry::fx::FX_SCALE;
use crate::geometry::fx::Fx;
use crate::geometry::fx::fx_mul_raw;
use crate::geometry::fxmat::FxMat;
use crate::geometry::fxmat::fx_dot3_fits;
use crate::geometry::fxmat::fx_row;
use crate::geometry::fxmat::mat_vec_fits;
use crate::geometry::fxmat::spec_mat_vec;
use crate::geometry::fxvec::FxVec;
use vstd::arithmetic::div_mod::lemma_div_is_ordered;
use vstd::arithmetic::div_mod::lemma_div_multiples_vanish;

/// Bound on the raw components of a rotor accepted by the conversions; a
/// unit rotor has components within `+-1`, this allows twice that.
pub const ROT_COMP_MAX: i64 = 0x2_0000_0000;

/// Bound on the raw matrix entries produced by `into_matrix`.
pub const ROT_MAT_MAX: i64 = 0x12_0000_0000;

/// Bound on the raw vector coordinates accepted by `rotate`.
pub const ROT_VEC_MAX: i64 = 0x80_0000_0000_0000;

/// A rotation, as a rotor: scalar part plus bivector components.
#[derive(Copy, Clone, Eq, PartialEq, Structural, Debug, Hash)]
pub struct Rot {
    pub s: Fx,
    pub xy: Fx,
    pub xz: Fx,
    pub yz: Fx,
}

/// Holds when all four raw components are within `ROT_COMP_MAX`.
pub open spec fn rot_bounded(r: Rot) -> bool {
    &&& -ROT_COMP_MAX <= r.s.0 <= ROT_COMP_MAX
    &&& -ROT_COMP_MAX <= r.xy.0 <= ROT_COMP_MAX
    &&& -ROT_COMP_MAX <= r.xz.0 <= ROT_COMP_MAX
    &&& -ROT_COMP_MAX <= r.yz.0 <= ROT_COMP_MAX
}

/// Holds when all nine raw entries of `m` are within `b`.
pub open spec fn mat_bounded(m: FxMat, b: int) -> bool {
    &&& -b <= m.0.x.0 <= b
    &&& -b <= m.0.y.0 <= b
    &&& -b <= m.0.z.0 <= b
    &&& -b <= m.1.x.0 <= b
    &&& -b <= m.1.y.0 <= b
    &&& -b <= m.1.z.0 <= b
    &&& -b <= m.2.x.0 <= b
    &&& -b <= m.2.y.0 <= b
    &&& -b <= m.2.z.0 <= b
}

/// The rotation matrix of the rotor `r`, column-major, entry for entry as
/// computed by `into_matrix`: the standard rotor-to-matrix formula, each
/// product floored at the fixed-point scale.
pub open spec fn spec_into_matrix(r: Rot) -> FxMat {
    let s = r.s.0 as int;
    let xy = r.xy.0 as int;
    let xz = r.xz.0 as int;
    let yz = r.yz.0 as int;
    let one = FX_SCALE as int;
    FxMat(
        FxVec {
            x: Fx((one - 2 * (fx_mul_raw(xz, xz) + fx_mul_raw(xy, xy))) as i64),
            y: Fx((2 * (fx_mul_raw(s, xy) - fx_mul_raw(yz, xz))) as i64),
            z: Fx((2 * (fx_mul_raw(yz, xy) + fx_mul_raw(s, xz))) as i64),
        },
        FxVec {
            x: Fx((-(2 * (fx_mul_raw(yz, xz) + fx_mul_raw(s, xy)))) as i64),
            y: Fx((one - 2 * (fx_mul_raw(yz, yz) + fx_mul_raw(xy, xy))) as i64),
            z: Fx((2 * (fx_mul_raw(s, yz) - fx_mul_raw(xz, xy))) as i64),
        },
        FxVec {
            x: Fx((2 * (fx_mul_raw(yz, xy) - fx_mul_raw(s, xz))) as i64),
            y: Fx((-(2 * (fx_mul_raw(xz, xy) + fx_mul_raw(s, yz)))) as i64),
            z: Fx((one - 2 * (fx_mul_raw(yz, yz) + fx_mul_raw(xz, xz))) as i64),
        },
    )
}

/// The rotor product `a * b`: composition of rotations, with `a` applied
/// after `b`; each raw product floored at the fixed-point scale.
pub open spec fn spec_rot_mul(a: Rot, b: Rot) -> Rot {
    let p = |u: Fx, v: Fx| fx_mul_raw(u.0 as int, v.0 as int);
    Rot {
        s: Fx((p(a.s, b.s) - p(a.xy, b.xy) - p(a.xz, b.xz) - p(a.yz, b.yz)) as i64),
        xy: Fx((p(a.s, b.xy) + p(a.xy, b.s) - p(a.xz, b.yz) + p(a.yz, b.xz)) as i64),
        xz: Fx((p(a.s, b.xz) + p(a.xy, b.yz) + p(a.xz, b.s) - p(a.yz, b.xy)) as i64),
        yz: Fx((p(a.s, b.yz) - p(a.xy, b.xz) + p(a.xz, b.xy) + p(a.yz, b.s)) as i64),
    }
}

/// The rotor `r` applied to the vector `v`: the rotation matrix of `r`
/// applied to `v` in fixed point.
pub open spec fn spec_rotate(r: Rot, v: FxVec) -> FxVec {
    spec_mat_vec(spec_into_matrix(r), v)
}

/// The reverse rotor as a value: the scalar part kept, the bivector
/// negated.
pub open spec fn spec_reversed(r: Rot) -> Rot {
    Rot { s: r.s, xy: Fx((-r.xy.0) as i64), xz: Fx((-r.xz.0) as i64), yz: Fx((-r.yz.0) as i64) }
}

/// The fixed-point product of raw values bounded by `ba` and `bb` is
/// bounded by `ba * bb` rescaled, plus one unit of flooring.
pub proof fn lemma_fx_mul_bound(a: int, b: int, ba: int, bb: int)
    requires
        0 <= ba,
        0 <= bb,
        -ba <= a <= ba,
        -bb <= b <= bb,
    ensures
        -((ba * bb) / (FX_SCALE as int)) - 1 <= fx_mul_raw(a, b) <= (ba * bb) / (FX_SCALE as int),
{
    let s = FX_SCALE as int;
    assert(-(ba * bb) <= a * b <= ba * bb) by (nonlinear_arith)
        requires
            0 <= ba,
            0 <= bb,
            -ba <= a <= ba,
            -bb <= b <= bb,
    ;
    lemma_div_is_ordered(a * b, ba * bb, s);
    lemma_div_is_ordered(-(ba * bb), a * b, s);
    assert((-(ba * bb)) / s >= -((ba * bb) / s) - 1) by {
        vstd::arithmetic::div_mod::lemma_fundamental_div_mod(ba * bb, s);
        let q = (ba * bb) / s;
        let rem = (ba * bb) % s;
        if rem == 0 {
            assert(-(ba * bb) == (-q) * s + 0) by (nonlinear_arith)
                requires
                    ba * bb == s * q + rem,
                    rem == 0,
            ;
            vstd::arithmetic::div_mod::lemma_fundamental_div_mod_converse(-(ba * bb), s, -q, 0);
        } else {
            assert(-(ba * bb) == (-q - 1) * s + (s - rem)) by (nonlinear_arith)
                requires
                    ba * bb == s * q + rem,
                    0 < rem < s,
            ;
            vstd::arithmetic::div_mod::lemma_fundamental_div_mod_converse(
                -(ba * bb),
                s,
                -q - 1,
                s - rem,
            );
        }
    }
}

/// Instantiates the product bound for two rotor components.
pub proof fn lemma_rot_prod_bound(a: int, b: int)
    requires
        -ROT_COMP_MAX <= a <= ROT_COMP_MAX,
        -ROT_COMP_MAX <= b <= ROT_COMP_MAX,
    ensures
        -4 * (FX_SCALE as int) - 1 <= fx_mul_raw(a, b) <= 4 * (FX_SCALE as int),
{
    lemma_fx_mul_bound(a, b, ROT_COMP_MAX as int, ROT_COMP_MAX as int);
    assert(((ROT_COMP_MAX as int) * (ROT_COMP_MAX as int)) / (FX_SCALE as int) == 4 * (FX_SCALE
        as int)) by {
        lemma_div_multiples_vanish(4 * (FX_SCALE as int), FX_SCALE as int);
        assert((ROT_COMP_MAX as int) * (ROT_COMP_MAX as int) == (FX_SCALE as int) * (4 * (FX_SCALE
            as int))) by (nonlinear_arith);
    }
}

impl Rot {
    /// Builds a rotor from its scalar part and bivector components.
    pub fn new(s: Fx, xy: Fx, xz: Fx, yz: Fx) -> (r: Rot)
        ensures
            r == (Rot { s, xy, xz, yz }),
    {
        Rot { s, xy, xz, yz }
    }

    /// The identity rotation.
    pub fn identity() -> (r: Rot)
        ensures
            r == (Rot { s: Fx(FX_SCALE), xy: Fx(0i64), xz: Fx(0i64), yz: Fx(0i64) }),
    {
        Rot { s: Fx(FX_SCALE), xy: Fx(0), xz: Fx(0), yz: Fx(0) }
    }

    /// The reverse rotor: the inverse rotation for a unit rotor.
    pub fn reversed(self) -> (r: Rot)
        requires
            rot_bounded(self),
        ensures
            r == spec_reversed(self),
            rot_bounded(r),
    {
        Rot { s: self.s, xy: self.xy.neg(), xz: self.xz.neg(), yz: self.yz.neg() }
    }

    /// The rotor product `self * other`: composition with `self` applied
    /// after `other`.
    pub fn mul(self, other: Rot) -> (r: Rot)
        requires
            rot_bounded(self),
            rot_bounded(other),
        ensures
            r == spec_rot_mul(self, other),
    {
        proof {
            lemma_rot_prod_bound(self.s.0 as int, other.s.0 as int);
            lemma_rot_prod_bound(self.s.0 as int, other.xy.0 as int);
            lemma_rot_prod_bound(self.s.0 as int, other.xz.0 as int);
            lemma_rot_prod_bound(self.s.0 as int, other.yz.0 as int);
            lemma_rot_prod_bound(self.xy.0 as int, other.s.0 as int);
            lemma_rot_prod_bound(self.xy.0 as int, other.xy.0 as int);
            lemma_rot_prod_bound(self.xy.0 as int, other.xz.0 as int);
            lemma_rot_prod_bound(self.xy.0 as int, other.yz.0 as int);
            lemma_rot_prod_bound(self.xz.0 as int, other.s.0 as int);
            lemma_rot_prod_bound(self.xz.0 as int, other.xy.0 as int);
            lemma_rot_prod_bound(self.xz.0 as int, other.xz.0 as int);
            lemma_rot_prod_bound(self.xz.0 as int, other.yz.0 as int);
            lemma_rot_prod_bound(self.yz.0 as int, other.s.0 as int);
            lemma_rot_prod_bound(self.yz.0 as int, other.xy.0 as int);
            lemma_rot_prod_bound(self.yz.0 as int, other.xz.0 as int);
            lemma_rot_prod_bound(self.yz.0 as int, other.yz.0 as int);
        }
        Rot {
            s: self.s.mul(other.s).sub(self.xy.mul(other.xy)).sub(self.xz.mul(other.xz)).sub(
                self.yz.mul(other.yz),
            ),
            xy: self.s.mul(other.xy).add(self.xy.mul(other.s)).sub(self.xz.mul(other.yz)).add(
                self.yz.mul(other.xz),
            ),
            xz: self.s.mul(other.xz).add(self.xy.mul(other.yz)).add(self.xz.mul(other.s)).sub(
                self.yz.mul(other.xy),
            ),
            yz: self.s.mul(other.yz).sub(self.xy.mul(other.xz)).add(self.xz.mul(other.xy)).add(
                self.yz.mul(other.s),
            ),
        }
    }

    /// The rotation matrix of this rotor.
    pub fn into_matrix(self) -> (r: FxMat)
        requires
            rot_bounded(self),
        ensures
            r == spec_into_matrix(self),
            mat_bounded(r, ROT_MAT_MAX as int),
    {
        proof {
            lemma_rot_prod_bound(self.s.0 as int, self.xy.0 as int);
            lemma_rot_prod_bound(self.s.0 as int, self.xz.0 as int);
            lemma_rot_prod_bound(self.s.0 as int, self.yz.0 as int);
            lemma_rot_prod_bound(self.xy.0 as int, self.xy.0 as int);
            lemma_rot_prod_bound(self.xz.0 as int, self.xz.0 as int);
            lemma_rot_prod_bound(self.yz.0 as int, self.yz.0 as int);
            lemma_rot_prod_bound(self.xz.0 as int, self.xy.0 as int);
            lemma_rot_prod_bound(self.yz.0 as int, self.xy.0 as int);
            lemma_rot_prod_bound(self.yz.0 as int, self.xz.0 as int);
        }
        let one = Fx::one();
        let two_xzxz_xyxy = self.xz.mul(self.xz).add(self.xy.mul(self.xy));
        let c0x = one.sub(two_xzxz_xyxy.add(two_xzxz_xyxy));
        let t0y = self.s.mul(self.xy).sub(self.yz.mul(self.xz));
        let c0y = t0y.add(t0y);
        let t0z = self.yz.mul(self.xy).add(self.s.mul(self.xz));
        let c0z = t0z.add(t0z);
        let t1x = self.yz.mul(self.xz).add(self.s.mul(self.xy));
        let c1x = t1x.add(t1x).neg();
        let yzyz_xyxy = self.yz.mul(self.yz).add(self.xy.mul(self.xy));
        let c1y = one.sub(yzyz_xyxy.add(yzyz_xyxy));
        let t1z = self.s.mul(self.yz).sub(self.xz.mul(self.xy));
        let c1z = t1z.add(t1z);
        let t2x = self.yz.mul(self.xy).sub(self.s.mul(self.xz));
        let c2x = t2x.add(t2x);
        let t2y = self.xz.mul(self.xy).add(self.s.mul(self.yz));
        let c2y = t2y.add(t2y).neg();
        let yzyz_xzxz = self.yz.mul(self.yz).add(self.xz.mul(self.xz));
        let c2z = one.sub(yzyz_xzxz.add(yzyz_xzxz));
        FxMat(
            FxVec { x: c0x, y: c0y, z: c0z },
            FxVec { x: c1x, y: c1y, z: c1z },
            FxVec { x: c2x, y: c2y, z: c2z },
        )
    }

    /// The rotor applied to a vector.
    pub fn rotate(self, v: FxVec) -> (r: FxVec)
        requires
            rot_bounded(self),
            -ROT_VEC_MAX <= v.x.0 <= ROT_VEC_MAX,
            -ROT_VEC_MAX <= v.y.0 <= ROT_VEC_MAX,
            -ROT_VEC_MAX <= v.z.0 <= ROT_VEC_MAX,
        ensures
            r == spec_rotate(self, v),
            -3 * (ROT_ENTRY_VEC_MAX as int) - 3 <= r.x.0 <= 3 * (ROT_ENTRY_VEC_MAX as int),
            -3 * (ROT_ENTRY_VEC_MAX as int) - 3 <= r.y.0 <= 3 * (ROT_ENTRY_VEC_MAX as int),
            -3 * (ROT_ENTRY_VEC_MAX as int) - 3 <= r.z.0 <= 3 * (ROT_ENTRY_VEC_MAX as int),
    {
        let m = self.into_matrix();
        proof {
            lemma_rot_mat_vec_fits(m, v);
        }
        m.mul_vec(v)
    }
}

/// Bound on one raw term of a rotated vector's coordinate.
pub const ROT_ENTRY_VEC_MAX: i64 = 0x900_0000_0000_0000;

/// A matrix with entries within `ROT_MAT_MAX` applied to a vector with
/// coordinates within `ROT_VEC_MAX` fits, and each resulting coordinate is
/// within three terms of `ROT_ENTRY_VEC_MAX`.
pub proof fn lemma_rot_mat_vec_fits(m: FxMat, v: FxVec)
    requires
        mat_bounded(m, ROT_MAT_MAX as int),
        -ROT_VEC_MAX <= v.x.0 <= ROT_VEC_MAX,
        -ROT_VEC_MAX <= v.y.0 <= ROT_VEC_MAX,
        -ROT_VEC_MAX <= v.z.0 <= ROT_VEC_MAX,
    ensures
        mat_vec_fits(m, v),
        forall|i: int|
            0 <= i < 3 ==> -3 * (ROT_ENTRY_VEC_MAX as int) - 3 <= #[trigger] crate::geometry::fxmat::fx_dot3_raw(
                fx_row(m, i).0,
                fx_row(m, i).1,
                fx_row(m, i).2,
                v.x.0 as int,
                v.y.0 as int,
                v.z.0 as int,
            ) <= 3 * (ROT_ENTRY_VEC_MAX as int),
{
    assert(((ROT_MAT_MAX as int) * (ROT_VEC_MAX as int)) / (FX_SCALE as int) == ROT_ENTRY_VEC_MAX
        as int) by {
        lemma_div_multiples_vanish(ROT_ENTRY_VEC_MAX as int, FX_SCALE as int);
        assert((ROT_MAT_MAX as int) * (ROT_VEC_MAX as int) == (FX_SCALE as int) * (ROT_ENTRY_VEC_MAX
            as int)) by (nonlinear_arith);
    }
    assert forall|i: int| 0 <= i < 3 implies #[trigger] fx_dot3_fits(
        fx_row(m, i).0,
        fx_row(m, i).1,
        fx_row(m, i).2,
        v.x.0 as int,
        v.y.0 as int,
        v.z.0 as int,
    ) by {
        lemma_fx_mul_bound(fx_row(m, i).0, v.x.0 as int, ROT_MAT_MAX as int, ROT_VEC_MAX as int);
        lemma_fx_mul_bound(fx_row(m, i).1, v.y.0 as int, ROT_MAT_MAX as int, ROT_VEC_MAX as int);
        lemma_fx_mul_bound(fx_row(m, i).2, v.z.0 as int, ROT_MAT_MAX as int, ROT_VEC_MAX as int);
    }
    assert forall|i: int| 0 <= i < 3 implies -3 * (ROT_ENTRY_VEC_MAX as int) - 3
        <= #[trigger] crate::geometry::fxmat::fx_dot3_raw(
        fx_row(m, i).0,
        fx_row(m, i).1,
        fx_row(m, i).2,
        v.x.0 as int,
        v.y.0 as int,
        v.z.0 as int,
    ) <= 3 * (ROT_ENTRY_VEC_MAX as int) by {
        lemma_fx_mul_bound(fx_row(m, i).0, v.x.0 as int, ROT_MAT_MAX as int, ROT_VEC_MAX as int);
        lemma_fx_mul_bound(fx_row(m, i).1, v.y.0 as int, ROT_MAT_MAX as int, ROT_VEC_MAX as int);
        lemma_fx_mul_bound(fx_row(m, i).2, v.z.0 as int, ROT_MAT_MAX as int, ROT_VEC_MAX as int);
    }
}

/// The identity rotor rotates every vector to itself, exactly.
pub proof fn lemma_rotate_identity(v: FxVec)
    ensures
        spec_rotate(Rot { s: Fx(FX_SCALE), xy: Fx(0i64), xz: Fx(0i64), yz: Fx(0i64) }, v) == v,
{
    let id = Rot { s: Fx(FX_SCALE), xy: Fx(0i64), xz: Fx(0i64), yz: Fx(0i64) };
    lemma_fx_mul_raw_zero_left(0);
    assert(fx_mul_raw(0, 0) == 0);
    assert(fx_mul_raw(FX_SCALE as int, 0 as int) == 0) by {
        assert((FX_SCALE as int) * 0 == 0) by (nonlinear_arith);
        vstd::arithmetic::div_mod::lemma_fundamental_div_mod_converse(0, FX_SCALE as int, 0, 0);
    }
    let m = spec_into_matrix(id);
    assert(m.0.x.0 == FX_SCALE && m.1.y.0 == FX_SCALE && m.2.z.0 == FX_SCALE);
    assert(m.0.y.0 == 0 && m.0.z.0 == 0 && m.1.x.0 == 0 && m.1.z.0 == 0 && m.2.x.0 == 0
        && m.2.y.0 == 0);
    lemma_fx_mul_raw_scale(v.x.0 as int);
    lemma_fx_mul_raw_scale(v.y.0 as int);
    lemma_fx_mul_raw_scale(v.z.0 as int);
    lemma_fx_mul_raw_zero_left(v.x.0 as int);
    lemma_fx_mul_raw_zero_left(v.y.0 as int);
    lemma_fx_mul_raw_zero_left(v.z.0 as int);
}

/// A fixed-point product with zero is zero.
proof fn lemma_fx_mul_raw_zero_left(t: int)
    ensures
        fx_mul_raw(0, t) == 0,
{
    assert(0 * t == 0) by (nonlinear_arith);
    vstd::arithmetic::div_mod::lemma_fundamental_div_mod_converse(0, FX_SCALE as int, 0, 0);
}

/// Multiplying by the fixed-point one is exact.
proof fn lemma_fx_mul_raw_scale(t: int)
    ensures
        fx_mul_raw(FX_SCALE as int, t) == t,
{
    assert((FX_SCALE as int) * t == t * (FX_SCALE as int)) by (nonlinear_arith);
    lemma_div_multiples_vanish(t, FX_SCALE as int);
    assert(t * (FX_SCALE as int) == (FX_SCALE as int) * t) by (nonlinear_arith);
}


/// Fixed-point matrix product bounds: entrywise-bounded factors give a
/// fitting product with entrywise-bounded entries.
pub proof fn lemma_mat_mul_fits_gen(m: FxMat, o: FxMat, bm: int, bo: int)
    requires
        0 <= bm,
        0 <= bo,
        mat_bounded(m, bm),
        mat_bounded(o, bo),
        (bm * bo) / (FX_SCALE as int) <= 0x1000_0000_0000_0000,
    ensures
        crate::geometry::fxmat::fx_mul_fits(m, o),
        mat_bounded(
            crate::geometry::fxmat::spec_mat_mul(m, o),
            3 * ((bm * bo) / (FX_SCALE as int)) + 3,
        ),
{
    let e = (bm * bo) / (FX_SCALE as int);
    assert(e >= 0) by {
        assert(bm * bo >= 0) by (nonlinear_arith)
            requires
                0 <= bm,
                0 <= bo,
        ;
        vstd::arithmetic::div_mod::lemma_div_pos_is_pos(bm * bo, FX_SCALE as int);
    }
    assert forall|i: int, j: int| 0 <= i < 3 && 0 <= j < 3 implies #[trigger] fx_dot3_fits(
        fx_row(m, i).0,
        fx_row(m, i).1,
        fx_row(m, i).2,
        crate::geometry::fxmat::fx_col(o, j).0,
        crate::geometry::fxmat::fx_col(o, j).1,
        crate::geometry::fxmat::fx_col(o, j).2,
    ) by {
        lemma_fx_mul_bound(fx_row(m, i).0, crate::geometry::fxmat::fx_col(o, j).0, bm, bo);
        lemma_fx_mul_bound(fx_row(m, i).1, crate::geometry::fxmat::fx_col(o, j).1, bm, bo);
        lemma_fx_mul_bound(fx_row(m, i).2, crate::geometry::fxmat::fx_col(o, j).2, bm, bo);
    }
    assert forall|i: int, j: int| 0 <= i < 3 && 0 <= j < 3 implies -(3 * e + 3)
        <= #[trigger] crate::geometry::fxmat::fx_mul_entry(m, o, i, j) <= 3 * e + 3 by {
        lemma_fx_mul_bound(fx_row(m, i).0, crate::geometry::fxmat::fx_col(o, j).0, bm, bo);
        lemma_fx_mul_bound(fx_row(m, i).1, crate::geometry::fxmat::fx_col(o, j).1, bm, bo);
        lemma_fx_mul_bound(fx_row(m, i).2, crate::geometry::fxmat::fx_col(o, j).2, bm, bo);
    }
}

/// Fixed-point matrix-vector bounds: an entrywise-bounded matrix applied
/// to a bounded vector fits, with bounded components.
pub proof fn lemma_mat_vec_fits_gen(m: FxMat, v: FxVec, bm: int, bv: int)
    requires
        0 <= bm,
        0 <= bv,
        mat_bounded(m, bm),
        -bv <= v.x.0 <= bv,
        -bv <= v.y.0 <= bv,
        -bv <= v.z.0 <= bv,
        (bm * bv) / (FX_SCALE as int) <= 0x1000_0000_0000_0000,
    ensures
        mat_vec_fits(m, v),
        ({
            let e = (bm * bv) / (FX_SCALE as int);
            let r = spec_mat_vec(m, v);
            &&& -(3 * e + 3) <= r.x.0 <= 3 * e + 3
            &&& -(3 * e + 3) <= r.y.0 <= 3 * e + 3
            &&& -(3 * e + 3) <= r.z.0 <= 3 * e + 3
        }),
{
    let e = (bm * bv) / (FX_SCALE as int);
    assert(e >= 0) by {
        assert(bm * bv >= 0) by (nonlinear_arith)
            requires
                0 <= bm,
                0 <= bv,
        ;
        vstd::arithmetic::div_mod::lemma_div_pos_is_pos(bm * bv, FX_SCALE as int);
    }
    assert forall|i: int| 0 <= i < 3 implies #[trigger] fx_dot3_fits(
        fx_row(m, i).0,
        fx_row(m, i).1,
        fx_row(m, i).2,
        v.x.0 as int,
        v.y.0 as int,
        v.z.0 as int,
    ) by {
        lemma_fx_mul_bound(fx_row(m, i).0, v.x.0 as int, bm, bv);
        lemma_fx_mul_bound(fx_row(m, i).1, v.y.0 as int, bm, bv);
        lemma_fx_mul_bound(fx_row(m, i).2, v.z.0 as int, bm, bv);
    }
    assert forall|i: int| 0 <= i < 3 implies -(3 * e + 3)
        <= #[trigger] crate::geometry::fxmat::fx_dot3_raw(
        fx_row(m, i).0,
        fx_row(m, i).1,
        fx_row(m, i).2,
        v.x.0 as int,
        v.y.0 as int,
        v.z.0 as int,
    ) <= 3 * e + 3 by {
        lemma_fx_mul_bound(fx_row(m, i).0, v.x.0 as int, bm, bv);
        lemma_fx_mul_bound(fx_row(m, i).1, v.y.0 as int, bm, bv);
        lemma_fx_mul_bound(fx_row(m, i).2, v.z.0 as int, bm, bv);
    }
}

/// The transpose of an entrywise-bounded matrix is entrywise bounded.
pub proof fn lemma_transpose_bounded(m: FxMat, b: int)
    requires
        mat_bounded(m, b),
    ensures
        mat_bounded(crate::geometry::fxmat::spec_transpose(m), b),
{
}


} // verus!

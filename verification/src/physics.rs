//! Rigid-body mechanics for bodies composed of discrete unit masses at
//! integer lattice positions: mass properties, linear and angular momentum,
//! force and torque accumulation, and integration over a fixed timestep.
//!
//! Mass and lattice positions use exact integers, so mass and inertia
//! accumulation is exact; the derived quantities (center of mass, inverse
//! mass, inertia about the center of mass) are fixed point, with every
//! rounding step pinned by the contracts.

use vstd::prelude::*;

verus! {

use crate::geometry::Fx;
use crate::geometry::FxVec;
use crate::geometry::IVec;
use crate::geometry::LMat;
use crate::geometry::LVec;
use crate::geometry::Rot;
use crate::geometry::fx::FX_SCALE;
use crate::geometry::fx::floor_div_i128;
use crate::geometry::fx::fx_mul_raw;
use crate::geometry::lvec::fits_i64;
use crate::geometry::rotor::rot_bounded;

/// Bound on lattice coordinates of point masses.  Narrower than the
/// lattice range the storage and octree accept: together with the mass and
/// count bounds below it keeps every accumulated tensor entry within exact
/// `i64` arithmetic.
pub const PHYS_POS_MAX: i64 = 0x8000;

/// Bound on the magnitude of one point mass.
pub const PHYS_MASS_MAX: i64 = 1024;

/// Bound on the number of point masses in one update.
pub const PHYS_COUNT_MAX: usize = 0x10_0000;

/// Bound on the magnitude of one accumulated contribution.
pub const PHYS_CONTRIB_MAX: i64 = 0x400_0000_0000;

/// The fixed per-tick timestep.
#[derive(Copy, Clone, PartialEq, Eq, Structural, Debug)]
pub struct Timestep(pub Fx);

/// The position of the object's center of mass.
#[derive(Copy, Clone, PartialEq, Eq, Structural, Debug)]
pub struct Position(pub FxVec);

/// The rotation of the object around its center of mass.
#[derive(Copy, Clone, PartialEq, Eq, Structural, Debug)]
pub struct Rotation(pub Rot);

/// Linear momentum.
#[derive(Copy, Clone, PartialEq, Eq, Structural, Debug)]
pub struct Momentum(pub FxVec);

/// Angular momentum.
#[derive(Copy, Clone, PartialEq, Eq, Structural, Debug)]
pub struct AngularMomentum(pub FxVec);

/// Accumulated force, cleared by the linear update.
#[derive(Copy, Clone, PartialEq, Eq, Structural, Debug)]
pub struct Force(pub FxVec);

/// Accumulated torque, cleared by the angular update.
#[derive(Copy, Clone, PartialEq, Eq, Structural, Debug)]
pub struct Torque(pub FxVec);

/// The sum of the positions of all the masses within the object, weighted
/// by their masses; exact.
#[derive(Copy, Clone, PartialEq, Eq, Structural, Debug)]
pub struct TotalMassPosition(pub LVec);

/// Total mass; exact.
#[derive(Copy, Clone, PartialEq, Eq, Structural, Debug)]
pub struct Mass(pub i64);

/// The inertia of the object with respect to the object's origin; exact.
#[derive(Copy, Clone, PartialEq, Eq, Structural, Debug)]
pub struct Inertia(pub LMat);

/// The center of mass relative to the object's origin; computed.
#[derive(Copy, Clone, PartialEq, Eq, Structural, Debug)]
pub struct CenterOfMass(pub FxVec);

/// The inverse of the total mass; computed.
#[derive(Copy, Clone, PartialEq, Eq, Structural, Debug)]
pub struct InvMass(pub Fx);

/// The inertia tensor about the center of mass; computed.
#[derive(Copy, Clone, PartialEq, Eq, Structural, Debug)]
pub struct InertiaAroundCenterOfMass(pub crate::geometry::FxMat);

/// The inverse of the inertia tensor about the center of mass; computed.
#[derive(Copy, Clone, PartialEq, Eq, Structural, Debug)]
pub struct InvInertiaAroundCenterOfMass(pub crate::geometry::FxMat);

/// Pending changes in the mass distribution of an object.
#[derive(Clone, PartialEq, Debug)]
pub struct ChangedBodies(pub Vec<(IVec, i64)>);

/// The exact totals accumulated from a sequence of point masses: total
/// mass, mass-weighted position sum, and the six distinct entries of the
/// symmetric inertia tensor about the origin.
pub struct MassTotals {
    pub mass: int,
    pub tmp_x: int,
    pub tmp_y: int,
    pub tmp_z: int,
    pub i00: int,
    pub i11: int,
    pub i22: int,
    pub i01: int,
    pub i02: int,
    pub i12: int,
}

/// The contribution of one point mass `(p, m)`: mass `m`, weighted position
/// `m * p`, and the unit-voxel inertia about the origin, which is
/// `m * identity` plus the point-mass tensor with diagonal
/// `m * (p_j^2 + p_k^2)` and off-diagonal `-m * p_i * p_j`.
pub open spec fn spec_contrib(e: (IVec, i64)) -> MassTotals {
    let x = e.0.x as int;
    let y = e.0.y as int;
    let z = e.0.z as int;
    let m = e.1 as int;
    MassTotals {
        mass: m,
        tmp_x: x * m,
        tmp_y: y * m,
        tmp_z: z * m,
        i00: m + m * (y * y + z * z),
        i11: m + m * (x * x + z * z),
        i22: m + m * (x * x + y * y),
        i01: -(m * (x * y)),
        i02: -(m * (x * z)),
        i12: -(m * (y * z)),
    }
}

/// Componentwise sum of totals.
pub open spec fn totals_plus(a: MassTotals, b: MassTotals) -> MassTotals {
    MassTotals {
        mass: a.mass + b.mass,
        tmp_x: a.tmp_x + b.tmp_x,
        tmp_y: a.tmp_y + b.tmp_y,
        tmp_z: a.tmp_z + b.tmp_z,
        i00: a.i00 + b.i00,
        i11: a.i11 + b.i11,
        i22: a.i22 + b.i22,
        i01: a.i01 + b.i01,
        i02: a.i02 + b.i02,
        i12: a.i12 + b.i12,
    }
}

/// The all-zero totals.
pub open spec fn totals_zero() -> MassTotals {
    MassTotals {
        mass: 0,
        tmp_x: 0,
        tmp_y: 0,
        tmp_z: 0,
        i00: 0,
        i11: 0,
        i22: 0,
        i01: 0,
        i02: 0,
        i12: 0,
    }
}

/// The exact totals of a sequence of point masses.
pub open spec fn spec_mass_totals(ms: Seq<(IVec, i64)>) -> MassTotals
    decreases ms.len(),
{
    if ms.len() == 0 {
        totals_zero()
    } else {
        totals_plus(spec_mass_totals(ms.drop_last()), spec_contrib(ms.last()))
    }
}

/// Holds when every point mass is within the lattice and mass bounds.
pub open spec fn masses_bounded(ms: Seq<(IVec, i64)>) -> bool {
    forall|k: int|
        0 <= k < ms.len() ==> {
            &&& -PHYS_POS_MAX <= (#[trigger] ms[k]).0.x <= PHYS_POS_MAX
            &&& -PHYS_POS_MAX <= ms[k].0.y <= PHYS_POS_MAX
            &&& -PHYS_POS_MAX <= ms[k].0.z <= PHYS_POS_MAX
            &&& -PHYS_MASS_MAX <= ms[k].1 <= PHYS_MASS_MAX
        }
}

/// Every component of a bounded contribution is within the contribution
/// bound.
proof fn lemma_contrib_bounded(e: (IVec, i64))
    requires
        -PHYS_POS_MAX <= e.0.x <= PHYS_POS_MAX,
        -PHYS_POS_MAX <= e.0.y <= PHYS_POS_MAX,
        -PHYS_POS_MAX <= e.0.z <= PHYS_POS_MAX,
        -PHYS_MASS_MAX <= e.1 <= PHYS_MASS_MAX,
    ensures
        -PHYS_CONTRIB_MAX <= spec_contrib(e).mass <= PHYS_CONTRIB_MAX,
        -PHYS_CONTRIB_MAX <= spec_contrib(e).tmp_x <= PHYS_CONTRIB_MAX,
        -PHYS_CONTRIB_MAX <= spec_contrib(e).tmp_y <= PHYS_CONTRIB_MAX,
        -PHYS_CONTRIB_MAX <= spec_contrib(e).tmp_z <= PHYS_CONTRIB_MAX,
        -PHYS_CONTRIB_MAX <= spec_contrib(e).i00 <= PHYS_CONTRIB_MAX,
        -PHYS_CONTRIB_MAX <= spec_contrib(e).i11 <= PHYS_CONTRIB_MAX,
        -PHYS_CONTRIB_MAX <= spec_contrib(e).i22 <= PHYS_CONTRIB_MAX,
        -PHYS_CONTRIB_MAX <= spec_contrib(e).i01 <= PHYS_CONTRIB_MAX,
        -PHYS_CONTRIB_MAX <= spec_contrib(e).i02 <= PHYS_CONTRIB_MAX,
        -PHYS_CONTRIB_MAX <= spec_contrib(e).i12 <= PHYS_CONTRIB_MAX,
{
    assert(-PHYS_CONTRIB_MAX <= spec_contrib(e).mass <= PHYS_CONTRIB_MAX && -PHYS_CONTRIB_MAX
        <= spec_contrib(e).tmp_x <= PHYS_CONTRIB_MAX && -PHYS_CONTRIB_MAX <= spec_contrib(e).tmp_y
        <= PHYS_CONTRIB_MAX && -PHYS_CONTRIB_MAX <= spec_contrib(e).tmp_z <= PHYS_CONTRIB_MAX
        && -PHYS_CONTRIB_MAX <= spec_contrib(e).i00 <= PHYS_CONTRIB_MAX && -PHYS_CONTRIB_MAX
        <= spec_contrib(e).i11 <= PHYS_CONTRIB_MAX && -PHYS_CONTRIB_MAX <= spec_contrib(e).i22
        <= PHYS_CONTRIB_MAX && -PHYS_CONTRIB_MAX <= spec_contrib(e).i01 <= PHYS_CONTRIB_MAX
        && -PHYS_CONTRIB_MAX <= spec_contrib(e).i02 <= PHYS_CONTRIB_MAX && -PHYS_CONTRIB_MAX
        <= spec_contrib(e).i12 <= PHYS_CONTRIB_MAX) by (nonlinear_arith)
        requires
            -0x8000 <= e.0.x <= 0x8000,
            -0x8000 <= e.0.y <= 0x8000,
            -0x8000 <= e.0.z <= 0x8000,
            -1024 <= e.1 <= 1024,
            PHYS_CONTRIB_MAX == 0x400_0000_0000,
    ;
}

/// Totals of a bounded sequence are bounded by its length times the
/// per-contribution bound.
pub proof fn lemma_totals_bounded(ms: Seq<(IVec, i64)>)
    requires
        masses_bounded(ms),
    ensures
        -(ms.len() as int) * (PHYS_MASS_MAX as int) <= spec_mass_totals(ms).mass <= (ms.len()
            as int) * (PHYS_MASS_MAX as int),
        -(ms.len() as int) * (PHYS_CONTRIB_MAX as int) <= spec_mass_totals(ms).tmp_x <= (ms.len()
            as int) * (PHYS_CONTRIB_MAX as int),
        -(ms.len() as int) * (PHYS_CONTRIB_MAX as int) <= spec_mass_totals(ms).tmp_y <= (ms.len()
            as int) * (PHYS_CONTRIB_MAX as int),
        -(ms.len() as int) * (PHYS_CONTRIB_MAX as int) <= spec_mass_totals(ms).tmp_z <= (ms.len()
            as int) * (PHYS_CONTRIB_MAX as int),
        -(ms.len() as int) * (PHYS_CONTRIB_MAX as int) <= spec_mass_totals(ms).i00 <= (ms.len()
            as int) * (PHYS_CONTRIB_MAX as int),
        -(ms.len() as int) * (PHYS_CONTRIB_MAX as int) <= spec_mass_totals(ms).i11 <= (ms.len()
            as int) * (PHYS_CONTRIB_MAX as int),
        -(ms.len() as int) * (PHYS_CONTRIB_MAX as int) <= spec_mass_totals(ms).i22 <= (ms.len()
            as int) * (PHYS_CONTRIB_MAX as int),
        -(ms.len() as int) * (PHYS_CONTRIB_MAX as int) <= spec_mass_totals(ms).i01 <= (ms.len()
            as int) * (PHYS_CONTRIB_MAX as int),
        -(ms.len() as int) * (PHYS_CONTRIB_MAX as int) <= spec_mass_totals(ms).i02 <= (ms.len()
            as int) * (PHYS_CONTRIB_MAX as int),
        -(ms.len() as int) * (PHYS_CONTRIB_MAX as int) <= spec_mass_totals(ms).i12 <= (ms.len()
            as int) * (PHYS_CONTRIB_MAX as int),
    decreases ms.len(),
{
    if ms.len() > 0 {
        lemma_totals_bounded(ms.drop_last());
        assert(masses_bounded(ms.drop_last()));
        lemma_contrib_bounded(ms.last());
        assert((ms.len() as int) * (PHYS_CONTRIB_MAX as int) == (ms.len() as int - 1) * (
        PHYS_CONTRIB_MAX as int) + PHYS_CONTRIB_MAX) by (nonlinear_arith);
        assert((ms.len() as int) * (PHYS_MASS_MAX as int) == (ms.len() as int - 1) * (PHYS_MASS_MAX
            as int) + PHYS_MASS_MAX) by (nonlinear_arith);
    }
}

/// Accumulated totals are additive over concatenation: applying a batch of
/// changes on top of existing totals equals accumulating the concatenation
/// in one pass.
pub proof fn lemma_totals_additive(ms1: Seq<(IVec, i64)>, ms2: Seq<(IVec, i64)>)
    ensures
        spec_mass_totals(ms1 + ms2) == totals_plus(spec_mass_totals(ms1), spec_mass_totals(ms2)),
    decreases ms2.len(),
{
    if ms2.len() == 0 {
        assert(ms1 + ms2 =~= ms1);
    } else {
        lemma_totals_additive(ms1, ms2.drop_last());
        assert((ms1 + ms2).drop_last() =~= ms1 + ms2.drop_last());
        assert((ms1 + ms2).last() == ms2.last());
    }
}

/// Computes one point mass's exact inertia contribution about the origin:
/// a symmetric tensor with diagonal `mass * (p_j^2 + p_k^2)` and
/// off-diagonal `-mass * p_i * p_j`.
pub fn inertia_of_position(pos: LVec, mass: i64) -> (r: LMat)
    requires
        -PHYS_POS_MAX <= pos.0 <= PHYS_POS_MAX,
        -PHYS_POS_MAX <= pos.1 <= PHYS_POS_MAX,
        -PHYS_POS_MAX <= pos.2 <= PHYS_POS_MAX,
        -PHYS_MASS_MAX <= mass <= PHYS_MASS_MAX,
    ensures
        r == spec_inertia_of_position(pos, mass),
{
    proof {
        lemma_inertia_entries_bounded(pos, mass);
    }
    LMat(
        LVec(
            mass * (pos.1 * pos.1 + pos.2 * pos.2),
            -(mass * (pos.0 * pos.1)),
            -(mass * (pos.0 * pos.2)),
        ),
        LVec(
            -(mass * (pos.0 * pos.1)),
            mass * (pos.0 * pos.0 + pos.2 * pos.2),
            -(mass * (pos.1 * pos.2)),
        ),
        LVec(
            -(mass * (pos.0 * pos.2)),
            -(mass * (pos.1 * pos.2)),
            mass * (pos.0 * pos.0 + pos.1 * pos.1),
        ),
    )
}

/// The point-mass inertia tensor about the origin, as a value.
pub open spec fn spec_inertia_of_position(pos: LVec, mass: i64) -> LMat {
    let x = pos.0 as int;
    let y = pos.1 as int;
    let z = pos.2 as int;
    let m = mass as int;
    LMat(
        LVec((m * (y * y + z * z)) as i64, (-(m * (x * y))) as i64, (-(m * (x * z))) as i64),
        LVec((-(m * (x * y))) as i64, (m * (x * x + z * z)) as i64, (-(m * (y * z))) as i64),
        LVec((-(m * (x * z))) as i64, (-(m * (y * z))) as i64, (m * (x * x + y * y)) as i64),
    )
}

/// The entries of a bounded point-mass tensor are bounded.
proof fn lemma_inertia_entries_bounded(pos: LVec, mass: i64)
    requires
        -PHYS_POS_MAX <= pos.0 <= PHYS_POS_MAX,
        -PHYS_POS_MAX <= pos.1 <= PHYS_POS_MAX,
        -PHYS_POS_MAX <= pos.2 <= PHYS_POS_MAX,
        -PHYS_MASS_MAX <= mass <= PHYS_MASS_MAX,
    ensures
        -PHYS_CONTRIB_MAX <= (mass as int) * ((pos.1 as int) * (pos.1 as int) + (pos.2 as int) * (
        pos.2 as int)) <= PHYS_CONTRIB_MAX,
        -PHYS_CONTRIB_MAX <= (mass as int) * ((pos.0 as int) * (pos.0 as int) + (pos.2 as int) * (
        pos.2 as int)) <= PHYS_CONTRIB_MAX,
        -PHYS_CONTRIB_MAX <= (mass as int) * ((pos.0 as int) * (pos.0 as int) + (pos.1 as int) * (
        pos.1 as int)) <= PHYS_CONTRIB_MAX,
        -PHYS_CONTRIB_MAX <= (mass as int) * ((pos.0 as int) * (pos.1 as int)) <= PHYS_CONTRIB_MAX,
        -PHYS_CONTRIB_MAX <= (mass as int) * ((pos.0 as int) * (pos.2 as int)) <= PHYS_CONTRIB_MAX,
        -PHYS_CONTRIB_MAX <= (mass as int) * ((pos.1 as int) * (pos.2 as int)) <= PHYS_CONTRIB_MAX,
        (mass as int) * ((pos.1 as int) * (pos.0 as int)) == (mass as int) * ((pos.0 as int) * (
        pos.1 as int)),
        (mass as int) * ((pos.2 as int) * (pos.0 as int)) == (mass as int) * ((pos.0 as int) * (
        pos.2 as int)),
        (mass as int) * ((pos.2 as int) * (pos.1 as int)) == (mass as int) * ((pos.1 as int) * (
        pos.2 as int)),
        0 <= (pos.0 as int) * (pos.0 as int) <= 0x4000_0000,
        0 <= (pos.1 as int) * (pos.1 as int) <= 0x4000_0000,
        0 <= (pos.2 as int) * (pos.2 as int) <= 0x4000_0000,
        -0x4000_0000 <= (pos.0 as int) * (pos.1 as int) <= 0x4000_0000,
        -0x4000_0000 <= (pos.0 as int) * (pos.2 as int) <= 0x4000_0000,
        -0x4000_0000 <= (pos.1 as int) * (pos.2 as int) <= 0x4000_0000,
{
    assert((0 <= (pos.0 as int) * (pos.0 as int) <= 0x4000_0000) && (0 <= (pos.1 as int) * (pos.1
        as int) <= 0x4000_0000) && (0 <= (pos.2 as int) * (pos.2 as int) <= 0x4000_0000) && (
    -0x4000_0000 <= (pos.0 as int) * (pos.1 as int) <= 0x4000_0000) && (-0x4000_0000 <= (pos.0
        as int) * (pos.2 as int) <= 0x4000_0000) && (-0x4000_0000 <= (pos.1 as int) * (pos.2
        as int) <= 0x4000_0000)) by (nonlinear_arith)
        requires
            -0x8000 <= pos.0 <= 0x8000,
            -0x8000 <= pos.1 <= 0x8000,
            -0x8000 <= pos.2 <= 0x8000,
    ;
    assert(-PHYS_CONTRIB_MAX <= (mass as int) * ((pos.1 as int) * (pos.1 as int) + (pos.2 as int)
        * (pos.2 as int)) <= PHYS_CONTRIB_MAX && -PHYS_CONTRIB_MAX <= (mass as int) * ((pos.0
        as int) * (pos.0 as int) + (pos.2 as int) * (pos.2 as int)) <= PHYS_CONTRIB_MAX
        && -PHYS_CONTRIB_MAX <= (mass as int) * ((pos.0 as int) * (pos.0 as int) + (pos.1 as int)
        * (pos.1 as int)) <= PHYS_CONTRIB_MAX && -PHYS_CONTRIB_MAX <= (mass as int) * ((pos.0
        as int) * (pos.1 as int)) <= PHYS_CONTRIB_MAX && -PHYS_CONTRIB_MAX <= (mass as int) * ((
    pos.0 as int) * (pos.2 as int)) <= PHYS_CONTRIB_MAX && -PHYS_CONTRIB_MAX <= (mass as int) * ((
    pos.1 as int) * (pos.2 as int)) <= PHYS_CONTRIB_MAX && (mass as int) * ((pos.1 as int) * (pos.0
        as int)) == (mass as int) * ((pos.0 as int) * (pos.1 as int)) && (mass as int) * ((pos.2
        as int) * (pos.0 as int)) == (mass as int) * ((pos.0 as int) * (pos.2 as int)) && (mass
        as int) * ((pos.2 as int) * (pos.1 as int)) == (mass as int) * ((pos.1 as int) * (pos.2
        as int))) by (nonlinear_arith)
        requires
            -0x8000 <= pos.0 <= 0x8000,
            -0x8000 <= pos.1 <= 0x8000,
            -0x8000 <= pos.2 <= 0x8000,
            -1024 <= mass <= 1024,
            PHYS_CONTRIB_MAX == 0x400_0000_0000,
    ;
}

/// The inertia contribution of one voxel of the given mass at a lattice
/// position: `mass * identity` plus the point-mass tensor.  This tensor is
/// inaccurate: the point-mass part should carry a further division by 24,
/// but generally it doesn't matter; kept as an accepted approximation.
pub fn voxel_inertia(pos: IVec, mass: i64) -> (r: LMat)
    requires
        -PHYS_POS_MAX <= pos.x <= PHYS_POS_MAX,
        -PHYS_POS_MAX <= pos.y <= PHYS_POS_MAX,
        -PHYS_POS_MAX <= pos.z <= PHYS_POS_MAX,
        -PHYS_MASS_MAX <= mass <= PHYS_MASS_MAX,
    ensures
        r == spec_voxel_inertia(pos, mass),
{
    proof {
        lemma_inertia_entries_bounded(LVec(pos.x as i64, pos.y as i64, pos.z as i64), mass);
    }
    LMat::identity().scale(mass).add(inertia_of_position(LVec::from_ivec(pos), mass))
}

/// The inertia contribution of one voxel, as a value; its entries are the
/// inertia components of `spec_contrib`.
pub open spec fn spec_voxel_inertia(pos: IVec, mass: i64) -> LMat {
    let t = spec_contrib((pos, mass));
    LMat(
        LVec(t.i00 as i64, t.i01 as i64, t.i02 as i64),
        LVec(t.i01 as i64, t.i11 as i64, t.i12 as i64),
        LVec(t.i02 as i64, t.i12 as i64, t.i22 as i64),
    )
}

/// The per-entity physics state.
pub struct PhysicsBundle {
    pub position: Position,
    pub rotation: Rotation,
    pub momentum: Momentum,
    pub angular_momentum: AngularMomentum,
    pub force: Force,
    pub torque: Torque,
    pub total_mass_position: TotalMassPosition,
    pub mass: Mass,
    pub inertia: Inertia,
    pub changed_bodies: ChangedBodies,
    pub center_of_mass: CenterOfMass,
    pub inv_mass: InvMass,
    pub inertia_around_center_of_mass: InertiaAroundCenterOfMass,
    pub inv_inertia_around_center_of_mass: InvInertiaAroundCenterOfMass,
}

/// Whether the exact accumulators of a bundle hold exactly the totals of a
/// mass sequence.
pub open spec fn bundle_matches_totals(b: PhysicsBundle, t: MassTotals) -> bool {
    &&& b.mass.0 == t.mass
    &&& b.total_mass_position.0 == LVec(t.tmp_x as i64, t.tmp_y as i64, t.tmp_z as i64)
    &&& b.inertia.0 == LMat(
        LVec(t.i00 as i64, t.i01 as i64, t.i02 as i64),
        LVec(t.i01 as i64, t.i11 as i64, t.i12 as i64),
        LVec(t.i02 as i64, t.i12 as i64, t.i22 as i64),
    )
}

impl PhysicsBundle {
    /// Creates the physics state of a body from its initial mass
    /// distribution: accumulates total mass, the mass-weighted position sum
    /// and the inertia tensor about the origin exactly, and sets momentum
    /// to `mass * velocity`.  The computed quantities hold placeholder
    /// values until the first derived-quantity recomputation.
    pub fn new(position: FxVec, rotation: Rot, velocity: FxVec, masses: &Vec<(IVec, i64)>) -> (r: PhysicsBundle)
        requires
            masses_bounded(masses@),
            masses@.len() <= PHYS_COUNT_MAX,
            fits_i64(fx_mul_raw(velocity.x.0 as int, spec_mass_totals(masses@).mass * (FX_SCALE as int))),
            fits_i64(fx_mul_raw(velocity.y.0 as int, spec_mass_totals(masses@).mass * (FX_SCALE as int))),
            fits_i64(fx_mul_raw(velocity.z.0 as int, spec_mass_totals(masses@).mass * (FX_SCALE as int))),
        ensures
            bundle_matches_totals(r, spec_mass_totals(masses@)),
            r.position.0 == position,
            r.rotation.0 == rotation,
            r.momentum.0.x.0 == fx_mul_raw(
                velocity.x.0 as int,
                spec_mass_totals(masses@).mass * (FX_SCALE as int),
            ),
            r.momentum.0.y.0 == fx_mul_raw(
                velocity.y.0 as int,
                spec_mass_totals(masses@).mass * (FX_SCALE as int),
            ),
            r.momentum.0.z.0 == fx_mul_raw(
                velocity.z.0 as int,
                spec_mass_totals(masses@).mass * (FX_SCALE as int),
            ),
            r.angular_momentum.0 == (FxVec { x: Fx(0i64), y: Fx(0i64), z: Fx(0i64) }),
            r.force.0 == (FxVec { x: Fx(0i64), y: Fx(0i64), z: Fx(0i64) }),
            r.torque.0 == (FxVec { x: Fx(0i64), y: Fx(0i64), z: Fx(0i64) }),
            r.changed_bodies.0@.len() == 0,
            r.center_of_mass.0 == (FxVec { x: Fx(0i64), y: Fx(0i64), z: Fx(0i64) }),
            r.inv_mass.0 == Fx(0i64),
            r.inertia_around_center_of_mass.0 == crate::geometry::fxmat::spec_identity(),
            r.inv_inertia_around_center_of_mass.0 == crate::geometry::fxmat::spec_identity(),
    {
        let (total_mass, total_mass_position, total_inertia) = accumulate_masses(masses);
        proof {
            lemma_totals_bounded(masses@);
            assert((masses@.len() as int) * (PHYS_CONTRIB_MAX as int) <= 0x4000_0000_0000_0000
                && (masses@.len() as int) * (PHYS_MASS_MAX as int) <= 0x4000_0000)
                by (nonlinear_arith)
                requires
                    masses@.len() <= 0x10_0000,
            ;
            assert(fits_i64((total_mass as int) * (FX_SCALE as int))) by (nonlinear_arith)
                requires
                    -0x4000_0000 <= total_mass as int <= 0x4000_0000,
            ;
        }
        let mass_fx = Fx::from_int(total_mass);
        let momentum = velocity.scale(mass_fx);
        PhysicsBundle {
            position: Position(position),
            rotation: Rotation(rotation),
            momentum: Momentum(momentum),
            angular_momentum: AngularMomentum(FxVec::zero()),
            force: Force(FxVec::zero()),
            torque: Torque(FxVec::zero()),
            total_mass_position: TotalMassPosition(total_mass_position),
            mass: Mass(total_mass),
            inertia: Inertia(total_inertia),
            changed_bodies: ChangedBodies(Vec::new()),
            center_of_mass: CenterOfMass(FxVec::zero()),
            inv_mass: InvMass(Fx::zero()),
            inertia_around_center_of_mass: InertiaAroundCenterOfMass(
                crate::geometry::FxMat::identity(),
            ),
            inv_inertia_around_center_of_mass: InvInertiaAroundCenterOfMass(
                crate::geometry::FxMat::identity(),
            ),
        }
    }

    /// Applies every pending mass-distribution change to the exact
    /// accumulators, draining the pending list.  The accumulation is
    /// incremental: the new totals are the old ones plus the changes'
    /// totals, in one exact pass.
    pub fn recompute_after_changed_body(&mut self)
        requires
            masses_bounded(old(self).changed_bodies.0@),
            old(self).changed_bodies.0@.len() <= PHYS_COUNT_MAX,
            fits_i64(
                old(self).mass.0 + spec_mass_totals(old(self).changed_bodies.0@).mass,
            ),
            fits_i64(
                old(self).total_mass_position.0.0 + spec_mass_totals(
                    old(self).changed_bodies.0@,
                ).tmp_x,
            ),
            fits_i64(
                old(self).total_mass_position.0.1 + spec_mass_totals(
                    old(self).changed_bodies.0@,
                ).tmp_y,
            ),
            fits_i64(
                old(self).total_mass_position.0.2 + spec_mass_totals(
                    old(self).changed_bodies.0@,
                ).tmp_z,
            ),
            fits_i64(old(self).inertia.0.0.0 + spec_mass_totals(old(self).changed_bodies.0@).i00),
            fits_i64(old(self).inertia.0.1.1 + spec_mass_totals(old(self).changed_bodies.0@).i11),
            fits_i64(old(self).inertia.0.2.2 + spec_mass_totals(old(self).changed_bodies.0@).i22),
            fits_i64(old(self).inertia.0.0.1 + spec_mass_totals(old(self).changed_bodies.0@).i01),
            fits_i64(old(self).inertia.0.0.2 + spec_mass_totals(old(self).changed_bodies.0@).i02),
            fits_i64(old(self).inertia.0.1.2 + spec_mass_totals(old(self).changed_bodies.0@).i12),
            old(self).inertia.0.1.0 == old(self).inertia.0.0.1,
            old(self).inertia.0.2.0 == old(self).inertia.0.0.2,
            old(self).inertia.0.2.1 == old(self).inertia.0.1.2,
        ensures
            ({
                let t = spec_mass_totals(old(self).changed_bodies.0@);
                &&& final(self).mass.0 == old(self).mass.0 + t.mass
                &&& final(self).total_mass_position.0 == LVec(
                    (old(self).total_mass_position.0.0 + t.tmp_x) as i64,
                    (old(self).total_mass_position.0.1 + t.tmp_y) as i64,
                    (old(self).total_mass_position.0.2 + t.tmp_z) as i64,
                )
                &&& final(self).inertia.0 == LMat(
                    LVec(
                        (old(self).inertia.0.0.0 + t.i00) as i64,
                        (old(self).inertia.0.0.1 + t.i01) as i64,
                        (old(self).inertia.0.0.2 + t.i02) as i64,
                    ),
                    LVec(
                        (old(self).inertia.0.0.1 + t.i01) as i64,
                        (old(self).inertia.0.1.1 + t.i11) as i64,
                        (old(self).inertia.0.1.2 + t.i12) as i64,
                    ),
                    LVec(
                        (old(self).inertia.0.0.2 + t.i02) as i64,
                        (old(self).inertia.0.1.2 + t.i12) as i64,
                        (old(self).inertia.0.2.2 + t.i22) as i64,
                    ),
                )
            }),
            final(self).changed_bodies.0@.len() == 0,
            final(self).position == old(self).position,
            final(self).rotation == old(self).rotation,
            final(self).momentum == old(self).momentum,
            final(self).angular_momentum == old(self).angular_momentum,
            final(self).force == old(self).force,
            final(self).torque == old(self).torque,
            final(self).center_of_mass == old(self).center_of_mass,
            final(self).inv_mass == old(self).inv_mass,
            final(self).inertia_around_center_of_mass == old(self).inertia_around_center_of_mass,
            final(self).inv_inertia_around_center_of_mass == old(
                self,
            ).inv_inertia_around_center_of_mass,
    {
        let mut changes: Vec<(IVec, i64)> = Vec::new();
        core::mem::swap(&mut self.changed_bodies.0, &mut changes);
        let (dm, dtmp, di) = accumulate_masses(&changes);
        proof {
            lemma_totals_bounded(changes@);
            assert((changes@.len() as int) * (PHYS_CONTRIB_MAX as int) <= 0x4000_0000_0000_0000
                && (changes@.len() as int) * (PHYS_MASS_MAX as int) <= 0x4000_0000)
                by (nonlinear_arith)
                requires
                    changes@.len() <= 0x10_0000,
            ;
        }
        self.mass.0 = self.mass.0 + dm;
        self.total_mass_position.0 = self.total_mass_position.0.add(dtmp);
        self.inertia.0 = self.inertia.0.add(di);
    }
}

/// Accumulates the exact totals of a sequence of point masses in one pass.
fn accumulate_masses(masses: &Vec<(IVec, i64)>) -> (r: (i64, LVec, LMat))
    requires
        masses_bounded(masses@),
        masses@.len() <= PHYS_COUNT_MAX,
    ensures
        ({
            let t = spec_mass_totals(masses@);
            &&& r.0 == t.mass
            &&& r.1 == LVec(t.tmp_x as i64, t.tmp_y as i64, t.tmp_z as i64)
            &&& r.2 == LMat(
                LVec(t.i00 as i64, t.i01 as i64, t.i02 as i64),
                LVec(t.i01 as i64, t.i11 as i64, t.i12 as i64),
                LVec(t.i02 as i64, t.i12 as i64, t.i22 as i64),
            )
        }),
{
    let mut total_mass: i64 = 0;
    let mut total_mass_position = LVec::zero();
    let mut total_inertia = LMat::zero();
    let mut i: usize = 0;
    while i < masses.len()
        invariant
            masses_bounded(masses@),
            masses@.len() <= PHYS_COUNT_MAX,
            i <= masses@.len(),
            ({
                let t = spec_mass_totals(masses@.subrange(0, i as int));
                &&& total_mass == t.mass
                &&& total_mass_position == LVec(t.tmp_x as i64, t.tmp_y as i64, t.tmp_z as i64)
                &&& total_inertia == LMat(
                    LVec(t.i00 as i64, t.i01 as i64, t.i02 as i64),
                    LVec(t.i01 as i64, t.i11 as i64, t.i12 as i64),
                    LVec(t.i02 as i64, t.i12 as i64, t.i22 as i64),
                )
            }),
        decreases masses@.len() - i,
    {
        let (pos, mass) = masses[i];
        proof {
            let pre = masses@.subrange(0, i as int);
            lemma_totals_bounded(pre);
            lemma_contrib_bounded((pos, mass));
            lemma_inertia_entries_bounded(LVec(pos.x as i64, pos.y as i64, pos.z as i64), mass);
            assert((pre.len() as int) * (PHYS_CONTRIB_MAX as int) <= 0x4000_0000_0000_0000
                && (pre.len() as int) * (PHYS_MASS_MAX as int) <= 0x4000_0000) by (nonlinear_arith)
                requires
                    pre.len() <= 0x10_0000,
            ;
            assert(masses@.subrange(0, i as int + 1).drop_last() =~= pre);
            assert(masses@.subrange(0, i as int + 1).last() == masses@[i as int]);
        }
        let lpos = LVec::from_ivec(pos);
        total_mass = total_mass + mass;
        total_mass_position = total_mass_position.add(lpos.scale(mass));
        total_inertia = total_inertia.add(voxel_inertia(pos, mass));
        i = i + 1;
    }
    proof {
        assert(masses@.subrange(0, masses@.len() as int) =~= masses@);
    }
    (total_mass, total_mass_position, total_inertia)
}

/// Accumulates a force applied at a world point: the force adds to the
/// force accumulator, and its torque about the center of mass,
/// `force x (point - centerOfMassWorldPosition)`, adds to the torque
/// accumulator.
pub fn apply_force(
    force: FxVec,
    position: FxVec,
    force_acc: &mut Force,
    torque_acc: &mut Torque,
    body_position: &Position,
)
    requires
        fits_i64(old(force_acc).0.x.0 + force.x.0),
        fits_i64(old(force_acc).0.y.0 + force.y.0),
        fits_i64(old(force_acc).0.z.0 + force.z.0),
        fits_i64(position.x.0 - body_position.0.x.0),
        fits_i64(position.y.0 - body_position.0.y.0),
        fits_i64(position.z.0 - body_position.0.z.0),
        crate::geometry::fxvec::cross_fits(
            force,
            FxVec {
                x: Fx((position.x.0 - body_position.0.x.0) as i64),
                y: Fx((position.y.0 - body_position.0.y.0) as i64),
                z: Fx((position.z.0 - body_position.0.z.0) as i64),
            },
        ),
        ({
            let delta = FxVec {
                x: Fx((position.x.0 - body_position.0.x.0) as i64),
                y: Fx((position.y.0 - body_position.0.y.0) as i64),
                z: Fx((position.z.0 - body_position.0.z.0) as i64),
            };
            let t = spec_cross(force, delta);
            &&& fits_i64(old(torque_acc).0.x.0 + t.x.0)
            &&& fits_i64(old(torque_acc).0.y.0 + t.y.0)
            &&& fits_i64(old(torque_acc).0.z.0 + t.z.0)
        }),
    ensures
        final(force_acc).0.x.0 == old(force_acc).0.x.0 + force.x.0,
        final(force_acc).0.y.0 == old(force_acc).0.y.0 + force.y.0,
        final(force_acc).0.z.0 == old(force_acc).0.z.0 + force.z.0,
        ({
            let delta = FxVec {
                x: Fx((position.x.0 - body_position.0.x.0) as i64),
                y: Fx((position.y.0 - body_position.0.y.0) as i64),
                z: Fx((position.z.0 - body_position.0.z.0) as i64),
            };
            let t = spec_cross(force, delta);
            &&& final(torque_acc).0.x.0 == old(torque_acc).0.x.0 + t.x.0
            &&& final(torque_acc).0.y.0 == old(torque_acc).0.y.0 + t.y.0
            &&& final(torque_acc).0.z.0 == old(torque_acc).0.z.0 + t.z.0
        }),
{
    let delta = position.sub(body_position.0);
    force_acc.0 = force_acc.0.add(force);
    torque_acc.0 = torque_acc.0.add(force.cross(delta));
}

/// The fixed-point cross product as a value.
pub open spec fn spec_cross(a: FxVec, b: FxVec) -> FxVec {
    FxVec {
        x: Fx(
            (fx_mul_raw(a.y.0 as int, b.z.0 as int) - fx_mul_raw(a.z.0 as int, b.y.0 as int))
                as i64,
        ),
        y: Fx(
            (fx_mul_raw(a.z.0 as int, b.x.0 as int) - fx_mul_raw(a.x.0 as int, b.z.0 as int))
                as i64,
        ),
        z: Fx(
            (fx_mul_raw(a.x.0 as int, b.y.0 as int) - fx_mul_raw(a.y.0 as int, b.x.0 as int))
                as i64,
        ),
    }
}

/// Holds when the linear update's arithmetic fits: the momentum gains and
/// position gains stay within range.
pub open spec fn linear_update_fits(b: PhysicsBundle, ts: Fx) -> bool {
    let mx = b.momentum.0.x.0 + fx_mul_raw(b.force.0.x.0 as int, ts.0 as int);
    let my = b.momentum.0.y.0 + fx_mul_raw(b.force.0.y.0 as int, ts.0 as int);
    let mz = b.momentum.0.z.0 + fx_mul_raw(b.force.0.z.0 as int, ts.0 as int);
    &&& fits_i64(fx_mul_raw(b.force.0.x.0 as int, ts.0 as int))
    &&& fits_i64(fx_mul_raw(b.force.0.y.0 as int, ts.0 as int))
    &&& fits_i64(fx_mul_raw(b.force.0.z.0 as int, ts.0 as int))
    &&& fits_i64(mx)
    &&& fits_i64(my)
    &&& fits_i64(mz)
    &&& fits_i64(fx_mul_raw(mx, ts.0 as int))
    &&& fits_i64(fx_mul_raw(my, ts.0 as int))
    &&& fits_i64(fx_mul_raw(mz, ts.0 as int))
    &&& fits_i64(fx_mul_raw(fx_mul_raw(mx, ts.0 as int), b.inv_mass.0.0 as int))
    &&& fits_i64(fx_mul_raw(fx_mul_raw(my, ts.0 as int), b.inv_mass.0.0 as int))
    &&& fits_i64(fx_mul_raw(fx_mul_raw(mz, ts.0 as int), b.inv_mass.0.0 as int))
    &&& fits_i64(b.position.0.x.0 + fx_mul_raw(fx_mul_raw(mx, ts.0 as int), b.inv_mass.0.0 as int))
    &&& fits_i64(b.position.0.y.0 + fx_mul_raw(fx_mul_raw(my, ts.0 as int), b.inv_mass.0.0 as int))
    &&& fits_i64(b.position.0.z.0 + fx_mul_raw(fx_mul_raw(mz, ts.0 as int), b.inv_mass.0.0 as int))
}

/// The linear integration step over the fixed timestep:
/// `momentum += dt * force; position += dt * momentum * inverseMass;
/// force := 0`.
pub fn linear_update(b: &mut PhysicsBundle, timestep: Timestep)
    requires
        linear_update_fits(*old(b), timestep.0),
    ensures
        ({
            let ts = timestep.0.0 as int;
            let mx = old(b).momentum.0.x.0 + fx_mul_raw(old(b).force.0.x.0 as int, ts);
            let my = old(b).momentum.0.y.0 + fx_mul_raw(old(b).force.0.y.0 as int, ts);
            let mz = old(b).momentum.0.z.0 + fx_mul_raw(old(b).force.0.z.0 as int, ts);
            &&& final(b).momentum.0.x.0 == mx
            &&& final(b).momentum.0.y.0 == my
            &&& final(b).momentum.0.z.0 == mz
            &&& final(b).position.0.x.0 == old(b).position.0.x.0 + fx_mul_raw(
                fx_mul_raw(mx, ts),
                old(b).inv_mass.0.0 as int,
            )
            &&& final(b).position.0.y.0 == old(b).position.0.y.0 + fx_mul_raw(
                fx_mul_raw(my, ts),
                old(b).inv_mass.0.0 as int,
            )
            &&& final(b).position.0.z.0 == old(b).position.0.z.0 + fx_mul_raw(
                fx_mul_raw(mz, ts),
                old(b).inv_mass.0.0 as int,
            )
        }),
        final(b).force.0 == (FxVec { x: Fx(0i64), y: Fx(0i64), z: Fx(0i64) }),
        final(b).rotation == old(b).rotation,
        final(b).angular_momentum == old(b).angular_momentum,
        final(b).torque == old(b).torque,
        final(b).mass == old(b).mass,
        final(b).total_mass_position == old(b).total_mass_position,
        final(b).inertia == old(b).inertia,
        final(b).center_of_mass == old(b).center_of_mass,
        final(b).inv_mass == old(b).inv_mass,
        final(b).inertia_around_center_of_mass == old(b).inertia_around_center_of_mass,
        final(b).inv_inertia_around_center_of_mass == old(b).inv_inertia_around_center_of_mass,
        final(b).changed_bodies.0@ == old(b).changed_bodies.0@,
    {
    let ts = timestep.0;
    b.momentum.0 = b.momentum.0.add(b.force.0.scale(ts));
    b.position.0 = b.position.0.add(b.momentum.0.scale(ts).scale(b.inv_mass.0));
    b.force.0 = FxVec::zero();
}

/// The center of mass of a bundle: the mass-weighted position sum divided
/// by the total mass, floored in fixed point.
pub open spec fn spec_com(b: PhysicsBundle) -> FxVec {
    let m = b.mass.0 as int;
    FxVec {
        x: Fx((((b.total_mass_position.0.0 as int) * (FX_SCALE as int)) / m) as i64),
        y: Fx((((b.total_mass_position.0.1 as int) * (FX_SCALE as int)) / m) as i64),
        z: Fx((((b.total_mass_position.0.2 as int) * (FX_SCALE as int)) / m) as i64),
    }
}

/// The shift of the center of mass against the previously computed one.
pub open spec fn spec_del_com(b: PhysicsBundle) -> FxVec {
    FxVec {
        x: Fx((spec_com(b).x.0 - b.center_of_mass.0.x.0) as i64),
        y: Fx((spec_com(b).y.0 - b.center_of_mass.0.y.0) as i64),
        z: Fx((spec_com(b).z.0 - b.center_of_mass.0.z.0) as i64),
    }
}

/// An exact integer tensor lifted to fixed point: every entry scaled by
/// `2^32`.
pub open spec fn spec_lmat_to_fx(m: LMat) -> crate::geometry::FxMat {
    crate::geometry::FxMat(
        FxVec {
            x: Fx((m.0.0 * (FX_SCALE as int)) as i64),
            y: Fx((m.0.1 * (FX_SCALE as int)) as i64),
            z: Fx((m.0.2 * (FX_SCALE as int)) as i64),
        },
        FxVec {
            x: Fx((m.1.0 * (FX_SCALE as int)) as i64),
            y: Fx((m.1.1 * (FX_SCALE as int)) as i64),
            z: Fx((m.1.2 * (FX_SCALE as int)) as i64),
        },
        FxVec {
            x: Fx((m.2.0 * (FX_SCALE as int)) as i64),
            y: Fx((m.2.1 * (FX_SCALE as int)) as i64),
            z: Fx((m.2.2 * (FX_SCALE as int)) as i64),
        },
    )
}

/// The fixed-point point-mass inertia tensor of the whole mass placed at
/// the center of mass: the parallel-axis correction term.
pub open spec fn spec_point_inertia_fx(com: FxVec, mfx: Fx) -> crate::geometry::FxMat {
    let x = com.x.0 as int;
    let y = com.y.0 as int;
    let z = com.z.0 as int;
    let m = mfx.0 as int;
    crate::geometry::FxMat(
        FxVec {
            x: Fx(fx_mul_raw(m, fx_mul_raw(y, y) + fx_mul_raw(z, z)) as i64),
            y: Fx((-fx_mul_raw(m, fx_mul_raw(x, y))) as i64),
            z: Fx((-fx_mul_raw(m, fx_mul_raw(x, z))) as i64),
        },
        FxVec {
            x: Fx((-fx_mul_raw(m, fx_mul_raw(x, y))) as i64),
            y: Fx(fx_mul_raw(m, fx_mul_raw(x, x) + fx_mul_raw(z, z)) as i64),
            z: Fx((-fx_mul_raw(m, fx_mul_raw(y, z))) as i64),
        },
        FxVec {
            x: Fx((-fx_mul_raw(m, fx_mul_raw(x, z))) as i64),
            y: Fx((-fx_mul_raw(m, fx_mul_raw(y, z))) as i64),
            z: Fx(fx_mul_raw(m, fx_mul_raw(x, x) + fx_mul_raw(y, y)) as i64),
        },
    )
}

/// The recomputed inertia tensor about the center of mass: the exact tensor
/// about the origin, lifted to fixed point, plus the parallel-axis
/// correction for the recomputed center of mass.
pub open spec fn spec_iacom(b: PhysicsBundle) -> crate::geometry::FxMat {
    let base = spec_lmat_to_fx(b.inertia.0);
    let corr = spec_point_inertia_fx(spec_com(b), Fx((b.mass.0 * (FX_SCALE as int)) as i64));
    crate::geometry::FxMat(
        FxVec {
            x: Fx((base.0.x.0 + corr.0.x.0) as i64),
            y: Fx((base.0.y.0 + corr.0.y.0) as i64),
            z: Fx((base.0.z.0 + corr.0.z.0) as i64),
        },
        FxVec {
            x: Fx((base.1.x.0 + corr.1.x.0) as i64),
            y: Fx((base.1.y.0 + corr.1.y.0) as i64),
            z: Fx((base.1.z.0 + corr.1.z.0) as i64),
        },
        FxVec {
            x: Fx((base.2.x.0 + corr.2.x.0) as i64),
            y: Fx((base.2.y.0 + corr.2.y.0) as i64),
            z: Fx((base.2.z.0 + corr.2.z.0) as i64),
        },
    )
}

/// Holds when the derived-quantity recomputation fits `i64` arithmetic: the
/// mass is positive, the center of mass and its shift stay in range, and
/// the corrected tensor and its inverse fit.
pub open spec fn recompute_fits(b: PhysicsBundle) -> bool {
    let m = b.mass.0 as int;
    let s = FX_SCALE as int;
    let com = spec_com(b);
    let del = spec_del_com(b);
    &&& m > 0
    &&& fits_i64(m * s)
    &&& fits_i64(((b.total_mass_position.0.0 as int) * s) / m)
    &&& fits_i64(((b.total_mass_position.0.1 as int) * s) / m)
    &&& fits_i64(((b.total_mass_position.0.2 as int) * s) / m)
    &&& fits_i64(com.x.0 - b.center_of_mass.0.x.0)
    &&& fits_i64(com.y.0 - b.center_of_mass.0.y.0)
    &&& fits_i64(com.z.0 - b.center_of_mass.0.z.0)
    &&& rot_bounded(b.rotation.0)
    &&& -crate::geometry::rotor::ROT_VEC_MAX <= del.x.0 <= crate::geometry::rotor::ROT_VEC_MAX
    &&& -crate::geometry::rotor::ROT_VEC_MAX <= del.y.0 <= crate::geometry::rotor::ROT_VEC_MAX
    &&& -crate::geometry::rotor::ROT_VEC_MAX <= del.z.0 <= crate::geometry::rotor::ROT_VEC_MAX
    &&& fits_i64(
        b.position.0.x.0 + crate::geometry::rotor::spec_rotate(
            crate::geometry::rotor::spec_reversed(b.rotation.0),
            del,
        ).x.0,
    )
    &&& fits_i64(
        b.position.0.y.0 + crate::geometry::rotor::spec_rotate(
            crate::geometry::rotor::spec_reversed(b.rotation.0),
            del,
        ).y.0,
    )
    &&& fits_i64(
        b.position.0.z.0 + crate::geometry::rotor::spec_rotate(
            crate::geometry::rotor::spec_reversed(b.rotation.0),
            del,
        ).z.0,
    )
    &&& lmat_to_fx_fits(b.inertia.0)
    &&& point_inertia_fits(com, Fx((m * s) as i64))
    &&& iacom_sum_fits(b)
    &&& crate::geometry::fxmat::inverse_fits(spec_iacom(b))
}

/// Holds when lifting the exact tensor to fixed point fits.
pub open spec fn lmat_to_fx_fits(m: LMat) -> bool {
    let s = FX_SCALE as int;
    &&& fits_i64(m.0.0 * s)
    &&& fits_i64(m.0.1 * s)
    &&& fits_i64(m.0.2 * s)
    &&& fits_i64(m.1.0 * s)
    &&& fits_i64(m.1.1 * s)
    &&& fits_i64(m.1.2 * s)
    &&& fits_i64(m.2.0 * s)
    &&& fits_i64(m.2.1 * s)
    &&& fits_i64(m.2.2 * s)
}

/// Holds when the parallel-axis correction fits.
pub open spec fn point_inertia_fits(com: FxVec, mfx: Fx) -> bool {
    let x = com.x.0 as int;
    let y = com.y.0 as int;
    let z = com.z.0 as int;
    let m = mfx.0 as int;
    &&& fits_i64(fx_mul_raw(x, x))
    &&& fits_i64(fx_mul_raw(y, y))
    &&& fits_i64(fx_mul_raw(z, z))
    &&& fits_i64(fx_mul_raw(x, y))
    &&& fits_i64(fx_mul_raw(x, z))
    &&& fits_i64(fx_mul_raw(y, z))
    &&& fits_i64(fx_mul_raw(y, y) + fx_mul_raw(z, z))
    &&& fits_i64(fx_mul_raw(x, x) + fx_mul_raw(z, z))
    &&& fits_i64(fx_mul_raw(x, x) + fx_mul_raw(y, y))
    &&& fits_i64(fx_mul_raw(m, fx_mul_raw(y, y) + fx_mul_raw(z, z)))
    &&& fits_i64(fx_mul_raw(m, fx_mul_raw(x, x) + fx_mul_raw(z, z)))
    &&& fits_i64(fx_mul_raw(m, fx_mul_raw(x, x) + fx_mul_raw(y, y)))
    &&& fits_i64(fx_mul_raw(m, fx_mul_raw(x, y)))
    &&& fits_i64(fx_mul_raw(m, fx_mul_raw(x, z)))
    &&& fits_i64(fx_mul_raw(m, fx_mul_raw(y, z)))
    &&& fx_mul_raw(m, fx_mul_raw(x, y)) > i64::MIN
    &&& fx_mul_raw(m, fx_mul_raw(x, z)) > i64::MIN
    &&& fx_mul_raw(m, fx_mul_raw(y, z)) > i64::MIN
}

/// Holds when the corrected tensor's entry sums fit.
pub open spec fn iacom_sum_fits(b: PhysicsBundle) -> bool {
    let base = spec_lmat_to_fx(b.inertia.0);
    let corr = spec_point_inertia_fx(spec_com(b), Fx((b.mass.0 * (FX_SCALE as int)) as i64));
    &&& fits_i64(base.0.x.0 + corr.0.x.0)
    &&& fits_i64(base.0.y.0 + corr.0.y.0)
    &&& fits_i64(base.0.z.0 + corr.0.z.0)
    &&& fits_i64(base.1.x.0 + corr.1.x.0)
    &&& fits_i64(base.1.y.0 + corr.1.y.0)
    &&& fits_i64(base.1.z.0 + corr.1.z.0)
    &&& fits_i64(base.2.x.0 + corr.2.x.0)
    &&& fits_i64(base.2.y.0 + corr.2.y.0)
    &&& fits_i64(base.2.z.0 + corr.2.z.0)
}

impl PhysicsBundle {
    /// Recomputes the four derived quantities after a change of the mass
    /// distribution: center of mass, inverse mass, inertia about the center
    /// of mass and its inverse.  When the center of mass shifts, the
    /// position anchor is corrected by `rotation^-1 * (new - old)` so the
    /// tracked point keeps following the body.
    pub fn recompute_computed_after_changed(&mut self)
        requires
            recompute_fits(*old(self)),
        ensures
            final(self).center_of_mass.0 == spec_com(*old(self)),
            final(self).position.0.x.0 == old(self).position.0.x.0
                + crate::geometry::rotor::spec_rotate(
                crate::geometry::rotor::spec_reversed(old(self).rotation.0),
                spec_del_com(*old(self)),
            ).x.0,
            final(self).position.0.y.0 == old(self).position.0.y.0
                + crate::geometry::rotor::spec_rotate(
                crate::geometry::rotor::spec_reversed(old(self).rotation.0),
                spec_del_com(*old(self)),
            ).y.0,
            final(self).position.0.z.0 == old(self).position.0.z.0
                + crate::geometry::rotor::spec_rotate(
                crate::geometry::rotor::spec_reversed(old(self).rotation.0),
                spec_del_com(*old(self)),
            ).z.0,
            final(self).inv_mass.0.0 == (FX_SCALE as int) / (old(self).mass.0 as int),
            final(self).inertia_around_center_of_mass.0 == spec_iacom(*old(self)),
            final(self).inv_inertia_around_center_of_mass.0
                == crate::geometry::fxmat::spec_inversed(spec_iacom(*old(self))),
            final(self).rotation == old(self).rotation,
            final(self).momentum == old(self).momentum,
            final(self).angular_momentum == old(self).angular_momentum,
            final(self).force == old(self).force,
            final(self).torque == old(self).torque,
            final(self).mass == old(self).mass,
            final(self).total_mass_position == old(self).total_mass_position,
            final(self).inertia == old(self).inertia,
            final(self).changed_bodies.0@ == old(self).changed_bodies.0@,
    {
        let old_com = self.center_of_mass.0;
        let m = self.mass.0;
        let comx = floor_div_i128((self.total_mass_position.0.0 as i128) * (FX_SCALE as i128), m as i128);
        let comy = floor_div_i128((self.total_mass_position.0.1 as i128) * (FX_SCALE as i128), m as i128);
        let comz = floor_div_i128((self.total_mass_position.0.2 as i128) * (FX_SCALE as i128), m as i128);
        let com = FxVec { x: Fx(comx as i64), y: Fx(comy as i64), z: Fx(comz as i64) };
        self.center_of_mass.0 = com;
        let del_com = com.sub(old_com);
        let rot_del_com = self.rotation.0.reversed().rotate(del_com);
        self.position.0 = self.position.0.add(rot_del_com);
        self.inv_mass.0 = Fx(((FX_SCALE as u64) / (m as u64)) as i64);
        let mfx = Fx(m * FX_SCALE);
        let base = lmat_to_fx(self.inertia.0);
        let corr = point_inertia_fx(com, mfx);
        let iacom = base.add(corr);
        self.inertia_around_center_of_mass.0 = iacom;
        self.inv_inertia_around_center_of_mass.0 = iacom.inversed();
    }
}

/// Lifts the exact tensor to fixed point.
fn lmat_to_fx(m: LMat) -> (r: crate::geometry::FxMat)
    requires
        lmat_to_fx_fits(m),
    ensures
        r == spec_lmat_to_fx(m),
{
    crate::geometry::FxMat(
        FxVec { x: Fx(m.0.0 * FX_SCALE), y: Fx(m.0.1 * FX_SCALE), z: Fx(m.0.2 * FX_SCALE) },
        FxVec { x: Fx(m.1.0 * FX_SCALE), y: Fx(m.1.1 * FX_SCALE), z: Fx(m.1.2 * FX_SCALE) },
        FxVec { x: Fx(m.2.0 * FX_SCALE), y: Fx(m.2.1 * FX_SCALE), z: Fx(m.2.2 * FX_SCALE) },
    )
}

/// Computes the fixed-point parallel-axis correction tensor.
fn point_inertia_fx(com: FxVec, mfx: Fx) -> (r: crate::geometry::FxMat)
    requires
        point_inertia_fits(com, mfx),
    ensures
        r == spec_point_inertia_fx(com, mfx),
{
    let xx = com.x.mul(com.x);
    let yy = com.y.mul(com.y);
    let zz = com.z.mul(com.z);
    let xy = com.x.mul(com.y);
    let xz = com.x.mul(com.z);
    let yz = com.y.mul(com.z);
    crate::geometry::FxMat(
        FxVec {
            x: mfx.mul(yy.add(zz)),
            y: mfx.mul(xy).neg(),
            z: mfx.mul(xz).neg(),
        },
        FxVec {
            x: mfx.mul(xy).neg(),
            y: mfx.mul(xx.add(zz)),
            z: mfx.mul(yz).neg(),
        },
        FxVec {
            x: mfx.mul(xz).neg(),
            y: mfx.mul(yz).neg(),
            z: mfx.mul(xx.add(yy)),
        },
    )
}


/// Removing one element from a mass sequence removes exactly its
/// contribution from the totals.
proof fn lemma_totals_remove(s: Seq<(IVec, i64)>, i: int)
    requires
        0 <= i < s.len(),
    ensures
        spec_mass_totals(s) == totals_plus(spec_mass_totals(s.remove(i)), spec_contrib(s[i])),
    decreases s.len(),
{
    if i == s.len() - 1 {
        assert(s.remove(i) =~= s.drop_last());
    } else {
        lemma_totals_remove(s.drop_last(), i);
        assert(s.remove(i).drop_last() =~= s.drop_last().remove(i));
        assert(s.remove(i).last() == s.last());
        assert(s.drop_last()[i] == s[i]);
    }
}

/// Mass accumulation is order-independent: two sequences holding the same
/// point masses, in any order, accumulate to identical exact totals.  The
/// incremental path of `recompute_after_changed_body` therefore agrees
/// with a single pass over the reordered masses.
pub proof fn lemma_totals_permutation(ms1: Seq<(IVec, i64)>, ms2: Seq<(IVec, i64)>)
    requires
        ms1.to_multiset() == ms2.to_multiset(),
    ensures
        spec_mass_totals(ms1) == spec_mass_totals(ms2),
    decreases ms1.len(),
{
    broadcast use vstd::seq_lib::group_to_multiset_ensures;

    if ms1.len() == 0 {
        assert(ms2.to_multiset().len() == 0);
        assert(ms2.len() == 0);
    } else {
        let a = ms1.last();
        assert(ms1.contains(a));
        assert(ms1.to_multiset().count(a) > 0);
        assert(ms2.to_multiset().count(a) > 0);
        assert(ms2.contains(a));
        let i = choose|i: int| 0 <= i < ms2.len() && ms2[i] == a;
        lemma_totals_remove(ms2, i);
        assert(ms1.drop_last() =~= ms1.remove(ms1.len() - 1));
        assert(ms1.remove(ms1.len() - 1).to_multiset() =~= ms1.to_multiset().remove(a));
        assert(ms2.remove(i).to_multiset() =~= ms2.to_multiset().remove(a));
        lemma_totals_permutation(ms1.drop_last(), ms2.remove(i));
    }
}

/// The position drift of an unforced body over `n` ticks: the same exact
/// per-tick increment, applied `n` times.
pub open spec fn spec_drift_position(p: int, step: int, n: nat) -> int
    decreases n,
{
    if n == 0 {
        p
    } else {
        spec_drift_position(p, step, (n - 1) as nat) + step
    }
}

/// With force held at zero, one linear update leaves the momentum exactly
/// unchanged, and the position advances by the fixed increment
/// `dt * momentum * inverseMass`.
pub proof fn lemma_zero_force_step(b: PhysicsBundle, ts: Fx)
    requires
        b.force.0 == (FxVec { x: Fx(0i64), y: Fx(0i64), z: Fx(0i64) }),
    ensures
        b.momentum.0.x.0 + fx_mul_raw(b.force.0.x.0 as int, ts.0 as int) == b.momentum.0.x.0,
        b.momentum.0.y.0 + fx_mul_raw(b.force.0.y.0 as int, ts.0 as int) == b.momentum.0.y.0,
        b.momentum.0.z.0 + fx_mul_raw(b.force.0.z.0 as int, ts.0 as int) == b.momentum.0.z.0,
{
    lemma_fx_mul_zero(ts.0 as int);
}

/// A fixed-point product with a zero factor is exactly zero.
proof fn lemma_fx_mul_zero(t: int)
    ensures
        fx_mul_raw(0, t) == 0,
{
    assert(0 * t == 0) by (nonlinear_arith);
    vstd::arithmetic::div_mod::lemma_fundamental_div_mod_converse(0, FX_SCALE as int, 0, 0);
}

/// Momentum conservation under zero force: across `n` unforced ticks the
/// momentum never changes, so the position advances by exactly `n` times
/// the fixed increment `dt * momentum * inverseMass`.
pub proof fn lemma_zero_force_drift(p: int, step: int, n: nat)
    ensures
        spec_drift_position(p, step, n) == p + n * step,
    decreases n,
{
    if n == 0 {
        assert((0 as nat) * step == 0) by (nonlinear_arith);
    } else {
        lemma_zero_force_drift(p, step, (n - 1) as nat);
        assert(n * step == (n - 1) * step + step) by (nonlinear_arith);
    }
}

/// Center-of-mass shift correction for an unrotated body: after the
/// derived-quantity recomputation the world location of the tracked
/// anchor, `position - rotation * centerOfMass`, is unchanged.  For a
/// rotated body the correction applies the inverse rotation to the shift,
/// so the anchor can move; the identity rotation is the case this law
/// pins.
pub proof fn lemma_anchor_preserved_unrotated(b: PhysicsBundle)
    requires
        recompute_fits(b),
        b.rotation.0 == (Rot { s: Fx(FX_SCALE), xy: Fx(0i64), xz: Fx(0i64), yz: Fx(0i64) }),
    ensures
        ({
            let del = spec_del_com(b);
            let shift = crate::geometry::rotor::spec_rotate(
                crate::geometry::rotor::spec_reversed(b.rotation.0),
                del,
            );
            &&& (b.position.0.x.0 + shift.x.0) - spec_com(b).x.0 == b.position.0.x.0
                - b.center_of_mass.0.x.0
            &&& (b.position.0.y.0 + shift.y.0) - spec_com(b).y.0 == b.position.0.y.0
                - b.center_of_mass.0.y.0
            &&& (b.position.0.z.0 + shift.z.0) - spec_com(b).z.0 == b.position.0.z.0
                - b.center_of_mass.0.z.0
        }),
{
    let del = spec_del_com(b);
    let rev = crate::geometry::rotor::spec_reversed(b.rotation.0);
    assert(rev == b.rotation.0);
    crate::geometry::rotor::lemma_rotate_identity(del);
}


/// Bound on the entries of the inverse inertia tensor accepted by the
/// angular update.
pub const ANG_TENSOR_MAX: i64 = 0x40_0000_0000;

/// Bound on the updated angular momentum accepted by the angular update.
pub const ANG_MOMENTUM_MAX: i64 = 0x100_0000_0000;

/// Bound on the raw per-tick rotation angle accepted by the angular
/// update: one radian, so the small-angle sine and cosine stay accurate.
pub const ANG_THETA_MAX: i64 = 0x1_0000_0000;

/// The angular momentum after the torque gain: `am + dt * torque`.
pub open spec fn spec_am2(b: PhysicsBundle, ts: Fx) -> FxVec {
    FxVec {
        x: Fx((b.angular_momentum.0.x.0 + fx_mul_raw(b.torque.0.x.0 as int, ts.0 as int)) as i64),
        y: Fx((b.angular_momentum.0.y.0 + fx_mul_raw(b.torque.0.y.0 as int, ts.0 as int)) as i64),
        z: Fx((b.angular_momentum.0.z.0 + fx_mul_raw(b.torque.0.z.0 as int, ts.0 as int)) as i64),
    }
}

/// The angular velocity: the inverse inertia about the center of mass,
/// conjugated into world space by the rotation matrix and its transpose,
/// applied to the updated angular momentum.
pub open spec fn spec_ang_w(b: PhysicsBundle, ts: Fx) -> FxVec {
    let rm = crate::geometry::rotor::spec_into_matrix(b.rotation.0);
    let m2 = crate::geometry::fxmat::spec_mat_mul(rm, b.inv_inertia_around_center_of_mass.0);
    let m3 = crate::geometry::fxmat::spec_mat_mul(m2, crate::geometry::fxmat::spec_transpose(rm));
    crate::geometry::fxmat::spec_mat_vec(m3, spec_am2(b, ts))
}

/// The raw rotation angle of one tick: the length of the angular velocity.
pub open spec fn spec_ang_theta(b: PhysicsBundle, ts: Fx) -> int {
    crate::geometry::fxvec::mag_raw(spec_ang_w(b, ts))
}

/// The small-angle sine of the half angle: `h - h^3 / 6` in fixed point.
pub open spec fn spec_ang_sin_half(b: PhysicsBundle, ts: Fx) -> int {
    let h = spec_ang_theta(b, ts) / 2;
    h - fx_mul_raw(fx_mul_raw(h, h), h) / 6
}

/// The small-angle cosine of the half angle: `1 - h^2 / 2` in fixed point.
pub open spec fn spec_ang_cos_half(b: PhysicsBundle, ts: Fx) -> int {
    let h = spec_ang_theta(b, ts) / 2;
    (FX_SCALE as int) - fx_mul_raw(h, h) / 2
}

/// The per-tick rotation increment: the rotor of the half-angle/axis form,
/// with the axis the normalized angular velocity.
pub open spec fn spec_ang_increment(b: PhysicsBundle, ts: Fx) -> Rot {
    let axis = crate::geometry::fxvec::spec_normalized(spec_ang_w(b, ts));
    let sin = spec_ang_sin_half(b, ts);
    Rot {
        s: Fx(spec_ang_cos_half(b, ts) as i64),
        xy: Fx(fx_mul_raw(axis.z.0 as int, sin) as i64),
        xz: Fx(fx_mul_raw(axis.y.0 as int, sin) as i64),
        yz: Fx(fx_mul_raw(axis.x.0 as int, sin) as i64),
    }
}

/// Holds when the angular update's arithmetic fits: rotor and tensors
/// bounded, the torque gain in range, and the per-tick angle small.
pub open spec fn angular_fits(b: PhysicsBundle, ts: Fx) -> bool {
    &&& rot_bounded(b.rotation.0)
    &&& fits_i64(fx_mul_raw(b.torque.0.x.0 as int, ts.0 as int))
    &&& fits_i64(fx_mul_raw(b.torque.0.y.0 as int, ts.0 as int))
    &&& fits_i64(fx_mul_raw(b.torque.0.z.0 as int, ts.0 as int))
    &&& fits_i64(b.angular_momentum.0.x.0 + fx_mul_raw(b.torque.0.x.0 as int, ts.0 as int))
    &&& fits_i64(b.angular_momentum.0.y.0 + fx_mul_raw(b.torque.0.y.0 as int, ts.0 as int))
    &&& fits_i64(b.angular_momentum.0.z.0 + fx_mul_raw(b.torque.0.z.0 as int, ts.0 as int))
    &&& crate::geometry::rotor::mat_bounded(
        b.inv_inertia_around_center_of_mass.0,
        ANG_TENSOR_MAX as int,
    )
    &&& -ANG_MOMENTUM_MAX <= spec_am2(b, ts).x.0 <= ANG_MOMENTUM_MAX
    &&& -ANG_MOMENTUM_MAX <= spec_am2(b, ts).y.0 <= ANG_MOMENTUM_MAX
    &&& -ANG_MOMENTUM_MAX <= spec_am2(b, ts).z.0 <= ANG_MOMENTUM_MAX
    &&& spec_ang_theta(b, ts) <= ANG_THETA_MAX
}

/// Division by the fixed-point scale of a product of bounded factors is
/// bounded by the given cap.
proof fn lemma_prod_div_le(bm: int, bo: int, cap: int)
    requires
        0 <= bm,
        0 <= bo,
        0 <= cap,
        bm * bo <= cap * (FX_SCALE as int),
    ensures
        0 <= (bm * bo) / (FX_SCALE as int) <= cap,
{
    vstd::arithmetic::div_mod::lemma_div_is_ordered(bm * bo, cap * (FX_SCALE as int), FX_SCALE as int);
    vstd::arithmetic::div_mod::lemma_div_multiples_vanish(cap, FX_SCALE as int);
    assert(cap * (FX_SCALE as int) == (FX_SCALE as int) * cap) by (nonlinear_arith);
    assert(bm * bo >= 0) by (nonlinear_arith)
        requires
            0 <= bm,
            0 <= bo,
    ;
    vstd::arithmetic::div_mod::lemma_div_pos_is_pos(bm * bo, FX_SCALE as int);
}

/// The angular integration step over the fixed timestep:
/// `angularMomentum += dt * torque`, then the angular velocity
/// `w = R * I^-1 * R^T * angularMomentum`.  When `w` is exactly zero the
/// rotation and torque are left untouched (avoiding a degenerate
/// normalize); otherwise a rotation increment is built from the half-angle
/// axis form with small-angle sine and cosine, left-multiplied onto the
/// rotation, and the torque cleared.
#[verifier::rlimit(90)]
pub fn angular_update(b: &mut PhysicsBundle, timestep: Timestep)
    requires
        angular_fits(*old(b), timestep.0),
    ensures
        final(b).angular_momentum.0 == spec_am2(*old(b), timestep.0),
        spec_ang_w(*old(b), timestep.0) == (FxVec { x: Fx(0i64), y: Fx(0i64), z: Fx(0i64) })
            ==> final(b).rotation == old(b).rotation && final(b).torque == old(b).torque,
        spec_ang_w(*old(b), timestep.0) != (FxVec { x: Fx(0i64), y: Fx(0i64), z: Fx(0i64) })
            ==> final(b).rotation.0 == crate::geometry::rotor::spec_rot_mul(
            spec_ang_increment(*old(b), timestep.0),
            old(b).rotation.0,
        ) && final(b).torque.0 == (FxVec { x: Fx(0i64), y: Fx(0i64), z: Fx(0i64) }),
        final(b).position == old(b).position,
        final(b).momentum == old(b).momentum,
        final(b).force == old(b).force,
        final(b).mass == old(b).mass,
        final(b).total_mass_position == old(b).total_mass_position,
        final(b).inertia == old(b).inertia,
        final(b).center_of_mass == old(b).center_of_mass,
        final(b).inv_mass == old(b).inv_mass,
        final(b).inertia_around_center_of_mass == old(b).inertia_around_center_of_mass,
        final(b).inv_inertia_around_center_of_mass == old(b).inv_inertia_around_center_of_mass,
        final(b).changed_bodies.0@ == old(b).changed_bodies.0@,
{
    let ts = timestep.0;
    let rot_mat = b.rotation.0.into_matrix();
    b.angular_momentum.0 = b.angular_momentum.0.add(b.torque.0.scale(ts));
    proof {
        assert((crate::geometry::rotor::ROT_MAT_MAX as int) * (ANG_TENSOR_MAX as int)
            <= 0x480_0000_0000 * (FX_SCALE as int)) by (nonlinear_arith);
        lemma_prod_div_le(
            crate::geometry::rotor::ROT_MAT_MAX as int,
            ANG_TENSOR_MAX as int,
            0x480_0000_0000,
        );
        crate::geometry::rotor::lemma_mat_mul_fits_gen(
            rot_mat,
            b.inv_inertia_around_center_of_mass.0,
            crate::geometry::rotor::ROT_MAT_MAX as int,
            ANG_TENSOR_MAX as int,
        );
    }
    let m2 = rot_mat.mul(b.inv_inertia_around_center_of_mass.0);
    proof {
        let e1 = ((crate::geometry::rotor::ROT_MAT_MAX as int) * (ANG_TENSOR_MAX as int)) / (
        FX_SCALE as int);
        let m2b = 3 * e1 + 3;
        crate::geometry::rotor::lemma_transpose_bounded(
            rot_mat,
            crate::geometry::rotor::ROT_MAT_MAX as int,
        );
        assert(m2b * (crate::geometry::rotor::ROT_MAT_MAX as int) <= 0x1_0000_0000_0000 * (
        FX_SCALE as int)) by (nonlinear_arith)
            requires
                0 <= e1 <= 0x480_0000_0000,
                m2b == 3 * e1 + 3,
        ;
        lemma_prod_div_le(m2b, crate::geometry::rotor::ROT_MAT_MAX as int, 0x1_0000_0000_0000);
        crate::geometry::rotor::lemma_mat_mul_fits_gen(
            m2,
            crate::geometry::fxmat::spec_transpose(rot_mat),
            m2b,
            crate::geometry::rotor::ROT_MAT_MAX as int,
        );
    }
    let m3 = m2.mul(rot_mat.transpose());
    proof {
        let e1 = ((crate::geometry::rotor::ROT_MAT_MAX as int) * (ANG_TENSOR_MAX as int)) / (
        FX_SCALE as int);
        let m2b = 3 * e1 + 3;
        let e2 = (m2b * (crate::geometry::rotor::ROT_MAT_MAX as int)) / (FX_SCALE as int);
        let m3b = 3 * e2 + 3;
        assert(m3b * (ANG_MOMENTUM_MAX as int) <= 0x400_0000_0000_0000 * (FX_SCALE as int))
            by (nonlinear_arith)
            requires
                0 <= e2 <= 0x1_0000_0000_0000,
                m3b == 3 * e2 + 3,
        ;
        lemma_prod_div_le(m3b, ANG_MOMENTUM_MAX as int, 0x400_0000_0000_0000);
        crate::geometry::rotor::lemma_mat_vec_fits_gen(
            m3,
            b.angular_momentum.0,
            m3b,
            ANG_MOMENTUM_MAX as int,
        );
    }
    let w = m3.mul_vec(b.angular_momentum.0);
    if w.x.0 == 0 && w.y.0 == 0 && w.z.0 == 0 {
        return ;
    }
    proof {
        assert(crate::geometry::fxvec::coords_bounded(w));
    }
    let theta = w.mag();
    let half = Fx((theta.0 as u64 / 2) as i64);
    proof {
        assert(0 <= half.0 <= 0x8000_0000);
        crate::geometry::rotor::lemma_fx_mul_bound(half.0 as int, half.0 as int, 0x8000_0000, 0x8000_0000);
        assert(((0x8000_0000 as int) * 0x8000_0000) / (FX_SCALE as int) == 0x4000_0000) by {
            vstd::arithmetic::div_mod::lemma_div_multiples_vanish(0x4000_0000, FX_SCALE as int);
            assert((0x8000_0000 as int) * 0x8000_0000 == (FX_SCALE as int) * 0x4000_0000)
                by (nonlinear_arith);
        }
        assert(fx_mul_raw(half.0 as int, half.0 as int) >= 0) by {
            assert((half.0 as int) * (half.0 as int) >= 0) by (nonlinear_arith);
            vstd::arithmetic::div_mod::lemma_div_pos_is_pos(
                (half.0 as int) * (half.0 as int),
                FX_SCALE as int,
            );
        }
    }
    let h2 = half.mul(half);
    proof {
        crate::geometry::rotor::lemma_fx_mul_bound(h2.0 as int, half.0 as int, 0x4000_0000, 0x8000_0000);
        assert(((0x4000_0000 as int) * 0x8000_0000) / (FX_SCALE as int) == 0x2000_0000) by {
            vstd::arithmetic::div_mod::lemma_div_multiples_vanish(0x2000_0000, FX_SCALE as int);
            assert((0x4000_0000 as int) * 0x8000_0000 == (FX_SCALE as int) * 0x2000_0000)
                by (nonlinear_arith);
        }
        assert(fx_mul_raw(h2.0 as int, half.0 as int) >= 0) by {
            assert((h2.0 as int) * (half.0 as int) >= 0) by (nonlinear_arith)
                requires
                    h2.0 >= 0,
                    half.0 >= 0,
            ;
            vstd::arithmetic::div_mod::lemma_div_pos_is_pos(
                (h2.0 as int) * (half.0 as int),
                FX_SCALE as int,
            );
        }
    }
    let h3 = h2.mul(half);
    let sin_h = half.sub(Fx((h3.0 as u64 / 6) as i64));
    let cos_h = Fx(FX_SCALE - ((h2.0 as u64 / 2) as i64));
    proof {
        crate::geometry::fxvec::lemma_normalized_bounded(w);
    }
    let axis = w.normalized();
    proof {
        crate::geometry::rotor::lemma_fx_mul_bound(
            axis.x.0 as int,
            sin_h.0 as int,
            FX_SCALE as int,
            0x8000_0000,
        );
        crate::geometry::rotor::lemma_fx_mul_bound(
            axis.y.0 as int,
            sin_h.0 as int,
            FX_SCALE as int,
            0x8000_0000,
        );
        crate::geometry::rotor::lemma_fx_mul_bound(
            axis.z.0 as int,
            sin_h.0 as int,
            FX_SCALE as int,
            0x8000_0000,
        );
        assert((((FX_SCALE as int)) * (0x8000_0000 as int)) / (FX_SCALE as int) == 0x8000_0000) by {
            vstd::arithmetic::div_mod::lemma_div_multiples_vanish(0x8000_0000, FX_SCALE as int);
        }
    }
    let vec = axis.scale(sin_h);
    let incr = Rot::new(cos_h, vec.z, vec.y, vec.x);
    b.rotation.0 = incr.mul(b.rotation.0);
    b.torque.0 = FxVec::zero();
}


} // verus!

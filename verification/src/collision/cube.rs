//! The cube overlap test: a single reusable primitive deciding overlap of
//! two oriented cubes and computing a penetration estimate.
//!
//! The "sloppy" variant compares the center distance with
//! `sqrt(3) * (halfSizeA + halfSizeB)`, the largest center distance at which
//! two such cubes could touch along a main diagonal: deliberately
//! conservative, it never misses a true overlap but may report false
//! positives.  Rotation is accepted for interface uniformity and ignored.
//! The second variant first scales both half-sizes by the shrink factor
//! `9 / 10`, trading missed micro-overlaps for fewer false positives.

use vstd::prelude::*;

verus! {

use crate::collision::CollisionResult;
use crate::collision::Positioned;
use crate::geometry::Fx;
use crate::geometry::FxVec;
use crate::geometry::fx::FX_SCALE;
use crate::geometry::fx::fx_mul_trunc_raw;
use crate::geometry::fx::sqrt_floor;
use crate::geometry::fxvec::coords_bounded;
use crate::geometry::fxvec::lemma_normalized_bounded;
use crate::geometry::fxvec::mag_raw;
use crate::geometry::fxvec::spec_normalized;

/// Bound on the raw world positions accepted by the cube tests.
pub const CUBE_POS_MAX: i64 = 0x2000_0000_0000_0000;

/// Bound on the raw half-sizes accepted by the cube tests.
pub const CUBE_SIZE_MAX: i64 = 0x20_0000_0000_0000;

/// A cube collider: half of the length, width, and height of the cube.
#[derive(Copy, Clone, Eq, PartialEq, Structural, Debug)]
pub struct Cube {
    /// Half of the length, width, and height of the cube.
    pub size: Fx,
}

impl Cube {
    /// Builds a cube of the given half-size.
    pub fn new(size: Fx) -> (r: Cube)
        ensures
            r == (Cube { size }),
    {
        Cube { size }
    }
}

/// Holds when one placed cube's position and half-size are within the
/// bounds of the tests.
pub open spec fn placed_cube_ok(c: Positioned<Cube>) -> bool {
    &&& -CUBE_POS_MAX <= c.position.x.0 <= CUBE_POS_MAX
    &&& -CUBE_POS_MAX <= c.position.y.0 <= CUBE_POS_MAX
    &&& -CUBE_POS_MAX <= c.position.z.0 <= CUBE_POS_MAX
    &&& 0 <= c.object.size.0 <= CUBE_SIZE_MAX
}

/// Holds when both placed cubes are within the bounds of the tests.
pub open spec fn cube_inputs_ok(a: Positioned<Cube>, b: Positioned<Cube>) -> bool {
    placed_cube_ok(a) && placed_cube_ok(b)
}

/// The center difference `a - b`, exact in raw units.
pub open spec fn spec_delta(a: Positioned<Cube>, b: Positioned<Cube>) -> FxVec {
    FxVec {
        x: Fx((a.position.x.0 - b.position.x.0) as i64),
        y: Fx((a.position.y.0 - b.position.y.0) as i64),
        z: Fx((a.position.z.0 - b.position.z.0) as i64),
    }
}

/// The raw center distance: the floored length of the center difference.
pub open spec fn spec_dist_raw(a: Positioned<Cube>, b: Positioned<Cube>) -> int {
    mag_raw(spec_delta(a, b))
}

/// The raw overlap threshold: `sqrt(3) * (sizeA + sizeB)` floored, the
/// greatest center distance at which the cubes could touch.
pub open spec fn spec_max_dist_raw(a: Positioned<Cube>, b: Positioned<Cube>) -> int {
    let sum = a.object.size.0 + b.object.size.0;
    sqrt_floor(3 * (sum * sum))
}

/// Whether the sloppy test reports a collision: center distance strictly
/// below the threshold.
pub open spec fn spec_sloppy_collided(a: Positioned<Cube>, b: Positioned<Cube>) -> bool {
    spec_dist_raw(a, b) < spec_max_dist_raw(a, b)
}

/// The penetration estimate of the sloppy test:
/// `(threshold - distance) * normalize(posA - posB)`, each step rounded
/// toward zero so that swapping the cubes negates the vector exactly; the
/// zero vector when the centers coincide.
pub open spec fn spec_sloppy_penetration(a: Positioned<Cube>, b: Positioned<Cube>) -> FxVec {
    let diff = spec_max_dist_raw(a, b) - spec_dist_raw(a, b);
    let n = spec_normalized(spec_delta(a, b));
    FxVec {
        x: Fx(fx_mul_trunc_raw(n.x.0 as int, diff) as i64),
        y: Fx(fx_mul_trunc_raw(n.y.0 as int, diff) as i64),
        z: Fx(fx_mul_trunc_raw(n.z.0 as int, diff) as i64),
    }
}

/// The same placed cube with its half-size scaled by the shrink factor
/// `9 / 10`, floored.
pub open spec fn spec_shrunk(c: Positioned<Cube>) -> Positioned<Cube> {
    Positioned {
        object: Cube { size: Fx(((c.object.size.0 * 9) / 10) as i64) },
        position: c.position,
        rotation: c.rotation,
    }
}

/// A sloppy algorithm that calculates whether two cubes collide.
/// May provide false positives.
pub fn collide_cube_sloppy(a: Positioned<Cube>, b: Positioned<Cube>) -> (r: CollisionResult)
    requires
        cube_inputs_ok(a, b),
    ensures
        r.collided == spec_sloppy_collided(a, b),
        r.penetration == spec_sloppy_penetration(a, b),
{
    let delta = a.position.sub(b.position);
    proof {
        assert(coords_bounded(delta));
        assert(delta == spec_delta(a, b));
    }
    let dist = delta.mag();
    let sum = a.object.size.add(b.object.size);
    proof {
        assert(0 <= ((sum.0 as int) * (sum.0 as int)) <= ((2 * (CUBE_SIZE_MAX as int)) * (2 * (
        CUBE_SIZE_MAX as int)))) by (nonlinear_arith)
            requires
                0 <= sum.0 <= 2 * CUBE_SIZE_MAX,
        ;
        assert((2 * (CUBE_SIZE_MAX as int)) * (2 * (CUBE_SIZE_MAX as int))
            == 0x1000_0000_0000_0000_0000_0000_0000) by (nonlinear_arith);
    }
    let sq: i128 = 3i128 * ((sum.0 as i128) * (sum.0 as i128));
    let max_dist_raw = crate::geometry::fx::isqrt_u128(sq as u128);
    proof {
        assert(max_dist_raw as int <= 0x80_0000_0000_0000) by (nonlinear_arith)
            requires
                max_dist_raw as int >= 0,
                (max_dist_raw as int) * (max_dist_raw as int) <= sq as int,
                sq as int <= 3 * ((2 * (CUBE_SIZE_MAX as int)) * (2 * (CUBE_SIZE_MAX as int))),
                0x80_0000_0000_0000 * 0x80_0000_0000_0000 > 3 * ((2 * (CUBE_SIZE_MAX as int)) * (2
                    * (CUBE_SIZE_MAX as int))),
        ;
    }
    let max_dist = Fx::from_raw(max_dist_raw as i64);
    let diff = max_dist.sub(dist);
    let n = delta.normalized();
    proof {
        lemma_normalized_bounded(delta);
        lemma_pen_component_fits(n.x.0 as int, diff.0 as int);
        lemma_pen_component_fits(n.y.0 as int, diff.0 as int);
        lemma_pen_component_fits(n.z.0 as int, diff.0 as int);
    }
    CollisionResult {
        penetration: FxVec { x: n.x.mul_trunc(diff), y: n.y.mul_trunc(diff), z: n.z.mul_trunc(diff) },
        collided: dist.lt(max_dist),
    }
}

/// A penetration component fits: a within-unit direction times a bounded
/// scalar stays within range after truncation.
proof fn lemma_pen_component_fits(n: int, diff: int)
    requires
        -(FX_SCALE as int) <= n <= FX_SCALE as int,
        -0x7100_0000_0000_0000 <= diff <= 0x7100_0000_0000_0000,
    ensures
        -0x7100_0000_0000_0000 <= fx_mul_trunc_raw(n, diff) <= 0x7100_0000_0000_0000,
        crate::geometry::lvec::fits_i64(fx_mul_trunc_raw(n, diff)),
{
    let s = FX_SCALE as int;
    assert(-(s * 0x7100_0000_0000_0000) <= n * diff <= s * 0x7100_0000_0000_0000)
        by (nonlinear_arith)
        requires
            -s <= n <= s,
            -0x7100_0000_0000_0000 <= diff <= 0x7100_0000_0000_0000,
            s > 0,
    ;
    crate::geometry::fx::lemma_div_trunc_bound(n * diff, s, s * 0x7100_0000_0000_0000);
    assert((s * 0x7100_0000_0000_0000) / s == 0x7100_0000_0000_0000) by {
        vstd::arithmetic::div_mod::lemma_div_multiples_vanish(0x7100_0000_0000_0000, s);
    }
}

/// Calculates whether two cubes collide: the sloppy test after shrinking
/// both half-sizes by the shrink factor.
pub fn collide_cube(a: Positioned<Cube>, b: Positioned<Cube>) -> (r: CollisionResult)
    requires
        cube_inputs_ok(a, b),
    ensures
        r.collided == spec_sloppy_collided(spec_shrunk(a), spec_shrunk(b)),
        r.penetration == spec_sloppy_penetration(spec_shrunk(a), spec_shrunk(b)),
{
    let a_new = Positioned {
        object: Cube::new(shrink_size(a.object.size)),
        position: a.position,
        rotation: a.rotation,
    };
    let b_new = Positioned {
        object: Cube::new(shrink_size(b.object.size)),
        position: b.position,
        rotation: b.rotation,
    };
    collide_cube_sloppy(a_new, b_new)
}

/// Scales a non-negative half-size by the shrink factor `9 / 10`, floored.
fn shrink_size(s: Fx) -> (r: Fx)
    requires
        0 <= s.0 <= CUBE_SIZE_MAX,
    ensures
        r.0 == (s.0 * 9) / 10,
        0 <= r.0 <= s.0,
    {
    proof {
        vstd::arithmetic::div_mod::lemma_div_pos_is_pos((s.0 as int) * 9, 10);
        assert(((s.0 as int) * 9) / 10 <= s.0 as int) by {
            vstd::arithmetic::div_mod::lemma_div_is_ordered((s.0 as int) * 9, (s.0 as int) * 10, 10);
            vstd::arithmetic::div_mod::lemma_div_multiples_vanish(s.0 as int, 10);
            assert((s.0 as int) * 9 <= (s.0 as int) * 10 && (s.0 as int) * 10 == 10 * (s.0 as int))
                by (nonlinear_arith)
                requires
                    s.0 >= 0,
            ;
        }
    }
    Fx(((s.0 as u64) * 9 / 10) as i64)
}

/// Cube overlap is symmetric: the sloppy test reports a collision for
/// `(a, b)` exactly when it does for `(b, a)`.
pub proof fn lemma_overlap_symmetric(a: Positioned<Cube>, b: Positioned<Cube>)
    requires
        cube_inputs_ok(a, b),
    ensures
        spec_sloppy_collided(a, b) == spec_sloppy_collided(b, a),
{
    let d1 = spec_delta(a, b);
    let d2 = spec_delta(b, a);
    assert(crate::geometry::fxvec::mag_sq_raw(d1) == crate::geometry::fxvec::mag_sq_raw(d2))
        by (nonlinear_arith)
        requires
            d1.x.0 as int == -(d2.x.0 as int),
            d1.y.0 as int == -(d2.y.0 as int),
            d1.z.0 as int == -(d2.z.0 as int),
            crate::geometry::fxvec::mag_sq_raw(d1) == (d1.x.0 as int) * (d1.x.0 as int) + (d1.y.0
                as int) * (d1.y.0 as int) + (d1.z.0 as int) * (d1.z.0 as int),
            crate::geometry::fxvec::mag_sq_raw(d2) == (d2.x.0 as int) * (d2.x.0 as int) + (d2.y.0
                as int) * (d2.y.0 as int) + (d2.z.0 as int) * (d2.z.0 as int),
    ;
}

/// Cube overlap symmetry for the shrink-adjusted variant.
pub proof fn lemma_overlap_symmetric_shrunk(a: Positioned<Cube>, b: Positioned<Cube>)
    requires
        cube_inputs_ok(a, b),
    ensures
        spec_sloppy_collided(spec_shrunk(a), spec_shrunk(b)) == spec_sloppy_collided(
            spec_shrunk(b),
            spec_shrunk(a),
        ),
{
    lemma_shrunk_ok(a, b);
    lemma_overlap_symmetric(spec_shrunk(a), spec_shrunk(b));
}

/// Shrinking keeps the inputs within bounds.
pub proof fn lemma_shrunk_ok(a: Positioned<Cube>, b: Positioned<Cube>)
    requires
        cube_inputs_ok(a, b),
    ensures
        cube_inputs_ok(spec_shrunk(a), spec_shrunk(b)),
        spec_shrunk(a).object.size.0 <= a.object.size.0,
        spec_shrunk(b).object.size.0 <= b.object.size.0,
{
    lemma_shrink_le(a.object.size.0 as int);
    lemma_shrink_le(b.object.size.0 as int);
}

/// The shrink factor never grows a non-negative size.
proof fn lemma_shrink_le(s: int)
    requires
        s >= 0,
    ensures
        0 <= (s * 9) / 10 <= s,
{
    vstd::arithmetic::div_mod::lemma_div_pos_is_pos(s * 9, 10);
    vstd::arithmetic::div_mod::lemma_div_is_ordered(s * 9, s * 10, 10);
    vstd::arithmetic::div_mod::lemma_div_multiples_vanish(s, 10);
    assert(s * 9 <= s * 10 && s * 10 == 10 * s) by (nonlinear_arith)
        requires
            s >= 0,
    ;
}

/// Monotonicity carries over to the shrink-adjusted variant: the shrink
/// factor preserves the ordering of half-sizes.
pub proof fn lemma_overlap_monotonic_shrunk(
    a: Positioned<Cube>,
    a2: Positioned<Cube>,
    b: Positioned<Cube>,
)
    requires
        cube_inputs_ok(a, b),
        cube_inputs_ok(a2, b),
        a2.position == a.position,
        a2.object.size.0 >= a.object.size.0,
        spec_sloppy_collided(spec_shrunk(a), spec_shrunk(b)),
    ensures
        spec_sloppy_collided(spec_shrunk(a2), spec_shrunk(b)),
{
    lemma_shrunk_ok(a, b);
    lemma_shrunk_ok(a2, b);
    assert((a.object.size.0 as int) * 9 <= (a2.object.size.0 as int) * 9) by (nonlinear_arith)
        requires
            a.object.size.0 <= a2.object.size.0,
    ;
    vstd::arithmetic::div_mod::lemma_div_is_ordered(
        (a.object.size.0 as int) * 9,
        (a2.object.size.0 as int) * 9,
        10,
    );
    lemma_overlap_monotonic(spec_shrunk(a), spec_shrunk(a2), spec_shrunk(b));
}

/// Cube overlap is monotone in the half-sizes: growing either cube while
/// holding positions fixed never turns a collided pair into a non-collided
/// pair.
pub proof fn lemma_overlap_monotonic(
    a: Positioned<Cube>,
    a2: Positioned<Cube>,
    b: Positioned<Cube>,
)
    requires
        cube_inputs_ok(a, b),
        cube_inputs_ok(a2, b),
        a2.position == a.position,
        a2.object.size.0 >= a.object.size.0,
        spec_sloppy_collided(a, b),
    ensures
        spec_sloppy_collided(a2, b),
{
    let s1 = a.object.size.0 + b.object.size.0;
    let s2 = a2.object.size.0 + b.object.size.0;
    assert(3 * (s1 * s1) <= 3 * (s2 * s2)) by (nonlinear_arith)
        requires
            0 <= s1 <= s2,
    ;
    crate::geometry::fx::lemma_sqrt_floor_monotone(3 * (s1 * s1), 3 * (s2 * s2));
    assert(spec_delta(a2, b) == spec_delta(a, b));
}

/// The shrink-adjusted test is stricter than the sloppy test: a hit after
/// shrinking both half-sizes is a hit before.
pub proof fn lemma_shrunk_implies_sloppy(a: Positioned<Cube>, b: Positioned<Cube>)
    requires
        cube_inputs_ok(a, b),
        spec_sloppy_collided(spec_shrunk(a), spec_shrunk(b)),
    ensures
        spec_sloppy_collided(a, b),
{
    lemma_shrunk_ok(a, b);
    lemma_overlap_monotonic(spec_shrunk(a), a, spec_shrunk(b));
    lemma_overlap_symmetric(a, spec_shrunk(b));
    lemma_overlap_monotonic(spec_shrunk(b), b, a);
    lemma_overlap_symmetric(b, a);
}

/// Penetration anti-symmetry: swapping the two cubes negates the
/// penetration vector exactly.  Every rounding step of the estimate
/// truncates toward zero, so it is an odd function of the argument order;
/// coincident centers give the zero vector in both orders.
#[verifier::rlimit(60)]
pub proof fn lemma_penetration_antisymmetric(a: Positioned<Cube>, b: Positioned<Cube>)
    requires
        cube_inputs_ok(a, b),
    ensures
        spec_sloppy_penetration(b, a).x.0 == -spec_sloppy_penetration(a, b).x.0,
        spec_sloppy_penetration(b, a).y.0 == -spec_sloppy_penetration(a, b).y.0,
        spec_sloppy_penetration(b, a).z.0 == -spec_sloppy_penetration(a, b).z.0,
{
    let d = spec_delta(a, b);
    let d2 = spec_delta(b, a);
    assert(d2.x.0 as int == -(d.x.0 as int) && d2.y.0 as int == -(d.y.0 as int) && d2.z.0 as int
        == -(d.z.0 as int));
    assert(crate::geometry::fxvec::mag_sq_raw(d) == crate::geometry::fxvec::mag_sq_raw(d2))
        by (nonlinear_arith)
        requires
            d2.x.0 as int == -(d.x.0 as int),
            d2.y.0 as int == -(d.y.0 as int),
            d2.z.0 as int == -(d.z.0 as int),
            crate::geometry::fxvec::mag_sq_raw(d) == (d.x.0 as int) * (d.x.0 as int) + (d.y.0
                as int) * (d.y.0 as int) + (d.z.0 as int) * (d.z.0 as int),
            crate::geometry::fxvec::mag_sq_raw(d2) == (d2.x.0 as int) * (d2.x.0 as int) + (d2.y.0
                as int) * (d2.y.0 as int) + (d2.z.0 as int) * (d2.z.0 as int),
    ;
    crate::geometry::fxvec::lemma_normalized_antisymmetric(d);
    let n = crate::geometry::fxvec::spec_normalized(d);
    let n2 = crate::geometry::fxvec::spec_normalized(d2);
    assert(n2.x.0 == -n.x.0 && n2.y.0 == -n.y.0 && n2.z.0 == -n.z.0);
    lemma_normalized_bounded(d);
    lemma_normalized_bounded(d2);
    let diff = spec_max_dist_raw(a, b) - spec_dist_raw(a, b);
    assert(spec_max_dist_raw(b, a) == spec_max_dist_raw(a, b));
    assert(spec_dist_raw(b, a) == spec_dist_raw(a, b));
    lemma_pen_component_antisym(n.x.0 as int, diff);
    lemma_pen_component_antisym(n.y.0 as int, diff);
    lemma_pen_component_antisym(n.z.0 as int, diff);
    lemma_pen_diff_bound(a, b);
    lemma_pen_component_fits(n.x.0 as int, diff);
    lemma_pen_component_fits(n.y.0 as int, diff);
    lemma_pen_component_fits(n.z.0 as int, diff);
}

/// One penetration component is odd in the direction component.
proof fn lemma_pen_component_antisym(n: int, diff: int)
    ensures
        fx_mul_trunc_raw(-n, diff) == -fx_mul_trunc_raw(n, diff),
{
    assert((-n) * diff == -(n * diff)) by (nonlinear_arith);
}

/// The scalar factor of the penetration lies within the component-fits
/// bound.
proof fn lemma_pen_diff_bound(a: Positioned<Cube>, b: Positioned<Cube>)
    requires
        cube_inputs_ok(a, b),
    ensures
        -0x7100_0000_0000_0000 <= spec_max_dist_raw(a, b) - spec_dist_raw(a, b)
            <= 0x7100_0000_0000_0000,
{
    let sum = a.object.size.0 + b.object.size.0;
    crate::geometry::fx::lemma_sqrt_floor_inverse(3 * (sum * sum));
    assert(0 <= 3 * (sum * sum) <= 3 * ((2 * (CUBE_SIZE_MAX as int)) * (2 * (CUBE_SIZE_MAX
        as int)))) by (nonlinear_arith)
        requires
            0 <= sum <= 2 * CUBE_SIZE_MAX,
    ;
    assert(spec_max_dist_raw(a, b) <= 0x80_0000_0000_0000) by (nonlinear_arith)
        requires
            spec_max_dist_raw(a, b) >= 0,
            spec_max_dist_raw(a, b) * spec_max_dist_raw(a, b) <= 3 * ((2 * (CUBE_SIZE_MAX as int))
                * (2 * (CUBE_SIZE_MAX as int))),
    ;
    let d = spec_delta(a, b);
    crate::geometry::fxvec::lemma_mag_in_range(d);
}

/// Penetration anti-symmetry for the shrink-adjusted variant.
pub proof fn lemma_penetration_antisymmetric_shrunk(a: Positioned<Cube>, b: Positioned<Cube>)
    requires
        cube_inputs_ok(a, b),
    ensures
        spec_sloppy_penetration(spec_shrunk(b), spec_shrunk(a)).x.0 == -spec_sloppy_penetration(
            spec_shrunk(a),
            spec_shrunk(b),
        ).x.0,
        spec_sloppy_penetration(spec_shrunk(b), spec_shrunk(a)).y.0 == -spec_sloppy_penetration(
            spec_shrunk(a),
            spec_shrunk(b),
        ).y.0,
        spec_sloppy_penetration(spec_shrunk(b), spec_shrunk(a)).z.0 == -spec_sloppy_penetration(
            spec_shrunk(a),
            spec_shrunk(b),
        ).z.0,
{
    lemma_shrunk_ok(a, b);
    lemma_penetration_antisymmetric(spec_shrunk(a), spec_shrunk(b));
}


} // verus!

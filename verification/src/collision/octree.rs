//! The octree collision resolver: level-synchronized paired descent over
//! two world-placed octrees.
//!
//! The work list holds pairs of nodes, one from each tree.  At every level
//! each pair is either finalized (both sides unit cubes: the precise shrunk
//! test decides, and a hit emits the two local corners plus penetration) or
//! expanded: the larger side is replaced by its children, keeping only the
//! pairs whose regions could still overlap per the sloppy test.  The sides
//! of a pair alternate between levels, so both trees descend evenly; a pair
//! of trees of equal power reaches the leaves within `2 * power` levels.

use vstd::prelude::*;

verus! {

use crate::collision::Positioned;
use crate::collision::VoxelCollisionList;
use crate::collision::cube::Cube;
use crate::collision::cube::collide_cube;
use crate::collision::cube::collide_cube_sloppy;
use crate::collision::cube::spec_shrunk;
use crate::collision::cube::spec_sloppy_collided;
use crate::collision::cube::spec_sloppy_penetration;
use crate::geometry::Fx;
use crate::geometry::FxVec;
use crate::geometry::IVec;
use crate::geometry::Rot;
use crate::geometry::fx::FX_HALF_SCALE;
use crate::geometry::fx::FX_SCALE;
use crate::geometry::fx::pow2_u64;
use crate::geometry::rotor::rot_bounded;
use crate::geometry::rotor::spec_rotate;
use crate::octree::OctreeNode;
use crate::octree::OctreeSet;
use crate::octree::node_ok;
use crate::octree::node_wf;
use crate::octree::octant_corner;
use crate::octree::region_bounded;
use vstd::arithmetic::power2::lemma2_to64;
use vstd::arithmetic::power2::lemma_pow2_adds;
use vstd::arithmetic::power2::lemma_pow2_strictly_increases;
use vstd::arithmetic::power2::pow2;

/// Bound on the raw world positions of the colliding entities.
pub const RES_POS_MAX: i64 = 0x80_0000_0000_0000;

/// The world-space cube of the node region with minimum corner `corner` and
/// edge `2^power`, placed by `pos` and `rot`: cube center is
/// `pos + rot * (corner + half * ones)`, half-size is half the edge.
pub open spec fn spec_node_cube(pos: FxVec, rot: Rot, corner: IVec, power: u32) -> Positioned<
    Cube,
> {
    let half = pow2(power as nat) * (FX_HALF_SCALE as nat);
    let local = FxVec {
        x: Fx(((corner.x as int) * (FX_SCALE as int) + half) as i64),
        y: Fx(((corner.y as int) * (FX_SCALE as int) + half) as i64),
        z: Fx(((corner.z as int) * (FX_SCALE as int) + half) as i64),
    };
    let rotated = spec_rotate(rot, local);
    Positioned {
        object: Cube { size: Fx(half as i64) },
        position: FxVec {
            x: Fx((pos.x.0 + rotated.x.0) as i64),
            y: Fx((pos.y.0 + rotated.y.0) as i64),
            z: Fx((pos.z.0 + rotated.z.0) as i64),
        },
        rotation: rot,
    }
}

/// Whether a traversal handle's region stays inside the world bounds that
/// the resolver accepts.
pub open spec fn handle_bounded(n: OctreeNode) -> bool {
    &&& n.spec_power() <= 22
    &&& -0x80_0000 <= n.spec_corner().x && n.spec_corner().x + pow2(n.spec_power() as nat)
        <= 0x80_0000
    &&& -0x80_0000 <= n.spec_corner().y && n.spec_corner().y + pow2(n.spec_power() as nat)
        <= 0x80_0000
    &&& -0x80_0000 <= n.spec_corner().z && n.spec_corner().z + pow2(n.spec_power() as nat)
        <= 0x80_0000
}

/// Holds of one emitted collision entry: both local corners are solid unit
/// voxels of their trees, the shrunk unit-cube test reports the hit, and
/// the penetration is the test's estimate, always computed with the first
/// tree's cube as the first argument.
pub open spec fn entry_ok(
    a: Positioned<&OctreeSet>,
    b: Positioned<&OctreeSet>,
    e: (IVec, IVec, FxVec),
) -> bool {
    let ca = spec_node_cube(a.position, a.rotation, e.0, 0);
    let cb = spec_node_cube(b.position, b.rotation, e.1, 0);
    &&& a.object.spec_solid(e.0)
    &&& b.object.spec_solid(e.1)
    &&& spec_sloppy_collided(spec_shrunk(ca), spec_shrunk(cb))
    &&& e.2 == spec_sloppy_penetration(spec_shrunk(ca), spec_shrunk(cb))
}

/// Computes the world-space cube of a node region.
fn cube_from(pos: FxVec, rot: Rot, corner: IVec, power: u32) -> (r: Positioned<Cube>)
    requires
        rot_bounded(rot),
        -RES_POS_MAX <= pos.x.0 <= RES_POS_MAX,
        -RES_POS_MAX <= pos.y.0 <= RES_POS_MAX,
        -RES_POS_MAX <= pos.z.0 <= RES_POS_MAX,
        power <= 22,
        -0x80_0000 <= corner.x && corner.x + pow2(power as nat) <= 0x80_0000,
        -0x80_0000 <= corner.y && corner.y + pow2(power as nat) <= 0x80_0000,
        -0x80_0000 <= corner.z && corner.z + pow2(power as nat) <= 0x80_0000,
    ensures
        r == spec_node_cube(pos, rot, corner, power),
        crate::collision::cube::placed_cube_ok(r),
        r.rotation == rot,
{
    proof {
        lemma2_to64();
        vstd::arithmetic::power2::lemma2_to64_rest();
        if power < 22 {
            lemma_pow2_strictly_increases(power as nat, 22);
        }
        assert(pow2(power as nat) * (FX_HALF_SCALE as nat) <= 0x20_0000_0000_0000)
            by (nonlinear_arith)
            requires
                pow2(power as nat) <= 0x40_0000,
        ;
    }
    let half_raw: i64 = (pow2_u64(power) * (FX_HALF_SCALE as u64)) as i64;
    proof {
        lemma_local_coord_bound(corner.x as int, pow2(power as nat) as int, half_raw as int);
        lemma_local_coord_bound(corner.y as int, pow2(power as nat) as int, half_raw as int);
        lemma_local_coord_bound(corner.z as int, pow2(power as nat) as int, half_raw as int);
    }
    let local = FxVec::from_ivec(corner).add(
        FxVec { x: Fx(half_raw), y: Fx(half_raw), z: Fx(half_raw) },
    );
    let rotated = rot.rotate(local);
    let center = FxVec {
        x: pos.x.add(rotated.x),
        y: pos.y.add(rotated.y),
        z: pos.z.add(rotated.z),
    };
    Positioned { object: Cube { size: Fx(half_raw) }, position: center, rotation: rot }
}

/// A node-local coordinate plus the half-extent offset stays within the
/// rotation input bound.
proof fn lemma_local_coord_bound(c: int, e: int, half: int) by (nonlinear_arith)
    requires
        1 <= e,
        half == e * 0x8000_0000,
        -0x80_0000 <= c,
        c + e <= 0x80_0000,
    ensures
        -0x80_0000_0000_0000 <= c * 0x1_0000_0000 + half <= 0x80_0000_0000_0000,
{
}

/// The octree collision resolver.
pub struct OctreeCollisionResolver;

impl OctreeCollisionResolver {
    /// Finds all pairs of solid unit cubes of the two placed octrees that
    /// the shrunk overlap test reports as colliding, by level-synchronized
    /// paired descent with sloppy-test pruning.  Both octrees must span
    /// cubes of the same power-of-two edge.  An octree without a root (a
    /// completely empty region), or a pair whose root cubes fail the sloppy
    /// test, yields an empty list without any descent.
    #[verifier::rlimit(90)]
    pub fn collide(a: Positioned<&OctreeSet>, b: Positioned<&OctreeSet>) -> (r: VoxelCollisionList<
        IVec,
    >)
        requires
            a.object.wf(),
            b.object.wf(),
            region_bounded(*a.object),
            region_bounded(*b.object),
            a.object.power == b.object.power,
            rot_bounded(a.rotation),
            rot_bounded(b.rotation),
            -RES_POS_MAX <= a.position.x.0 <= RES_POS_MAX,
            -RES_POS_MAX <= a.position.y.0 <= RES_POS_MAX,
            -RES_POS_MAX <= a.position.z.0 <= RES_POS_MAX,
            -RES_POS_MAX <= b.position.x.0 <= RES_POS_MAX,
            -RES_POS_MAX <= b.position.y.0 <= RES_POS_MAX,
            -RES_POS_MAX <= b.position.z.0 <= RES_POS_MAX,
        ensures
            forall|k: int| 0 <= k < r@.len() ==> entry_ok(a, b, #[trigger] r@[k]),
            (a.object.root is None || b.object.root is None) ==> r@.len() == 0,
            ({
                let ca = spec_node_cube(a.position, a.rotation, a.object.corner, a.object.power);
                let cb = spec_node_cube(b.position, b.rotation, b.object.corner, b.object.power);
                a.object.root is Some && b.object.root is Some && !spec_sloppy_collided(ca, cb)
                    ==> r@.len() == 0
            }),
            ({
                let ca = spec_node_cube(a.position, a.rotation, a.object.corner, 0);
                let cb = spec_node_cube(b.position, b.rotation, b.object.corner, 0);
                a.object.root is Some && b.object.root is Some && a.object.power == 0
                    && spec_sloppy_collided(spec_shrunk(ca), spec_shrunk(cb)) ==> r@ == seq![
                    (
                        a.object.corner,
                        b.object.corner,
                        spec_sloppy_penetration(spec_shrunk(ca), spec_shrunk(cb)),
                    ),
                ]
            }),
            ({
                let ca = spec_node_cube(a.position, a.rotation, a.object.corner, 0);
                let cb = spec_node_cube(b.position, b.rotation, b.object.corner, 0);
                a.object.root is Some && b.object.root is Some && a.object.power == 0
                    && !spec_sloppy_collided(spec_shrunk(ca), spec_shrunk(cb)) ==> r@.len() == 0
            }),
    {
        let mut out: VoxelCollisionList<IVec> = Vec::new();
        let ra = match a.object.root_node() {
            Some(n) => n,
            None => {
                return out;
            },
        };
        let rb = match b.object.root_node() {
            Some(n) => n,
            None => {
                return out;
            },
        };
        let tree_power = a.object.power;
        let ca = cube_from(a.position, a.rotation, ra.position(), tree_power);
        let cb = cube_from(b.position, b.rotation, rb.position(), tree_power);
        if !collide_cube_sloppy(ca, cb).collided {
            proof {
                if a.object.power == 0 && spec_sloppy_collided(spec_shrunk(ca), spec_shrunk(cb)) {
                    crate::collision::cube::lemma_shrunk_implies_sloppy(ca, cb);
                }
            }
            return out;
        }
        let ghost unit_case = a.object.power == 0;
        let ghost expected_entry = (
            a.object.corner,
            b.object.corner,
            spec_sloppy_penetration(
                spec_shrunk(spec_node_cube(a.position, a.rotation, a.object.corner, 0)),
                spec_shrunk(spec_node_cube(b.position, b.rotation, b.object.corner, 0)),
            ),
        );
        let ghost unit_hit = spec_sloppy_collided(
            spec_shrunk(spec_node_cube(a.position, a.rotation, a.object.corner, 0)),
            spec_shrunk(spec_node_cube(b.position, b.rotation, b.object.corner, 0)),
        );
        let mut worklist: Vec<(OctreeNode, OctreeNode, bool)> = Vec::new();
        worklist.push((ra, rb, true));
        proof {
            if unit_case {
                assert(ra == (OctreeNode::Full { corner: a.object.corner, power: 0u32 })) by {
                    lemma_unit_root_shape(*a.object, ra);
                }
                assert(rb == (OctreeNode::Full { corner: b.object.corner, power: 0u32 })) by {
                    lemma_unit_root_shape(*b.object, rb);
                }
            }
        }
        let ghost mut level: int = 0;
        while worklist.len() > 0
            invariant
                a.object.wf(),
                b.object.wf(),
                region_bounded(*a.object),
                region_bounded(*b.object),
                a.object.power == b.object.power,
                rot_bounded(a.rotation),
                rot_bounded(b.rotation),
                -RES_POS_MAX <= a.position.x.0 <= RES_POS_MAX,
                -RES_POS_MAX <= a.position.y.0 <= RES_POS_MAX,
                -RES_POS_MAX <= a.position.z.0 <= RES_POS_MAX,
                -RES_POS_MAX <= b.position.x.0 <= RES_POS_MAX,
                -RES_POS_MAX <= b.position.y.0 <= RES_POS_MAX,
                -RES_POS_MAX <= b.position.z.0 <= RES_POS_MAX,
                tree_power == a.object.power,
                0 <= level,
                worklist@.len() > 0 ==> level <= 2 * (tree_power as int),
                forall|k: int|
                    0 <= k < worklist@.len() ==> pair_ok(a, b, #[trigger] worklist@[k], level, tree_power as int),
                forall|k: int| 0 <= k < out@.len() ==> entry_ok(a, b, #[trigger] out@[k]),
                unit_case == (a.object.power == 0),
                expected_entry == (
                    a.object.corner,
                    b.object.corner,
                    spec_sloppy_penetration(
                        spec_shrunk(spec_node_cube(a.position, a.rotation, a.object.corner, 0)),
                        spec_shrunk(spec_node_cube(b.position, b.rotation, b.object.corner, 0)),
                    ),
                ),
                unit_hit == spec_sloppy_collided(
                    spec_shrunk(spec_node_cube(a.position, a.rotation, a.object.corner, 0)),
                    spec_shrunk(spec_node_cube(b.position, b.rotation, b.object.corner, 0)),
                ),
                unit_case ==> ((level == 0 && worklist@ =~= seq![
                    (
                        (OctreeNode::Full { corner: a.object.corner, power: 0u32 }),
                        (OctreeNode::Full { corner: b.object.corner, power: 0u32 }),
                        true,
                    ),
                ] && out@.len() == 0) || (level >= 1 && worklist@.len() == 0 && (unit_hit
                    ==> out@ =~= seq![expected_entry]) && (!unit_hit ==> out@.len() == 0))),
            decreases 2 * (tree_power as int) + 1 - level,
        {
            let mut next: Vec<(OctreeNode, OctreeNode, bool)> = Vec::new();
            let mut i: usize = 0;
            while i < worklist.len()
                invariant
                    a.object.wf(),
                    b.object.wf(),
                    region_bounded(*a.object),
                    region_bounded(*b.object),
                    a.object.power == b.object.power,
                    rot_bounded(a.rotation),
                    rot_bounded(b.rotation),
                    -RES_POS_MAX <= a.position.x.0 <= RES_POS_MAX,
                    -RES_POS_MAX <= a.position.y.0 <= RES_POS_MAX,
                    -RES_POS_MAX <= a.position.z.0 <= RES_POS_MAX,
                    -RES_POS_MAX <= b.position.x.0 <= RES_POS_MAX,
                    -RES_POS_MAX <= b.position.y.0 <= RES_POS_MAX,
                    -RES_POS_MAX <= b.position.z.0 <= RES_POS_MAX,
                    tree_power == a.object.power,
                    0 <= level <= 2 * (tree_power as int),
                    i <= worklist@.len(),
                    forall|k: int|
                        0 <= k < worklist@.len() ==> pair_ok(a, b, #[trigger] worklist@[k], level, tree_power as int),
                    forall|k: int|
                        0 <= k < next@.len() ==> pair_ok(a, b, #[trigger] next@[k], level + 1, tree_power as int),
                    forall|k: int| 0 <= k < out@.len() ==> entry_ok(a, b, #[trigger] out@[k]),
                    unit_case == (a.object.power == 0),
                    expected_entry == (
                        a.object.corner,
                        b.object.corner,
                        spec_sloppy_penetration(
                            spec_shrunk(
                                spec_node_cube(a.position, a.rotation, a.object.corner, 0),
                            ),
                            spec_shrunk(
                                spec_node_cube(b.position, b.rotation, b.object.corner, 0),
                            ),
                        ),
                    ),
                    unit_hit == spec_sloppy_collided(
                        spec_shrunk(spec_node_cube(a.position, a.rotation, a.object.corner, 0)),
                        spec_shrunk(spec_node_cube(b.position, b.rotation, b.object.corner, 0)),
                    ),
                    unit_case && level == 0 ==> (worklist@ =~= seq![
                        (
                            (OctreeNode::Full { corner: a.object.corner, power: 0u32 }),
                            (OctreeNode::Full { corner: b.object.corner, power: 0u32 }),
                            true,
                        ),
                    ] && next@.len() == 0 && ((i == 0 && out@.len() == 0) || (i == 1 && (unit_hit
                        ==> out@ =~= seq![expected_entry]) && (!unit_hit ==> out@.len() == 0)))),
                    unit_case && level >= 1 ==> (worklist@.len() == 0 && next@.len() == 0 && (
                    unit_hit ==> out@ =~= seq![expected_entry]) && (!unit_hit ==> out@.len()
                        == 0)),
                decreases worklist@.len() - i,
            {
                let (px, py, pflag) = worklist[i];
                proof {
                    assert(pair_ok(a, b, worklist@[i as int], level, tree_power as int));
                }
                let sx = px.size();
                let sy = py.size();
                proof {
                    assert(py.spec_power() <= px.spec_power());
                    if py.spec_power() < px.spec_power() {
                        lemma_pow2_strictly_increases(py.spec_power() as nat, px.spec_power() as nat);
                    }
                    assert(sy <= sx);
                }
                let swap = sy > sx;
                let (x, y, x_is_a) = if swap {
                    (py, px, !pflag)
                } else {
                    (px, py, pflag)
                };
                proof {
                    assert(x == px && y == py && x_is_a == pflag);
                    assert(y.spec_power() <= x.spec_power());
                    assert(x_is_a == (level % 2 == 0));
                }
                let x_cube = if x_is_a {
                    cube_from(a.position, a.rotation, x.position(), x.power())
                } else {
                    cube_from(b.position, b.rotation, x.position(), x.power())
                };
                let y_cube = if x_is_a {
                    cube_from(b.position, b.rotation, y.position(), y.power())
                } else {
                    cube_from(a.position, a.rotation, y.position(), y.power())
                };
                if x.is_unit() {
                    proof {
                        lemma2_to64();
                        lemma_unit_is_full(*a.object, *b.object, x, y, x_is_a);
                        assert(y.spec_power() == 0);
                        assert(level % 2 == 0);
                        assert(x_is_a);
                    }
                    let res = collide_cube(x_cube, y_cube);
                    if res.collided {
                        if x_is_a {
                            out.push((x.position(), y.position(), res.penetration));
                        } else {
                            out.push((y.position(), x.position(), res.penetration));
                        }
                    }
                } else {
                    proof {
                        lemma_pow2_adds((x.spec_power() - 1) as nat, 1);
                        lemma2_to64();
                    }
                    if collide_cube_sloppy(x_cube, y_cube).collided {
                        let children = if x_is_a {
                            a.object.children(x)
                        } else {
                            b.object.children(x)
                        };
                        let mut c: usize = 0;
                        while c < children.len()
                            invariant
                                a.object.wf(),
                                b.object.wf(),
                                rot_bounded(a.rotation),
                                rot_bounded(b.rotation),
                                tree_power == a.object.power,
                                a.object.power == b.object.power,
                                0 <= level <= 2 * (tree_power as int),
                                c <= children@.len(),
                                x.spec_power() >= 1,
                                handle_bounded(x),
                                handle_bounded(y),
                                pow2(x.spec_power() as nat) == 2 * pow2(
                                    (x.spec_power() - 1) as nat,
                                ),
                                (x.spec_power() as int) + (y.spec_power() as int) == 2 * (
                                tree_power as int) - level,
                                x_is_a == (level % 2 == 0),
                                level % 2 == 0 ==> x.spec_power() == y.spec_power(),
                                level % 2 == 1 ==> x.spec_power() == y.spec_power() + 1,
                                x_is_a ==> node_ok(*a.object, x) && node_ok(*b.object, y),
                                !x_is_a ==> node_ok(*b.object, x) && node_ok(*a.object, y),
                                forall|k: int|
                                    0 <= k < children@.len() ==> {
                                        &&& (x_is_a ==> node_ok(
                                            *a.object,
                                            #[trigger] children@[k],
                                        ))
                                        &&& (!x_is_a ==> node_ok(*b.object, children@[k]))
                                        &&& children@[k].spec_power() + 1 == x.spec_power()
                                        &&& octant_corner(
                                            x.spec_corner(),
                                            x.spec_power(),
                                            children@[k].spec_corner(),
                                        )
                                    },
                                forall|k: int|
                                    0 <= k < next@.len() ==> pair_ok(
                                        a,
                                        b,
                                        #[trigger] next@[k],
                                        level + 1,
                                        tree_power as int,
                                    ),
                                forall|k: int|
                                    0 <= k < out@.len() ==> entry_ok(a, b, #[trigger] out@[k]),
                            decreases children@.len() - c,
                        {
                            let ch = children[c];
                            proof {
                                lemma_child_bounded(x, ch);
                                vstd::arithmetic::div_mod::lemma_fundamental_div_mod(level, 2);
                                vstd::arithmetic::div_mod::lemma_mod_division_less_than_divisor(
                                    level,
                                    2,
                                );
                                let q = level / 2;
                                if level % 2 == 0 {
                                    vstd::arithmetic::div_mod::lemma_fundamental_div_mod_converse(
                                        level + 1,
                                        2,
                                        q,
                                        1,
                                    );
                                } else {
                                    vstd::arithmetic::div_mod::lemma_fundamental_div_mod_converse(
                                        level + 1,
                                        2,
                                        q + 1,
                                        0,
                                    );
                                }
                            }
                            next.push((y, ch, !x_is_a));
                            c = c + 1;
                        }
                    }
                }
                i = i + 1;
            }
            worklist = next;
            proof {
                level = level + 1;
                if worklist@.len() > 0 {
                    assert(pair_ok(a, b, worklist@[0], level, tree_power as int));
                }
            }
        }
        out
    }
}

/// Well-formedness of one work-list pair at a given level: handles valid
/// for their sides, regions bounded, and the two powers summing to the
/// level's budget.
pub open spec fn pair_ok(
    a: Positioned<&OctreeSet>,
    b: Positioned<&OctreeSet>,
    p: (OctreeNode, OctreeNode, bool),
    level: int,
    tree_power: int,
) -> bool {
    &&& (p.2 ==> node_ok(*a.object, p.0) && node_ok(*b.object, p.1))
    &&& (!p.2 ==> node_ok(*b.object, p.0) && node_ok(*a.object, p.1))
    &&& handle_bounded(p.0)
    &&& handle_bounded(p.1)
    &&& (p.0.spec_power() as int) + (p.1.spec_power() as int) == 2 * tree_power - level
    &&& p.2 == (level % 2 == 0)
    &&& (level % 2 == 0 ==> p.0.spec_power() == p.1.spec_power())
    &&& (level % 2 == 1 ==> p.0.spec_power() == p.1.spec_power() + 1)
}

/// The root handle of a unit tree is the full unit node at its corner.
proof fn lemma_unit_root_shape(t: OctreeSet, n: OctreeNode)
    requires
        t.wf(),
        t.power == 0,
        node_ok(t, n),
        n.spec_corner() == t.corner,
        n.spec_power() == t.power,
    ensures
        n == (OctreeNode::Full { corner: t.corner, power: 0u32 }),
{
    match n {
        OctreeNode::Interior { idx, corner, power } => {
            assert(node_wf(t.nodes@, idx as int));
            assert(false);
        },
        OctreeNode::Full { corner, power } => {},
    }
}

/// A unit traversal handle is a full node, and both sides of a unit pair
/// are solid at their corners.
proof fn lemma_unit_is_full(
    ta: OctreeSet,
    tb: OctreeSet,
    x: OctreeNode,
    y: OctreeNode,
    x_is_a: bool,
)
    requires
        ta.wf(),
        tb.wf(),
        x_is_a ==> node_ok(ta, x) && node_ok(tb, y),
        !x_is_a ==> node_ok(tb, x) && node_ok(ta, y),
        x.spec_power() == 0,
        y.spec_power() == 0,
    ensures
        x_is_a ==> ta.spec_solid(x.spec_corner()) && tb.spec_solid(y.spec_corner()),
        !x_is_a ==> tb.spec_solid(x.spec_corner()) && ta.spec_solid(y.spec_corner()),
{
    lemma2_to64();
    lemma_unit_handle_solid(ta, x, x_is_a);
    lemma_unit_handle_solid(tb, x, !x_is_a);
    lemma_unit_handle_solid(ta, y, !x_is_a);
    lemma_unit_handle_solid(tb, y, x_is_a);
}

/// A unit handle valid for a tree marks its corner solid.
proof fn lemma_unit_handle_solid(t: OctreeSet, n: OctreeNode, applicable: bool)
    requires
        t.wf(),
        applicable ==> node_ok(t, n),
        n.spec_power() == 0,
    ensures
        applicable ==> t.spec_solid(n.spec_corner()),
{
    lemma2_to64();
    if applicable {
        match n {
            OctreeNode::Interior { idx, corner, power } => {
                assert(node_wf(t.nodes@, idx as int));
                assert(false);
            },
            OctreeNode::Full { corner, power } => {
                assert(crate::octree::in_region(corner, power, corner));
            },
        }
    }
}

/// A child octant's region stays inside the world bounds of its parent.
proof fn lemma_child_bounded(x: OctreeNode, ch: OctreeNode)
    requires
        handle_bounded(x),
        x.spec_power() >= 1,
        ch.spec_power() + 1 == x.spec_power(),
        octant_corner(x.spec_corner(), x.spec_power(), ch.spec_corner()),
        pow2(x.spec_power() as nat) == 2 * pow2((x.spec_power() - 1) as nat),
    ensures
        handle_bounded(ch),
{
}

/// Holds when one placed octree is within the resolver's input bounds.
pub open spec fn placed_ok(a: Positioned<&OctreeSet>) -> bool {
    &&& a.object.wf()
    &&& region_bounded(*a.object)
    &&& rot_bounded(a.rotation)
    &&& -RES_POS_MAX <= a.position.x.0 <= RES_POS_MAX
    &&& -RES_POS_MAX <= a.position.y.0 <= RES_POS_MAX
    &&& -RES_POS_MAX <= a.position.z.0 <= RES_POS_MAX
}

impl OctreeCollisionResolver {
    /// The batched n-ary form of `collide`: the pairwise sweep over all
    /// placed octrees.  Each entry is keyed by the unordered pair of entity
    /// indices with the smaller index first; pairs with an empty collision
    /// list get no entry, so absence means "no collision".  Keys appear in
    /// strictly increasing lexicographic order, every listed voxel pair
    /// satisfies the single-pair guarantees for its two entities, and for
    /// unit octrees an entry for a pair exists exactly when its shrunk unit
    /// cubes collide.
    #[verifier::rlimit(90)]
    pub fn collide_batch(entities: &Vec<Positioned<&OctreeSet>>) -> (r: Vec<
        ((usize, usize), VoxelCollisionList<IVec>),
    >)
        requires
            forall|i: int| 0 <= i < entities@.len() ==> placed_ok(#[trigger] entities@[i]),
            forall|i: int, j: int|
                0 <= i < entities@.len() && 0 <= j < entities@.len()
                    ==> (#[trigger] entities@[i]).object.power == (#[trigger] entities@[j]).object.power,
        ensures
            forall|k: int|
                0 <= k < r@.len() ==> {
                    let key = (#[trigger] r@[k]).0;
                    &&& key.0 < key.1 < entities@.len()
                    &&& r@[k].1@.len() > 0
                    &&& (entities@[key.0 as int].object.power == 0 ==> unit_pair_hit(
                        entities@[key.0 as int],
                        entities@[key.1 as int],
                    ))
                    &&& forall|m: int|
                        0 <= m < r@[k].1@.len() ==> entry_ok(
                            entities@[key.0 as int],
                            entities@[key.1 as int],
                            #[trigger] r@[k].1@[m],
                        )
                },
            forall|k1: int, k2: int|
                0 <= k1 < k2 < r@.len() ==> ((#[trigger] r@[k1]).0.0 < (#[trigger] r@[k2]).0.0 || (
                r@[k1].0.0 == r@[k2].0.0 && r@[k1].0.1 < r@[k2].0.1)),
            forall|i: int, j: int|
                0 <= i < j < entities@.len() && (#[trigger] entities@[i]).object.power == 0
                    && (#[trigger] entities@[j]).object.power == 0 ==> ((exists|k: int|
                    0 <= k < r@.len() && (#[trigger] r@[k]).0 == (i as usize, j as usize))
                    <==> unit_pair_hit(entities@[i], entities@[j])),
    {
        let mut out: Vec<((usize, usize), VoxelCollisionList<IVec>)> = Vec::new();
        let n = entities.len();
        let mut i: usize = 0;
        while i < n
            invariant
                n == entities@.len(),
                i <= n,
                forall|k: int| 0 <= k < entities@.len() ==> placed_ok(#[trigger] entities@[k]),
                forall|k: int, j: int|
                    0 <= k < entities@.len() && 0 <= j < entities@.len()
                        ==> (#[trigger] entities@[k]).object.power == (
                        #[trigger] entities@[j]).object.power,
                forall|k: int|
                    0 <= k < out@.len() ==> {
                        let key = (#[trigger] out@[k]).0;
                        &&& key.0 < key.1 < entities@.len()
                        &&& key.0 < i
                        &&& out@[k].1@.len() > 0
                        &&& (entities@[key.0 as int].object.power == 0 ==> unit_pair_hit(
                            entities@[key.0 as int],
                            entities@[key.1 as int],
                        ))
                        &&& forall|m: int|
                            0 <= m < out@[k].1@.len() ==> entry_ok(
                                entities@[key.0 as int],
                                entities@[key.1 as int],
                                #[trigger] out@[k].1@[m],
                            )
                    },
                forall|k1: int, k2: int|
                    0 <= k1 < k2 < out@.len() ==> ((#[trigger] out@[k1]).0.0 < (
                    #[trigger] out@[k2]).0.0 || (out@[k1].0.0 == out@[k2].0.0 && out@[k1].0.1
                        < out@[k2].0.1)),
                forall|i2: int, j2: int|
                    0 <= i2 < j2 < entities@.len() && (#[trigger] entities@[i2]).object.power == 0
                        && i2 < i ==> ((exists|k: int|
                        0 <= k < out@.len() && (#[trigger] out@[k]).0 == (
                        i2 as usize,
                        j2 as usize,
                    )) <==> unit_pair_hit(entities@[i2], #[trigger] entities@[j2])),
            decreases n - i,
        {
            let mut j: usize = i + 1;
            while j < n
                invariant
                    n == entities@.len(),
                    i < n,
                    i + 1 <= j <= n,
                    forall|k: int| 0 <= k < entities@.len() ==> placed_ok(#[trigger] entities@[k]),
                    forall|k: int, jj: int|
                        0 <= k < entities@.len() && 0 <= jj < entities@.len()
                            ==> (#[trigger] entities@[k]).object.power == (
                            #[trigger] entities@[jj]).object.power,
                    forall|k: int|
                        0 <= k < out@.len() ==> {
                            let key = (#[trigger] out@[k]).0;
                            &&& key.0 < key.1 < entities@.len()
                            &&& (key.0 < i || (key.0 == i && key.1 < j))
                            &&& out@[k].1@.len() > 0
                            &&& (entities@[key.0 as int].object.power == 0 ==> unit_pair_hit(
                                entities@[key.0 as int],
                                entities@[key.1 as int],
                            ))
                            &&& forall|m: int|
                                0 <= m < out@[k].1@.len() ==> entry_ok(
                                    entities@[key.0 as int],
                                    entities@[key.1 as int],
                                    #[trigger] out@[k].1@[m],
                                )
                        },
                    forall|k1: int, k2: int|
                        0 <= k1 < k2 < out@.len() ==> ((#[trigger] out@[k1]).0.0 < (
                        #[trigger] out@[k2]).0.0 || (out@[k1].0.0 == out@[k2].0.0 && out@[k1].0.1
                            < out@[k2].0.1)),
                    forall|i2: int, j2: int|
                        0 <= i2 < j2 < entities@.len() && (#[trigger] entities@[i2]).object.power
                            == 0 && (i2 < i || (i2 == i && j2 < j)) ==> ((exists|k: int|
                            0 <= k < out@.len() && (#[trigger] out@[k]).0 == (
                            i2 as usize,
                            j2 as usize,
                        )) <==> unit_pair_hit(entities@[i2], #[trigger] entities@[j2])),
                decreases n - j,
            {
                let ghost oldout = out@;
                let collisions = Self::collide(entities[i], entities[j]);
                let ghost clen = collisions@.len();
                let pushed = collisions.len() > 0;
                if pushed {
                    out.push(((i, j), collisions));
                }
                proof {
                    assert forall|i2: int, j2: int|
                        0 <= i2 < j2 < entities@.len() && (#[trigger] entities@[i2]).object.power
                            == 0 && (i2 < i || (i2 == i && j2 < j + 1)) implies ((exists|k: int|
                        0 <= k < out@.len() && (#[trigger] out@[k]).0 == (
                        i2 as usize,
                        j2 as usize,
                    )) <==> unit_pair_hit(entities@[i2], #[trigger] entities@[j2])) by {
                        if i2 == i as int && j2 == j as int {
                            if pushed {
                                assert(out@[out@.len() - 1].0 == (i2 as usize, j2 as usize));
                                assert(unit_pair_hit(entities@[i2], entities@[j2]));
                            } else {
                                if unit_pair_hit(entities@[i2], entities@[j2]) {
                                    assert(clen == 1);
                                    assert(false);
                                }
                                if exists|k: int|
                                    0 <= k < out@.len() && (#[trigger] out@[k]).0 == (
                                    i2 as usize,
                                    j2 as usize,
                                ) {
                                    let k = choose|k: int|
                                        0 <= k < out@.len() && (#[trigger] out@[k]).0 == (
                                        i2 as usize,
                                        j2 as usize,
                                    );
                                    assert(out@[k].0.1 < j);
                                    assert(false);
                                }
                            }
                        } else {
                            if unit_pair_hit(entities@[i2], entities@[j2]) {
                                let k = choose|k: int|
                                    0 <= k < oldout.len() && (#[trigger] oldout[k]).0 == (
                                    i2 as usize,
                                    j2 as usize,
                                );
                                assert(out@[k].0 == (i2 as usize, j2 as usize));
                            }
                            if exists|k: int|
                                0 <= k < out@.len() && (#[trigger] out@[k]).0 == (
                                i2 as usize,
                                j2 as usize,
                            ) {
                                let k = choose|k: int|
                                    0 <= k < out@.len() && (#[trigger] out@[k]).0 == (
                                    i2 as usize,
                                    j2 as usize,
                                );
                                if pushed && k == out@.len() - 1 {
                                    assert(false);
                                }
                                assert(oldout[k].0 == (i2 as usize, j2 as usize));
                            }
                        }
                    }
                }
                j = j + 1;
            }
            i = i + 1;
        }
        out
    }
}

/// The unit-octree hit criterion for a pair of placed single-voxel
/// octrees: both have a root and their shrunk world unit cubes collide.
pub open spec fn unit_pair_hit(a: Positioned<&OctreeSet>, b: Positioned<&OctreeSet>) -> bool {
    &&& a.object.root is Some
    &&& b.object.root is Some
    &&& spec_sloppy_collided(
        spec_shrunk(spec_node_cube(a.position, a.rotation, a.object.corner, 0)),
        spec_shrunk(spec_node_cube(b.position, b.rotation, b.object.corner, 0)),
    )
}

} // verus!

//! Octree construction from voxel storage: the spanned region is the
//! storage's chunk bounding box padded up to a power-of-two cube, and a node
//! is full exactly when its entire region is collidable.

use vstd::prelude::*;

verus! {

use crate::geometry::IVec;
use crate::geometry::fx::pow2_u64;
use crate::octree::ArenaNode;
use crate::octree::OctreeSet;
use crate::octree::in_region;
use crate::octree::node_wf;
use crate::octree::octant_corner;
use crate::octree::region_bounded;
use crate::octree::region_coords_ok;
use crate::octree::solid_at;
use crate::storage::chunk_map::ChunkStorage;
use crate::voxel::Voxel;
use vstd::arithmetic::power2::lemma2_to64;
use vstd::arithmetic::power2::lemma_pow2_adds;
use vstd::arithmetic::power2::pow2;

/// `solid_at` only looks at the arena up to the node itself, so extending
/// the arena preserves it.
pub proof fn lemma_prefix_solid(n1: Seq<ArenaNode>, n2: Seq<ArenaNode>, i: int, p: IVec)
    requires
        n1.len() <= n2.len(),
        n1 == n2.subrange(0, n1.len() as int),
        0 <= i < n1.len(),
    ensures
        solid_at(n1, i, p) == solid_at(n2, i, p),
    decreases i,
{
    assert(n1[i] == n2[i]);
    let n = n1[i];
    if !n.full {
        assert forall|k: int|
            0 <= k < n.children.len() && 0 <= #[trigger] n.children[k] < i implies solid_at(
            n1,
            n.children[k] as int,
            p,
        ) == solid_at(n2, n.children[k] as int, p) by {
            lemma_prefix_solid(n1, n2, n.children[k] as int, p);
        }
    }
}

/// `node_wf` only looks at the arena up to the node itself.
pub proof fn lemma_prefix_node_wf(n1: Seq<ArenaNode>, n2: Seq<ArenaNode>, i: int)
    requires
        n1.len() <= n2.len(),
        n1 == n2.subrange(0, n1.len() as int),
        0 <= i < n1.len(),
        node_wf(n1, i),
    ensures
        node_wf(n2, i),
{
    assert(n1[i] == n2[i]);
    let n = n1[i];
    if !n.full {
        assert forall|k: int| 0 <= k < n.children.len() implies {
            &&& 0 <= #[trigger] n.children[k] < i
            &&& n2[n.children[k] as int].power + 1 == n.power
            &&& octant_corner(n.corner, n.power, n2[n.children[k] as int].corner)
        } by {
            assert(0 <= n.children[k] < i);
            assert(n1[n.children[k] as int] == n2[n.children[k] as int]);
        }
        assert forall|k1: int, k2: int|
            0 <= k1 < k2 < n.children.len() implies n2[#[trigger] n.children[k1] as int].corner
            != n2[#[trigger] n.children[k2] as int].corner by {
            assert(n1[n.children[k1] as int] == n2[n.children[k1] as int]);
            assert(n1[n.children[k2] as int] == n2[n.children[k2] as int]);
        }
    }
}

/// The octant of the cube at `corner` that contains `p`, as a position in
/// the canonical octant ordering.
pub open spec fn octant_index_of(corner: IVec, power: u32, p: IVec) -> int {
    let h = pow2((power - 1) as nat) as int;
    let kx: int = if p.x < corner.x + h {
        0
    } else {
        1
    };
    let ky: int = if p.y < corner.y + h {
        0
    } else {
        1
    };
    let kz: int = if p.z < corner.z + h {
        0
    } else {
        1
    };
    kx * 4 + ky * 2 + kz
}

/// The canonical corner of octant `j` of the cube at `c`, in the same
/// ordering that `octant_index_of` uses.
pub open spec fn octant_corner_at(c: IVec, power: u32, j: int) -> IVec {
    let h = pow2((power - 1) as nat) as int;
    IVec {
        x: if j >= 4 {
            (c.x + h) as i32
        } else {
            c.x
        },
        y: if j % 4 >= 2 {
            (c.y + h) as i32
        } else {
            c.y
        },
        z: if j % 2 == 1 {
            (c.z + h) as i32
        } else {
            c.z
        },
    }
}

/// Canonicity of one arena node against the storage: the node is a full
/// leaf exactly when its entire region is uniformly collidable.
pub open spec fn node_canonical(storage: ChunkStorage<Voxel>, nodes: Seq<ArenaNode>, i: int) -> bool {
    let n = nodes[i];
    n.full <==> (forall|p: IVec|
        in_region(n.corner, n.power, p) ==> storage.spec_get(p).spec_is_collidable())
}

/// Canonicity of a whole arena against the storage.
pub open spec fn arena_canonical(storage: ChunkStorage<Voxel>, nodes: Seq<ArenaNode>) -> bool {
    forall|i: int| 0 <= i < nodes.len() ==> node_canonical(storage, nodes, i)
}

/// What one octant slot promises after the recursive builds: an absent
/// subtree means an empty octant, a present one marks exactly the octant's
/// collidable positions.
pub open spec fn oct_slot_ok(
    storage: ChunkStorage<Voxel>,
    nodes: Seq<ArenaNode>,
    baselen: int,
    corner: IVec,
    power: u32,
    slot: Option<usize>,
    j: int,
) -> bool {
    let c = octant_corner_at(corner, power, j);
    match slot {
        None => forall|p: IVec|
            in_region(c, (power - 1) as u32, p) ==> !storage.spec_get(p).spec_is_collidable(),
        Some(i) => {
            &&& baselen <= i < nodes.len()
            &&& nodes[i as int].corner == c
            &&& nodes[i as int].power == power - 1
            &&& forall|p: IVec|
                #[trigger] in_region(c, (power - 1) as u32, p) ==> (solid_at(nodes, i as int, p)
                    <==> storage.spec_get(p).spec_is_collidable())
        },
    }
}

/// Builds the eight octant subtrees of the cube at `corner` into the arena.
#[verifier::rlimit(60)]
fn build_octants(
    storage: &ChunkStorage<Voxel>,
    corner: IVec,
    power: u32,
    nodes: &mut Vec<ArenaNode>,
) -> (r: (Vec<Option<usize>>, bool, bool))
    requires
        storage.wf(),
        1 <= power <= 30,
        region_coords_ok(corner, power),
        forall|i: int| 0 <= i < old(nodes)@.len() ==> node_wf(old(nodes)@, i),
        arena_canonical(*storage, old(nodes)@),
    ensures
        final(nodes)@.len() >= old(nodes)@.len(),
        old(nodes)@ == final(nodes)@.subrange(0, old(nodes)@.len() as int),
        forall|i: int| 0 <= i < final(nodes)@.len() ==> node_wf(final(nodes)@, i),
        arena_canonical(*storage, final(nodes)@),
        r.0@.len() == 8,
        forall|j: int|
            0 <= j < 8 ==> oct_slot_ok(
                *storage,
                final(nodes)@,
                old(nodes)@.len() as int,
                corner,
                power,
                #[trigger] r.0@[j],
                j,
            ),
        forall|j1: int, j2: int|
            0 <= j1 < j2 < 8 && (#[trigger] r.0@[j1]) is Some && (#[trigger] r.0@[j2]) is Some
                ==> r.0@[j1]->0 != r.0@[j2]->0,
        r.1 ==> forall|j: int| 0 <= j < 8 ==> (#[trigger] r.0@[j]) is None,
        !r.1 ==> exists|j: int| 0 <= j < 8 && (#[trigger] r.0@[j]) is Some,
        r.2 ==> forall|j: int|
            0 <= j < 8 ==> (#[trigger] r.0@[j]) is Some && final(nodes)@[r.0@[j]->0 as int].full,
        r.2 ==> final(nodes)@.len() == old(nodes)@.len() + 8,
        r.1 ==> final(nodes)@ == old(nodes)@,
        !r.2 ==> exists|j: int|
            0 <= j < 8 && !((#[trigger] r.0@[j]) is Some && final(nodes)@[r.0@[j]->0 as int].full),
    decreases power, 1int,
{
    proof {
        lemma_pow2_adds((power - 1) as nat, 1);
        lemma2_to64();
        vstd::arithmetic::power2::lemma_pow2_pos((power - 1) as nat);
    }
    let half = pow2_u64(power - 1) as i32;
    let hp = power - 1;
    let mut corners: Vec<IVec> = Vec::new();
    corners.push(corner);
    corners.push(IVec { x: corner.x, y: corner.y, z: corner.z + half });
    corners.push(IVec { x: corner.x, y: corner.y + half, z: corner.z });
    corners.push(IVec { x: corner.x, y: corner.y + half, z: corner.z + half });
    corners.push(IVec { x: corner.x + half, y: corner.y, z: corner.z });
    corners.push(IVec { x: corner.x + half, y: corner.y, z: corner.z + half });
    corners.push(IVec { x: corner.x + half, y: corner.y + half, z: corner.z });
    corners.push(IVec { x: corner.x + half, y: corner.y + half, z: corner.z + half });
    proof {
        assert forall|j: int| 0 <= j < 8 implies #[trigger] corners@[j] == octant_corner_at(
            corner,
            power,
            j,
        ) && octant_corner(corner, power, corners@[j]) && region_coords_ok(corners@[j], hp) by {}
    }
    let ghost base = nodes@;
    let mut octs: Vec<Option<usize>> = Vec::new();
    let mut all_none = true;
    let mut all_full = true;
    let mut k: usize = 0;
    while k < 8
        invariant
            storage.wf(),
            1 <= power <= 30,
            hp == power - 1,
            region_coords_ok(corner, power),
            corners@.len() == 8,
            forall|j: int|
                0 <= j < 8 ==> #[trigger] corners@[j] == octant_corner_at(corner, power, j)
                    && octant_corner(corner, power, corners@[j]) && region_coords_ok(
                    corners@[j],
                    hp,
                ),
            k <= 8,
            octs@.len() == k,
            nodes@.len() >= base.len(),
            base == nodes@.subrange(0, base.len() as int),
            forall|i: int| 0 <= i < nodes@.len() ==> node_wf(nodes@, i),
            forall|j: int|
                0 <= j < k ==> oct_slot_ok(
                    *storage,
                    nodes@,
                    base.len() as int,
                    corner,
                    power,
                    #[trigger] octs@[j],
                    j,
                ),
            forall|j1: int, j2: int|
                0 <= j1 < j2 < k && (#[trigger] octs@[j1]) is Some && (#[trigger] octs@[j2]) is Some
                    ==> octs@[j1]->0 != octs@[j2]->0,
            all_none ==> forall|j: int| 0 <= j < k ==> (#[trigger] octs@[j]) is None,
            !all_none ==> exists|j: int| 0 <= j < k && (#[trigger] octs@[j]) is Some,
            all_full ==> forall|j: int|
                0 <= j < k ==> (#[trigger] octs@[j]) is Some && nodes@[octs@[j]->0 as int].full,
            all_full ==> nodes@.len() == base.len() + k,
            all_none ==> nodes@ == base,
            arena_canonical(*storage, nodes@),
            !all_full ==> exists|j: int|
                0 <= j < k && !((#[trigger] octs@[j]) is Some && nodes@[octs@[j]->0 as int].full),
        decreases 8 - k,
    {
        let c = corners[k];
        let ghost pre = nodes@;
        let r = build_node(storage, c, hp, nodes);
        proof {
            assert forall|j: int| 0 <= j < k implies oct_slot_ok(
                *storage,
                nodes@,
                base.len() as int,
                corner,
                power,
                #[trigger] octs@[j],
                j,
            ) by {
                match octs@[j] {
                    None => {},
                    Some(i) => {
                        assert(pre[i as int] == nodes@[i as int]);
                        let cj = octant_corner_at(corner, power, j);
                        assert forall|p: IVec|
                            #[trigger] in_region(cj, (power - 1) as u32, p) implies (solid_at(
                            nodes@,
                            i as int,
                            p,
                        ) <==> storage.spec_get(p).spec_is_collidable()) by {
                            assert(solid_at(pre, i as int, p) <==> storage.spec_get(
                                p,
                            ).spec_is_collidable());
                            lemma_prefix_solid(pre, nodes@, i as int, p);
                        }
                    },
                }
            }
            assert(base == nodes@.subrange(0, base.len() as int)) by {
                assert(base =~= nodes@.subrange(0, base.len() as int));
            }
            assert(arena_canonical(*storage, nodes@)) by {
                assert forall|i2: int| 0 <= i2 < nodes@.len() implies node_canonical(
                    *storage,
                    nodes@,
                    i2,
                ) by {
                    if i2 < pre.len() {
                        assert(node_canonical(*storage, pre, i2));
                        assert(pre[i2] == nodes@[i2]);
                    }
                }
            }
        }
        let ghost oldocts = octs@;
        let ghost old_all_none = all_none;
        let ghost old_all_full = all_full;
        octs.push(r);
        match r {
            Some(i) => {
                all_none = false;
                if !nodes[i].full {
                    all_full = false;
                }
            },
            None => {
                all_full = false;
            },
        }
        proof {
            if !all_none {
                if old_all_none {
                    assert(octs@[k as int] is Some);
                } else {
                    let jw = choose|j: int| 0 <= j < k && (#[trigger] oldocts[j]) is Some;
                    assert(octs@[jw] is Some);
                }
            }
            if !all_full {
                if old_all_full {
                    assert(!(octs@[k as int] is Some && nodes@[octs@[k as int]->0 as int].full));
                } else {
                    let jw = choose|j: int|
                        0 <= j < k && !((#[trigger] oldocts[j]) is Some && pre[oldocts[j]->0
                            as int].full);
                    assert(!(octs@[jw] is Some && nodes@[octs@[jw]->0 as int].full));
                }
            }
        }
        k = k + 1;
    }
    (octs, all_none, all_full)
}

/// The arena indices of the present octant subtrees, in octant order,
/// together with a map from child slot to octant and its inverse.
fn collect_children(octs: &Vec<Option<usize>>) -> (r: (Vec<usize>, Ghost<Seq<int>>, Ghost<Seq<int>>))
    requires
        octs@.len() == 8,
    ensures
        ({
            let (children, om, rev) = r;
            &&& children@.len() <= 8
            &&& om@.len() == children@.len()
            &&& forall|j: int|
                0 <= j < children@.len() ==> 0 <= #[trigger] om@[j] < 8 && octs@[om@[j]] == Some(
                    children@[j],
                )
            &&& forall|j1: int, j2: int| 0 <= j1 < j2 < children@.len() ==> om@[j1] < om@[j2]
            &&& rev@.len() == 8
            &&& forall|jj: int|
                0 <= jj < 8 && (#[trigger] octs@[jj]) is Some ==> 0 <= rev@[jj] < children@.len()
                    && children@[rev@[jj]] == octs@[jj]->0 && om@[rev@[jj]] == jj
        }),
{
    let mut children: Vec<usize> = Vec::new();
    let ghost mut om: Seq<int> = Seq::empty();
    let ghost mut rev: Seq<int> = Seq::new(8, |j: int| -1);
    let mut k2: usize = 0;
    while k2 < 8
        invariant
            octs@.len() == 8,
            k2 <= 8,
            children@.len() <= k2,
            om.len() == children@.len(),
            forall|j: int|
                0 <= j < children@.len() ==> 0 <= #[trigger] om[j] < k2 && octs@[om[j]] == Some(
                    children@[j],
                ),
            forall|j1: int, j2: int| 0 <= j1 < j2 < children@.len() ==> om[j1] < om[j2],
            rev.len() == 8,
            forall|jj: int|
                0 <= jj < k2 && (#[trigger] octs@[jj]) is Some ==> 0 <= rev[jj] < children@.len()
                    && children@[rev[jj]] == octs@[jj]->0 && om[rev[jj]] == jj,
        decreases 8 - k2,
    {
        match octs[k2] {
            Some(i) => {
                proof {
                    rev = rev.update(k2 as int, children@.len() as int);
                    om = om.push(k2 as int);
                }
                children.push(i);
            },
            None => {},
        }
        k2 = k2 + 1;
    }
    (children, Ghost(om), Ghost(rev))
}

/// Builds the subtree for the cube at `corner` with edge `2^power` into the
/// arena, returning the new subtree's root index, or nothing when the
/// region holds no collidable voxel.  The subtree marks exactly the
/// collidable positions of the region.
#[verifier::rlimit(60)]
pub fn build_node(
    storage: &ChunkStorage<Voxel>,
    corner: IVec,
    power: u32,
    nodes: &mut Vec<ArenaNode>,
) -> (r: Option<usize>)
    requires
        storage.wf(),
        power <= 30,
        region_coords_ok(corner, power),
        forall|i: int| 0 <= i < old(nodes)@.len() ==> node_wf(old(nodes)@, i),
        arena_canonical(*storage, old(nodes)@),
    ensures
        final(nodes)@.len() >= old(nodes)@.len(),
        old(nodes)@ == final(nodes)@.subrange(0, old(nodes)@.len() as int),
        forall|i: int| 0 <= i < final(nodes)@.len() ==> node_wf(final(nodes)@, i),
        arena_canonical(*storage, final(nodes)@),
        match r {
            None => final(nodes)@ == old(nodes)@ && forall|p: IVec|
                in_region(corner, power, p) ==> !storage.spec_get(p).spec_is_collidable(),
            Some(i) => {
                &&& i == final(nodes)@.len() - 1
                &&& old(nodes)@.len() <= i
                &&& final(nodes)@[i as int].corner == corner
                &&& final(nodes)@[i as int].power == power
                &&& (final(nodes)@[i as int].full ==> final(nodes)@.len() == old(nodes)@.len() + 1)
                &&& forall|p: IVec|
                    #[trigger] in_region(corner, power, p) ==> (solid_at(
                        final(nodes)@,
                        i as int,
                        p,
                    ) <==> storage.spec_get(p).spec_is_collidable())
            },
        },
    decreases power, 2int,
{
    if power == 0 {
        proof {
            lemma2_to64();
        }
        let v = storage.get(corner);
        if v.is_collidable() {
            let i = nodes.len();
            nodes.push(ArenaNode { corner, power: 0, full: true, children: Vec::new() });
            proof {
                assert(old(nodes)@ =~= nodes@.subrange(0, old(nodes)@.len() as int));
                assert forall|j: int| 0 <= j < nodes@.len() implies node_wf(nodes@, j) by {
                    if j < old(nodes)@.len() {
                        lemma_prefix_node_wf(old(nodes)@, nodes@, j);
                    }
                }
                assert forall|p: IVec| #[trigger] in_region(corner, 0, p) implies (solid_at(
                    nodes@,
                    i as int,
                    p,
                ) <==> storage.spec_get(p).spec_is_collidable()) by {
                    assert(p == corner);
                }
                assert(node_canonical(*storage, nodes@, i as int)) by {
                    assert forall|p: IVec|
                        in_region(nodes@[i as int].corner, nodes@[i as int].power, p) implies storage.spec_get(
                        p,
                    ).spec_is_collidable() by {
                        assert(p == corner);
                    }
                }
                assert(arena_canonical(*storage, nodes@)) by {
                    assert forall|i2: int| 0 <= i2 < nodes@.len() implies node_canonical(
                        *storage,
                        nodes@,
                        i2,
                    ) by {
                        if i2 < old(nodes)@.len() {
                            assert(node_canonical(*storage, old(nodes)@, i2));
                            assert(old(nodes)@[i2] == nodes@[i2]);
                        }
                    }
                }
            }
            Some(i)
        } else {
            proof {
                assert(old(nodes)@ =~= nodes@.subrange(0, old(nodes)@.len() as int));
                assert forall|p: IVec| in_region(corner, 0, p) implies !storage.spec_get(
                    p,
                ).spec_is_collidable() by {
                    assert(p == corner);
                }
                assert(arena_canonical(*storage, nodes@));
            }
            None
        }
    } else {
        proof {
            lemma_pow2_adds((power - 1) as nat, 1);
            lemma2_to64();
        }
        let hp = power - 1;
        let (octs, all_none, all_full) = build_octants(storage, corner, power, nodes);
        let ghost base = old(nodes)@;
        if all_none {
            proof {
                assert forall|p: IVec| in_region(corner, power, p) implies !storage.spec_get(
                    p,
                ).spec_is_collidable() by {
                    let j = octant_index_of(corner, power, p);
                    assert(in_region(octant_corner_at(corner, power, j), (power - 1) as u32, p));
                    assert(oct_slot_ok(
                        *storage,
                        nodes@,
                        base.len() as int,
                        corner,
                        power,
                        octs@[j],
                        j,
                    ));
                    assert(octs@[j] is None);
                }
                assert(arena_canonical(*storage, nodes@));
            }
            None
        } else if all_full {
            proof {
                assert forall|p: IVec| in_region(corner, power, p) implies storage.spec_get(
                    p,
                ).spec_is_collidable() by {
                    let j = octant_index_of(corner, power, p);
                    assert(in_region(octant_corner_at(corner, power, j), (power - 1) as u32, p));
                    assert(oct_slot_ok(
                        *storage,
                        nodes@,
                        base.len() as int,
                        corner,
                        power,
                        octs@[j],
                        j,
                    ));
                    assert(octs@[j] is Some && nodes@[octs@[j]->0 as int].full);
                    assert(solid_at(nodes@, octs@[j]->0 as int, p));
                }
                assert(nodes@.len() == base.len() + 8);
            }
            let ghost pretrunc = nodes@;
            let keep = nodes.len() - 8;
            nodes.truncate(keep);
            proof {
                assert(nodes@ =~= base) by {
                    assert(nodes@ == pretrunc.subrange(0, keep as int));
                    assert(base == pretrunc.subrange(0, base.len() as int));
                }
            }
            let i = nodes.len();
            nodes.push(ArenaNode { corner, power, full: true, children: Vec::new() });
            proof {
                assert(base =~= nodes@.subrange(0, base.len() as int));
                assert forall|j: int| 0 <= j < nodes@.len() implies node_wf(nodes@, j) by {
                    if j < base.len() {
                        lemma_prefix_node_wf(base, nodes@, j);
                    }
                }
                assert(node_canonical(*storage, nodes@, i as int));
                assert(arena_canonical(*storage, nodes@)) by {
                    assert forall|i2: int| 0 <= i2 < nodes@.len() implies node_canonical(
                        *storage,
                        nodes@,
                        i2,
                    ) by {
                        if i2 < base.len() {
                            assert(node_canonical(*storage, base, i2));
                            assert(base[i2] == nodes@[i2]);
                        }
                    }
                }
            }
            Some(i)
        } else {
            let (children, om, rev) = collect_children(&octs);
            let i = nodes.len();
            let ghost prepush = nodes@;
            let ghost chseq = children@;
            proof {
                assert(1 <= chseq.len()) by {
                    let jj = choose|j: int| 0 <= j < 8 && (#[trigger] octs@[j]) is Some;
                    assert(0 <= rev@[jj] < chseq.len());
                }
            }
            nodes.push(ArenaNode { corner, power, full: false, children });
            proof {
                assert(nodes@[i as int].children@ == chseq);
                assert(nodes@ =~= prepush.push(nodes@[i as int]));
                lemma_interior_node(
                    storage,
                    prepush,
                    nodes@,
                    octs@,
                    om@,
                    rev@,
                    corner,
                    power,
                    base.len() as int,
                    i as int,
                );
                assert(base == nodes@.subrange(0, base.len() as int)) by {
                    assert(base =~= nodes@.subrange(0, base.len() as int));
                }
                let jw = choose|j: int|
                    0 <= j < 8 && !((#[trigger] octs@[j]) is Some && prepush[octs@[j]->0
                        as int].full);
                let oc = octant_corner_at(corner, power, jw);
                vstd::arithmetic::power2::lemma_pow2_pos((power - 1) as nat);
                assert(oct_slot_ok(*storage, prepush, base.len() as int, corner, power, octs@[jw], jw));
                let pw = if octs@[jw] is None {
                    assert(in_region(oc, hp, oc));
                    assert(!storage.spec_get(oc).spec_is_collidable());
                    oc
                } else {
                    let ci = octs@[jw]->0;
                    assert(node_canonical(*storage, prepush, ci as int));
                    assert(!prepush[ci as int].full);
                    assert(!(forall|p: IVec|
                        in_region(prepush[ci as int].corner, prepush[ci as int].power, p)
                            ==> storage.spec_get(p).spec_is_collidable()));
                    let p0 = choose|p: IVec|
                        in_region(prepush[ci as int].corner, prepush[ci as int].power, p)
                            && !storage.spec_get(p).spec_is_collidable();
                    assert(in_region(oc, hp, p0));
                    p0
                };
                assert(in_region(corner, power, pw));
                assert(in_region(nodes@[i as int].corner, nodes@[i as int].power, pw));
                assert(!storage.spec_get(pw).spec_is_collidable());
                assert(node_canonical(*storage, nodes@, i as int));
                assert(arena_canonical(*storage, nodes@)) by {
                    assert forall|i2: int| 0 <= i2 < nodes@.len() implies node_canonical(
                        *storage,
                        nodes@,
                        i2,
                    ) by {
                        if i2 < prepush.len() {
                            assert(node_canonical(*storage, prepush, i2));
                            assert(prepush[i2] == nodes@[i2]);
                        }
                    }
                }
            }
            Some(i)
        }
    }
}

/// Distinct octant slots have distinct canonical corners.
proof fn lemma_octant_corner_at_distinct(c: IVec, power: u32, j1: int, j2: int)
    requires
        1 <= power <= 30,
        region_coords_ok(c, power),
        pow2(power as nat) == 2 * pow2((power - 1) as nat),
        0 <= j1 < 8,
        0 <= j2 < 8,
        j1 != j2,
    ensures
        octant_corner_at(c, power, j1) != octant_corner_at(c, power, j2),
{
    vstd::arithmetic::power2::lemma_pow2_pos((power - 1) as nat);
    let h = pow2((power - 1) as nat) as int;
    assert(h >= 1);
    assert(c.x + h <= 0x7fff_ffff && c.y + h <= 0x7fff_ffff && c.z + h <= 0x7fff_ffff);
    if (j1 >= 4) != (j2 >= 4) {
        assert(octant_corner_at(c, power, j1).x != octant_corner_at(c, power, j2).x);
    } else if (j1 % 4 >= 2) != (j2 % 4 >= 2) {
        assert(octant_corner_at(c, power, j1).y != octant_corner_at(c, power, j2).y);
    } else {
        assert((j1 % 2 == 1) != (j2 % 2 == 1));
        assert(octant_corner_at(c, power, j1).z != octant_corner_at(c, power, j2).z);
    }
}

/// The freshly pushed interior node is well formed and its subtree marks
/// exactly the collidable positions of its region.
#[verifier::rlimit(60)]
proof fn lemma_interior_node(
    storage: &ChunkStorage<Voxel>,
    pre: Seq<ArenaNode>,
    post: Seq<ArenaNode>,
    octs: Seq<Option<usize>>,
    om: Seq<int>,
    rev: Seq<int>,
    corner: IVec,
    power: u32,
    baselen: int,
    i: int,
)
    requires
        storage.wf(),
        1 <= power <= 30,
        region_coords_ok(corner, power),
        pow2(power as nat) == 2 * pow2((power - 1) as nat),
        forall|j: int| 0 <= j < pre.len() ==> node_wf(pre, j),
        octs.len() == 8,
        forall|j: int|
            0 <= j < 8 ==> oct_slot_ok(*storage, pre, baselen, corner, power, #[trigger] octs[j], j),
        i == pre.len(),
        post == pre.push(post[i]),
        post[i].corner == corner,
        post[i].power == power,
        post[i].full == false,
        1 <= post[i].children.len() <= 8,
        om.len() == post[i].children.len(),
        forall|j: int|
            0 <= j < post[i].children.len() ==> 0 <= #[trigger] om[j] < 8 && octs[om[j]] == Some(
                post[i].children[j],
            ),
        forall|j1: int, j2: int| 0 <= j1 < j2 < post[i].children.len() ==> om[j1] < om[j2],
        rev.len() == 8,
        forall|jj: int|
            0 <= jj < 8 && (#[trigger] octs[jj]) is Some ==> 0 <= rev[jj] < post[i].children.len()
                && post[i].children[rev[jj]] == octs[jj]->0 && om[rev[jj]] == jj,
    ensures
        forall|j: int| 0 <= j < post.len() ==> node_wf(post, j),
        forall|p: IVec|
            #[trigger] in_region(corner, power, p) ==> (solid_at(post, i, p)
                <==> storage.spec_get(p).spec_is_collidable()),
{
    let hp = (power - 1) as u32;
    let n = post[i];
    assert(pre =~= post.subrange(0, pre.len() as int));
    assert forall|j: int| 0 <= j < pre.len() implies node_wf(post, j) by {
        lemma_prefix_node_wf(pre, post, j);
    }
    assert forall|k: int| 0 <= k < n.children.len() implies {
        &&& 0 <= #[trigger] n.children[k] < i
        &&& post[n.children[k] as int].power + 1 == n.power
        &&& octant_corner(n.corner, n.power, post[n.children[k] as int].corner)
    } by {
        let jj = om[k];
        assert(octs[jj] == Some(n.children[k]));
        assert(oct_slot_ok(*storage, pre, baselen, corner, power, octs[jj], jj));
        assert(pre[n.children[k] as int].corner == octant_corner_at(corner, power, jj));
    }
    assert forall|k1: int, k2: int| 0 <= k1 < k2 < n.children.len() implies post[#[trigger] n
        .children[k1] as int].corner != post[#[trigger] n.children[k2] as int].corner by {
        let jj1 = om[k1];
        let jj2 = om[k2];
        assert(octs[jj1] == Some(n.children[k1]));
        assert(octs[jj2] == Some(n.children[k2]));
        assert(oct_slot_ok(*storage, pre, baselen, corner, power, octs[jj1], jj1));
        assert(oct_slot_ok(*storage, pre, baselen, corner, power, octs[jj2], jj2));
        assert(pre[n.children[k1] as int].corner == octant_corner_at(corner, power, jj1));
        assert(pre[n.children[k2] as int].corner == octant_corner_at(corner, power, jj2));
        assert(jj1 < jj2);
        lemma_octant_corner_at_distinct(corner, power, jj1, jj2);
    }
    assert(node_wf(post, i));
    assert forall|p: IVec| #[trigger] in_region(corner, power, p) implies (solid_at(post, i, p)
        <==> storage.spec_get(p).spec_is_collidable()) by {
        let j = octant_index_of(corner, power, p);
        assert(0 <= j < 8);
        assert(in_region(octant_corner_at(corner, power, j), (power - 1) as u32, p));
        assert(oct_slot_ok(*storage, pre, baselen, corner, power, octs[j], j));
        if storage.spec_get(p).spec_is_collidable() {
            assert(octs[j] is Some);
            let ci = octs[j]->0;
            assert(solid_at(pre, ci as int, p));
            lemma_prefix_solid(pre, post, ci as int, p);
            let jc = rev[j];
            assert(0 <= jc < n.children.len() && n.children[jc] == ci);
            assert(0 <= n.children[jc] < i && solid_at(post, n.children[jc] as int, p));
            assert(solid_at(post, i, p));
        }
        if solid_at(post, i, p) {
            let kk = choose|kk: int|
                0 <= kk < n.children.len() && 0 <= #[trigger] n.children[kk] < i && solid_at(
                    post,
                    n.children[kk] as int,
                    p,
                );
            let ci = n.children[kk];
            let jj = om[kk];
            assert(octs[jj] == Some(ci));
            assert(oct_slot_ok(*storage, pre, baselen, corner, power, octs[jj], jj));
            lemma_prefix_solid(pre, post, ci as int, p);
            crate::octree::lemma_solid_in_region(pre, ci as int, p);
            assert(in_region(octant_corner_at(corner, power, jj), (power - 1) as u32, p));
            assert(jj == j) by {
                assert(octant_corner(corner, power, octant_corner_at(corner, power, jj)));
                assert(octant_corner(corner, power, octant_corner_at(corner, power, j)));
                crate::octree::lemma_octant_disjoint(
                    corner,
                    power,
                    octant_corner_at(corner, power, jj),
                    octant_corner_at(corner, power, j),
                    p,
                );
            }
            assert(storage.spec_get(p).spec_is_collidable());
        }
    }
}

/// Bound on chunk keys accepted by the octree builder, so that the padded
/// cube stays within lattice coordinates.
pub open spec fn keys_bounded(s: ChunkStorage<Voxel>) -> bool {
    forall|i: int|
        0 <= i < s.metas.len() ==> {
            &&& -1024 <= (#[trigger] s.metas[i]).key.x <= 1024
            &&& -1024 <= s.metas[i].key.y <= 1024
            &&& -1024 <= s.metas[i].key.z <= 1024
        }
}

impl OctreeSet {
    /// Builds the octree of a voxel storage: the storage's chunk bounding
    /// box, padded up to a power-of-two cube, is compressed so that the
    /// solid positions of the tree are exactly the collidable voxels of the
    /// storage.  The ambient value must not be collidable: it stands at
    /// every never-written position.
    pub fn from_chunk_storage(storage: &ChunkStorage<Voxel>) -> (r: OctreeSet)
        requires
            storage.wf(),
            !storage.ambient.spec_is_collidable(),
            keys_bounded(*storage),
        ensures
            r.wf(),
            region_bounded(r),
            forall|p: IVec| #[trigger] r.spec_solid(p) == storage.spec_get(p).spec_is_collidable(),
            arena_canonical(*storage, r.nodes@),
    {
        if storage.metas.len() == 0 {
            let r = OctreeSet {
                nodes: Vec::new(),
                root: None,
                power: 0,
                corner: IVec { x: 0, y: 0, z: 0 },
            };
            proof {
                lemma2_to64();
                assert forall|p: IVec|
                    #[trigger] r.spec_solid(p) == storage.spec_get(p).spec_is_collidable() by {
                    assert(!storage.spec_contains(p));
                }
            }
            return r;
        }
        let s64 = storage.chunk_size as i64;
        let k0 = storage.metas[0].key;
        let mut mnx: i64 = k0.x as i64;
        let mut mny: i64 = k0.y as i64;
        let mut mnz: i64 = k0.z as i64;
        let mut mxx: i64 = k0.x as i64;
        let mut mxy: i64 = k0.y as i64;
        let mut mxz: i64 = k0.z as i64;
        let mut i: usize = 1;
        while i < storage.metas.len()
            invariant
                storage.wf(),
                keys_bounded(*storage),
                1 <= i <= storage.metas.len() || storage.metas.len() <= 1,
                i <= storage.metas.len(),
                storage.metas.len() >= 1,
                -1024 <= mnx <= 1024,
                -1024 <= mny <= 1024,
                -1024 <= mnz <= 1024,
                mnx <= mxx <= 1024,
                mny <= mxy <= 1024,
                mnz <= mxz <= 1024,
                forall|j: int|
                    0 <= j < i ==> {
                        &&& mnx <= (#[trigger] storage.metas[j]).key.x <= mxx
                        &&& mny <= storage.metas[j].key.y <= mxy
                        &&& mnz <= storage.metas[j].key.z <= mxz
                    },
            decreases storage.metas.len() - i,
        {
            let k = storage.metas[i].key;
            if (k.x as i64) < mnx {
                mnx = k.x as i64;
            }
            if (k.y as i64) < mny {
                mny = k.y as i64;
            }
            if (k.z as i64) < mnz {
                mnz = k.z as i64;
            }
            if (k.x as i64) > mxx {
                mxx = k.x as i64;
            }
            if (k.y as i64) > mxy {
                mxy = k.y as i64;
            }
            if (k.z as i64) > mxz {
                mxz = k.z as i64;
            }
            i = i + 1;
        }
        proof {
            assert((0 < (mxx - mnx + 1) * s64 <= 0x400000) && (0 < (mxy - mny + 1) * s64
                <= 0x400000) && (0 < (mxz - mnz + 1) * s64 <= 0x400000) && (-1048576 <= mnx * s64
                <= 1048576) && (-1048576 <= mny * s64 <= 1048576) && (-1048576 <= mnz * s64
                <= 1048576)) by (nonlinear_arith)
                requires
                    0 < s64 <= 1024,
                    -1024 <= mnx <= 1024,
                    -1024 <= mny <= 1024,
                    -1024 <= mnz <= 1024,
                    mnx <= mxx <= 1024,
                    mny <= mxy <= 1024,
                    mnz <= mxz <= 1024,
            ;
        }
        let ex = ((mxx - mnx + 1) * s64) as u64;
        let ey = ((mxy - mny + 1) * s64) as u64;
        let ez = ((mxz - mnz + 1) * s64) as u64;
        let needed = if ex > ey {
            if ex > ez {
                ex
            } else {
                ez
            }
        } else {
            if ey > ez {
                ey
            } else {
                ez
            }
        };
        proof {
            lemma2_to64();
            vstd::arithmetic::power2::lemma2_to64_rest();
            assert(needed <= 0x400000 as u64 && needed >= 1);
        }
        let mut power: u32 = 0;
        while pow2_u64(power) < needed
            invariant
                power <= 22,
                needed <= pow2(22),
                needed >= 1,
            decreases 22 - power,
        {
            proof {
                if power >= 22 {
                    assert(pow2(power as nat) >= pow2(22)) by {
                        if power > 22 {
                            vstd::arithmetic::power2::lemma_pow2_strictly_increases(
                                22,
                                power as nat,
                            );
                        }
                    }
                }
            }
            power = power + 1;
        }
        let corner = IVec { x: (mnx * s64) as i32, y: (mny * s64) as i32, z: (mnz * s64) as i32 };
        proof {
            lemma2_to64();
            vstd::arithmetic::power2::lemma2_to64_rest();
            assert(pow2(power as nat) <= pow2(22)) by {
                if power < 22 {
                    vstd::arithmetic::power2::lemma_pow2_strictly_increases(power as nat, 22);
                }
            }
            assert(region_coords_ok(corner, power));
        }
        let mut nodes: Vec<ArenaNode> = Vec::new();
        let root = build_node(storage, corner, power, &mut nodes);
        let r = OctreeSet { nodes, root, power, corner };
        proof {
            assert(region_bounded(r)) by {
                lemma2_to64();
                vstd::arithmetic::power2::lemma2_to64_rest();
            }
            lemma_region_covers(*storage, r.corner, r.power, mnx, mny, mnz, mxx, mxy, mxz, needed as int);
            assert forall|p: IVec|
                #[trigger] r.spec_solid(p) == storage.spec_get(p).spec_is_collidable() by {
                if in_region(r.corner, r.power, p) {
                    match root {
                        Some(ri) => {
                            assert(solid_at(r.nodes@, ri as int, p) <==> storage.spec_get(
                                p,
                            ).spec_is_collidable());
                        },
                        None => {},
                    }
                } else {
                    if r.spec_solid(p) {
                        let ri = root->0;
                        crate::octree::lemma_solid_in_region(r.nodes@, ri as int, p);
                    }
                    if storage.spec_contains(p) {
                        assert(in_region(r.corner, r.power, p));
                    }
                    assert(!storage.spec_contains(p));
                }
            }
        }
        r
    }
}

impl ChunkStorage<Voxel> {
    /// The collider of this storage: its octree, an arbitrary structure
    /// that allows collision detection between two voxel grids.
    pub fn collider(&self) -> (r: OctreeSet)
        requires
            self.wf(),
            !self.ambient.spec_is_collidable(),
            keys_bounded(*self),
        ensures
            r.wf(),
            region_bounded(r),
            forall|p: IVec| #[trigger] r.spec_solid(p) == self.spec_get(p).spec_is_collidable(),
            arena_canonical(*self, r.nodes@),
    {
        OctreeSet::from_chunk_storage(self)
    }
}

/// Every position covered by a chunk of the storage lies inside the padded
/// cube chosen by the builder.
proof fn lemma_region_covers(
    storage: ChunkStorage<Voxel>,
    corner: IVec,
    power: u32,
    mnx: i64,
    mny: i64,
    mnz: i64,
    mxx: i64,
    mxy: i64,
    mxz: i64,
    needed: int,
)
    requires
        storage.wf(),
        forall|j: int|
            0 <= j < storage.metas.len() ==> {
                &&& mnx <= (#[trigger] storage.metas[j]).key.x <= mxx
                &&& mny <= storage.metas[j].key.y <= mxy
                &&& mnz <= storage.metas[j].key.z <= mxz
            },
        corner.x == mnx * (storage.size() as int),
        corner.y == mny * (storage.size() as int),
        corner.z == mnz * (storage.size() as int),
        (mxx - mnx + 1) * (storage.size() as int) <= needed,
        (mxy - mny + 1) * (storage.size() as int) <= needed,
        (mxz - mnz + 1) * (storage.size() as int) <= needed,
        needed <= pow2(power as nat),
    ensures
        forall|p: IVec| storage.spec_contains(p) ==> #[trigger] in_region(corner, power, p),
{
    let s = storage.size();
    assert forall|p: IVec| storage.spec_contains(p) implies #[trigger] in_region(
        corner,
        power,
        p,
    ) by {
        let k = storage.spec_key(p);
        let j = storage.chunk_at(k);
        assert(0 <= j < storage.metas.len() && ChunkStorage::<Voxel>::key_matches(
            storage.metas[j],
            k,
        ));
        vstd::arithmetic::div_mod::lemma_fundamental_div_mod(p.x as int, s);
        vstd::arithmetic::div_mod::lemma_fundamental_div_mod(p.y as int, s);
        vstd::arithmetic::div_mod::lemma_fundamental_div_mod(p.z as int, s);
        assert(corner.x <= p.x && (p.x as int) < corner.x + pow2(power as nat))
            by (nonlinear_arith)
            requires
                0 < s,
                p.x as int == s * k.0 + (p.x as int) % s,
                0 <= (p.x as int) % s < s,
                mnx <= k.0 <= mxx,
                corner.x == mnx * s,
                (mxx - mnx + 1) * s <= needed,
                needed <= pow2(power as nat),
        ;
        assert(corner.y <= p.y && (p.y as int) < corner.y + pow2(power as nat))
            by (nonlinear_arith)
            requires
                0 < s,
                p.y as int == s * k.1 + (p.y as int) % s,
                0 <= (p.y as int) % s < s,
                mny <= k.1 <= mxy,
                corner.y == mny * s,
                (mxy - mny + 1) * s <= needed,
                needed <= pow2(power as nat),
        ;
        assert(corner.z <= p.z && (p.z as int) < corner.z + pow2(power as nat))
            by (nonlinear_arith)
            requires
                0 < s,
                p.z as int == s * k.2 + (p.z as int) % s,
                0 <= (p.z as int) % s < s,
                mnz <= k.2 <= mxz,
                corner.z == mnz * s,
                (mxz - mnz + 1) * s <= needed,
                needed <= pow2(power as nat),
        ;
    }
}


} // verus!

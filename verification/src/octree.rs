//! Sparse octrees over the voxel lattice: a bitset accelerator recording
//! which cubic regions are entirely solid.
//!
//! Nodes live in an arena, referenced by index, children strictly before
//! parents.  A node is either uniformly full (a leaf) or interior with up to
//! eight child octants of half its edge; entirely empty octants are simply
//! absent.  Edge lengths are powers of two.

use vstd::prelude::*;

pub mod octree_set;

verus! {

use crate::geometry::IVec;
use crate::geometry::fx::pow2_u64;
use vstd::arithmetic::power2::lemma2_to64;
use vstd::arithmetic::power2::lemma_pow2_adds;
use vstd::arithmetic::power2::pow2;

/// One node of the arena: an axis-aligned cube region with lattice-space
/// minimum corner and edge length `2^power`.
pub struct ArenaNode {
    /// Minimum corner of the region.
    pub corner: IVec,
    /// The edge length of the region is `2^power`.
    pub power: u32,
    /// Whether the entire region is solid; a full node has no children.
    pub full: bool,
    /// Arena indices of the child octants that contain anything, in the
    /// arena strictly before this node.
    pub children: Vec<usize>,
}

/// Whether `p` lies in the cube with minimum corner `corner` and edge
/// `2^power`.
pub open spec fn in_region(corner: IVec, power: u32, p: IVec) -> bool {
    &&& corner.x <= p.x < corner.x + pow2(power as nat)
    &&& corner.y <= p.y < corner.y + pow2(power as nat)
    &&& corner.z <= p.z < corner.z + pow2(power as nat)
}

/// Whether an octree's spanned region lies within the world bounds that the
/// collision resolver accepts: corners and extents within `+-2^23`.
pub open spec fn region_bounded(s: OctreeSet) -> bool {
    &&& s.power <= 22
    &&& -0x80_0000 <= s.corner.x && s.corner.x + pow2(s.power as nat) <= 0x80_0000
    &&& -0x80_0000 <= s.corner.y && s.corner.y + pow2(s.power as nat) <= 0x80_0000
    &&& -0x80_0000 <= s.corner.z && s.corner.z + pow2(s.power as nat) <= 0x80_0000
}

/// Whether the cube at `corner` with edge `2^power` lies within the lattice
/// coordinate range.
pub open spec fn region_coords_ok(corner: IVec, power: u32) -> bool {
    &&& corner.x + pow2(power as nat) <= 0x8000_0000
    &&& corner.y + pow2(power as nat) <= 0x8000_0000
    &&& corner.z + pow2(power as nat) <= 0x8000_0000
}

/// Whether `cc` is one of the eight octant corners of the cube at `c` with
/// edge `2^power`.
pub open spec fn octant_corner(c: IVec, power: u32, cc: IVec) -> bool {
    let h = pow2((power - 1) as nat) as int;
    &&& power >= 1
    &&& (cc.x == c.x || cc.x == c.x + h)
    &&& (cc.y == c.y || cc.y == c.y + h)
    &&& (cc.z == c.z || cc.z == c.z + h)
}

/// Well-formedness of the arena node at index `i`: bounded region, children
/// strictly earlier in the arena, each an octant of half the edge, with
/// distinct corners.
pub open spec fn node_wf(nodes: Seq<ArenaNode>, i: int) -> bool {
    let n = nodes[i];
    &&& n.power <= 30
    &&& region_coords_ok(n.corner, n.power)
    &&& (n.full ==> n.children.len() == 0)
    &&& (!n.full ==> {
        &&& 1 <= n.power
        &&& 1 <= n.children.len() <= 8
        &&& forall|k: int|
            0 <= k < n.children.len() ==> {
                &&& 0 <= #[trigger] n.children[k] < i
                &&& nodes[n.children[k] as int].power + 1 == n.power
                &&& octant_corner(n.corner, n.power, nodes[n.children[k] as int].corner)
            }
        &&& forall|k1: int, k2: int|
            0 <= k1 < k2 < n.children.len() ==> nodes[#[trigger] n.children[k1] as int].corner
                != nodes[#[trigger] n.children[k2] as int].corner
    })
}

/// Whether the subtree rooted at arena index `i` marks `p` solid.
pub open spec fn solid_at(nodes: Seq<ArenaNode>, i: int, p: IVec) -> bool
    decreases i,
{
    if 0 <= i < nodes.len() {
        let n = nodes[i];
        if n.full {
            in_region(n.corner, n.power, p)
        } else {
            exists|k: int|
                0 <= k < n.children.len() && 0 <= #[trigger] n.children[k] < i && solid_at(
                    nodes,
                    n.children[k] as int,
                    p,
                )
        }
    } else {
        false
    }
}

/// A sparse octree: the arena of nodes plus the root, spanning the cube at
/// `corner` with edge `2^power`.  An octree of an entirely empty region has
/// no root.
pub struct OctreeSet {
    /// The node arena; children precede parents.
    pub nodes: Vec<ArenaNode>,
    /// Arena index of the root node, if any region is solid at all.
    pub root: Option<usize>,
    /// The root region's edge length is `2^power`.
    pub power: u32,
    /// The root region's minimum corner.
    pub corner: IVec,
}

impl OctreeSet {
    /// Well-formedness: every arena node is well formed and the root, when
    /// present, spans the advertised region.
    pub open spec fn wf(self) -> bool {
        &&& self.power <= 30
        &&& forall|i: int| 0 <= i < self.nodes.len() ==> node_wf(self.nodes@, i)
        &&& match self.root {
            Some(r) => r < self.nodes.len() && self.nodes[r as int].corner == self.corner
                && self.nodes[r as int].power == self.power,
            None => true,
        }
    }

    /// The set of solid positions: those marked by the root's subtree.
    pub open spec fn spec_solid(self, p: IVec) -> bool {
        match self.root {
            Some(r) => solid_at(self.nodes@, r as int, p),
            None => false,
        }
    }

    /// The edge length of the spanned region.
    pub fn edge_len(&self) -> (r: u64)
        requires
            self.wf(),
        ensures
            r as nat == pow2(self.power as nat),
    {
        pow2_u64(self.power)
    }

    /// The root node, or nothing when the spanned region is entirely empty.
    pub fn root_node(&self) -> (r: Option<OctreeNode>)
        requires
            self.wf(),
        ensures
            match r {
                Some(n) => self.root is Some && node_ok(*self, n) && n.spec_corner() == self.corner
                    && n.spec_power() == self.power,
                None => self.root is None && forall|p: IVec| !self.spec_solid(p),
            },
    {
        match self.root {
            Some(r) => {
                let n = &self.nodes[r];
                proof {
                    assert(node_wf(self.nodes@, r as int));
                }
                if n.full {
                    proof {
                        assert forall|p: IVec|
                            in_region(n.corner, n.power, p) implies self.spec_solid(p) by {}
                    }
                    Some(OctreeNode::Full { corner: n.corner, power: n.power })
                } else {
                    proof {
                        assert forall|p: IVec|
                            #[trigger] in_region(n.corner, n.power, p) implies (solid_at(
                            self.nodes@,
                            r as int,
                            p,
                        ) <==> self.spec_solid(p)) by {}
                    }
                    Some(OctreeNode::Interior { idx: r, corner: n.corner, power: n.power })
                }
            },
            None => None,
        }
    }

    /// The child octants of `node` that contain anything solid.  A unit node
    /// has no children.  No solid position of `node`'s region is lost: each
    /// lies in a returned child's region.
    pub fn children(&self, node: OctreeNode) -> (r: Vec<OctreeNode>)
        requires
            self.wf(),
            node_ok(*self, node),
        ensures
            r@.len() <= 8,
            forall|k: int|
                0 <= k < r@.len() ==> {
                    &&& node_ok(*self, #[trigger] r@[k])
                    &&& r@[k].spec_power() + 1 == node.spec_power()
                    &&& octant_corner(node.spec_corner(), node.spec_power(), r@[k].spec_corner())
                },
            node.spec_power() == 0 ==> r@.len() == 0,
            forall|k1: int, k2: int|
                0 <= k1 < k2 < r@.len() ==> (#[trigger] r@[k1]).spec_corner() != (
                #[trigger] r@[k2]).spec_corner(),
            forall|p: IVec|
                in_region(node.spec_corner(), node.spec_power(), p) && self.spec_solid(p)
                    && node.spec_power() >= 1 ==> exists|k: int|
                    0 <= k < r@.len() && in_region(
                        #[trigger] r@[k].spec_corner(),
                        (node.spec_power() - 1) as u32,
                        p,
                    ),
    {
        match node {
            OctreeNode::Full { corner, power } => {
                if power == 0 {
                    Vec::new()
                } else {
                    self.full_octants(corner, power)
                }
            },
            OctreeNode::Interior { idx, corner, power } => {
                proof {
                    assert(node_wf(self.nodes@, idx as int));
                    lemma_pow2_adds((power - 1) as nat, 1);
                    lemma2_to64();
                }
                let n = &self.nodes[idx];
                let mut out: Vec<OctreeNode> = Vec::new();
                let mut k: usize = 0;
                while k < n.children.len()
                    invariant
                        self.wf(),
                        node_ok(*self, node),
                        node == (OctreeNode::Interior { idx, corner, power }),
                        idx < self.nodes.len(),
                        n == &self.nodes[idx as int],
                        !n.full,
                        k <= n.children.len(),
                        out@.len() == k,
                        pow2(power as nat) == 2 * pow2((power - 1) as nat),
                        forall|j: int|
                            0 <= j < k ==> {
                                &&& node_ok(*self, #[trigger] out@[j])
                                &&& out@[j].spec_power() + 1 == power
                                &&& out@[j].spec_corner() == self.nodes@[n.children@[j] as int].corner
                                &&& octant_corner(corner, power, out@[j].spec_corner())
                            },
                    decreases n.children.len() - k,
                {
                    proof {
                        assert(node_wf(self.nodes@, idx as int));
                        assert(0 <= n.children@[k as int] < idx);
                    }
                    let c = n.children[k];
                    let child = &self.nodes[c];
                    proof {
                        lemma_child_node_ok(*self, idx as int, k as int);
                    }
                    if child.full {
                        out.push(OctreeNode::Full { corner: child.corner, power: child.power });
                    } else {
                        out.push(
                            OctreeNode::Interior { idx: c, corner: child.corner, power: child.power },
                        );
                    }
                    k = k + 1;
                }
                proof {
                    assert(node_wf(self.nodes@, idx as int));
                    assert forall|p: IVec|
                        in_region(corner, power, p) && self.spec_solid(p) && power >= 1 implies exists|
                        j: int,
                    |
                        0 <= j < out@.len() && in_region(
                            #[trigger] out@[j].spec_corner(),
                            (power - 1) as u32,
                            p,
                        ) by {
                        assert(solid_at(self.nodes@, idx as int, p));
                        let kk = choose|kk: int|
                            0 <= kk < n.children.len() && 0 <= #[trigger] n.children@[kk] < idx
                                && solid_at(self.nodes@, n.children@[kk] as int, p);
                        lemma_solid_in_region(self.nodes@, n.children@[kk] as int, p);
                        assert(self.nodes@[n.children@[kk] as int].power == power - 1);
                        assert(out@[kk].spec_corner() == self.nodes@[n.children@[kk] as int].corner);
                        assert(in_region(out@[kk].spec_corner(), (power - 1) as u32, p));
                    }
                }
                out
            },
        }
    }

    /// The eight octants of a full node's region, each itself full.
    fn full_octants(&self, corner: IVec, power: u32) -> (r: Vec<OctreeNode>)
        requires
            self.wf(),
            node_ok(*self, OctreeNode::Full { corner, power }),
            1 <= power <= 30,
        ensures
            r@.len() == 8,
            forall|k: int|
                0 <= k < r@.len() ==> {
                    &&& node_ok(*self, #[trigger] r@[k])
                    &&& r@[k].spec_power() + 1 == power
                    &&& octant_corner(corner, power, r@[k].spec_corner())
                },
            forall|k1: int, k2: int|
                0 <= k1 < k2 < r@.len() ==> (#[trigger] r@[k1]).spec_corner() != (
                #[trigger] r@[k2]).spec_corner(),
            forall|p: IVec|
                in_region(corner, power, p) ==> exists|k: int|
                    0 <= k < r@.len() && in_region(
                        #[trigger] r@[k].spec_corner(),
                        (power - 1) as u32,
                        p,
                    ),
    {
        proof {
            lemma_pow2_adds((power - 1) as nat, 1);
            lemma2_to64();
        }
        let half_u64 = pow2_u64(power - 1);
        let half = half_u64 as i32;
        let mut out: Vec<OctreeNode> = Vec::new();
        let hp = power - 1;
        out.push(OctreeNode::Full { corner, power: hp });
        out.push(OctreeNode::Full { corner: IVec { x: corner.x, y: corner.y, z: corner.z + half }, power: hp });
        out.push(OctreeNode::Full { corner: IVec { x: corner.x, y: corner.y + half, z: corner.z }, power: hp });
        out.push(OctreeNode::Full { corner: IVec { x: corner.x, y: corner.y + half, z: corner.z + half }, power: hp });
        out.push(OctreeNode::Full { corner: IVec { x: corner.x + half, y: corner.y, z: corner.z }, power: hp });
        out.push(OctreeNode::Full { corner: IVec { x: corner.x + half, y: corner.y, z: corner.z + half }, power: hp });
        out.push(OctreeNode::Full { corner: IVec { x: corner.x + half, y: corner.y + half, z: corner.z }, power: hp });
        out.push(OctreeNode::Full { corner: IVec { x: corner.x + half, y: corner.y + half, z: corner.z + half }, power: hp });
        proof {
            assert forall|k: int| 0 <= k < out@.len() implies node_ok(*self, #[trigger] out@[k])
                && out@[k].spec_power() + 1 == power && octant_corner(
                corner,
                power,
                out@[k].spec_corner(),
            ) by {
                let cc = out@[k].spec_corner();
                assert(octant_corner(corner, power, cc));
                assert forall|p: IVec| #[trigger] in_region(cc, (power - 1) as u32, p) implies self.spec_solid(
                    p,
                ) by {
                    assert(in_region(corner, power, p));
                }
            }
            assert forall|p: IVec| in_region(corner, power, p) implies exists|k: int|
                0 <= k < out@.len() && in_region(#[trigger] out@[k].spec_corner(), (power - 1) as u32, p) by {
                let h = pow2((power - 1) as nat) as int;
                let kx: int = if p.x < corner.x + h { 0 } else { 1 };
                let ky: int = if p.y < corner.y + h { 0 } else { 1 };
                let kz: int = if p.z < corner.z + h { 0 } else { 1 };
                let k = kx * 4 + ky * 2 + kz;
                assert(in_region(out@[k].spec_corner(), (power - 1) as u32, p));
            }
        }
        out
    }
}

/// A traversal handle on one octree region: either an interior arena node
/// or a uniformly full cube (stored or synthesized from a full parent).
#[derive(Copy, Clone, Eq, PartialEq, Structural, Debug)]
pub enum OctreeNode {
    Interior { idx: usize, corner: IVec, power: u32 },
    Full { corner: IVec, power: u32 },
}

impl OctreeNode {
    /// The region's minimum corner, as a value.
    pub open spec fn spec_corner(self) -> IVec {
        match self {
            OctreeNode::Interior { corner, .. } => corner,
            OctreeNode::Full { corner, .. } => corner,
        }
    }

    /// The region's edge-length exponent, as a value.
    pub open spec fn spec_power(self) -> u32 {
        match self {
            OctreeNode::Interior { power, .. } => power,
            OctreeNode::Full { power, .. } => power,
        }
    }

    /// The region's edge-length exponent.
    pub fn power(self) -> (r: u32)
        ensures
            r == self.spec_power(),
    {
        match self {
            OctreeNode::Interior { power, .. } => power,
            OctreeNode::Full { power, .. } => power,
        }
    }

    /// The bottom corner of the octree node.
    pub fn position(self) -> (r: IVec)
        ensures
            r == self.spec_corner(),
    {
        match self {
            OctreeNode::Interior { corner, .. } => corner,
            OctreeNode::Full { corner, .. } => corner,
        }
    }

    /// The edge length of the node's region: 1 for a unit node, always a
    /// power of 2.
    pub fn size(self) -> (r: u64)
        requires
            self.spec_power() <= 30,
        ensures
            r as nat == pow2(self.spec_power() as nat),
            r >= 1,
    {
        match self {
            OctreeNode::Interior { power, .. } => pow2_u64(power),
            OctreeNode::Full { power, .. } => pow2_u64(power),
        }
    }

    /// Whether the node's entire region is solid.
    pub fn is_full(self) -> (r: bool)
        ensures
            r == (self is Full),
    {
        match self {
            OctreeNode::Interior { .. } => false,
            OctreeNode::Full { .. } => true,
        }
    }

    /// Whether the node is a unit cube.
    pub fn is_unit(self) -> (r: bool)
        requires
            self.spec_power() <= 30,
        ensures
            r == (self.spec_power() == 0),
    {
        match self {
            OctreeNode::Interior { power, .. } => power == 0,
            OctreeNode::Full { power, .. } => power == 0,
        }
    }
}

/// A traversal handle is tied to its octree: an interior handle mirrors its
/// arena node and its subtree decides solidity within its region; a full
/// handle's region is entirely solid.
pub open spec fn node_ok(set: OctreeSet, n: OctreeNode) -> bool {
    match n {
        OctreeNode::Interior { idx, corner, power } => {
            &&& idx < set.nodes.len()
            &&& !set.nodes[idx as int].full
            &&& set.nodes[idx as int].corner == corner
            &&& set.nodes[idx as int].power == power
            &&& forall|p: IVec|
                #[trigger] in_region(corner, power, p) ==> (solid_at(set.nodes@, idx as int, p)
                    <==> set.spec_solid(p))
        },
        OctreeNode::Full { corner, power } => {
            &&& power <= 30
            &&& region_coords_ok(corner, power)
            &&& forall|p: IVec| #[trigger] in_region(corner, power, p) ==> set.spec_solid(p)
        },
    }
}

/// Anything a subtree marks solid lies inside its region.
pub proof fn lemma_solid_in_region(nodes: Seq<ArenaNode>, i: int, p: IVec)
    requires
        forall|j: int| 0 <= j < nodes.len() ==> node_wf(nodes, j),
        solid_at(nodes, i, p),
    ensures
        0 <= i < nodes.len(),
        in_region(nodes[i].corner, nodes[i].power, p),
    decreases i,
{
    let n = nodes[i];
    if !n.full {
        let k = choose|k: int|
            0 <= k < n.children.len() && 0 <= #[trigger] n.children[k] < i && solid_at(
                nodes,
                n.children[k] as int,
                p,
            );
        lemma_solid_in_region(nodes, n.children[k] as int, p);
        assert(node_wf(nodes, i));
        assert(octant_corner(n.corner, n.power, nodes[n.children[k] as int].corner));
        lemma_pow2_adds((n.power - 1) as nat, 1);
        lemma2_to64();
    }
}

/// The octant regions of one cube are pairwise disjoint: a point in two
/// octant regions pins both corners.
pub proof fn lemma_octant_disjoint(c: IVec, power: u32, c1: IVec, c2: IVec, p: IVec)
    requires
        power >= 1,
        octant_corner(c, power, c1),
        octant_corner(c, power, c2),
        in_region(c1, (power - 1) as u32, p),
        in_region(c2, (power - 1) as u32, p),
    ensures
        c1 == c2,
{
}

/// A child handle built from an interior node's child entry is a valid
/// handle: its subtree decides solidity within its own region.
proof fn lemma_child_node_ok(set: OctreeSet, i: int, k: int)
    requires
        set.wf(),
        0 <= i < set.nodes.len(),
        !set.nodes[i].full,
        0 <= k < set.nodes[i].children.len(),
        forall|p: IVec|
            #[trigger] in_region(set.nodes[i].corner, set.nodes[i].power, p) ==> (solid_at(
                set.nodes@,
                i,
                p,
            ) <==> set.spec_solid(p)),
    ensures
        node_wf(set.nodes@, i),
        ({
            let c = set.nodes[i].children[k] as int;
            let child = set.nodes[c];
            &&& 0 <= c < i
            &&& (child.full ==> node_ok(
                set,
                OctreeNode::Full { corner: child.corner, power: child.power },
            ))
            &&& (!child.full ==> node_ok(
                set,
                OctreeNode::Interior { idx: set.nodes[i].children[k], corner: child.corner, power: child.power },
            ))
        }),
{
    let n = set.nodes[i];
    let c = n.children[k] as int;
    let child = set.nodes[c];
    assert(node_wf(set.nodes@, i));
    assert(node_wf(set.nodes@, c));
    lemma_pow2_adds((n.power - 1) as nat, 1);
    lemma2_to64();
    assert forall|p: IVec|
        #[trigger] in_region(child.corner, child.power, p) implies (solid_at(set.nodes@, c, p)
        <==> set.spec_solid(p)) by {
        assert(in_region(n.corner, n.power, p)) by {
            assert(octant_corner(n.corner, n.power, child.corner));
        }
        if solid_at(set.nodes@, c, p) {
            assert(solid_at(set.nodes@, i, p));
        }
        if set.spec_solid(p) {
            assert(solid_at(set.nodes@, i, p));
            let k2 = choose|k2: int|
                0 <= k2 < n.children.len() && 0 <= #[trigger] n.children[k2] < i && solid_at(
                    set.nodes@,
                    n.children[k2] as int,
                    p,
                );
            lemma_solid_in_region(set.nodes@, n.children[k2] as int, p);
            let child2 = set.nodes[n.children[k2] as int];
            lemma_octant_disjoint(n.corner, n.power, child.corner, child2.corner, p);
            if k2 != k {
                assert(set.nodes@[n.children@[if k < k2 {
                    k
                } else {
                    k2
                }] as int].corner != set.nodes@[n.children@[if k < k2 {
                    k2
                } else {
                    k
                }] as int].corner);
            }
            assert(solid_at(set.nodes@, c, p));
        }
    }
    if child.full {
        assert forall|p: IVec|
            #[trigger] in_region(child.corner, child.power, p) implies set.spec_solid(p) by {
            assert(solid_at(set.nodes@, c, p));
        }
    }
}

} // verus!

//! Collision detection: world-placed objects, pairwise overlap results, and
//! the list of colliding voxel pairs.

use vstd::prelude::*;

pub mod cube;
pub mod octree;

verus! {

use crate::geometry::FxVec;
use crate::geometry::Rot;

/// A local-space object placed in the world: position plus rotation, used
/// for the duration of one collision query.
#[derive(Copy, Clone, Eq, PartialEq, Structural, Debug)]
pub struct Positioned<T> {
    pub object: T,
    pub position: FxVec,
    pub rotation: Rot,
}

impl<T> Positioned<T> {
    /// Places `object` in the world at `position` with `rotation`.
    pub fn new(object: T, position: FxVec, rotation: Rot) -> (r: Positioned<T>)
        ensures
            r == (Positioned { object, position, rotation }),
    {
        Positioned { object, position, rotation }
    }
}

/// A collision result: the penetration estimate and whether the pair
/// collided at all.
#[derive(Copy, Clone, Eq, PartialEq, Structural, Debug)]
pub struct CollisionResult {
    /// The penetration of the collision.
    pub penetration: FxVec,
    pub collided: bool,
}

impl CollisionResult {
    /// Builds a collision result.
    pub fn new(penetration: FxVec, collided: bool) -> (r: CollisionResult)
        ensures
            r == (CollisionResult { penetration, collided }),
    {
        CollisionResult { penetration, collided }
    }
}

/// The output of one pairwise octree collision test: one entry per pair of
/// colliding unit cubes, with the local positions in either tree and the
/// penetration.
pub type VoxelCollisionList<P> = Vec<(P, P, FxVec)>;

} // verus!

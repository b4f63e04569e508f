use counterproduction_core::collision::cube::collide_cube;
use counterproduction_core::collision::cube::collide_cube_sloppy;
use counterproduction_core::collision::cube::Cube;
use counterproduction_core::collision::octree::OctreeCollisionResolver;
use counterproduction_core::collision::Positioned;
use counterproduction_core::geometry::Fx;
use counterproduction_core::geometry::FxVec;
use counterproduction_core::geometry::IVec;
use counterproduction_core::geometry::Rot;
use counterproduction_core::octree::OctreeSet;
use counterproduction_core::storage::chunk_map::ChunkStorage;
use counterproduction_core::voxel::Voxel;

fn fx(v: f64) -> Fx {
    Fx::from_raw((v * 4294967296.0) as i64)
}

fn fxv(x: f64, y: f64, z: f64) -> FxVec {
    FxVec::new(fx(x), fx(y), fx(z))
}

#[test]
fn test_collide_cube() {
    let object = Cube::new(fx(1.0));
    let cube1 = Positioned::new(object, FxVec::zero(), Rot::identity());
    let cube2 = Positioned::new(object, fxv(3.5, 0.0, 0.0), Rot::identity());
    assert_eq!(collide_cube(cube1, cube2).collided, false);
    let cube3 = Positioned::new(object, fxv(2.1, 2.1, 2.1), Rot::identity());
    assert_eq!(collide_cube(cube1, cube3).collided, false);
    let cube4 = Positioned::new(object, fxv(1.0, 1.0, 1.0), Rot::identity());
    assert_eq!(collide_cube(cube1, cube4).collided, true);
    let cube5 = Positioned::new(Cube::new(fx(0.5)), fxv(1.6, 1.6, 1.6), Rot::identity());
    assert_eq!(collide_cube(cube1, cube5).collided, false);
}

// A unit cube at the origin against one at distance 3.5 along an axis: the
// distance exceeds the sqrt(3) * 2 threshold, so no overlap is reported.
#[test]
fn sloppy_cube_axis_separation() {
    let object = Cube::new(fx(1.0));
    let a = Positioned::new(object, FxVec::zero(), Rot::identity());
    let b = Positioned::new(object, fxv(3.5, 0.0, 0.0), Rot::identity());
    let r = collide_cube_sloppy(a, b);
    assert_eq!(r.collided, false);
}

// The same cubes with the second at (1, 1, 1): distance about 1.732 is well
// below the threshold of about 3.464, so the overlap is reported.
#[test]
fn sloppy_cube_diagonal_overlap() {
    let object = Cube::new(fx(1.0));
    let a = Positioned::new(object, FxVec::zero(), Rot::identity());
    let b = Positioned::new(object, fxv(1.0, 1.0, 1.0), Rot::identity());
    let r = collide_cube_sloppy(a, b);
    assert_eq!(r.collided, true);
}

// Overlap is symmetric in its arguments.
#[test]
fn sloppy_cube_symmetry_samples() {
    let a = Positioned::new(Cube::new(fx(1.0)), fxv(0.25, -0.5, 2.0), Rot::identity());
    let b = Positioned::new(Cube::new(fx(2.5)), fxv(-1.0, 4.0, 0.0), Rot::identity());
    assert_eq!(collide_cube_sloppy(a, b).collided, collide_cube_sloppy(b, a).collided);
    assert_eq!(collide_cube(a, b).collided, collide_cube(b, a).collided);
    // Swapping the cubes negates the penetration vector exactly.
    let pab = collide_cube_sloppy(a, b).penetration;
    let pba = collide_cube_sloppy(b, a).penetration;
    assert_eq!((pab.x.0, pab.y.0, pab.z.0), (-pba.x.0, -pba.y.0, -pba.z.0));
}

// Growing a cube never turns an overlap into a miss.
#[test]
fn sloppy_cube_monotonicity_samples() {
    let b = Positioned::new(Cube::new(fx(1.0)), fxv(2.0, 1.0, 0.0), Rot::identity());
    let mut last = false;
    for k in 1..8 {
        let a = Positioned::new(Cube::new(fx(k as f64 * 0.25)), FxVec::zero(), Rot::identity());
        let now = collide_cube_sloppy(a, b).collided;
        assert!(!last || now);
        last = now;
    }
}

fn solid_cube_storage(center: IVec, half: i32) -> ChunkStorage<Voxel> {
    let mut storage = ChunkStorage::new(Voxel::Vaccum, 16);
    for a in -half..=half {
        for b in -half..=half {
            for c in -half..=half {
                storage.set(
                    IVec::new(center.x + a, center.y + b, center.z + c),
                    Voxel::Solid,
                );
            }
        }
    }
    storage
}

// Two octrees of edge length 16 whose bounding cubes are separated by far
// more than sqrt(3) * 16: the resolver returns an empty list from the root
// test alone.
#[test]
fn octree_separated_bodies_no_collision() {
    let s1 = solid_cube_storage(IVec::new(5, 5, 5), 3);
    let s2 = solid_cube_storage(IVec::new(5, 5, 5), 3);
    let t1 = OctreeSet::from_chunk_storage(&s1);
    let t2 = OctreeSet::from_chunk_storage(&s2);
    assert_eq!(t1.edge_len(), 16);
    assert_eq!(t2.edge_len(), 16);
    let a = Positioned::new(&t1, FxVec::zero(), Rot::identity());
    let b = Positioned::new(&t2, fxv(100.0, 0.0, 0.0), Rot::identity());
    let collisions = OctreeCollisionResolver::collide(a, b);
    assert_eq!(collisions.len(), 0);
}

// Two coincident solid bodies collide, and every reported pair names solid
// voxels of both bodies.
#[test]
fn octree_coincident_bodies_collide() {
    let s1 = solid_cube_storage(IVec::new(1, 1, 1), 1);
    let s2 = solid_cube_storage(IVec::new(1, 1, 1), 1);
    let t1 = OctreeSet::from_chunk_storage(&s1);
    let t2 = OctreeSet::from_chunk_storage(&s2);
    let a = Positioned::new(&t1, FxVec::zero(), Rot::identity());
    let b = Positioned::new(&t2, FxVec::zero(), Rot::identity());
    let collisions = OctreeCollisionResolver::collide(a, b);
    assert!(collisions.len() > 0);
    for (pa, pb, _pen) in collisions {
        assert_eq!(s1.get(pa), Voxel::Solid);
        assert_eq!(s2.get(pb), Voxel::Solid);
    }
}

// An octree built from an untouched storage has no root and never collides.
#[test]
fn octree_empty_body() {
    let s1: ChunkStorage<Voxel> = ChunkStorage::new(Voxel::Vaccum, 16);
    let t1 = OctreeSet::from_chunk_storage(&s1);
    assert!(t1.root_node().is_none());
    let a = Positioned::new(&t1, FxVec::zero(), Rot::identity());
    let a2 = Positioned::new(&t1, FxVec::zero(), Rot::identity());
    let collisions = OctreeCollisionResolver::collide(a, a2);
    assert_eq!(collisions.len(), 0);
}

fn isqrt_u128(x: u128) -> u128 {
    let mut r: u128 = 0;
    let mut bit: u128 = 1 << 63;
    while bit > 0 {
        let cand = r + bit;
        if cand * cand <= x {
            r = cand;
        }
        bit >>= 1;
    }
    r
}

fn trunc_div(n: i128, d: i128) -> i128 {
    n / d
}

// One exact expected value for the shrunk overlap formula, recomputed
// independently in plain integer arithmetic.
#[test]
fn cube_penetration_exact_value() {
    let scale: i128 = 1 << 32;
    let object = Cube::new(fx(1.0));
    let a = Positioned::new(object, FxVec::zero(), Rot::identity());
    let b = Positioned::new(object, fxv(1.0, 1.0, 1.0), Rot::identity());
    let r = collide_cube(a, b);

    let shrunk: i128 = (scale * 9) / 10;
    let sum = 2 * shrunk;
    let max_dist = isqrt_u128((3 * sum * sum) as u128) as i128;
    let delta: i128 = -scale;
    let dist = isqrt_u128((3 * delta * delta) as u128) as i128;
    assert!(dist < max_dist);
    assert!(r.collided);
    let norm = trunc_div(delta * scale, dist);
    let pen = trunc_div(norm * (max_dist - dist), scale);
    assert_eq!(r.penetration.x.0 as i128, pen);
    assert_eq!(r.penetration.y.0 as i128, pen);
    assert_eq!(r.penetration.z.0 as i128, pen);
}

// The batched pairwise sweep keys entries by (smaller, larger) entity
// index and stores no entry for non-colliding pairs.
#[test]
fn octree_batch_collide() {
    let s = solid_cube_storage(IVec::new(1, 1, 1), 1);
    let t = OctreeSet::from_chunk_storage(&s);
    let e0 = Positioned::new(&t, FxVec::zero(), Rot::identity());
    let e1 = Positioned::new(&t, fxv(0.5, 0.0, 0.0), Rot::identity());
    let e2 = Positioned::new(&t, fxv(200.0, 0.0, 0.0), Rot::identity());
    let entities = vec![e0, e1, e2];
    let batch = OctreeCollisionResolver::collide_batch(&entities);
    assert_eq!(batch.len(), 1);
    assert_eq!(batch[0].0, (0, 1));
    assert!(batch[0].1.len() > 0);
}

// Two single-voxel bodies (trees of edge 1) whose unit cubes fully
// overlap: the resolver reports exactly that pair.
#[test]
fn octree_unit_bodies_exact_pair() {
    let mut s1: ChunkStorage<Voxel> = ChunkStorage::new(Voxel::Vaccum, 1);
    let mut s2: ChunkStorage<Voxel> = ChunkStorage::new(Voxel::Vaccum, 1);
    s1.set(IVec::new(2, 0, 0), Voxel::Solid);
    s2.set(IVec::new(-3, 0, 0), Voxel::Solid);
    let t1 = OctreeSet::from_chunk_storage(&s1);
    let t2 = OctreeSet::from_chunk_storage(&s2);
    assert_eq!(t1.edge_len(), 1);
    assert_eq!(t2.edge_len(), 1);
    // Place the two unit voxels at the same world location.
    let a = Positioned::new(&t1, FxVec::zero(), Rot::identity());
    let b = Positioned::new(&t2, fxv(5.0, 0.0, 0.0), Rot::identity());
    let collisions = OctreeCollisionResolver::collide(a, b);
    assert_eq!(collisions.len(), 1);
    assert_eq!(collisions[0].0, IVec::new(2, 0, 0));
    assert_eq!(collisions[0].1, IVec::new(-3, 0, 0));
}

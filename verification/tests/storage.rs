use counterproduction_core::geometry::IVec;
use counterproduction_core::storage::chunk_map::ChunkStorage;
use counterproduction_core::voxel::Voxel;

fn test_storage(storage: &mut ChunkStorage<i32>, value: i32, pos: IVec) {
    let ambient = storage.ambient();
    assert_eq!(storage.get(pos), ambient);
    storage.set(pos, value);
    assert_eq!(storage.get(pos), value);
    storage.set(pos, ambient);
    assert_eq!(storage.get(pos), ambient);
}

#[test]
fn test_chunk_storage() {
    let mut storage = ChunkStorage::new(0, 16);
    test_storage(&mut storage, 1, IVec::new(0, 0, 0));
    test_storage(&mut storage, 1, IVec::new(0, 20, 0));
    test_storage(&mut storage, 1, IVec::new(18, 93, -3));
}

// Writing the ambient value still materializes the chunk: afterwards the
// position is contained even though it reads the ambient value.
#[test]
fn writing_ambient_materializes_chunk() {
    let mut storage: ChunkStorage<Voxel> = ChunkStorage::new(Voxel::Vaccum, 8);
    let p = IVec::new(3, -5, 7);
    assert!(!storage.contains(p));
    storage.set(p, Voxel::Vaccum);
    assert!(storage.contains(p));
    assert_eq!(storage.get(p), Voxel::Vaccum);
}

// Positions in the same chunk share one chunk identifier; positions in
// different chunks get fresh ones from the storage's own counter.
#[test]
fn chunk_indices_are_per_chunk() {
    let mut storage: ChunkStorage<i32> = ChunkStorage::new(0, 16);
    assert_eq!(storage.index_of(IVec::new(1, 1, 1)), None);
    storage.set(IVec::new(1, 1, 1), 7);
    storage.set(IVec::new(2, 2, 2), 8);
    storage.set(IVec::new(40, 0, 0), 9);
    let (ia, offa) = storage.index_of(IVec::new(1, 1, 1)).unwrap();
    let (ib, _offb) = storage.index_of(IVec::new(2, 2, 2)).unwrap();
    let (ic, offc) = storage.index_of(IVec::new(40, 0, 0)).unwrap();
    assert_eq!(ia, ib);
    assert_ne!(ia, ic);
    assert_eq!(offa, IVec::new(1, 1, 1));
    assert_eq!(offc, IVec::new(8, 0, 0));
}

// Negative coordinates land in the chunk of their floored key and read
// back exactly.
#[test]
fn negative_coordinates() {
    let mut storage: ChunkStorage<i32> = ChunkStorage::new(0, 16);
    storage.set(IVec::new(-1, -17, -33), 42);
    assert_eq!(storage.get(IVec::new(-1, -17, -33)), 42);
    assert_eq!(storage.get(IVec::new(-1, -17, -32)), 0);
    let (_idx, off) = storage.index_of(IVec::new(-1, -17, -33)).unwrap();
    assert_eq!(off, IVec::new(15, 15, 15));
}

// Traversal returns every position of every materialized chunk exactly
// once, with the stored values.
#[test]
fn for_each_visits_all_chunk_positions() {
    let mut storage: ChunkStorage<i32> = ChunkStorage::new(0, 4);
    storage.set(IVec::new(1, 2, 3), 7);
    storage.set(IVec::new(0, 0, 0), 9);
    storage.set(IVec::new(-1, 0, 0), 5);
    let all = storage.for_each();
    // Two chunks materialized, 64 positions each.
    assert_eq!(all.len(), 128);
    let mut seen_7 = 0;
    let mut seen_9 = 0;
    let mut seen_5 = 0;
    let mut nonzero = 0;
    for (p, v) in &all {
        assert_eq!(storage.get(*p), *v);
        if *v == 7 {
            assert_eq!(*p, IVec::new(1, 2, 3));
            seen_7 += 1;
        }
        if *v == 9 {
            seen_9 += 1;
        }
        if *v == 5 {
            seen_5 += 1;
        }
        if *v != 0 {
            nonzero += 1;
        }
    }
    assert_eq!((seen_7, seen_9, seen_5, nonzero), (1, 1, 1, 3));
}

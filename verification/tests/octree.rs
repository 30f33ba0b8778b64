use voxeltree::encoding::{decode, Slot};
use voxeltree::octree::{VoxelAddress, VoxelBuffer};

/// All slot words of the array, for comparing whole states.
fn snapshot(t: &VoxelBuffer) -> Vec<(u32, usize)> {
    let mut words = Vec::new();
    for i in 0..t.capacity() {
        for s in 0..8 {
            words.push((t.slot_word(i, s), i * 8 + s));
        }
    }
    words
}

#[test]
fn new_buffer_is_empty() {
    let t = VoxelBuffer::new(16);
    assert_eq!(t.capacity(), 16);
    assert_eq!(t.root(), 0);
    assert_eq!(t.bump_top(), 1);
    assert!(!t.uploaded());
    for i in 0..16 {
        for s in 0..8 {
            assert_eq!(t.slot_word(i, s), 0);
        }
    }
}

#[test]
fn scenario_single_voxel_at_root() {
    // depth 1 terminates at the root: octant 0 becomes a leaf, nothing is
    // allocated
    let mut t = VoxelBuffer::new(8);
    let r = t.add_voxel(VoxelAddress::new(0, 0, 0), 1);
    assert!(r.is_ok());
    assert_eq!(t.bump_top(), 1);
    assert_eq!(decode(t.slot_word(0, 0)), Slot::Leaf);
    for s in 1..8 {
        assert_eq!(t.slot_word(0, s), 0);
    }
}

#[test]
fn scenario_one_intermediate_node() {
    // top bits (1,1,1) and depth 2: exactly one allocation, the root's
    // octant 7 points at it, and its octant 7 is a leaf
    let mut t = VoxelBuffer::new(8);
    let r = t.add_voxel(
        VoxelAddress::new(0xC000_0000, 0xC000_0000, 0xC000_0000),
        2,
    );
    assert!(r.is_ok());
    assert_eq!(t.bump_top(), 2);
    // the pointer word to node 1: the index above the two tag bits, tag 0b01
    assert_eq!(t.slot_word(0, 7), (1 << 2) | 0b01);
    assert_eq!(decode(t.slot_word(0, 7)), Slot::Pointer(1));
    assert_eq!(decode(t.slot_word(1, 7)), Slot::Leaf);
    for s in 0..7 {
        assert_eq!(t.slot_word(0, s), 0);
        assert_eq!(t.slot_word(1, s), 0);
    }
}

#[test]
fn solid_at_sees_inserted_voxel() {
    let mut t = VoxelBuffer::new(16);
    // a cube spanning the top two bits (1,0), (0,1), (1,1) per axis
    assert!(t
        .add_voxel(VoxelAddress::new(0x8000_0000, 0x4000_0000, 0xC000_0000), 2)
        .is_ok());
    // anywhere inside the cube is solid, whatever the finer bits say
    assert!(t.solid_at(VoxelAddress::new(0x8000_0000, 0x4000_0000, 0xC000_0000)));
    assert!(t.solid_at(VoxelAddress::new(0xBFFF_FFFF, 0x7FFF_FFFF, 0xFFFF_FFFF)));
    // just outside on any one axis is not
    assert!(!t.solid_at(VoxelAddress::new(0x7FFF_FFFF, 0x4000_0000, 0xC000_0000)));
    assert!(!t.solid_at(VoxelAddress::new(0x8000_0000, 0x8000_0000, 0xC000_0000)));
    assert!(!t.solid_at(VoxelAddress::new(0, 0, 0)));
}

#[test]
fn solid_at_sees_coarse_leaf_over_fine_query() {
    let mut t = VoxelBuffer::new(16);
    assert!(t.add_voxel(VoxelAddress::new(0, 0, 0), 1).is_ok());
    // the whole first-level octant 0 is solid at every finer position
    assert!(t.solid_at(VoxelAddress::new(0, 0, 0)));
    assert!(t.solid_at(VoxelAddress::new(0x7FFF_FFFF, 0x0123_4567, 0x3333_3333)));
    assert!(!t.solid_at(VoxelAddress::new(0x8000_0000, 0, 0)));
}

#[test]
fn scenario_shared_intermediate_node() {
    // two voxels in the same first-level octant, diverging at the second
    // level: one shared allocation, two leaves in it
    let mut t = VoxelBuffer::new(8);
    assert!(t.add_voxel(VoxelAddress::new(0, 0, 0), 2).is_ok());
    assert!(t
        .add_voxel(VoxelAddress::new(0x4000_0000, 0, 0), 2)
        .is_ok());
    assert_eq!(t.bump_top(), 2);
    assert_eq!(decode(t.slot_word(0, 0)), Slot::Pointer(1));
    assert_eq!(decode(t.slot_word(1, 0)), Slot::Leaf);
    assert_eq!(decode(t.slot_word(1, 1)), Slot::Leaf);
    let leaves = (0..8)
        .filter(|&s| decode(t.slot_word(1, s)) == Slot::Leaf)
        .count();
    assert_eq!(leaves, 2);
}

#[test]
fn insert_twice_is_idempotent() {
    let mut t = VoxelBuffer::new(32);
    let pos = VoxelAddress::new(0xA000_0000, 0x3000_0000, 0xF000_0000);
    assert!(t.add_voxel(pos, 4).is_ok());
    let bump_after_first = t.bump_top();
    let words_after_first = snapshot(&t);
    assert!(t.add_voxel(pos, 4).is_ok());
    assert_eq!(t.bump_top(), bump_after_first);
    assert_eq!(snapshot(&t), words_after_first);
}

#[test]
fn subsumed_insert_allocates_nothing() {
    let mut t = VoxelBuffer::new(32);
    // a coarse solid octant...
    assert!(t.add_voxel(VoxelAddress::new(0, 0, 0), 1).is_ok());
    let before = snapshot(&t);
    assert_eq!(t.bump_top(), 1);
    // ...subsumes any finer voxel inside it
    let r = t.add_voxel(VoxelAddress::new(0x1234_5678, 0x0BCD_EF01, 0x2222_2222), 5);
    assert!(r.is_ok());
    assert_eq!(t.bump_top(), 1);
    assert_eq!(snapshot(&t), before);
}

#[test]
fn capacity_exhaustion_fails_loudly() {
    // one free node, but the descent needs two: the insertion reports
    // failure instead of writing out of bounds
    let mut t = VoxelBuffer::new(2);
    let r = t.add_voxel(VoxelAddress::new(0, 0, 0), 3);
    assert!(r.is_err());
    assert_eq!(t.bump_top(), t.capacity());
    // the partial descent left no solid geometry behind
    for i in 0..t.capacity() {
        for s in 0..8 {
            assert_ne!(decode(t.slot_word(i, s)), Slot::Leaf);
        }
    }
}

#[test]
fn capacity_boundary_exact_fit_succeeds() {
    let mut t = VoxelBuffer::new(3);
    // needs exactly the two free nodes
    assert!(t.add_voxel(VoxelAddress::new(0, 0, 0), 3).is_ok());
    assert_eq!(t.bump_top(), 3);
    // any further insertion elsewhere is out of nodes
    let r = t.add_voxel(VoxelAddress::new(0xFFFF_FFFF, 0xFFFF_FFFF, 0xFFFF_FFFF), 2);
    assert!(r.is_err());
}

#[test]
fn smallest_buffer_holds_only_root_leaves() {
    let mut t = VoxelBuffer::new(1);
    assert_eq!(t.bump_top(), 1);
    // a depth-1 voxel needs no allocation and fits
    assert!(t.add_voxel(VoxelAddress::new(0, 0, 0), 1).is_ok());
    assert_eq!(decode(t.slot_word(0, 0)), Slot::Leaf);
    // anything deeper needs a node that does not exist
    assert!(t
        .add_voxel(VoxelAddress::new(0x8000_0000, 0, 0), 2)
        .is_err());
    assert_eq!(t.bump_top(), 1);
}

#[test]
fn many_distinct_voxels_exceed_capacity() {
    let mut t = VoxelBuffer::new(5);
    let mut failed = false;
    for i in 0..16u32 {
        // 16 distinct second-level voxels spread over distinct first-level
        // octants cannot fit in four allocatable nodes
        let x = if i & 1 != 0 { 0x8000_0000 } else { 0 } | if i & 8 != 0 { 0x4000_0000 } else { 0 };
        let y = if i & 2 != 0 { 0x8000_0000 } else { 0 };
        let z = if i & 4 != 0 { 0x8000_0000 } else { 0 };
        if t.add_voxel(VoxelAddress::new(x, y, z), 2).is_err() {
            failed = true;
        }
    }
    assert!(failed);
    assert_eq!(t.bump_top(), t.capacity());
}

#[test]
fn deep_insert_uses_one_node_per_level() {
    let mut t = VoxelBuffer::new(64);
    assert!(t.add_voxel(VoxelAddress::new(1, 2, 3), 32).is_ok());
    // depth 32 descends 31 levels below the root
    assert_eq!(t.bump_top(), 32);
}

#[test]
fn leaf_overwrite_orphans_subtree() {
    // inserting a coarser leaf over a populated octant overwrites the
    // pointer; the subtree stays allocated but unreachable
    let mut t = VoxelBuffer::new(8);
    assert!(t.add_voxel(VoxelAddress::new(0, 0, 0), 2).is_ok());
    assert_eq!(decode(t.slot_word(0, 0)), Slot::Pointer(1));
    assert!(t.add_voxel(VoxelAddress::new(0, 0, 0), 1).is_ok());
    assert_eq!(decode(t.slot_word(0, 0)), Slot::Leaf);
    assert_eq!(t.bump_top(), 2);
}

#[test]
fn flat_words_layout_matches_slots() {
    let mut t = VoxelBuffer::new(4);
    assert!(t
        .add_voxel(VoxelAddress::new(0xC000_0000, 0, 0x8000_0000), 2)
        .is_ok());
    let words = t.flat_words();
    assert_eq!(words.len(), 8 * t.capacity());
    for i in 0..t.capacity() {
        for s in 0..8 {
            assert_eq!(words[8 * i + s], t.slot_word(i, s));
        }
    }
    // the buffer is not all zero: the insertion is visible in the words
    assert!(words.iter().any(|&w| w != 0));
}

#[test]
fn publish_happens_once() {
    let mut t = VoxelBuffer::new(4);
    assert!(t.add_voxel(VoxelAddress::new(0, 0, 0), 1).is_ok());
    let mut gpu_writes = 0;
    let mut published = None;
    for _ in 0..3 {
        if let Some(words) = t.update_buffer() {
            gpu_writes += 1;
            published = Some(words);
        }
    }
    assert_eq!(gpu_writes, 1);
    assert!(t.uploaded());
    let words = published.expect("first sync must publish");
    assert_eq!(words.len(), 8 * t.capacity());
    assert_eq!(decode(words[0]), Slot::Leaf);
}

#[test]
fn mutation_after_publish_stays_unpublished() {
    let mut t = VoxelBuffer::new(8);
    assert!(t.update_buffer().is_some());
    assert!(t.add_voxel(VoxelAddress::new(0, 0, 0), 1).is_ok());
    // the one-shot policy: no further upload without an explicit new scheme
    assert!(t.update_buffer().is_none());
    assert!(t.uploaded());
}

#[test]
fn voxel_address_fields() {
    let a = VoxelAddress::new(1, 2, 3);
    assert_eq!(a.x, 1);
    assert_eq!(a.y, 2);
    assert_eq!(a.z, 3);
    assert_eq!(a, VoxelAddress { x: 1, y: 2, z: 3 });
}

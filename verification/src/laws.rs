//! Laws of voxel insertion, stated and proved over the same model the
//! executable contracts use.
use vstd::prelude::*;

use crate::encoding::{lemma_pointer_round_trip, spec_decode, spec_encode_pointer, spec_leaf_word,
    spec_octant_of, Slot};
use crate::model::{lemma_alloc_step_wf, lemma_insert_props, spec_alloc_step, spec_allocs_needed,
    spec_in_voxel, spec_insert_from, spec_solid_from, spec_subsumed, TreeView};

verus! {

/// Insertion is idempotent: once inserting a voxel succeeded, inserting the
/// same `(address, depth)` again succeeds, changes no node and allocates
/// nothing, so the tree after the second insertion — in particular the set
/// of solid positions reachable from the root — is exactly the tree after
/// the first.
pub proof fn lemma_insert_idempotent(t: TreeView, idx: int, x: u32, y: u32, z: u32, depth: nat)
    requires
        t.wf(),
        0 <= idx < t.bump,
        1 <= depth,
    ensures
        ({
            let (ok, t1) = spec_insert_from(t, idx, x, y, z, depth);
            ok ==> {
                &&& spec_insert_from(t1, idx, x, y, z, depth) == (true, t1)
                &&& forall|j: int, px: u32, py: u32, pz: u32, l: nat|
                    #[trigger] spec_solid_from(
                        spec_insert_from(t1, idx, x, y, z, depth).1,
                        j,
                        px,
                        py,
                        pz,
                        l,
                    ) == spec_solid_from(t1, j, px, py, pz, l)
            }
        }),
    decreases depth,
{
    let oct = spec_octant_of(x, y, z);
    let w = t.nodes[idx][oct];
    let (ok, t1) = spec_insert_from(t, idx, x, y, z, depth);
    if depth <= 1 {
        assert(t1.nodes[idx].update(oct, spec_leaf_word()) =~= t1.nodes[idx]);
        assert(t1.with_slot(idx, oct, spec_leaf_word()) =~= t1);
    } else {
        match spec_decode(w) {
            Slot::Leaf => {},
            Slot::Empty => {
                if t.bump < t.capacity() {
                    let t_mid = spec_alloc_step(t, idx, x, y, z);
                    let child = t.bump;
                    lemma_alloc_step_wf(t, idx, x, y, z);
                    lemma_insert_props(t_mid, child, x << 1, y << 1, z << 1, (depth - 1) as nat);
                    lemma_insert_idempotent(t_mid, child, x << 1, y << 1, z << 1, (
                    depth - 1) as nat);
                    if ok {
                        lemma_pointer_round_trip(child as u32);
                        assert(t1.nodes[idx] == t_mid.nodes[idx]);
                        assert(t1.nodes[idx][oct] == spec_encode_pointer(child as u32));
                    }
                }
            },
            Slot::Pointer(c) => {
                assert(3u32 & 3 == 3) by (bit_vector);
                assert(t.valid_word(idx, w));
                lemma_insert_props(t, c as int, x << 1, y << 1, z << 1, (depth - 1) as nat);
                lemma_insert_idempotent(t, c as int, x << 1, y << 1, z << 1, (depth - 1) as nat);
                if ok {
                    assert(t1.nodes[idx] == t.nodes[idx]);
                }
            },
        }
    }
}

/// What was inserted is there: after a successful insertion, every position
/// inside the inserted voxel's cube — every position agreeing with the
/// address on the top `depth` bits per axis — reads back solid from the
/// insertion's entry node. The level bound keeps the whole descent within
/// the 32 levels the fixed-point coordinates can address.
pub proof fn lemma_inserted_voxel_solid(
    t: TreeView,
    idx: int,
    x: u32,
    y: u32,
    z: u32,
    depth: nat,
    px: u32,
    py: u32,
    pz: u32,
    level: nat,
)
    requires
        t.wf(),
        0 <= idx < t.bump,
        1 <= depth,
        level + depth <= 32,
        spec_insert_from(t, idx, x, y, z, depth).0,
        spec_in_voxel(px, py, pz, x, y, z, depth),
    ensures
        spec_solid_from(spec_insert_from(t, idx, x, y, z, depth).1, idx, px, py, pz, level),
    decreases depth,
{
    let oct = spec_octant_of(x, y, z);
    let w = t.nodes[idx][oct];
    let t2 = spec_insert_from(t, idx, x, y, z, depth).1;
    if depth <= 1 {
        assert(3u32 & 3 == 3) by (bit_vector);
        assert(t2.nodes[idx][oct] == spec_leaf_word());
    } else {
        match spec_decode(w) {
            Slot::Leaf => {},
            Slot::Empty => {
                let t_mid = spec_alloc_step(t, idx, x, y, z);
                let child = t.bump;
                lemma_alloc_step_wf(t, idx, x, y, z);
                lemma_insert_props(t_mid, child, x << 1, y << 1, z << 1, (depth - 1) as nat);
                lemma_inserted_voxel_solid(
                    t_mid,
                    child,
                    x << 1,
                    y << 1,
                    z << 1,
                    (depth - 1) as nat,
                    px << 1,
                    py << 1,
                    pz << 1,
                    level + 1,
                );
                lemma_pointer_round_trip(child as u32);
                assert(t2.nodes[idx] == t_mid.nodes[idx]);
            },
            Slot::Pointer(c) => {
                assert(3u32 & 3 == 3) by (bit_vector);
                assert(t.valid_word(idx, w));
                lemma_insert_props(t, c as int, x << 1, y << 1, z << 1, (depth - 1) as nat);
                lemma_inserted_voxel_solid(
                    t,
                    c as int,
                    x << 1,
                    y << 1,
                    z << 1,
                    (depth - 1) as nat,
                    px << 1,
                    py << 1,
                    pz << 1,
                    level + 1,
                );
                assert(t2.nodes[idx] == t.nodes[idx]);
            },
        }
    }
}

/// Subsumption short-circuits: inserting a voxel whose address falls within
/// an already-solid coarser octant succeeds as a strict no-op — it needs no
/// fresh node, the high-water mark stays put, and the tree is exactly as it
/// was.
pub proof fn lemma_insert_subsumed_noop(t: TreeView, idx: int, x: u32, y: u32, z: u32, depth: nat)
    requires
        t.wf(),
        0 <= idx < t.bump,
        1 <= depth,
        spec_subsumed(t, idx, x, y, z, depth),
    ensures
        spec_insert_from(t, idx, x, y, z, depth) == (true, t),
        spec_allocs_needed(t, idx, x, y, z, depth) == 0,
    decreases depth,
{
    let oct = spec_octant_of(x, y, z);
    let w = t.nodes[idx][oct];
    if depth <= 1 {
    } else {
        match spec_decode(w) {
            Slot::Leaf => {},
            Slot::Empty => {},
            Slot::Pointer(c) => {
                assert(3u32 & 3 == 3) by (bit_vector);
                assert(t.valid_word(idx, w));
                lemma_insert_subsumed_noop(t, c as int, x << 1, y << 1, z << 1, (depth - 1) as nat);
            },
        }
    }
}

} // verus!

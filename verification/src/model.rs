//! The mathematical model of the octree buffer: an abstract state, its
//! well-formedness, and a functional description of voxel insertion that the
//! executable code is proved to follow exactly.
use vstd::prelude::*;

use crate::encoding::{lemma_pointer_round_trip, spec_decode, spec_encode_pointer, spec_leaf_word,
    spec_octant_of, Slot, MAX_CAPACITY};

verus! {

/// Abstract state of the octree buffer: the slot words of every node of the
/// preallocated array, the root index, the bump allocator's high-water mark
/// (the next free index), and whether the array has been published already.
#[verifier::ext_equal]
pub ghost struct TreeView {
    pub nodes: Seq<Seq<u32>>,
    pub root: int,
    pub bump: int,
    pub uploaded: bool,
}

impl TreeView {
    /// Number of nodes the backing array was preallocated for. The array
    /// never grows or shrinks: indices handed out earlier, and the GPU
    /// buffer sized from it, stay valid.
    pub open spec fn capacity(self) -> int {
        self.nodes.len() as int
    }

    /// A slot word an allocated node may hold: empty, the canonical leaf
    /// word, or a pointer to an allocated node beyond its own index.
    /// Pointers reach only forward, so no descent ever revisits a node.
    pub open spec fn valid_word(self, i: int, w: u32) -> bool {
        w == 0 || w == spec_leaf_word() || (w & 3 == 1 && i < (w >> 2) < self.bump)
    }

    /// Well-formedness of the whole structure:
    /// - the root is an allocated node and the high-water mark is within the
    ///   preallocated capacity, which itself fits the pointer encoding;
    /// - every node record has exactly eight slots;
    /// - every slot of an allocated node holds a valid word;
    /// - every node at or above the high-water mark is still all-empty, so a
    ///   freshly allocated node starts with no geometry.
    pub open spec fn wf(self) -> bool {
        &&& 0 <= self.root < self.bump <= self.capacity() <= MAX_CAPACITY
        &&& forall|i: int| 0 <= i < self.capacity() ==> (#[trigger] self.nodes[i]).len() == 8
        &&& forall|i: int, s: int|
            0 <= i < self.bump && 0 <= s < 8 ==> self.valid_word(i, #[trigger] self.nodes[i][s])
        &&& forall|i: int, s: int|
            self.bump <= i < self.capacity() && 0 <= s < 8 ==> #[trigger] self.nodes[i][s] == 0
    }

    /// The state with the slot `oct` of node `idx` replaced by `w`.
    pub open spec fn with_slot(self, idx: int, oct: int, w: u32) -> TreeView {
        TreeView { nodes: self.nodes.update(idx, self.nodes[idx].update(oct, w)), ..self }
    }
}

/// What one voxel insertion does, descending from node `idx` with `depth`
/// levels left. The coordinates are already shifted so that their top bits
/// pick the octant at the current level.
///
/// - With one level left, the octant's slot is overwritten with the leaf
///   word whatever it held. If it held a pointer, that subtree becomes
///   unreachable garbage in the array: it is neither freed (there is no
///   free list) nor merged. This mirrors the insertion step deliberately;
///   see the note on `VoxelBuffer::add_voxel`.
/// - A leaf met on the way down already covers the whole voxel, so the
///   insertion is a no-op.
/// - An empty slot allocates the next free node — all-empty by
///   well-formedness — points the slot at it, and descends; if the array is
///   exhausted the insertion fails with the state as bumped so far (only
///   empty nodes and pointers to them were added, so no geometry changed).
/// - A pointer descends without allocating.
///
/// The first component tells whether the insertion completed; the second is
/// the state it leaves behind.
pub open spec fn spec_insert_from(
    t: TreeView,
    idx: int,
    x: u32,
    y: u32,
    z: u32,
    depth: nat,
) -> (bool, TreeView)
    decreases depth,
{
    let oct = spec_octant_of(x, y, z);
    let w = t.nodes[idx][oct];
    if depth <= 1 {
        (true, t.with_slot(idx, oct, spec_leaf_word()))
    } else {
        match spec_decode(w) {
            Slot::Leaf => (true, t),
            Slot::Empty => {
                if t.bump >= t.capacity() {
                    (false, t)
                } else {
                    let child = t.bump;
                    let t2 = TreeView {
                        bump: child + 1,
                        ..t.with_slot(idx, oct, spec_encode_pointer(child as u32))
                    };
                    spec_insert_from(t2, child, x << 1, y << 1, z << 1, (depth - 1) as nat)
                }
            },
            Slot::Pointer(c) => spec_insert_from(t, c as int, x << 1, y << 1, z << 1, (
            depth - 1) as nat),
        }
    }
}

/// How many fresh nodes the insertion needs: none once a leaf subsumes the
/// voxel, none at the final level, one per remaining level once the descent
/// leaves the already-built part of the tree.
pub open spec fn spec_allocs_needed(
    t: TreeView,
    idx: int,
    x: u32,
    y: u32,
    z: u32,
    depth: nat,
) -> nat
    decreases depth,
{
    let w = t.nodes[idx][spec_octant_of(x, y, z)];
    if depth <= 1 {
        0
    } else {
        match spec_decode(w) {
            Slot::Leaf => 0,
            Slot::Empty => (depth - 1) as nat,
            Slot::Pointer(c) => spec_allocs_needed(t, c as int, x << 1, y << 1, z << 1, (
            depth - 1) as nat),
        }
    }
}

/// Whether the voxel is already subsumed: the descent meets a solid leaf at
/// some coarser level before the level the insertion would write at.
pub open spec fn spec_subsumed(t: TreeView, idx: int, x: u32, y: u32, z: u32, depth: nat) -> bool
    decreases depth,
{
    let w = t.nodes[idx][spec_octant_of(x, y, z)];
    if depth <= 1 {
        false
    } else {
        match spec_decode(w) {
            Slot::Leaf => true,
            Slot::Empty => false,
            Slot::Pointer(c) => spec_subsumed(t, c as int, x << 1, y << 1, z << 1, (
            depth - 1) as nat),
        }
    }
}

/// Whether the position `(x, y, z)` lies inside a solid leaf reachable from
/// node `idx`, standing at subdivision level `level` (the root at level 0).
/// This is the geometry a decoder walking the tree observes; with 32-bit
/// fixed-point coordinates the walk bottoms out after 32 levels.
pub open spec fn spec_solid_from(
    t: TreeView,
    idx: int,
    x: u32,
    y: u32,
    z: u32,
    level: nat,
) -> bool
    decreases 32 - level,
{
    if level >= 32 {
        false
    } else {
        match spec_decode(t.nodes[idx][spec_octant_of(x, y, z)]) {
            Slot::Leaf => true,
            Slot::Empty => false,
            Slot::Pointer(c) => spec_solid_from(t, c as int, x << 1, y << 1, z << 1, level + 1),
        }
    }
}

/// Whether position `(px, py, pz)` lies inside the voxel cube addressed by
/// `(x, y, z)` at `depth`: the two agree, axis by axis, on the top `depth`
/// bits — they pick the same octant for `depth` levels.
pub open spec fn spec_in_voxel(
    px: u32,
    py: u32,
    pz: u32,
    x: u32,
    y: u32,
    z: u32,
    depth: nat,
) -> bool
    decreases depth,
{
    depth == 0 || (spec_octant_of(px, py, pz) == spec_octant_of(x, y, z) && spec_in_voxel(
        px << 1,
        py << 1,
        pz << 1,
        x << 1,
        y << 1,
        z << 1,
        (depth - 1) as nat,
    ))
}

/// The state after pointing the chosen slot of node `idx` at a freshly
/// allocated node, as one insertion step does on an empty slot.
pub open spec fn spec_alloc_step(t: TreeView, idx: int, x: u32, y: u32, z: u32) -> TreeView {
    TreeView {
        bump: t.bump + 1,
        ..t.with_slot(idx, spec_octant_of(x, y, z), spec_encode_pointer(t.bump as u32))
    }
}

/// Allocating one node keeps the structure well-formed: the fresh pointer is
/// a valid word, the fresh node is still all-empty, and nothing else moved.
pub proof fn lemma_alloc_step_wf(t: TreeView, idx: int, x: u32, y: u32, z: u32)
    requires
        t.wf(),
        0 <= idx < t.bump,
        t.bump < t.capacity(),
    ensures
        spec_alloc_step(t, idx, x, y, z).wf(),
        spec_alloc_step(t, idx, x, y, z).capacity() == t.capacity(),
        forall|s: int|
            0 <= s < 8 ==> #[trigger] spec_alloc_step(t, idx, x, y, z).nodes[t.bump][s] == 0,
        forall|j: int| 0 <= j < idx ==> spec_alloc_step(t, idx, x, y, z).nodes[j] == t.nodes[j],
{
    let t2 = spec_alloc_step(t, idx, x, y, z);
    let child = t.bump;
    let pw = spec_encode_pointer(child as u32);
    lemma_pointer_round_trip(child as u32);
    assert forall|i: int, s: int| 0 <= i < t2.bump && 0 <= s < 8 implies t2.valid_word(
        i,
        #[trigger] t2.nodes[i][s],
    ) by {
        if i == child {
            assert(t2.nodes[i][s] == t.nodes[i][s]);
        } else if !(i == idx && s == spec_octant_of(x, y, z)) {
            assert(t.valid_word(i, t.nodes[i][s]));
        }
    }
}

/// What one insertion does to the bookkeeping, by induction over the
/// descent: the structure stays well-formed; the capacity, the root and the
/// publish flag do not move; the high-water mark only grows; the insertion
/// succeeds exactly when the nodes it needs fit under the capacity — so at
/// most `depth - 1` free nodes always suffice — and on success the mark
/// advances by exactly the needed count, while on failure the array is full;
/// and nodes below the entry index are untouched.
pub proof fn lemma_insert_props(t: TreeView, idx: int, x: u32, y: u32, z: u32, depth: nat)
    requires
        t.wf(),
        0 <= idx < t.bump,
        1 <= depth,
    ensures
        ({
            let (ok, t2) = spec_insert_from(t, idx, x, y, z, depth);
            let a = spec_allocs_needed(t, idx, x, y, z, depth);
            &&& t2.wf()
            &&& t2.capacity() == t.capacity()
            &&& t2.root == t.root
            &&& t2.uploaded == t.uploaded
            &&& t.bump <= t2.bump
            &&& a <= depth - 1
            &&& ok <==> t.bump + a <= t.capacity()
            &&& ok ==> t2.bump == t.bump + a
            &&& !ok ==> t2.bump == t.capacity()
            &&& forall|j: int| 0 <= j < idx ==> t2.nodes[j] == t.nodes[j]
        }),
    decreases depth,
{
    let oct = spec_octant_of(x, y, z);
    let w = t.nodes[idx][oct];
    if depth <= 1 {
    } else {
        match spec_decode(w) {
            Slot::Leaf => {},
            Slot::Empty => {
                if t.bump < t.capacity() {
                    let t_mid = spec_alloc_step(t, idx, x, y, z);
                    let child = t.bump;
                    lemma_alloc_step_wf(t, idx, x, y, z);
                    lemma_insert_props(t_mid, child, x << 1, y << 1, z << 1, (depth - 1) as nat);
                    assert(spec_allocs_needed(t_mid, child, x << 1, y << 1, z << 1, (
                    depth - 1) as nat) == depth - 2);
                }
            },
            Slot::Pointer(c) => {
                assert(3u32 & 3 == 3) by (bit_vector);
                assert(t.valid_word(idx, w));
                lemma_insert_props(t, c as int, x << 1, y << 1, z << 1, (depth - 1) as nat);
            },
        }
    }
}

/// The flat word sequence the GPU consumes: the eight slots of node 0, then
/// the eight slots of node 1, and so on.
pub open spec fn spec_flat_words(nodes: Seq<Seq<u32>>) -> Seq<u32>
    decreases nodes.len(),
{
    if nodes.len() == 0 {
        Seq::empty()
    } else {
        spec_flat_words(nodes.drop_last()) + nodes.last()
    }
}

/// Flattening one more node appends its eight slots after the words of the
/// nodes before it.
pub proof fn lemma_flat_words_snoc(nodes: Seq<Seq<u32>>, i: int)
    requires
        0 <= i < nodes.len(),
    ensures
        spec_flat_words(nodes.take(i + 1)) == spec_flat_words(nodes.take(i)) + nodes[i],
{
    assert(nodes.take(i + 1).drop_last() =~= nodes.take(i));
    assert(nodes.take(i + 1).last() == nodes[i]);
}

/// The serialized layout the shader indexes into: with eight words per node,
/// node `i`'s slot `s` stands at offset `8 * i + s` of the flat sequence,
/// whose length is eight times the node count.
pub proof fn lemma_flat_words_index(nodes: Seq<Seq<u32>>, i: int, s: int)
    requires
        forall|j: int| 0 <= j < nodes.len() ==> (#[trigger] nodes[j]).len() == 8,
        0 <= i < nodes.len(),
        0 <= s < 8,
    ensures
        spec_flat_words(nodes).len() == 8 * nodes.len(),
        spec_flat_words(nodes)[8 * i + s] == nodes[i][s],
    decreases nodes.len(),
{
    lemma_flat_words_len(nodes);
    if i == nodes.len() - 1 {
        lemma_flat_words_len(nodes.drop_last());
    } else {
        lemma_flat_words_index(nodes.drop_last(), i, s);
    }
}

/// The flat sequence holds eight words per node.
pub proof fn lemma_flat_words_len(nodes: Seq<Seq<u32>>)
    requires
        forall|j: int| 0 <= j < nodes.len() ==> (#[trigger] nodes[j]).len() == 8,
    ensures
        spec_flat_words(nodes).len() == 8 * nodes.len(),
    decreases nodes.len(),
{
    if nodes.len() > 0 {
        lemma_flat_words_len(nodes.drop_last());
    }
}

} // verus!

//! The octree buffer: the preallocated node array, the bump allocator's
//! high-water mark, voxel insertion, and the publish-once serialization the
//! GPU upload consumes.
use vstd::prelude::*;

use crate::encoding::{decode, encode_pointer, spec_leaf_word, MAX_CAPACITY};
use crate::encoding::{octant_index, Slot};
use crate::model::{lemma_alloc_step_wf, lemma_flat_words_index, lemma_flat_words_len,
    lemma_flat_words_snoc, lemma_insert_props, spec_alloc_step, spec_allocs_needed,
    spec_flat_words, spec_insert_from, spec_solid_from, TreeView};
use crate::node::OctreeNode;

verus! {

/// Capacity exhaustion: the bump allocator would step past the preallocated
/// node array. The tree keeps the geometry it had; the failed insertion adds
/// none.
#[derive(Clone, Copy, Debug, PartialEq, Eq, Structural)]
pub struct CapacityExhausted;

/// A voxel position: one unsigned 32-bit fixed-point coordinate per axis,
/// bit 31 the coarsest binary split of the bounding cube, bit 30 the next,
/// and so on.
#[derive(Clone, Copy, Debug, PartialEq, Eq, Structural)]
pub struct VoxelAddress {
    pub x: u32,
    pub y: u32,
    pub z: u32,
}

impl VoxelAddress {
    /// The address with the given coordinate per axis.
    pub fn new(x: u32, y: u32, z: u32) -> (a: VoxelAddress)
        ensures
            a == (VoxelAddress { x, y, z }),
    {
        VoxelAddress { x, y, z }
    }
}

/// A sparse voxel octree in a flat node array of fixed capacity, grown only
/// by a monotone bump allocator, plus the one-shot flag of the GPU
/// publisher.
pub struct VoxelBuffer {
    nodes: Vec<OctreeNode>,
    root: usize,
    bump_top: usize,
    uploaded: bool,
}

impl View for VoxelBuffer {
    type V = TreeView;

    closed spec fn view(&self) -> TreeView {
        TreeView {
            nodes: self.nodes@.map_values(|n: OctreeNode| n@),
            root: self.root as int,
            bump: self.bump_top as int,
            uploaded: self.uploaded,
        }
    }
}

impl VoxelBuffer {
    /// An empty octree over a node array preallocated for `capacity` nodes.
    /// The root occupies index 0, with all eight octants empty; the
    /// high-water mark starts just past it.
    pub fn new(capacity: usize) -> (t: VoxelBuffer)
        requires
            1 <= capacity <= MAX_CAPACITY,
        ensures
            t@.wf(),
            t@.capacity() == capacity,
            t@.root == 0,
            t@.bump == 1,
            !t@.uploaded,
            forall|i: int, s: int| 0 <= i < capacity && 0 <= s < 8 ==> t@.nodes[i][s] == 0,
    {
        let mut nodes: Vec<OctreeNode> = Vec::new();
        while nodes.len() < capacity
            invariant
                nodes.len() <= capacity,
                forall|i: int| 0 <= i < nodes.len() ==> #[trigger] nodes@[i]@ == Seq::new(
                    8,
                    |s: int| 0u32,
                ),
            decreases capacity - nodes.len(),
        {
            nodes.push(OctreeNode::new());
        }
        VoxelBuffer { nodes, root: 0, bump_top: 1, uploaded: false }
    }

    /// The high-water mark of the bump allocator: the next free node index,
    /// which is also how many nodes of the array are in use.
    pub fn bump_top(&self) -> (b: usize)
        ensures
            b == self@.bump,
    {
        self.bump_top
    }

    /// The index of the root node.
    pub fn root(&self) -> (r: usize)
        ensures
            r == self@.root,
    {
        self.root
    }

    /// How many nodes the array was preallocated for.
    pub fn capacity(&self) -> (c: usize)
        ensures
            c == self@.capacity(),
    {
        self.nodes.len()
    }

    /// Whether the node array has been published already.
    pub fn uploaded(&self) -> (u: bool)
        ensures
            u == self@.uploaded,
    {
        self.uploaded
    }

    /// Insert a solid voxel: descend `depth - 1` levels from node `idx`,
    /// each level steered by the top bits of the coordinates, then mark the
    /// octant of the last level solid. Follows `spec_insert_from` exactly.
    fn insert_from(&mut self, idx: usize, x: u32, y: u32, z: u32, depth: u32) -> (r: Result<
        (),
        CapacityExhausted,
    >)
        requires
            old(self)@.wf(),
            0 <= idx < old(self)@.bump,
            1 <= depth,
        ensures
            final(self)@.wf(),
            r.is_ok() == spec_insert_from(old(self)@, idx as int, x, y, z, depth as nat).0,
            final(self)@ == spec_insert_from(old(self)@, idx as int, x, y, z, depth as nat).1,
        decreases depth,
    {
        let oct = octant_index(x, y, z);
        let w = self.nodes[idx].slot_word(oct);
        if depth == 1 {
            let mut node = self.nodes[idx];
            node.set_slot(oct, 3);
            self.nodes.set(idx, node);
            proof {
                let t2 = old(self)@.with_slot(idx as int, oct as int, spec_leaf_word());
                assert(self@ =~= t2);
                assert(self@.wf());
            }
            Ok(())
        } else {
            match decode(w) {
                Slot::Leaf => Ok(()),
                Slot::Empty => {
                    if self.bump_top == self.nodes.len() {
                        return Err(CapacityExhausted);
                    }
                    let child = self.bump_top;
                    let pw = encode_pointer(child as u32);
                    let mut node = self.nodes[idx];
                    node.set_slot(oct, pw);
                    self.nodes.set(idx, node);
                    self.bump_top = child + 1;
                    proof {
                        lemma_alloc_step_wf(old(self)@, idx as int, x, y, z);
                        assert(self@ =~= spec_alloc_step(old(self)@, idx as int, x, y, z));
                    }
                    self.insert_from(child, x << 1, y << 1, z << 1, depth - 1)
                },
                Slot::Pointer(c) => {
                    proof {
                        assert(3u32 & 3 == 3) by (bit_vector);
                        assert(old(self)@.valid_word(idx as int, w));
                    }
                    self.insert_from(c as usize, x << 1, y << 1, z << 1, depth - 1)
                },
            }
        }
    }

    /// Insert a solid voxel of side `2^(32 - depth)` of the root's extent:
    /// the cube of all positions that agree with `pos` on the top `depth`
    /// bits of every axis. Descends `depth - 1` levels from the root, then
    /// marks the octant of the last level solid.
    ///
    /// The final step overwrites the slot whatever it held. If it held a
    /// pointer to a populated subtree, that subtree stays behind in the
    /// array as unreachable garbage — there is no free list to return it to
    /// and no merge pass. This keeps insertion a single downward walk; the
    /// cost is array space, surfacing only as earlier capacity exhaustion.
    ///
    /// Succeeds exactly when the fresh nodes the descent needs fit under the
    /// capacity; `depth - 1` free nodes always suffice. On failure the tree
    /// keeps exactly the geometry it had (the partial descent left behind
    /// only empty nodes and pointers to them) and the array is full.
    ///
    /// A `depth` of 1 writes the leaf at the root itself; coordinates carry
    /// 32 bits, so a depth beyond 32 would address nothing the fixed-point
    /// form can distinguish.
    pub fn add_voxel(&mut self, pos: VoxelAddress, depth: u32) -> (r: Result<
        (),
        CapacityExhausted,
    >)
        requires
            old(self)@.wf(),
            1 <= depth <= 32,
        ensures
            final(self)@.wf(),
            r.is_ok() == spec_insert_from(
                old(self)@,
                old(self)@.root,
                pos.x,
                pos.y,
                pos.z,
                depth as nat,
            ).0,
            final(self)@ == spec_insert_from(
                old(self)@,
                old(self)@.root,
                pos.x,
                pos.y,
                pos.z,
                depth as nat,
            ).1,
            r.is_ok() <==> old(self)@.bump + spec_allocs_needed(
                old(self)@,
                old(self)@.root,
                pos.x,
                pos.y,
                pos.z,
                depth as nat,
            ) <= old(self)@.capacity(),
            r.is_ok() ==> final(self)@.bump == old(self)@.bump + spec_allocs_needed(
                old(self)@,
                old(self)@.root,
                pos.x,
                pos.y,
                pos.z,
                depth as nat,
            ),
            r.is_err() ==> final(self)@.bump == old(self)@.capacity(),
            old(self)@.bump + depth - 1 <= old(self)@.capacity() ==> r.is_ok(),
            old(self)@.bump <= final(self)@.bump,
            final(self)@.capacity() == old(self)@.capacity(),
            final(self)@.root == old(self)@.root,
            final(self)@.uploaded == old(self)@.uploaded,
    {
        proof {
            lemma_insert_props(old(self)@, old(self)@.root, pos.x, pos.y, pos.z, depth as nat);
        }
        self.insert_from(self.root, pos.x, pos.y, pos.z, depth)
    }

    /// Traversal by descent below node `idx`, standing at subdivision level
    /// `level`: whether the position lies inside a solid leaf reachable from
    /// there.
    fn solid_from(&self, idx: usize, x: u32, y: u32, z: u32, level: u32) -> (r: bool)
        requires
            self@.wf(),
            idx < self@.bump,
            level <= 32,
        ensures
            r == spec_solid_from(self@, idx as int, x, y, z, level as nat),
        decreases 32 - level,
    {
        if level >= 32 {
            return false;
        }
        let oct = octant_index(x, y, z);
        match decode(self.nodes[idx].slot_word(oct)) {
            Slot::Leaf => true,
            Slot::Empty => false,
            Slot::Pointer(c) => {
                proof {
                    assert(3u32 & 3 == 3) by (bit_vector);
                    assert(self@.valid_word(idx as int, self@.nodes[idx as int][oct as int]));
                }
                self.solid_from(c as usize, x << 1, y << 1, z << 1, level + 1)
            },
        }
    }

    /// Whether the position is inside solid geometry: the descent from the
    /// root that a shader walking the published words performs, on the
    /// in-memory array.
    pub fn solid_at(&self, pos: VoxelAddress) -> (r: bool)
        requires
            self@.wf(),
        ensures
            r == spec_solid_from(self@, self@.root, pos.x, pos.y, pos.z, 0),
    {
        self.solid_from(self.root, pos.x, pos.y, pos.z, 0)
    }

    /// The node array as the flat word sequence the shader expects: the
    /// eight slot words of node 0, then of node 1, and so on, so node `i`'s
    /// slots occupy offsets `8 * i .. 8 * i + 8`.
    pub fn flat_words(&self) -> (out: Vec<u32>)
        ensures
            out@ == spec_flat_words(self@.nodes),
            out@.len() == 8 * self@.capacity(),
            forall|i: int, s: int|
                0 <= i < self@.capacity() && 0 <= s < 8 ==> out@[8 * i + s] == (
                #[trigger] self@.nodes[i][s]),
    {
        let ghost all = self@.nodes;
        let mut out: Vec<u32> = Vec::new();
        proof {
            assert(all.take(0) =~= Seq::<Seq<u32>>::empty());
        }
        let mut i: usize = 0;
        while i < self.nodes.len()
            invariant
                i <= self.nodes.len(),
                all == self@.nodes,
                all.len() == self.nodes.len(),
                out@ == spec_flat_words(all.take(i as int)),
            decreases self.nodes.len() - i,
        {
            let node = self.nodes[i];
            proof {
                node.lemma_len();
            }
            let ghost out_before = out@;
            let mut s: usize = 0;
            while s < 8
                invariant
                    s <= 8,
                    i < all.len(),
                    node@ == all[i as int],
                    node@.len() == 8,
                    out@ == out_before + all[i as int].take(s as int),
                decreases 8 - s,
            {
                out.push(node.slot_word(s));
                proof {
                    assert(all[i as int].take(s + 1) =~= all[i as int].take(s as int).push(
                        all[i as int][s as int],
                    ));
                }
                s = s + 1;
            }
            proof {
                lemma_flat_words_snoc(all, i as int);
                assert(all[i as int].take(8) =~= all[i as int]);
            }
            i = i + 1;
        }
        proof {
            assert(all.take(all.len() as int) =~= all);
            assert forall|j: int| 0 <= j < all.len() implies (#[trigger] all[j]).len() == 8 by {
                self.nodes@[j].lemma_len();
            }
            lemma_flat_words_len(all);
            assert forall|j: int, s: int|
                0 <= j < self@.capacity() && 0 <= s < 8 implies out@[8 * j + s] == (
            #[trigger] self@.nodes[j][s]) by {
                lemma_flat_words_index(all, j, s);
            }
        }
        out
    }

    /// Publish once: on the first call, hand back the flat word sequence for
    /// the caller to copy to the GPU buffer and set the flag; every later
    /// call hands back nothing and changes nothing. Mutating the tree after
    /// the first call is invisible to a renderer until a full re-upload is
    /// triggered by other means; this one-shot policy is deliberate.
    pub fn update_buffer(&mut self) -> (upload: Option<Vec<u32>>)
        ensures
            final(self)@ == (TreeView { uploaded: true, ..old(self)@ }),
            upload.is_some() == !old(self)@.uploaded,
            upload matches Some(words) ==> words@ == spec_flat_words(old(self)@.nodes),
    {
        if self.uploaded {
            None
        } else {
            let out = self.flat_words();
            self.uploaded = true;
            proof {
                assert(self@ =~= (TreeView { uploaded: true, ..old(self)@ }));
            }
            Some(out)
        }
    }

    /// The raw word in slot `oct` of node `idx`.
    pub fn slot_word(&self, idx: usize, oct: usize) -> (w: u32)
        requires
            idx < self@.capacity(),
            oct < 8,
        ensures
            w == self@.nodes[idx as int][oct as int],
    {
        self.nodes[idx].slot_word(oct)
    }
}

} // verus!

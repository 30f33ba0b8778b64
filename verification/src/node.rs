//! One octree node: a fixed-size record of eight child-slot words, one per
//! octant of a cube.
use vstd::prelude::*;

verus! {

broadcast use vstd::array::group_array_axioms;

/// A node of the octree. Slot `i` describes the octant whose sign-tuple maps
/// to `i` (see [`crate::encoding::spec_octant`]); each word is read through
/// [`crate::encoding::spec_decode`].
#[derive(Clone, Copy, Debug)]
pub struct OctreeNode {
    children: [u32; 8],
}

impl View for OctreeNode {
    type V = Seq<u32>;

    closed spec fn view(&self) -> Seq<u32> {
        self.children@
    }
}

impl OctreeNode {
    /// A node with all eight octants empty.
    pub fn new() -> (n: Self)
        ensures
            n@ == Seq::new(8, |i: int| 0u32),
    {
        let n = OctreeNode { children: [0; 8] };
        proof {
            assert(n@ =~= Seq::new(8, |i: int| 0u32));
        }
        n
    }

    /// The word in slot `oct`.
    pub fn slot_word(&self, oct: usize) -> (w: u32)
        requires
            oct < 8,
        ensures
            w == self@[oct as int],
    {
        self.children[oct]
    }

    /// Replace the word in slot `oct`.
    pub fn set_slot(&mut self, oct: usize, w: u32)
        requires
            oct < 8,
        ensures
            final(self)@ == old(self)@.update(oct as int, w),
    {
        self.children[oct] = w;
    }

    /// Every node view has exactly eight slots.
    pub proof fn lemma_len(&self)
        ensures
            self@.len() == 8,
    {
    }
}

} // verus!

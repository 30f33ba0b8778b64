//! Node encoding: how one child slot of an octree node is packed into a
//! `u32` word, and how the three axis signs of a position select one of the
//! eight child slots.
//!
//! A slot word is interpreted by its two low-order bits:
//! - all bits zero: the octant is empty;
//! - low bits `0b11`: the octant is a solid leaf;
//! - low bits `0b01`: the bits above the tag, shifted right by two, are the
//!   index of a child node and descent continues there.
//!
//! The fourth tag value, `0b10`, is reserved and unused; a word carrying it
//! holds no geometry and decodes as empty. The same two-bit tag scheme and
//! the same sign-to-slot mapping must be implemented by the shader that
//! walks the published buffer, so this layer is a cross-boundary contract.
use vstd::prelude::*;

verus! {

/// Interpretation of one child-slot word of an octree node.
#[derive(Clone, Copy, Debug, PartialEq, Eq, Structural)]
pub enum Slot {
    /// The octant contains no geometry.
    Empty,
    /// The octant is entirely solid; nothing finer exists beneath it.
    Leaf,
    /// The octant is subdivided; the payload is the index of the child node.
    Pointer(u32),
}

/// Largest number of nodes an octree may be sized for: a pointer word keeps
/// the child index in the 30 bits above the tag.
pub const MAX_CAPACITY: usize = 0x4000_0000;

/// Meaning of a slot word, by its two low-order tag bits. The reserved tag
/// `0b10` (and a nonzero word tagged `0b00`) carries no geometry and reads
/// as empty; the insertion algorithm never writes such a word.
pub open spec fn spec_decode(w: u32) -> Slot {
    if w == 0 {
        Slot::Empty
    } else if w & 3 == 3 {
        Slot::Leaf
    } else if w & 3 == 1 {
        Slot::Pointer(w >> 2)
    } else {
        Slot::Empty
    }
}

/// The pointer word for child index `i`: the index shifted above the two tag
/// bits, tagged `0b01`.
pub open spec fn spec_encode_pointer(i: u32) -> u32 {
    (i << 2) | 1
}

/// The word a solid leaf is written as.
pub open spec fn spec_leaf_word() -> u32 {
    3
}

/// Decode one slot word into its interpretation.
pub fn decode(w: u32) -> (s: Slot)
    ensures
        s == spec_decode(w),
{
    if w == 0 {
        Slot::Empty
    } else if w & 3 == 3 {
        Slot::Leaf
    } else if w & 3 == 1 {
        Slot::Pointer(w >> 2)
    } else {
        Slot::Empty
    }
}

/// Encode child index `i` as a pointer word, reversible by `decode`.
pub fn encode_pointer(i: u32) -> (w: u32)
    requires
        i < MAX_CAPACITY,
    ensures
        w == spec_encode_pointer(i),
        spec_decode(w) == Slot::Pointer(i),
{
    proof {
        lemma_pointer_round_trip(i);
    }
    (i << 2) | 1
}

/// Decoding the pointer encoding of any index below the capacity limit
/// yields exactly that index back.
pub proof fn lemma_pointer_round_trip(i: u32)
    requires
        i < MAX_CAPACITY,
    ensures
        spec_decode(spec_encode_pointer(i)) == Slot::Pointer(i),
{
    assert(((i << 2) | 1) != 0 && ((i << 2) | 1) & 3 == 1 && ((i << 2) | 1) >> 2 == i)
        by (bit_vector)
        requires
            i < 0x4000_0000u32,
    ;
}

/// The all-zero word decodes as empty and the leaf word decodes as a leaf.
pub proof fn lemma_decode_fixed_words()
    ensures
        spec_decode(0) == Slot::Empty,
        spec_decode(spec_leaf_word()) == Slot::Leaf,
{
    assert(3u32 & 3 == 3) by (bit_vector);
}

/// Slot index of the octant picked by one sign per axis, bit pattern `zyx`:
/// the x sign is the low bit, the z sign the high bit.
pub open spec fn spec_octant(bx: bool, by: bool, bz: bool) -> int {
    (if bx { 1int } else { 0 }) + (if by { 2int } else { 0 }) + (if bz { 4int } else { 0 })
}

/// Whether the top bit (the coarsest binary split) of a coordinate is set.
pub open spec fn spec_high_bit(c: u32) -> bool {
    c >= 0x8000_0000
}

/// Slot index of the octant that the top bits of the three coordinates pick.
pub open spec fn spec_octant_of(x: u32, y: u32, z: u32) -> int {
    spec_octant(spec_high_bit(x), spec_high_bit(y), spec_high_bit(z))
}

/// Compute the child-slot index from the top bit of each coordinate.
pub fn octant_index(x: u32, y: u32, z: u32) -> (oct: usize)
    ensures
        oct == spec_octant_of(x, y, z),
        oct < 8,
{
    let mut oct: usize = 0;
    if x >= 0x8000_0000 {
        oct = oct + 1;
    }
    if y >= 0x8000_0000 {
        oct = oct + 2;
    }
    if z >= 0x8000_0000 {
        oct = oct + 4;
    }
    oct
}

/// The sign-to-slot mapping is injective: two sign-tuples that map to the
/// same slot index are the same tuple. With `spec_octant` ranging over
/// `0..8` by definition, the eight tuples therefore cover eight distinct
/// slot indices, all of `0..8`.
pub proof fn lemma_octant_injective(
    bx: bool,
    by: bool,
    bz: bool,
    cx: bool,
    cy: bool,
    cz: bool,
)
    ensures
        0 <= spec_octant(bx, by, bz) < 8,
        spec_octant(bx, by, bz) == spec_octant(cx, cy, cz) ==> (bx == cx && by == cy && bz == cz),
{
}

} // verus!

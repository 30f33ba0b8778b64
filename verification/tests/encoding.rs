use voxeltree::encoding::{decode, encode_pointer, octant_index, Slot, MAX_CAPACITY};

#[test]
fn pointer_round_trip_small_indices() {
    for i in 0..64u32 {
        assert_eq!(decode(encode_pointer(i)), Slot::Pointer(i));
    }
}

#[test]
fn pointer_round_trip_large_indices() {
    let max_index = (MAX_CAPACITY - 1) as u32;
    for i in [
        65u32,
        1 << 10,
        (1 << 20) + 12345,
        max_index - 1,
        max_index,
    ] {
        assert_eq!(decode(encode_pointer(i)), Slot::Pointer(i));
    }
}

#[test]
fn decode_fixed_words() {
    assert_eq!(decode(0), Slot::Empty);
    assert_eq!(decode(0b11), Slot::Leaf);
}

#[test]
fn decode_pointer_word_layout() {
    // pointer to node 1 is the index shifted above the two tag bits
    assert_eq!(decode((1 << 2) | 0b01), Slot::Pointer(1));
    assert_eq!(decode((7 << 2) | 0b01), Slot::Pointer(7));
    // a leaf keeps its meaning whatever stands above the tag
    assert_eq!(decode((5 << 2) | 0b11), Slot::Leaf);
}

#[test]
fn decode_reserved_tag_is_empty() {
    // the reserved tag 0b10 and a nonzero word tagged 0b00 carry no geometry
    assert_eq!(decode(0b10), Slot::Empty);
    assert_eq!(decode((3 << 2) | 0b10), Slot::Empty);
    assert_eq!(decode(1 << 2), Slot::Empty);
}

#[test]
fn octant_mapping_is_bijective() {
    let high = 0x8000_0000u32;
    let mut seen = [false; 8];
    for bx in [false, true] {
        for by in [false, true] {
            for bz in [false, true] {
                let oct = octant_index(
                    if bx { high } else { 0 },
                    if by { high } else { 0 },
                    if bz { high } else { 0 },
                );
                assert!(oct < 8);
                assert!(!seen[oct], "two sign-tuples mapped to slot {}", oct);
                seen[oct] = true;
            }
        }
    }
    assert!(seen.iter().all(|&s| s));
}

#[test]
fn octant_mapping_is_zyx() {
    let high = 0xFFFF_FFFFu32;
    assert_eq!(octant_index(0, 0, 0), 0);
    assert_eq!(octant_index(high, 0, 0), 1);
    assert_eq!(octant_index(0, high, 0), 2);
    assert_eq!(octant_index(0, 0, high), 4);
    assert_eq!(octant_index(high, high, high), 7);
    // only the top bit of a coordinate picks the octant
    assert_eq!(octant_index(0x7FFF_FFFF, 0, 0), 0);
}

use voxeltree::node::OctreeNode;

#[test]
fn new_node_has_eight_empty_slots() {
    let n = OctreeNode::new();
    for s in 0..8 {
        assert_eq!(n.slot_word(s), 0);
    }
}

#[test]
fn set_slot_changes_only_that_slot() {
    let mut n = OctreeNode::new();
    n.set_slot(3, 0b11);
    for s in 0..8 {
        assert_eq!(n.slot_word(s), if s == 3 { 0b11 } else { 0 });
    }
}

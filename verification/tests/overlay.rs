use beacon::overlay::{BTreeOverlay, BTreeSchema, LeafNode};

fn get_tree_a(n: usize) -> BTreeOverlay {
    BTreeSchema::from_lengths(0, vec![1; n]).into_overlay(0)
}

#[test]
fn leaf_node_chunks() {
    let tree = get_tree_a(4);

    assert_eq!(tree.leaf_node_chunks(), vec![3, 4, 5, 6])
}

#[test]
fn internal_node_chunks() {
    let tree = get_tree_a(4);

    assert_eq!(tree.internal_node_chunks(), vec![0, 1, 2])
}

#[test]
fn internal_parents_and_children() {
    let tree = get_tree_a(4);

    assert_eq!(
        tree.internal_parents_and_children(),
        vec![(0, (1, 2)), (1, (3, 4)), (2, (5, 6))]
    )
}

#[test]
fn chunk_range() {
    let tree = get_tree_a(4);
    assert_eq!(tree.chunk_range(), 0..7);

    let tree = get_tree_a(1);
    assert_eq!(tree.chunk_range(), 0..1);

    let tree = get_tree_a(2);
    assert_eq!(tree.chunk_range(), 0..3);

    let tree = BTreeSchema::from_lengths(0, vec![1, 1]).into_overlay(11);
    assert_eq!(tree.chunk_range(), 11..14);

    let tree = BTreeSchema::from_lengths(0, vec![7, 7, 7]).into_overlay(0);
    assert_eq!(tree.chunk_range(), 0..25);
}

#[test]
fn get_leaf_node() {
    let tree = get_tree_a(4);
    let leaves = tree.get_leaf_nodes(5);

    assert_eq!(leaves[0], LeafNode::Exists(3..4));
    assert_eq!(leaves[1], LeafNode::Exists(4..5));
    assert_eq!(leaves[2], LeafNode::Exists(5..6));
    assert_eq!(leaves[3], LeafNode::Exists(6..7));
    assert_eq!(leaves[4], LeafNode::DoesNotExist);

    let tree = get_tree_a(3);
    let leaves = tree.get_leaf_nodes(5);

    assert_eq!(leaves[0], LeafNode::Exists(3..4));
    assert_eq!(leaves[1], LeafNode::Exists(4..5));
    assert_eq!(leaves[2], LeafNode::Exists(5..6));
    assert_eq!(leaves[3], LeafNode::Padding);
    assert_eq!(leaves[4], LeafNode::DoesNotExist);

    let tree = get_tree_a(0);
    let leaves = tree.get_leaf_nodes(2);

    assert_eq!(leaves[0], LeafNode::Padding);
    assert_eq!(leaves[1], LeafNode::DoesNotExist);

    let tree = BTreeSchema::from_lengths(0, vec![3]).into_overlay(0);
    let leaves = tree.get_leaf_nodes(2);
    assert_eq!(leaves[0], LeafNode::Exists(0..3));
    assert_eq!(leaves[1], LeafNode::DoesNotExist);

    let tree = BTreeSchema::from_lengths(0, vec![3]).into_overlay(10);
    let leaves = tree.get_leaf_nodes(2);
    assert_eq!(leaves[0], LeafNode::Exists(10..13));
    assert_eq!(leaves[1], LeafNode::DoesNotExist);
}

#[test]
fn root_of_one_node() {
    let tree = get_tree_a(1);

    assert_eq!(tree.root(), 0);
    assert_eq!(tree.num_internal_nodes(), 0);
    assert_eq!(tree.num_leaf_nodes(), 1);
}

#[test]
fn child_chunks() {
    let tree = get_tree_a(4);

    assert_eq!(tree.child_chunks(0), (1, 2))
}

#[test]
fn overlay_counts() {
    let tree = get_tree_a(3);
    assert_eq!(tree.num_leaf_nodes(), 4);
    assert_eq!(tree.num_padding_leaves(), 1);
    assert_eq!(tree.num_nodes(), 7);
    assert_eq!(tree.num_internal_nodes(), 3);
    assert_eq!(tree.height(), 2);
    assert_eq!(tree.first_leaf_node(), 3);
    assert_eq!(tree.num_chunks(), 7);
    assert_eq!(tree.next_node(), 7);
    assert_eq!(tree.internal_chunk_range(), 0..3);
}

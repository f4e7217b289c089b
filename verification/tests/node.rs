use peer_engine::node::{InternalNode, LeafNode, Node, NodeInner, Ref};
use std::sync::Arc;

#[test]
fn leaf_holds_key_value_and_layer() {
    let node = Node::new_leaf(3u8, 4u16, 7);
    assert_eq!(node.layer, 7);
    match node.inner() {
        NodeInner::Leaf(leaf) => assert_eq!((leaf.key, leaf.value), (3, 4)),
        NodeInner::Internal(_) => panic!("expected a leaf"),
    }
    let node = Node::new_leaf_from_node(LeafNode { key: 1u8, value: 2u16 }, 9);
    assert_eq!(node.layer, 9);
    assert!(matches!(node.inner(), NodeInner::Leaf(leaf) if leaf.key == 1 && leaf.value == 2));
}

#[test]
fn internal_node_holds_its_children() {
    let left = Ref::new_strong(Node::new_leaf(1u8, 10u16, 0));
    let node = Node::new_internal_from_node(InternalNode { left: Some(left), right: None }, 2);
    assert_eq!(node.layer, 2);
    match node.inner() {
        NodeInner::Internal(internal) => {
            assert!(internal.right.is_none());
            let child = internal.left.as_ref().unwrap().get_strong().unwrap();
            assert!(matches!(child.inner(), NodeInner::Leaf(leaf) if leaf.value == 10));
        }
        NodeInner::Leaf(_) => panic!("expected an internal node"),
    }
}

#[test]
fn weak_reference_lives_as_long_as_a_strong_one() {
    let strong = Ref::new_strong(41u64);
    assert!(matches!(strong, Ref::Strong(_)));
    let weak = strong.weak();
    assert!(matches!(weak, Ref::Weak(_)));
    let again = weak.weak();
    assert_eq!(*weak.get_strong().unwrap(), 41);
    assert_eq!(*again.get_strong().unwrap(), 41);
    let held: Arc<u64> = strong.get_strong().unwrap();
    drop(strong);
    assert_eq!(*weak.get_strong().unwrap(), 41);
    drop(held);
    assert!(weak.get_strong().is_none());
    assert!(again.get_strong().is_none());
}

#[test]
fn clone_keeps_the_kind_and_the_value() {
    let strong = Ref::new_strong(5u8);
    let copy = strong.clone();
    assert!(matches!(copy, Ref::Strong(_)));
    assert_eq!(*copy.get_strong().unwrap(), 5);
    let weak = strong.weak().clone();
    assert!(matches!(weak, Ref::Weak(_)));
    drop(strong);
    assert_eq!(*weak.get_strong().unwrap(), 5);
    drop(copy);
    assert!(weak.get_strong().is_none());
    let leaf = LeafNode { key: 1u8, value: String::from("one") };
    let twin = leaf.clone();
    assert_eq!((twin.key, twin.value.as_str()), (1, "one"));
    let internal = InternalNode {
        left: Some(Ref::new_strong(Node::new_leaf_from_node(leaf, 4))),
        right: None,
    };
    let again = internal.clone();
    let child = again.left.unwrap().get_strong().unwrap();
    assert_eq!(child.layer, 4);
    assert!(format!("{:?}", twin).contains("one"));
}

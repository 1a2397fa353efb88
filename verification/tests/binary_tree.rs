use channels::binary_tree::BinaryTree;

#[test]
fn insert_keeps_every_element_findable() {
    let mut tree = BinaryTree::new(50);
    for v in [20, 70, 10, 30, 60, 90, 25] {
        tree.insert(v);
    }

    for v in [50, 20, 70, 10, 30, 60, 90, 25] {
        assert!(tree.contains(v));
    }
    for v in [0, 15, 40, 55, 100] {
        assert!(!tree.contains(v));
    }
}

#[test]
fn duplicate_insert_changes_nothing() {
    let mut tree = BinaryTree::new(5);
    tree.insert(3);
    tree.insert(8);
    tree.insert(3);
    tree.insert(5);
    tree.insert(8);

    assert!(tree.contains(3));
    assert!(tree.contains(5));
    assert!(tree.contains(8));
    assert!(!tree.contains(4));
}

use zensen::index_tree::Tree;

#[test]
fn it_add_a_node() {
    let mut tree = Tree::new();
    let id1 = tree.add();

    assert_eq!(id1, 1);
    assert_eq!(tree.get_index(id1), Some(0));
}

#[test]
fn it_adds_nodes() {
    let mut tree = Tree::new();
    let id1 = tree.add();
    let id2 = tree.add();
    let id3 = tree.add();
    let id4 = tree.add();

    assert_eq!(id1, 1);
    assert_eq!(tree.get_index(id1), Some(0));

    assert_eq!(id2, 2);
    assert_eq!(tree.get_index(id2), Some(1));

    assert_eq!(id3, 3);
    assert_eq!(tree.get_index(id3), Some(2));

    assert_eq!(id4, 4);
    assert_eq!(tree.get_index(id4), Some(3));
}

#[test]
fn it_does_not_add_sub_node_for_invalid_parent_id() {
    const ID_INVALID: u32 = 1000;

    let mut tree = Tree::new();

    let sub_id_none = tree.insert(ID_INVALID);

    assert_eq!(sub_id_none, None);
}

#[test]
fn it_adds_sub_nodes_to_valid_parent_node() {
    let mut tree = Tree::new();

    tree.add();
    tree.add();
    let id = tree.add();

    let sub_id1 = tree.insert(id);
    let sub_id2 = tree.insert(id);
    let sub_id3 = tree.insert(id);
    let node = tree.get_node(id).unwrap();

    let id2 = tree.add();

    assert_eq!(id, 3);
    assert_eq!(sub_id1, Some(4));
    assert_eq!(sub_id2, Some(5));
    assert_eq!(sub_id3, Some(6));
    assert_eq!(node.children(), &vec![4, 5, 6]);
    assert_eq!(id2, 7);
}

#[test]
fn it_removes_a_node() {
    let mut tree = Tree::new();

    let id1 = tree.add();
    let id2 = tree.add();
    let id3 = tree.add();
    let removed_indices = tree.remove(id3);

    assert_eq!(removed_indices, Some(vec![2]));
    assert_eq!(tree.get_index(id1), Some(0));
    assert_eq!(tree.get_index(id2), Some(1));
    assert_eq!(tree.get_index(id3), None);
}

#[test]
fn it_removes_a_sub_node_and_children() {
    let mut tree = Tree::new();

    let id1 = tree.add();
    let id2 = tree.add();
    let id3 = tree.add();

    let id4 = tree.insert(id3).unwrap();
    let id5 = tree.insert(id3).unwrap();
    let id6 = tree.insert(id3).unwrap();

    let id7 = tree.insert(id6).unwrap();
    let id8 = tree.insert(id6).unwrap();
    let id9 = tree.insert(id6).unwrap();

    let id10 = tree.insert(id3).unwrap();

    let removed_indices = tree.remove(id6);

    assert_eq!(removed_indices, Some(vec![5, 6, 7, 8]));
    assert_eq!(tree.get_index(id1), Some(0));
    assert_eq!(tree.get_index(id2), Some(1));
    assert_eq!(tree.get_index(id3), Some(2));
    assert_eq!(tree.get_index(id4), Some(3));
    assert_eq!(tree.get_index(id5), Some(4));
    assert_eq!(tree.get_index(id6), None);
    assert_eq!(tree.get_index(id7), None);
    assert_eq!(tree.get_index(id8), None);
    assert_eq!(tree.get_index(id9), None);
    assert_eq!(tree.get_index(id10), Some(5));
}

#[test]
fn positions_report_a_deep_subtree_in_arena_order() {
    let mut tree = Tree::new();
    let a = tree.add();
    let b = tree.insert(a).unwrap();
    let c = tree.add();
    let d = tree.insert(b).unwrap();
    let e = tree.insert(a).unwrap();

    assert_eq!(tree.remove(a), Some(vec![0, 1, 3, 4]));
    assert_eq!(tree.arena().len(), 1);
    assert_eq!(tree.get_index(c), Some(0));
    assert_eq!(tree.get_index(d), None);
    assert_eq!(tree.get_index(e), None);
    assert_eq!(tree.remove(a), None);
}

use zensen::tree::{Error, Node, Tree};

const ID_INVALID: u32 = 1000;

/// Two roots, then two children of the second: ids 1, 2, 3, 4.
fn two_roots_two_children() -> Tree {
    let mut tree = Tree::new();
    tree.add();
    tree.add();
    tree.insert(2).unwrap();
    tree.insert(2).unwrap();
    tree
}

#[test]
fn suite() {
    // adding a node
    {
        let mut instance = Tree::new();
        let id1 = instance.add();
        assert_eq!(id1, 1);
        assert_eq!(instance.get_index(id1), Ok(0));
        assert_eq!(instance.arena(), &vec![Node::new(1, None, Vec::new())]);
    }
    // when removing an invalid node
    {
        let mut instance = Tree::new();
        instance.add();
        assert_eq!(instance.remove(ID_INVALID), Err(Error::InvalidNodeId));
    }
    // when removing a node
    {
        let mut instance = Tree::new();
        let id1 = instance.add();
        assert_eq!(instance.remove(id1), Ok(vec![id1]));
        assert_eq!(instance.arena(), &vec![]);
    }
    // adding a second node
    {
        let mut instance = Tree::new();
        let id1 = instance.add();
        let id2 = instance.add();
        assert_eq!(id2, 2);
        assert_eq!(
            instance.arena(),
            &vec![Node::new(id1, None, Vec::new()), Node::new(id2, None, Vec::new())]
        );
        // inserting a sub-node into an invalid node
        assert_eq!(instance.insert(ID_INVALID), Err(Error::InvalidNodeId));
    }
    // adding a sub-node
    {
        let mut instance = Tree::new();
        let id1 = instance.add();
        let id2 = instance.add();
        let id3 = instance.insert(id2).unwrap();
        let child_node = instance.get_node(id3).unwrap();
        let parent_node = instance.get_node(id2).unwrap();
        assert_eq!(id3, 3);
        assert_eq!(child_node.parent_id(), Some(id2));
        assert_eq!(parent_node.child_ids(), &vec![id3]);
        assert_eq!(
            instance.arena(),
            &vec![
                Node::new(id1, None, Vec::new()),
                Node::new(id2, None, vec![id3]),
                Node::new(id3, Some(id2), Vec::new()),
            ]
        );
    }
    // adding a second sub-node
    {
        let mut instance = Tree::new();
        let id1 = instance.add();
        let id2 = instance.add();
        let id3 = instance.insert(id2).unwrap();
        let id4 = instance.insert(id2).unwrap();
        let child_node = instance.get_node(id4).unwrap();
        let parent_node = instance.get_node(id2).unwrap();
        assert_eq!(id4, 4);
        assert_eq!(child_node.parent_id(), Some(id2));
        assert_eq!(parent_node.child_ids(), &vec![id3, id4]);
        assert_eq!(
            instance.arena(),
            &vec![
                Node::new(id1, None, Vec::new()),
                Node::new(id2, None, vec![id3, id4]),
                Node::new(id3, Some(id2), Vec::new()),
                Node::new(id4, Some(id2), Vec::new()),
            ]
        );
    }
    // removing a leaf-most node
    {
        let mut instance = two_roots_two_children();
        assert_eq!(instance.remove(3), Ok(vec![3]));
        assert_eq!(
            instance.arena(),
            &vec![
                Node::new(1, None, Vec::new()),
                Node::new(2, None, vec![4]),
                Node::new(4, Some(2), Vec::new()),
            ]
        );
    }
    // removing a node that has children
    {
        let mut instance = two_roots_two_children();
        assert_eq!(instance.remove(2), Ok(vec![2, 3, 4]));
        assert_eq!(instance.arena(), &vec![Node::new(1, None, Vec::new())]);
    }
    // adding another top-level node
    {
        let mut instance = two_roots_two_children();
        let id5 = instance.add();
        assert_eq!(
            instance.arena(),
            &vec![
                Node::new(1, None, Vec::new()),
                Node::new(2, None, vec![3, 4]),
                Node::new(3, Some(2), Vec::new()),
                Node::new(4, Some(2), Vec::new()),
                Node::new(id5, None, Vec::new()),
            ]
        );
        assert_eq!(instance.get_index(id5), Ok(4));
        // when removing a sub-node
        instance.remove(2).unwrap();
        assert_eq!(instance.get_index(id5), Ok(1));
    }
}

#[test]
fn adds_hand_out_ids_in_order_at_matching_positions() {
    let mut tree = Tree::new();
    for k in 1..=20u32 {
        assert_eq!(tree.add(), k);
    }
    for k in 1..=20u32 {
        assert_eq!(tree.get_index(k), Ok(k - 1));
    }
}

#[test]
fn insert_appends_new_last_child() {
    let mut tree = Tree::new();
    let root = tree.add();
    let other = tree.add();
    let a = tree.insert(root).unwrap();
    let b = tree.insert(other).unwrap();
    let c = tree.insert(root).unwrap();
    assert_eq!((a, b, c), (3, 4, 5));
    assert_eq!(tree.get_node(root).unwrap().child_ids(), &vec![3, 5]);
    assert_eq!(tree.get_node(other).unwrap().child_ids(), &vec![4]);
    assert_eq!(tree.get_node(c).unwrap().parent_id(), Some(root));
}

#[test]
fn failed_calls_leave_tree_unchanged() {
    let mut tree = two_roots_two_children();
    let before = tree.arena().clone();
    assert_eq!(tree.insert(99), Err(Error::InvalidNodeId));
    assert_eq!(tree.remove(99), Err(Error::InvalidNodeId));
    assert_eq!(tree.get_index(99), Err(Error::InvalidNodeId));
    assert_eq!(tree.get_node(99), None);
    assert_eq!(tree.arena(), &before);
    // the failed insert took no id
    assert_eq!(tree.add(), 5);
}

#[test]
fn remove_takes_whole_subtree_of_any_depth() {
    let mut tree = Tree::new();
    let r = tree.add();
    let mut last = r;
    for _ in 0..10 {
        last = tree.insert(last).unwrap();
    }
    let side = tree.insert(r).unwrap();
    let keep = tree.add();
    let removed = tree.remove(2).unwrap();
    assert_eq!(removed, (2..=11).collect::<Vec<u32>>());
    assert_eq!(
        tree.arena(),
        &vec![Node::new(r, None, vec![side]), Node::new(side, Some(r), Vec::new()), Node::new(keep, None, Vec::new())]
    );
    for node in tree.arena() {
        for c in node.child_ids() {
            assert!(!removed.contains(c));
        }
    }
}

#[test]
fn remove_reports_target_first_then_arena_order() {
    let mut tree = Tree::new();
    let a = tree.add();
    let b = tree.insert(a).unwrap();
    let _c = tree.insert(b).unwrap();
    let _d = tree.insert(a).unwrap();
    assert_eq!(tree.remove(a), Ok(vec![1, 2, 3, 4]));
    assert!(tree.arena().is_empty());
}

#[test]
fn remove_shifts_later_positions_only() {
    let mut tree = Tree::new();
    let a = tree.add();
    let b = tree.add();
    let c = tree.insert(b).unwrap();
    let d = tree.add();
    let e = tree.insert(b).unwrap();
    let f = tree.add();
    tree.remove(b).unwrap();
    assert_eq!(tree.get_index(a), Ok(0));
    assert_eq!(tree.get_index(d), Ok(1));
    assert_eq!(tree.get_index(f), Ok(2));
    assert_eq!(tree.get_index(c), Err(Error::InvalidNodeId));
    assert_eq!(tree.get_index(e), Err(Error::InvalidNodeId));
}

#[test]
fn ids_are_never_reused() {
    let mut tree = Tree::new();
    let a = tree.add();
    let b = tree.insert(a).unwrap();
    assert_eq!(tree.remove(a), Ok(vec![a, b]));
    assert!(tree.arena().is_empty());
    let c = tree.add();
    assert_eq!(c, 3);
    assert_eq!(tree.insert(c), Ok(4));
}

#[test]
fn scenario_three_roots() {
    let mut tree = Tree::new();
    let ids = vec![tree.add(), tree.add(), tree.add()];
    assert_eq!(ids, vec![1, 2, 3]);
    assert_eq!(tree.arena().len(), 3);
    assert!(tree.arena().iter().all(|n| n.parent_id().is_none()));
}

#[test]
fn scenario_one_child() {
    let mut tree = Tree::new();
    let id1 = tree.add();
    let id2 = tree.insert(id1).unwrap();
    assert_eq!(id2, 2);
    assert_eq!(tree.get_node(id1).unwrap().child_ids(), &vec![2]);
    assert_eq!(tree.get_node(id2).unwrap().parent_id(), Some(1));
}

#[test]
fn scenario_chain_removal() {
    let mut tree = Tree::new();
    let id1 = tree.add();
    let id2 = tree.insert(id1).unwrap();
    let id3 = tree.insert(id2).unwrap();
    assert_eq!(tree.remove(2), Ok(vec![2, id3]));
    assert_eq!(tree.arena(), &vec![Node::new(1, None, Vec::new())]);
}

#[test]
fn scenario_insert_into_empty_tree() {
    let mut tree = Tree::new();
    assert_eq!(tree.insert(999), Err(Error::InvalidNodeId));
    assert!(tree.arena().is_empty());
}

#[test]
fn node_accessors() {
    let node = Node::new(7, Some(3), vec![8, 9]);
    assert_eq!(node.id(), 7);
    assert_eq!(node.parent_id(), Some(3));
    assert_eq!(node.child_ids(), &vec![8, 9]);
    assert_eq!(node.children(), &vec![8, 9]);
}

#[test]
fn outline_lists_roots_then_descendants_depth_first() {
    let mut tree = Tree::new();
    let a = tree.add();
    let b = tree.add();
    let c = tree.insert(a).unwrap();
    let d = tree.insert(c).unwrap();
    let e = tree.insert(a).unwrap();
    let f = tree.insert(b).unwrap();
    assert_eq!(
        tree.outline(),
        vec![(0, a), (1, c), (2, d), (1, e), (0, b), (1, f)]
    );
    tree.remove(c).unwrap();
    assert_eq!(tree.outline(), vec![(0, a), (1, e), (0, b), (1, f)]);
    assert_eq!(tree.last_id(), 6);
    assert!(Tree::new().outline().is_empty());
}

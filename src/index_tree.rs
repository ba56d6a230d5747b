//! The node tree behind an `Option` interface whose removal reports the
//! positions that the removed nodes held rather than their ids.
use vstd::prelude::*;

use crate::model::{position_of, widen, TreeView};
pub use crate::tree::Node;

verus! {

/// A node tree whose failures are `None` and whose removal reports
/// positions.
pub struct Tree {
    tree: crate::tree::Tree,
}

impl View for Tree {
    type V = TreeView;

    closed spec fn view(&self) -> TreeView {
        self.tree@
    }
}

impl Tree {
    /// The tree invariant, on the model.
    pub open spec fn wf(&self) -> bool {
        self@.wf()
    }

    /// An empty tree, its counter at 0.
    pub fn new() -> (r: Tree)
        ensures
            r.wf(),
            r@ == TreeView::empty(),
    {
        Tree { tree: crate::tree::Tree::new() }
    }

    /// Appends a new root and returns its id.
    pub fn add(&mut self) -> (r: u32)
        requires
            old(self).wf(),
            old(self)@.can_allocate(),
        ensures
            final(self).wf(),
            final(self)@ == old(self)@.after_add(),
            r == old(self)@.new_id(),
    {
        self.tree.add()
    }

    /// Appends a new child of `parent_id` and returns its id; `None` where
    /// no node has that id.
    pub fn insert(&mut self, parent_id: u32) -> (r: Option<u32>)
        requires
            old(self).wf(),
            old(self)@.can_allocate(),
        ensures
            final(self).wf(),
            r is Some <==> old(self)@.has(parent_id),
            r matches Some(id) ==> id == old(self)@.new_id() && final(self)@ == old(self)@.after_insert(parent_id),
            r is None ==> final(self)@ == old(self)@,
    {
        match self.tree.insert(parent_id) {
            Ok(id) => Some(id),
            Err(_) => None,
        }
    }

    /// Removes the node with this id together with every node below it, and
    /// returns the positions they held, in arena order; `None` where no node
    /// has that id.
    pub fn remove(&mut self, id: u32) -> (r: Option<Vec<u32>>)
        requires
            old(self).wf(),
        ensures
            final(self).wf(),
            r is Some <==> old(self)@.has(id),
            r matches Some(positions) ==> {
                &&& positions@ == old(self)@.removal_positions(id).map_values(|p: int| p as u32)
                &&& final(self)@ == old(self)@.after_remove(id)
            },
            r is None ==> final(self)@ == old(self)@,
    {
        match self.tree.remove_with_positions(id) {
            Ok((_, positions)) => Some(positions),
            Err(_) => None,
        }
    }

    /// The current position of the node with this id, if there is one.
    pub fn get_index(&self, id: u32) -> (r: Option<u32>)
        requires
            self.wf(),
        ensures
            r is Some <==> self@.has(id),
            r matches Some(i) ==> i < self@.arena.len() && i == position_of(self@.arena, id)
                && self@.arena[i as int].id == id,
    {
        match self.tree.get_index(id) {
            Ok(i) => Some(i),
            Err(_) => None,
        }
    }

    /// A copy of the node with this id, if there is one.
    pub fn get_node(&self, id: u32) -> (r: Option<Node>)
        requires
            self.wf(),
        ensures
            r is Some <==> self@.has(id),
            r matches Some(n) ==> n@ == self@.node(id),
    {
        self.tree.get_node(id)
    }

    /// The nodes in arena order.
    pub fn arena(&self) -> (r: &Vec<Node>)
        ensures
            r@.map_values(|n: Node| n@) == self@.arena,
    {
        self.tree.arena()
    }

    /// Every root in arena order, each followed depth first by the nodes
    /// below it, as depth and id.
    pub fn outline(&self) -> (r: Vec<(usize, u32)>)
        requires
            self.wf(),
        ensures
            widen(r@) == self@.outline(),
    {
        self.tree.outline()
    }

    /// The last id handed out (0 before the first); `add` and `insert` need
    /// it below `u32::MAX`.
    pub fn last_id(&self) -> (r: u32)
        ensures
            r == self@.next_id,
    {
        self.tree.last_id()
    }
}

} // verus!

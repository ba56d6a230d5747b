//! The node tree: an arena of nodes addressed by ids that are handed out in
//! increasing order and never reused.
use vstd::prelude::*;

use crate::lemmas::{
    lemma_outline_step, lemma_add_keeps_wf, lemma_ids_floor, lemma_insert_keeps_wf, lemma_outline_close,
    lemma_outline_open, lemma_position_of, lemma_prune_step, lemma_reaches_after,
    lemma_removal_contains, lemma_remove_keeps_wf, lemma_subtree_positions, lemma_widen_push,
};
use crate::model::{
    outline_children, outline_forest, outline_from, position_of, prune, reaches, subtree_positions,
    widen, NodeView, TreeView,
};

verus! {

/// The one way a tree operation can fail.
#[derive(Debug, Clone, Copy, PartialEq, Eq, Structural)]
pub enum Error {
    /// No node of the tree has the id given.
    InvalidNodeId,
}

pub type Result<T> = core::result::Result<T, Error>;

/// A node of the tree: its id, its parent's id (none for a root) and its
/// children's ids in insertion order.
#[derive(Debug, Default, Clone, PartialEq, Eq)]
pub struct Node {
    id: u32,
    parent_id: Option<u32>,
    child_ids: Vec<u32>,
}

impl View for Node {
    type V = NodeView;

    closed spec fn view(&self) -> NodeView {
        NodeView { id: self.id, parent_id: self.parent_id, child_ids: self.child_ids@ }
    }
}

impl Node {
    pub fn new(id: u32, parent_id: Option<u32>, child_ids: Vec<u32>) -> (r: Node)
        ensures
            r@ == (NodeView { id, parent_id, child_ids: child_ids@ }),
    {
        Node { id, parent_id, child_ids }
    }

    pub fn id(&self) -> (r: u32)
        ensures
            r == self@.id,
    {
        self.id
    }

    pub fn parent_id(&self) -> (r: Option<u32>)
        ensures
            r == self@.parent_id,
    {
        self.parent_id
    }

    pub fn child_ids(&self) -> (r: &Vec<u32>)
        ensures
            r@ == self@.child_ids,
    {
        &self.child_ids
    }

    /// The same list as `child_ids`.
    pub fn children(&self) -> (r: &Vec<u32>)
        ensures
            r@ == self@.child_ids,
    {
        &self.child_ids
    }

    /// A copy of the node, element by element.
    fn duplicate(&self) -> (r: Node)
        ensures
            r@ == self@,
    {
        let mut child_ids: Vec<u32> = Vec::new();
        let mut c: usize = 0;
        while c < self.child_ids.len()
            invariant
                c <= self.child_ids@.len(),
                child_ids@ == self.child_ids@.take(c as int),
            decreases self.child_ids@.len() - c,
        {
            child_ids.push(self.child_ids[c]);
            c += 1;
            assert(child_ids@ =~= self.child_ids@.take(c as int));
        }
        assert(child_ids@ =~= self.child_ids@);
        Node { id: self.id, parent_id: self.parent_id, child_ids }
    }
}

/// Whether `ids` holds `x`.
fn holds(ids: &Vec<u32>, x: u32) -> (r: bool)
    ensures
        r == ids@.contains(x),
{
    let mut i: usize = 0;
    while i < ids.len()
        invariant
            i <= ids@.len(),
            forall|j: int| 0 <= j < i ==> ids@[j] != x,
        decreases ids@.len() - i,
    {
        if ids[i] == x {
            return true;
        }
        i += 1;
    }
    false
}

/// The ids of `ids` that `gone` does not hold, order kept.
fn keep_ids(ids: &Vec<u32>, gone: &Vec<u32>) -> (r: Vec<u32>)
    ensures
        r@ == ids@.filter(|c: u32| !gone@.contains(c)),
{
    let mut r: Vec<u32> = Vec::new();
    let mut i: usize = 0;
    while i < ids.len()
        invariant
            i <= ids@.len(),
            r@ == ids@.take(i as int).filter(|c: u32| !gone@.contains(c)),
        decreases ids@.len() - i,
    {
        let x = ids[i];
        proof {
            assert(ids@.take(i as int + 1) =~= ids@.take(i as int).push(x));
            ids@.take(i as int).lemma_filter_push(x, |c: u32| !gone@.contains(c));
        }
        let dropped = holds(gone, x);
        if !dropped {
            r.push(x);
        }
        i += 1;
    }
    assert(ids@.take(ids@.len() as int) =~= ids@);
    r
}

/// The tree: the last id handed out and the arena of nodes.
#[derive(Default, Clone)]
pub struct Tree {
    next_id: u32,
    arena: Vec<Node>,
}

impl View for Tree {
    type V = TreeView;

    closed spec fn view(&self) -> TreeView {
        TreeView { next_id: self.next_id as nat, arena: self.arena@.map_values(|n: Node| n@) }
    }
}

impl Tree {
    /// The tree invariant, on the model.
    pub open spec fn wf(&self) -> bool {
        self@.wf()
    }

    /// An empty tree, its counter at 0.
    pub fn new() -> (r: Tree)
        ensures
            r.wf(),
            r@ == TreeView::empty(),
    {
        let r = Tree { next_id: 0, arena: Vec::new() };
        assert(r@.arena =~= Seq::empty());
        r
    }

    /// Appends a new root and returns its id.
    pub fn add(&mut self) -> (r: u32)
        requires
            old(self).wf(),
            old(self)@.can_allocate(),
        ensures
            final(self).wf(),
            final(self)@ == old(self)@.after_add(),
            r == old(self)@.new_id(),
    {
        let ghost before = self@;
        self.next_id += 1;
        self.arena.push(Node { id: self.next_id, parent_id: None, child_ids: Vec::new() });
        proof {
            lemma_add_keeps_wf(before);
            assert(self@.arena =~= before.after_add().arena);
        }
        self.next_id
    }

    /// Appends a new child of `parent_id` and returns its id.
    pub fn insert(&mut self, parent_id: u32) -> (r: Result<u32>)
        requires
            old(self).wf(),
            old(self)@.can_allocate(),
        ensures
            final(self).wf(),
            r is Ok <==> old(self)@.has(parent_id),
            r matches Ok(id) ==> id == old(self)@.new_id() && final(self)@ == old(self)@.after_insert(parent_id),
            r matches Err(e) ==> e == Error::InvalidNodeId && final(self)@ == old(self)@,
    {
        let ghost before = self@;
        match self.get_index(parent_id) {
            Ok(index) => {
                proof {
                    assert(before.arena.len() == self.arena@.len());
                    lemma_position_of(before.arena, parent_id);
                }
                let ghost k = index as int;
                let ghost held = self.arena@;
                self.next_id += 1;
                let id = self.next_id;
                self.arena[index as usize].child_ids.push(id);
                assert(self.arena@[k]@ == before.arena[k].adopt(id));
                assert(forall|j: int| 0 <= j < held.len() && j != k ==> self.arena@[j] == held[j]);
                self.arena.push(Node { id, parent_id: Some(parent_id), child_ids: Vec::new() });
                proof {
                    lemma_insert_keeps_wf(before, parent_id);
                    assert(self@.arena =~= before.after_insert(parent_id).arena);
                }
                Ok(id)
            },
            Err(e) => Err(e),
        }
    }

    /// Ids and positions of the node at `start` and of every node below it,
    /// in arena order: one forward walk, as descendants always sit after
    /// their ancestors.
    fn collect_subtree(&self, start: usize) -> (r: (Vec<u32>, Vec<u32>))
        requires
            self.wf(),
            start < self@.arena.len(),
        ensures
            r.0@ == self@.removal(self@.arena[start as int].id),
            r.1@ == self@.removal_positions(self@.arena[start as int].id).map_values(|p: int| p as u32),
    {
        let ghost s = self@.arena;
        let root = self.arena[start].id;
        let mut removed: Vec<u32> = Vec::new();
        let mut positions: Vec<u32> = Vec::new();
        proof {
            lemma_ids_floor(self@, s.len() as int);
            assert(s[start as int] == self.arena@[start as int]@);
            lemma_subtree_positions(s, root, start as int);
            assert(subtree_positions(s, root, start as int) =~= Seq::empty()) by {
                if subtree_positions(s, root, start as int).len() > 0 {
                    let q = subtree_positions(s, root, start as int)[0];
                    lemma_reaches_after(s, q, root, start as int);
                }
            }
        }
        let mut i: usize = start;
        while i < self.arena.len()
            invariant
                self.wf(),
                s == self@.arena,
                s.len() == self.arena@.len(),
                start <= i <= s.len(),
                s[start as int].id == root,
                removed@ == subtree_positions(s, root, i as int).map_values(|j: int| s[j].id),
                positions@ == subtree_positions(s, root, i as int).map_values(|j: int| j as u32),
                s.len() <= u32::MAX,
            decreases s.len() - i,
        {
            let node = &self.arena[i];
            assert(s[i as int] == node@);
            let take = if i == start {
                true
            } else {
                match node.parent_id {
                    Some(p) => holds(&removed, p),
                    None => false,
                }
            };
            proof {
                let ii = i as int;
                if ii != start {
                    assert(s[start as int].id < s[ii].id);
                    if let Some(p) = s[ii].parent_id {
                        let j = position_of(s, p);
                        assert(0 <= j < ii);
                        lemma_position_of(s, p);
                        lemma_removal_contains(self@, root, ii, p, j);
                    }
                }
                assert(take == reaches(s, ii, root));
            }
            if take {
                removed.push(node.id);
                positions.push(i as u32);
            }
            i += 1;
            assert(removed@ =~= subtree_positions(s, root, i as int).map_values(|j: int| s[j].id));
            assert(positions@ =~= subtree_positions(s, root, i as int).map_values(|j: int| j as u32));
        }
        (removed, positions)
    }

    /// The arena without the nodes whose id `gone` holds, each survivor's
    /// child list cleared of those ids.
    fn pruned(&self, gone: &Vec<u32>) -> (r: Vec<Node>)
        ensures
            r@.map_values(|n: Node| n@) == prune(self@.arena, gone@),
    {
        let ghost s = self@.arena;
        let mut r: Vec<Node> = Vec::new();
        let mut i: usize = 0;
        assert(s.take(0) =~= Seq::<NodeView>::empty());
        while i < self.arena.len()
            invariant
                s == self@.arena,
                s.len() == self.arena@.len(),
                i <= s.len(),
                r@.map_values(|n: Node| n@) == prune(s.take(i as int), gone@),
            decreases s.len() - i,
        {
            let node = &self.arena[i];
            assert(s[i as int] == node@);
            proof {
                lemma_prune_step(s, gone@, i as int);
            }
            if !holds(gone, node.id) {
                let child_ids = keep_ids(&node.child_ids, gone);
                r.push(Node { id: node.id, parent_id: node.parent_id, child_ids });
            }
            i += 1;
            assert(r@.map_values(|n: Node| n@) =~= prune(s.take(i as int), gone@));
        }
        assert(s.take(s.len() as int) =~= s);
        r
    }

    /// Removes the node with this id together with every node below it, and
    /// returns their ids and the positions they held.
    pub(crate) fn remove_with_positions(&mut self, id: u32) -> (r: Result<(Vec<u32>, Vec<u32>)>)
        requires
            old(self).wf(),
        ensures
            final(self).wf(),
            r is Ok <==> old(self)@.has(id),
            r matches Ok(out) ==> {
                &&& out.0@ == old(self)@.removal(id)
                &&& out.1@ == old(self)@.removal_positions(id).map_values(|p: int| p as u32)
                &&& final(self)@ == old(self)@.after_remove(id)
            },
            r matches Err(e) ==> e == Error::InvalidNodeId && final(self)@ == old(self)@,
    {
        let ghost before = self@;
        let index = match self.get_index(id) {
            Ok(index) => index as usize,
            Err(e) => return Err(e),
        };
        let (removed, positions) = self.collect_subtree(index);
        self.arena = self.pruned(&removed);
        proof {
            lemma_remove_keeps_wf(before, id);
            assert(self@.arena =~= before.after_remove(id).arena);
        }
        Ok((removed, positions))
    }

    /// Removes the node with this id together with every node below it, and
    /// returns their ids: the target first, then the others in arena order.
    pub fn remove(&mut self, id: u32) -> (r: Result<Vec<u32>>)
        requires
            old(self).wf(),
        ensures
            final(self).wf(),
            r is Ok <==> old(self)@.has(id),
            r matches Ok(ids) ==> ids@ == old(self)@.removal(id) && final(self)@ == old(self)@.after_remove(id),
            r matches Err(e) ==> e == Error::InvalidNodeId && final(self)@ == old(self)@,
    {
        match self.remove_with_positions(id) {
            Ok((ids, _)) => Ok(ids),
            Err(e) => Err(e),
        }
    }

    /// The current position of the node with this id.
    pub fn get_index(&self, id: u32) -> (r: Result<u32>)
        requires
            self.wf(),
        ensures
            r is Ok <==> self@.has(id),
            r matches Ok(i) ==> i < self@.arena.len() && i == position_of(self@.arena, id) && self@.arena[i as int].id == id,
            r matches Err(e) ==> e == Error::InvalidNodeId,
    {
        proof {
            lemma_ids_floor(self@, self@.arena.len() as int);
        }
        let mut i: usize = 0;
        while i < self.arena.len()
            invariant
                i <= self@.arena.len(),
                self.wf(),
                self@.arena.len() == self.arena@.len(),
                self@.arena.len() <= u32::MAX,
                forall|j: int| 0 <= j < i ==> self@.arena[j].id != id,
            decreases self.arena@.len() - i,
        {
            if self.arena[i].id == id {
                assert(self@.arena[i as int] == self.arena@[i as int]@);
                assert(self@.arena[i as int].id == id);
                proof {
                    lemma_position_of(self@.arena, id);
                }
                return Ok(i as u32);
            }
            i += 1;
        }
        Err(Error::InvalidNodeId)
    }

    /// A copy of the node with this id, if there is one.
    pub fn get_node(&self, id: u32) -> (r: Option<Node>)
        requires
            self.wf(),
        ensures
            r is Some <==> self@.has(id),
            r matches Some(n) ==> n@ == self@.node(id),
    {
        let mut i: usize = 0;
        while i < self.arena.len()
            invariant
                i <= self@.arena.len(),
                self.wf(),
                self@.arena.len() == self.arena@.len(),
                forall|j: int| 0 <= j < i ==> self@.arena[j].id != id,
            decreases self.arena@.len() - i,
        {
            if self.arena[i].id == id {
                assert(self@.arena[i as int] == self.arena@[i as int]@);
                assert(self@.arena[i as int].id == id);
                proof {
                    lemma_position_of(self@.arena, id);
                }
                return Some(self.arena[i].duplicate());
            }
            i += 1;
        }
        None
    }

    /// The position of the `c`-th child of the node at position `i`, which
    /// lies after it.
    fn child_position(&self, i: usize, c: usize) -> (q: usize)
        requires
            self.wf(),
            i < self@.arena.len(),
            c < self@.arena[i as int].child_ids.len(),
        ensures
            q == position_of(self@.arena, self@.arena[i as int].child_ids[c as int]),
            i < q < self@.arena.len(),
    {
        let ghost s = self@.arena;
        assert(s[i as int] == self.arena@[i as int]@);
        let x = self.arena[i].child_ids[c];
        proof {
            crate::lemmas::lemma_child_allocated(self@, i as int, c as int);
            lemma_position_of(s, x);
            lemma_position_of(s, s[i as int].id);
            let j = position_of(s, x);
            assert(s[j].parent_id == Some(s[i as int].id));
        }
        match self.get_index(x) {
            Ok(q) => q as usize,
            Err(_) => i,
        }
    }

    /// Appends the outline of the node at position `i`, at `depth`.
    #[verifier::rlimit(40)]
    fn outline_node(&self, i: usize, depth: usize, out: &mut Vec<(usize, u32)>)
        requires
            self.wf(),
            i < self@.arena.len(),
            depth <= i,
        ensures
            widen(final(out)@)
                == widen(old(out)@) + outline_from(self@.arena, i as int, depth as nat),
        decreases self@.arena.len() - i,
    {
        let ghost s = self@.arena;
        let ghost start = widen(out@);
        let node = &self.arena[i];
        assert(s[i as int] == node@);
        proof {
            lemma_widen_push(out@, (depth, node.id));
        }
        out.push((depth, node.id));
        proof {
            lemma_outline_open(start, s, i as int, depth as nat);
        }
        let mut c: usize = 0;
        while c < node.child_ids.len()
            invariant
                self.wf(),
                s == self@.arena,
                s.len() == self.arena@.len(),
                i < s.len(),
                depth <= i,
                s[i as int] == node@,
                c <= s[i as int].child_ids.len(),
                widen(out@)
                    == start + seq![(depth as nat, s[i as int].id)] + outline_children(s, i as int, c as int, depth as nat + 1),
            decreases s[i as int].child_ids.len() - c,
        {
            let q = self.child_position(i, c);
            let ghost head = start + seq![(depth as nat, s[i as int].id)];
            self.outline_node(q, depth + 1, out);
            proof {
                lemma_outline_step(head, s, i as int, c as int, depth as nat + 1);
            }
            c += 1;
        }
        proof {
            lemma_outline_close(start, s, i as int, depth as nat);
        }
    }

    /// Every root in arena order, each followed depth first by the nodes
    /// below it, as depth and id: what a readable dump of the forest shows.
    pub fn outline(&self) -> (r: Vec<(usize, u32)>)
        requires
            self.wf(),
        ensures
            widen(r@) == self@.outline(),
    {
        let ghost s = self@.arena;
        let mut out: Vec<(usize, u32)> = Vec::new();
        let mut i: usize = 0;
        while i < self.arena.len()
            invariant
                self.wf(),
                s == self@.arena,
                s.len() == self.arena@.len(),
                i <= s.len(),
                widen(out@) == outline_forest(s, i as int),
            decreases s.len() - i,
        {
            assert(s[i as int] == self.arena@[i as int]@);
            if self.arena[i].parent_id.is_none() {
                self.outline_node(i, 0, &mut out);
            }
            i += 1;
        }
        out
    }

    /// The nodes in arena order.
    pub fn arena(&self) -> (r: &Vec<Node>)
        ensures
            r@.map_values(|n: Node| n@) == self@.arena,
    {
        &self.arena
    }

    /// The last id handed out (0 before the first); `add` and `insert` need
    /// it below `u32::MAX`.
    pub fn last_id(&self) -> (r: u32)
        ensures
            r == self@.next_id,
    {
        self.next_id
    }
}

} // verus!

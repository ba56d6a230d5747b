//! Mathematical model of a node tree: nodes as plain records, the arena as a
//! sequence of them, and the effect of each tree operation as a spec function.
use vstd::prelude::*;

verus! {

/// What a node is, seen from specifications.
pub struct NodeView {
    pub id: u32,
    pub parent_id: Option<u32>,
    pub child_ids: Seq<u32>,
}

impl NodeView {
    /// A node with no children yet.
    pub open spec fn fresh(id: u32, parent_id: Option<u32>) -> NodeView {
        NodeView { id, parent_id, child_ids: Seq::empty() }
    }

    /// The node with `child` appended to its child list.
    pub open spec fn adopt(self, child: u32) -> NodeView {
        NodeView { id: self.id, parent_id: self.parent_id, child_ids: self.child_ids.push(child) }
    }

    /// The node with every id of `gone` dropped from its child list.
    pub open spec fn forget(self, gone: Seq<u32>) -> NodeView {
        NodeView {
            id: self.id,
            parent_id: self.parent_id,
            child_ids: self.child_ids.filter(|c: u32| !gone.contains(c)),
        }
    }
}

/// Ids grow strictly along the arena.
pub open spec fn ids_increasing(nodes: Seq<NodeView>) -> bool {
    forall|i: int, j: int| 0 <= i < j < nodes.len() ==> nodes[i].id < nodes[j].id
}

/// The last position that holds `id`, or -1 where none does.
pub open spec fn position_of(nodes: Seq<NodeView>, id: u32) -> int
    decreases nodes.len(),
{
    if nodes.len() == 0 {
        -1
    } else if nodes.last().id == id {
        nodes.len() - 1
    } else {
        position_of(nodes.drop_last(), id)
    }
}

/// The node at position `i` is the node `root` or lies below it: following
/// parent links up from it meets `root`.
pub open spec fn reaches(nodes: Seq<NodeView>, i: int, root: u32) -> bool
    decreases i,
{
    if !(0 <= i < nodes.len()) {
        false
    } else if nodes[i].id == root {
        true
    } else {
        match nodes[i].parent_id {
            Some(p) => {
                let j = position_of(nodes, p);
                0 <= j < i && reaches(nodes, j, root)
            },
            None => false,
        }
    }
}

/// The positions among the first `n` whose node is `root` or lies below it,
/// in arena order.
pub open spec fn subtree_positions(nodes: Seq<NodeView>, root: u32, n: int) -> Seq<int>
    decreases n,
{
    if n <= 0 {
        Seq::empty()
    } else {
        let before = subtree_positions(nodes, root, n - 1);
        if reaches(nodes, n - 1, root) {
            before.push(n - 1)
        } else {
            before
        }
    }
}

/// The arena without the nodes whose id is in `gone`, each survivor's child
/// list cleared of those ids, order kept.
pub open spec fn prune(nodes: Seq<NodeView>, gone: Seq<u32>) -> Seq<NodeView>
    decreases nodes.len(),
{
    if nodes.len() == 0 {
        Seq::empty()
    } else {
        let before = prune(nodes.drop_last(), gone);
        if gone.contains(nodes.last().id) {
            before
        } else {
            before.push(nodes.last().forget(gone))
        }
    }
}

/// How many of the first `i` nodes have their id in `gone`.
pub open spec fn gone_before(nodes: Seq<NodeView>, gone: Seq<u32>, i: int) -> int
    decreases i,
{
    if i <= 0 {
        0
    } else {
        gone_before(nodes, gone, i - 1) + if gone.contains(nodes[i - 1].id) {
            1int
        } else {
            0int
        }
    }
}

/// How many of the first `i` nodes survive the removal of `gone`.
pub open spec fn kept(nodes: Seq<NodeView>, gone: Seq<u32>, i: int) -> int {
    prune(nodes.take(i), gone).len() as int
}

/// What a tree is, seen from specifications: the last id handed out and the
/// arena.
pub struct TreeView {
    pub next_id: nat,
    pub arena: Seq<NodeView>,
}

impl TreeView {
    pub open spec fn empty() -> TreeView {
        TreeView { next_id: 0, arena: Seq::empty() }
    }

    /// Some node of the arena has this id.
    pub open spec fn has(self, id: u32) -> bool {
        exists|i: int| 0 <= i < self.arena.len() && self.arena[i].id == id
    }

    /// The node with this id (meaningful where `has(id)`).
    pub open spec fn node(self, id: u32) -> NodeView {
        self.arena[position_of(self.arena, id)]
    }

    /// The id that the next creation hands out.
    pub open spec fn new_id(self) -> u32 {
        (self.next_id + 1) as u32
    }

    /// The counter can hand out one more id.
    pub open spec fn can_allocate(self) -> bool {
        self.next_id < u32::MAX
    }

    /// The tree after `add`: a new root at the tail.
    pub open spec fn after_add(self) -> TreeView {
        TreeView {
            next_id: self.next_id + 1,
            arena: self.arena.push(NodeView::fresh(self.new_id(), None)),
        }
    }

    /// The tree after `insert(parent)`: the parent's child list gains the new
    /// id as its last entry, and the new node goes to the tail.
    pub open spec fn after_insert(self, parent: u32) -> TreeView {
        let k = position_of(self.arena, parent);
        TreeView {
            next_id: self.next_id + 1,
            arena: self.arena.update(k, self.arena[k].adopt(self.new_id())).push(
                NodeView::fresh(self.new_id(), Some(parent)),
            ),
        }
    }

    /// Positions of `id` and of every node below it, in arena order.
    pub open spec fn removal_positions(self, id: u32) -> Seq<int> {
        subtree_positions(self.arena, id, self.arena.len() as int)
    }

    /// Ids of `id` and of every node below it, in arena order; `id` comes
    /// first since every node sits after its ancestors.
    pub open spec fn removal(self, id: u32) -> Seq<u32> {
        self.removal_positions(id).map_values(|i: int| self.arena[i].id)
    }

    /// The tree after `remove(id)`.
    pub open spec fn after_remove(self, id: u32) -> TreeView {
        TreeView { next_id: self.next_id, arena: prune(self.arena, self.removal(id)) }
    }

    /// Every id lies in 1 ..= next_id, and the counter fits in a `u32`.
    pub open spec fn ids_allocated(self) -> bool {
        &&& self.next_id <= u32::MAX
        &&& forall|i: int| 0 <= i < self.arena.len() ==> 0 < #[trigger] self.arena[i].id <= self.next_id
    }

    /// Every parent is present, at an earlier position, and lists the child.
    pub open spec fn parents_linked(self) -> bool {
        forall|i: int|
            0 <= i < self.arena.len() && (#[trigger] self.arena[i]).parent_id is Some ==> {
                let j = position_of(self.arena, self.arena[i].parent_id->0);
                &&& 0 <= j < i
                &&& self.arena[j].child_ids.contains(self.arena[i].id)
            }
    }

    /// Every listed child is present and names the lister as its parent.
    pub open spec fn children_linked(self) -> bool {
        forall|i: int, c: int|
            #![trigger self.arena[i].child_ids[c]]
            0 <= i < self.arena.len() && 0 <= c < self.arena[i].child_ids.len() ==> {
                let j = position_of(self.arena, self.arena[i].child_ids[c]);
                &&& 0 <= j < self.arena.len()
                &&& self.arena[j].parent_id == Some(self.arena[i].id)
            }
    }

    /// Child lists grow strictly, so they keep insertion order and hold no
    /// duplicates.
    pub open spec fn children_ordered(self) -> bool {
        forall|i: int, a: int, b: int|
            #![trigger self.arena[i].child_ids[a], self.arena[i].child_ids[b]]
            0 <= i < self.arena.len() && 0 <= a < b < self.arena[i].child_ids.len()
                ==> self.arena[i].child_ids[a] < self.arena[i].child_ids[b]
    }

    /// The invariant that every operation keeps.
    pub open spec fn wf(self) -> bool {
        &&& ids_increasing(self.arena)
        &&& self.ids_allocated()
        &&& self.parents_linked()
        &&& self.children_linked()
        &&& self.children_ordered()
    }
}

/// The node at position `i` and, depth first, every node below it, each as
/// its depth and id; children come in child-list order.
pub open spec fn outline_from(nodes: Seq<NodeView>, i: int, depth: nat) -> Seq<(nat, u32)>
    decreases nodes.len() - i, nodes[i].child_ids.len() + 1,
{
    if !(0 <= i < nodes.len()) {
        Seq::empty()
    } else {
        seq![(depth, nodes[i].id)] + outline_children(nodes, i, nodes[i].child_ids.len() as int, depth + 1)
    }
}

/// The outlines of the first `c` children of the node at position `p`.
pub open spec fn outline_children(nodes: Seq<NodeView>, p: int, c: int, depth: nat) -> Seq<(nat, u32)>
    decreases nodes.len() - p, c,
{
    if !(0 <= p < nodes.len()) || c <= 0 || c > nodes[p].child_ids.len() {
        Seq::empty()
    } else {
        let q = position_of(nodes, nodes[p].child_ids[c - 1]);
        outline_children(nodes, p, c - 1, depth) + if p < q < nodes.len() {
            outline_from(nodes, q, depth)
        } else {
            Seq::empty()
        }
    }
}

/// The outlines of the roots among the first `n` nodes, in arena order.
pub open spec fn outline_forest(nodes: Seq<NodeView>, n: int) -> Seq<(nat, u32)>
    decreases n,
{
    if n <= 0 {
        Seq::empty()
    } else {
        outline_forest(nodes, n - 1) + if nodes[n - 1].parent_id is None {
            outline_from(nodes, n - 1, 0)
        } else {
            Seq::empty()
        }
    }
}

/// An outline as handed out, with depths widened to `nat`.
pub open spec fn widen(entries: Seq<(usize, u32)>) -> Seq<(nat, u32)> {
    entries.map_values(|e: (usize, u32)| (e.0 as nat, e.1))
}

impl TreeView {
    /// Every root in arena order, each followed depth first by the nodes
    /// below it, as depth and id.
    pub open spec fn outline(self) -> Seq<(nat, u32)> {
        outline_forest(self.arena, self.arena.len() as int)
    }
}

} // verus!

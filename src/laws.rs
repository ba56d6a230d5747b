//! Laws that relate the tree operations to one another, stated over the
//! model and proved.
use vstd::prelude::*;

use crate::lemmas::{
    lemma_kept_count, lemma_position_of, lemma_prune_position, lemma_removal_has,
    lemma_subtree_positions,
};
use crate::model::{
    gone_before, ids_increasing, position_of, prune, reaches, NodeView, TreeView,
};

verus! {

/// The tree after `n` calls of `add`.
pub open spec fn after_adds(t: TreeView, n: nat) -> TreeView
    decreases n,
{
    if n == 0 {
        t
    } else {
        after_adds(t, (n - 1) as nat).after_add()
    }
}

/// Starting from an empty tree, `n` calls of `add` hand out 1, 2, ..., n in
/// call order, each call finds room for its id, and afterwards the node with
/// id `k` sits at position `k - 1`, a root.
pub proof fn law_adds_number_in_order(n: nat)
    requires
        n <= u32::MAX,
    ensures
        forall|k: nat| k < n ==> #[trigger] after_adds(TreeView::empty(), k).can_allocate()
            && after_adds(TreeView::empty(), k).new_id() == k + 1,
        after_adds(TreeView::empty(), n).arena.len() == n,
        forall|k: int| 0 <= k < n ==> {
            &&& #[trigger] after_adds(TreeView::empty(), n).arena[k] == NodeView::fresh((k + 1) as u32, None)
            &&& position_of(after_adds(TreeView::empty(), n).arena, (k + 1) as u32) == k
        },
{
    lemma_after_adds(n);
    let s = after_adds(TreeView::empty(), n).arena;
    assert forall|k: int| 0 <= k < n implies #[trigger] s[k] == NodeView::fresh((k + 1) as u32, None) && position_of(s, (k + 1) as u32) == k by {
        lemma_position_of(s, (k + 1) as u32);
        assert(s[k].id == (k + 1) as u32);
    }
}

proof fn lemma_after_adds(n: nat)
    requires
        n <= u32::MAX,
    ensures
        after_adds(TreeView::empty(), n).next_id == n,
        after_adds(TreeView::empty(), n).arena.len() == n,
        forall|k: int| 0 <= k < n ==> (#[trigger] after_adds(TreeView::empty(), n).arena[k]) == NodeView::fresh((k + 1) as u32, None),
        ids_increasing(after_adds(TreeView::empty(), n).arena),
        forall|k: nat| k < n ==> #[trigger] after_adds(TreeView::empty(), k).can_allocate()
            && after_adds(TreeView::empty(), k).new_id() == k + 1,
    decreases n,
{
    if n > 0 {
        lemma_after_adds((n - 1) as nat);
        let before = after_adds(TreeView::empty(), (n - 1) as nat);
        assert forall|k: int| 0 <= k < n implies (#[trigger] after_adds(TreeView::empty(), n).arena[k]) == NodeView::fresh((k + 1) as u32, None) by {
            if k < n - 1 {
                assert(after_adds(TreeView::empty(), n).arena[k] == before.arena[k]);
            }
        }
    }
}

/// `insert` on a present parent hands out the id one above the counter,
/// which exceeds every id handed out before, and appends it as the last
/// entry of the parent's child list.
pub proof fn law_insert_appends_child(t: TreeView, parent: u32)
    requires
        t.wf(),
        t.has(parent),
        t.can_allocate(),
    ensures
        t.new_id() == t.next_id + 1,
        forall|i: int| 0 <= i < t.arena.len() ==> #[trigger] t.arena[i].id < t.new_id(),
        t.after_insert(parent).node(parent).child_ids == t.node(parent).child_ids.push(t.new_id()),
        t.after_insert(parent).node(t.new_id()) == NodeView::fresh(t.new_id(), Some(parent)),
{
    let u = t.after_insert(parent);
    let k = position_of(t.arena, parent);
    lemma_position_of(t.arena, parent);
    crate::lemmas::lemma_insert_keeps_wf(t, parent);
    lemma_position_of(u.arena, parent);
    lemma_position_of(u.arena, t.new_id());
    assert(u.arena[k].id == parent);
    assert(u.arena[t.arena.len() as int].id == t.new_id());
    assert forall|i: int| 0 <= i < t.arena.len() implies #[trigger] t.arena[i].id < t.new_id() by {
        assert(t.arena[i].id <= t.next_id);
    }
}

/// `remove(id)` takes out exactly `id` and its descendants: the list starts
/// with `id`, holds no id twice, names only nodes of the tree, holds every
/// child of every node it holds, and holds no other node than `id` whose
/// parent it does not hold. Afterwards none of those ids is in the tree and
/// no child list names one.
pub proof fn law_removal_is_subtree(t: TreeView, id: u32)
    requires
        t.wf(),
        t.has(id),
    ensures
        t.removal(id).len() >= 1,
        t.removal(id)[0] == id,
        t.removal(id).no_duplicates(),
        forall|x: u32| #[trigger] t.removal(id).contains(x) ==> t.has(x),
        forall|x: u32, c: int|
            t.removal(id).contains(x) && 0 <= c < t.node(x).child_ids.len()
                ==> t.removal(id).contains(#[trigger] t.node(x).child_ids[c]),
        forall|x: u32| #[trigger] t.removal(id).contains(x) && x != id
            ==> t.node(x).parent_id is Some && t.removal(id).contains(t.node(x).parent_id->0),
        forall|x: u32| #[trigger] t.removal(id).contains(x) ==> !t.after_remove(id).has(x),
        forall|m: int, c: int|
            0 <= m < t.after_remove(id).arena.len() && 0 <= c < t.after_remove(id).arena[m].child_ids.len()
                ==> !t.removal(id).contains(#[trigger] t.after_remove(id).arena[m].child_ids[c]),
{
    let s = t.arena;
    let n = s.len() as int;
    let r = t.removal(id);
    let pos = t.removal_positions(id);
    let k = position_of(s, id);
    lemma_position_of(s, id);
    lemma_subtree_positions(s, id, n);
    // the target comes first
    assert(reaches(s, k, id));
    let mk = choose|m: int| 0 <= m < pos.len() && pos[m] == k;
    assert(pos[0] == k) by {
        if pos[0] != k {
            crate::lemmas::lemma_reaches_after(s, pos[0], id, k);
            assert(pos[0] < pos[mk]);
        }
    }
    // an id of the list names the node at its position
    assert forall|x: u32| #[trigger] r.contains(x) implies t.has(x) && reaches(s, position_of(s, x), id)
        && 0 <= position_of(s, x) < n && s[position_of(s, x)].id == x by {
        let m = choose|m: int| 0 <= m < r.len() && r[m] == x;
        lemma_position_of(s, x);
        assert(s[pos[m]].id == x);
    }
    assert(r.no_duplicates()) by {
        assert forall|a: int, b: int| 0 <= a < r.len() && 0 <= b < r.len() && a != b implies r[a] != r[b] by {
            if a < b {
                assert(s[pos[a]].id < s[pos[b]].id);
            } else {
                assert(s[pos[b]].id < s[pos[a]].id);
            }
        }
    }
    assert forall|x: u32, c: int|
        r.contains(x) && 0 <= c < t.node(x).child_ids.len() implies r.contains(#[trigger] t.node(x).child_ids[c]) by {
        let i = position_of(s, x);
        let y = s[i].child_ids[c];
        let j = position_of(s, y);
        crate::lemmas::lemma_child_allocated(t, i, c);
        lemma_position_of(s, y);
        lemma_position_of(s, s[i].id);
        assert(s[j].parent_id == Some(s[i].id));
        assert(position_of(s, s[i].id) == i);
        assert(j > i) by {
            assert(s[j].parent_id is Some);
        }
        assert(reaches(s, j, id)) by {
            if s[j].id != id {
                assert(position_of(s, s[j].parent_id->0) == i);
            }
        }
        lemma_removal_has(t, id, j);
    }
    assert forall|x: u32| #[trigger] r.contains(x) && x != id
        implies t.node(x).parent_id is Some && r.contains(t.node(x).parent_id->0) by {
        let i = position_of(s, x);
        let p = s[i].parent_id->0;
        let j = position_of(s, p);
        lemma_position_of(s, p);
        lemma_removal_has(t, id, j);
    }
    let pr = prune(s, r);
    assert(s.take(n) =~= s);
    crate::lemmas::lemma_prune_increasing(s, r);
    assert forall|x: u32| #[trigger] r.contains(x) implies !t.after_remove(id).has(x) by {
        if t.after_remove(id).has(x) {
            let m = choose|m: int| 0 <= m < pr.len() && pr[m].id == x;
            let i = crate::lemmas::lemma_prune_source(s, r, n, m);
        }
    }
    assert forall|m: int, c: int|
        0 <= m < pr.len() && 0 <= c < pr[m].child_ids.len() implies !r.contains(#[trigger] pr[m].child_ids[c]) by {
        let i = crate::lemmas::lemma_prune_source(s, r, n, m);
        s[i].child_ids.lemma_filter_pred(|c: u32| !r.contains(c), c);
    }
}

/// After `remove(id)`, a surviving node that stood at position `i` stands at
/// `i` less the number of removed nodes before it; nodes before the target
/// keep their position.
pub proof fn law_remove_shifts_positions(t: TreeView, id: u32, i: int)
    requires
        t.wf(),
        t.has(id),
        0 <= i < t.arena.len(),
        !t.removal(id).contains(t.arena[i].id),
    ensures
        position_of(t.after_remove(id).arena, t.arena[i].id) == i - gone_before(t.arena, t.removal(id), i),
        i < position_of(t.arena, id) ==> position_of(t.after_remove(id).arena, t.arena[i].id) == i,
{
    let s = t.arena;
    let r = t.removal(id);
    lemma_prune_position(s, r, i);
    lemma_kept_count(s, r, i);
    let k = position_of(s, id);
    lemma_position_of(s, id);
    if i < k {
        lemma_count_before_target(t, id, i);
    }
}

/// No node before the target is removed with it.
proof fn lemma_count_before_target(t: TreeView, id: u32, i: int)
    requires
        t.wf(),
        0 <= i <= position_of(t.arena, id) < t.arena.len(),
        t.arena[position_of(t.arena, id)].id == id,
    ensures
        gone_before(t.arena, t.removal(id), i) == 0,
    decreases i,
{
    if i > 0 {
        lemma_count_before_target(t, id, i - 1);
        lemma_removal_has(t, id, i - 1);
        if reaches(t.arena, i - 1, id) {
            crate::lemmas::lemma_reaches_after(t.arena, i - 1, id, position_of(t.arena, id));
        }
    }
}

/// One call on a tree.
pub enum Call {
    Add,
    Insert(u32),
    Remove(u32),
}

/// The tree after one call; a call on an absent id changes nothing.
pub open spec fn apply(t: TreeView, call: Call) -> TreeView {
    match call {
        Call::Add => t.after_add(),
        Call::Insert(p) => if t.has(p) {
            t.after_insert(p)
        } else {
            t
        },
        Call::Remove(x) => if t.has(x) {
            t.after_remove(x)
        } else {
            t
        },
    }
}

/// The id that one call hands out, if it hands one out.
pub open spec fn handed_out(t: TreeView, call: Call) -> Option<u32> {
    match call {
        Call::Add => Some(t.new_id()),
        Call::Insert(p) => if t.has(p) {
            Some(t.new_id())
        } else {
            None
        },
        Call::Remove(_) => None,
    }
}

/// The tree after a sequence of calls.
pub open spec fn run(t: TreeView, calls: Seq<Call>) -> TreeView
    decreases calls.len(),
{
    if calls.len() == 0 {
        t
    } else {
        apply(run(t, calls.drop_last()), calls.last())
    }
}

/// Ids are never reused: an id handed out before (at most the counter) is
/// never handed out again by any later sequence of calls, removals and a
/// tree emptied back to no nodes included.
pub proof fn law_ids_never_reused(t: TreeView, calls: Seq<Call>, x: u32)
    requires
        x <= t.next_id,
        forall|k: int| 0 <= k <= calls.len() ==> (#[trigger] run(t, calls.take(k))).can_allocate(),
    ensures
        forall|k: int| 0 <= k < calls.len() ==> handed_out(#[trigger] run(t, calls.take(k)), calls[k]) != Some(x),
{
    assert forall|k: int| 0 <= k < calls.len() implies handed_out(#[trigger] run(t, calls.take(k)), calls[k]) != Some(x) by {
        lemma_counter_grows(t, calls, k);
    }
}

/// The counter never goes down.
proof fn lemma_counter_grows(t: TreeView, calls: Seq<Call>, k: int)
    requires
        0 <= k <= calls.len(),
    ensures
        run(t, calls.take(k)).next_id >= t.next_id,
    decreases k,
{
    if k > 0 {
        lemma_counter_grows(t, calls, k - 1);
        assert(calls.take(k).drop_last() =~= calls.take(k - 1));
    } else {
        assert(calls.take(0) =~= Seq::<Call>::empty());
    }
}

} // verus!

//! Lemmas about the tree model: positions, subtrees, pruning, and that
//! every operation keeps the invariant.
use vstd::prelude::*;

use crate::model::{
    gone_before, ids_increasing, kept, outline_children, outline_from, position_of, prune,
    reaches, subtree_positions, widen, NodeView, TreeView,
};

verus! {

/// With ids increasing, `position_of` finds the one position that holds an
/// id, and -1 exactly where none does.
pub proof fn lemma_position_of(nodes: Seq<NodeView>, id: u32)
    requires
        ids_increasing(nodes),
    ensures
        -1 <= position_of(nodes, id) < nodes.len(),
        position_of(nodes, id) >= 0 ==> nodes[position_of(nodes, id)].id == id,
        forall|j: int| 0 <= j < nodes.len() && #[trigger] nodes[j].id == id ==> position_of(nodes, id) == j,
    decreases nodes.len(),
{
    if nodes.len() > 0 {
        let rest = nodes.drop_last();
        assert(ids_increasing(rest));
        lemma_position_of(rest, id);
        assert forall|j: int| 0 <= j < nodes.len() && #[trigger] nodes[j].id == id implies position_of(nodes, id) == j by {
            if j < nodes.len() - 1 {
                assert(rest[j] == nodes[j]);
            }
        }
    }
}

/// Appending a node leaves the position of every other id as it was.
pub proof fn lemma_position_of_push(nodes: Seq<NodeView>, node: NodeView, id: u32)
    ensures
        position_of(nodes.push(node), id) == if node.id == id {
            nodes.len() as int
        } else {
            position_of(nodes, id)
        },
{
    assert(nodes.push(node).drop_last() =~= nodes);
}

/// An id lies at or above its position plus one, so the arena is no longer
/// than the counter.
pub proof fn lemma_ids_floor(t: TreeView, n: int)
    requires
        ids_increasing(t.arena),
        t.ids_allocated(),
        0 <= n <= t.arena.len(),
    ensures
        forall|i: int| 0 <= i < n ==> t.arena[i].id >= i + 1,
        n <= t.next_id,
    decreases n,
{
    if n > 0 {
        lemma_ids_floor(t, n - 1);
        assert(t.arena[n - 1].id > 0);
        if n > 1 {
            assert(t.arena[n - 2].id < t.arena[n - 1].id);
        }
        assert(t.arena[n - 1].id >= n);
    }
}

/// A listed child is the id of a node, hence at most the counter.
pub proof fn lemma_child_allocated(t: TreeView, i: int, c: int)
    requires
        t.wf(),
        0 <= i < t.arena.len(),
        0 <= c < t.arena[i].child_ids.len(),
    ensures
        t.has(t.arena[i].child_ids[c]),
        0 < t.arena[i].child_ids[c] <= t.next_id,
{
    let x = t.arena[i].child_ids[c];
    lemma_position_of(t.arena, x);
    let j = position_of(t.arena, x);
    assert(t.arena[j].id == x);
}

/// `add` keeps the invariant.
pub proof fn lemma_add_keeps_wf(t: TreeView)
    requires
        t.wf(),
        t.can_allocate(),
    ensures
        t.after_add().wf(),
{
    let u = t.after_add();
    let fresh = NodeView::fresh(t.new_id(), None);
    assert(u.arena == t.arena.push(fresh));
    assert forall|i: int| 0 <= i < u.arena.len() && (#[trigger] u.arena[i]).parent_id is Some implies {
        let j = position_of(u.arena, u.arena[i].parent_id->0);
        &&& 0 <= j < i
        &&& u.arena[j].child_ids.contains(u.arena[i].id)
    } by {
        let p = u.arena[i].parent_id->0;
        assert(t.arena[i] == u.arena[i]);
        let j = position_of(t.arena, p);
        lemma_position_of(t.arena, p);
        lemma_position_of_push(t.arena, fresh, p);
        assert(t.arena[j].id <= t.next_id);
    }
    assert forall|i: int, c: int|
        #![trigger u.arena[i].child_ids[c]]
        0 <= i < u.arena.len() && 0 <= c < u.arena[i].child_ids.len() implies {
        let j = position_of(u.arena, u.arena[i].child_ids[c]);
        &&& 0 <= j < u.arena.len()
        &&& u.arena[j].parent_id == Some(u.arena[i].id)
    } by {
        assert(t.arena[i] == u.arena[i]);
        let x = u.arena[i].child_ids[c];
        lemma_child_allocated(t, i, c);
        lemma_position_of_push(t.arena, fresh, x);
    }
    assert forall|i: int, a: int, b: int|
        #![trigger u.arena[i].child_ids[a], u.arena[i].child_ids[b]]
        0 <= i < u.arena.len() && 0 <= a < b < u.arena[i].child_ids.len()
        implies u.arena[i].child_ids[a] < u.arena[i].child_ids[b] by {
        assert(t.arena[i] == u.arena[i]);
    }
}


/// `insert` on a present parent keeps the invariant.
pub proof fn lemma_insert_keeps_wf(t: TreeView, parent: u32)
    requires
        t.wf(),
        t.can_allocate(),
        t.has(parent),
    ensures
        t.after_insert(parent).wf(),
{
    let u = t.after_insert(parent);
    let n = t.new_id();
    let k = position_of(t.arena, parent);
    lemma_position_of(t.arena, parent);
    let wit = choose|i: int| 0 <= i < t.arena.len() && t.arena[i].id == parent;
    assert(k == wit);
    let mid = t.arena.update(k, t.arena[k].adopt(n));
    let fresh = NodeView::fresh(n, Some(parent));
    assert(u.arena == mid.push(fresh));
    assert(ids_increasing(mid)) by {
        assert forall|i: int, j: int| 0 <= i < j < mid.len() implies mid[i].id < mid[j].id by {
            assert(mid[i].id == t.arena[i].id && mid[j].id == t.arena[j].id);
        }
    }
    // positions of present ids are unchanged in `u`
    assert forall|x: u32| t.has(x) implies position_of(u.arena, x) == position_of(t.arena, x)
        && 0 <= position_of(t.arena, x) < t.arena.len() && t.arena[position_of(t.arena, x)].id == x && x <= t.next_id by {
        let j = choose|j: int| 0 <= j < t.arena.len() && t.arena[j].id == x;
        lemma_position_of(t.arena, x);
        lemma_position_of(mid, x);
        assert(mid[j].id == x);
        lemma_position_of_push(mid, fresh, x);
        assert(t.arena[j].id <= t.next_id);
    }
    lemma_position_of_push(mid, fresh, n);
    assert(ids_increasing(u.arena)) by {
        assert forall|i: int, j: int| 0 <= i < j < u.arena.len() implies u.arena[i].id < u.arena[j].id by {
            if j == t.arena.len() {
                assert(u.arena[i].id == t.arena[i].id);
                assert(t.arena[i].id <= t.next_id);
            } else {
                assert(u.arena[i].id == t.arena[i].id && u.arena[j].id == t.arena[j].id);
            }
        }
    }
    assert(u.ids_allocated()) by {
        assert forall|i: int| 0 <= i < u.arena.len() implies 0 < #[trigger] u.arena[i].id <= u.next_id by {
            if i < t.arena.len() {
                assert(u.arena[i].id == t.arena[i].id);
            }
        }
    }
    assert forall|i: int| 0 <= i < u.arena.len() && (#[trigger] u.arena[i]).parent_id is Some implies {
        let j = position_of(u.arena, u.arena[i].parent_id->0);
        &&& 0 <= j < i
        &&& u.arena[j].child_ids.contains(u.arena[i].id)
    } by {
        let p = u.arena[i].parent_id->0;
        if i == t.arena.len() {
            assert(p == parent);
            assert(u.arena[k].child_ids == t.arena[k].child_ids.push(n));
            assert(u.arena[k].child_ids[t.arena[k].child_ids.len() as int] == n);
        } else {
            assert(u.arena[i].id == t.arena[i].id && u.arena[i].parent_id == t.arena[i].parent_id);
            assert(t.arena[i].parent_id is Some);
            let j = position_of(t.arena, p);
            assert(t.arena[j].id == p) by {
                lemma_position_of(t.arena, p);
            }
            assert(t.has(p));
            let w = choose|w: int| 0 <= w < t.arena[j].child_ids.len() && t.arena[j].child_ids[w] == t.arena[i].id;
            if j == k {
                assert(u.arena[j].child_ids == t.arena[j].child_ids.push(n));
                assert(u.arena[j].child_ids[w] == t.arena[i].id);
            } else {
                assert(u.arena[j] == t.arena[j]);
            }
        }
    }
    assert forall|i: int, c: int|
        #![trigger u.arena[i].child_ids[c]]
        0 <= i < u.arena.len() && 0 <= c < u.arena[i].child_ids.len() implies {
        let j = position_of(u.arena, u.arena[i].child_ids[c]);
        &&& 0 <= j < u.arena.len()
        &&& u.arena[j].parent_id == Some(u.arena[i].id)
    } by {
        let x = u.arena[i].child_ids[c];
        if i == k && c == t.arena[k].child_ids.len() {
            assert(x == n);
        } else {
            assert(i < t.arena.len());
            assert(u.arena[i].id == t.arena[i].id);
            assert(x == t.arena[i].child_ids[c]) by {
                if i == k {
                    assert(u.arena[i].child_ids == t.arena[k].child_ids.push(n));
                }
            }
            lemma_child_allocated(t, i, c);
            let j = position_of(t.arena, x);
            assert(u.arena[j].parent_id == t.arena[j].parent_id);
        }
    }
    assert forall|i: int, a: int, b: int|
        #![trigger u.arena[i].child_ids[a], u.arena[i].child_ids[b]]
        0 <= i < u.arena.len() && 0 <= a < b < u.arena[i].child_ids.len()
        implies u.arena[i].child_ids[a] < u.arena[i].child_ids[b] by {
        if i == k {
            assert(u.arena[i].child_ids == t.arena[k].child_ids.push(n));
            if b == t.arena[k].child_ids.len() {
                lemma_child_allocated(t, k, a);
            } else {
                assert(t.arena[k].child_ids[a] < t.arena[k].child_ids[b]);
            }
        } else {
            assert(i < t.arena.len());
            assert(u.arena[i] == t.arena[i]);
            assert(t.arena[i].child_ids[a] < t.arena[i].child_ids[b]);
        }
    }
}


/// Only the node `root` and nodes after it lie below `root`.
pub proof fn lemma_reaches_after(nodes: Seq<NodeView>, i: int, root: u32, start: int)
    requires
        ids_increasing(nodes),
        0 <= start < nodes.len(),
        nodes[start].id == root,
        reaches(nodes, i, root),
    ensures
        start <= i,
    decreases i,
{
    if nodes[i].id != root {
        let j = position_of(nodes, nodes[i].parent_id->0);
        lemma_reaches_after(nodes, j, root, start);
    }
}

/// `subtree_positions` lists, in increasing order, exactly the positions
/// below `n` that reach `root`.
pub proof fn lemma_subtree_positions(nodes: Seq<NodeView>, root: u32, n: int)
    requires
        0 <= n,
    ensures
        forall|m: int| 0 <= m < subtree_positions(nodes, root, n).len() ==> {
            let q = #[trigger] subtree_positions(nodes, root, n)[m];
            0 <= q < n && reaches(nodes, q, root)
        },
        forall|q: int| 0 <= q < n && #[trigger] reaches(nodes, q, root) ==> subtree_positions(nodes, root, n).contains(q),
        forall|a: int, b: int| 0 <= a < b < subtree_positions(nodes, root, n).len()
            ==> subtree_positions(nodes, root, n)[a] < subtree_positions(nodes, root, n)[b],
    decreases n,
{
    if n > 0 {
        lemma_subtree_positions(nodes, root, n - 1);
        let before = subtree_positions(nodes, root, n - 1);
        let now = subtree_positions(nodes, root, n);
        assert forall|q: int| 0 <= q < n && #[trigger] reaches(nodes, q, root) implies now.contains(q) by {
            if q < n - 1 {
                let m = choose|m: int| 0 <= m < before.len() && before[m] == q;
                assert(now[m] == q);
            } else {
                assert(now[now.len() - 1] == q);
            }
        }
    }
}

/// An id is among those of `subtree_positions` exactly where its node reaches
/// `root`.
pub proof fn lemma_removal_contains(t: TreeView, root: u32, n: int, x: u32, j: int)
    requires
        ids_increasing(t.arena),
        0 <= j < n <= t.arena.len(),
        t.arena[j].id == x,
    ensures
        subtree_positions(t.arena, root, n).map_values(|i: int| t.arena[i].id).contains(x)
            <==> reaches(t.arena, j, root),
{
    let pos = subtree_positions(t.arena, root, n);
    let ids = pos.map_values(|i: int| t.arena[i].id);
    lemma_subtree_positions(t.arena, root, n);
    if ids.contains(x) {
        let m = choose|m: int| 0 <= m < ids.len() && ids[m] == x;
        assert(pos[m] == j) by {
            if pos[m] < j {
                assert(t.arena[pos[m]].id < t.arena[j].id);
            } else if pos[m] > j {
                assert(t.arena[j].id < t.arena[pos[m]].id);
            }
        }
    }
    if reaches(t.arena, j, root) {
        let m = choose|m: int| 0 <= m < pos.len() && pos[m] == j;
        assert(ids[m] == x);
    }
}


/// One more node either survives, pruned, or is dropped.
pub proof fn lemma_prune_step(nodes: Seq<NodeView>, gone: Seq<u32>, i: int)
    requires
        0 <= i < nodes.len(),
    ensures
        prune(nodes.take(i + 1), gone) == if gone.contains(nodes[i].id) {
            prune(nodes.take(i), gone)
        } else {
            prune(nodes.take(i), gone).push(nodes[i].forget(gone))
        },
{
    assert(nodes.take(i + 1).drop_last() =~= nodes.take(i));
}

/// The survivors among the first `i` nodes are counted by what was removed.
pub proof fn lemma_kept_count(nodes: Seq<NodeView>, gone: Seq<u32>, i: int)
    requires
        0 <= i <= nodes.len(),
    ensures
        kept(nodes, gone, i) + gone_before(nodes, gone, i) == i,
    decreases i,
{
    if i == 0 {
        assert(nodes.take(0) =~= Seq::<NodeView>::empty());
    } else {
        lemma_kept_count(nodes, gone, i - 1);
        lemma_prune_step(nodes, gone, i - 1);
    }
}

/// Survivor counts grow with the prefix, strictly past a survivor.
pub proof fn lemma_kept_monotone(nodes: Seq<NodeView>, gone: Seq<u32>, i: int, n: int)
    requires
        0 <= i <= n <= nodes.len(),
    ensures
        kept(nodes, gone, i) <= kept(nodes, gone, n),
        i < n && !gone.contains(nodes[i].id) ==> kept(nodes, gone, i) < kept(nodes, gone, n),
    decreases n - i,
{
    if i < n {
        lemma_prune_step(nodes, gone, i);
        lemma_kept_monotone(nodes, gone, i + 1, n);
    }
}

/// A surviving node sits, pruned, at the position given by the survivors
/// before it, in every longer prefix.
pub proof fn lemma_prune_index(nodes: Seq<NodeView>, gone: Seq<u32>, i: int, n: int)
    requires
        0 <= i < n <= nodes.len(),
        !gone.contains(nodes[i].id),
    ensures
        kept(nodes, gone, i) < prune(nodes.take(n), gone).len(),
        prune(nodes.take(n), gone)[kept(nodes, gone, i)] == nodes[i].forget(gone),
    decreases n - i,
{
    lemma_prune_step(nodes, gone, n - 1);
    if n - 1 > i {
        lemma_prune_index(nodes, gone, i, n - 1);
    }
}

/// Every node of a pruned prefix comes from a surviving node of it; returns
/// that node's position.
pub proof fn lemma_prune_source(nodes: Seq<NodeView>, gone: Seq<u32>, n: int, m: int) -> (i: int)
    requires
        0 <= n <= nodes.len(),
        0 <= m < prune(nodes.take(n), gone).len(),
    ensures
        0 <= i < n,
        !gone.contains(nodes[i].id),
        kept(nodes, gone, i) == m,
        prune(nodes.take(n), gone)[m] == nodes[i].forget(gone),
    decreases n,
{
    if n == 0 {
        assert(nodes.take(0) =~= Seq::<NodeView>::empty());
        0
    } else {
        lemma_prune_step(nodes, gone, n - 1);
        if m < prune(nodes.take(n - 1), gone).len() {
            lemma_prune_source(nodes, gone, n - 1, m)
        } else {
            n - 1
        }
    }
}

/// Filtering keeps a strictly increasing list strictly increasing.
pub proof fn lemma_filter_increasing(v: Seq<u32>, keep: spec_fn(u32) -> bool)
    requires
        forall|a: int, b: int| 0 <= a < b < v.len() ==> v[a] < v[b],
    ensures
        forall|a: int, b: int| 0 <= a < b < v.filter(keep).len() ==> v.filter(keep)[a] < v.filter(keep)[b],
    decreases v.len(),
{
    reveal(Seq::filter);
    if v.len() > 0 {
        let rest = v.drop_last();
        lemma_filter_increasing(rest, keep);
        let f = v.filter(keep);
        assert(f == if keep(v.last()) {
            rest.filter(keep).push(v.last())
        } else {
            rest.filter(keep)
        });
        assert forall|a: int, b: int| 0 <= a < b < f.len() implies f[a] < f[b] by {
            if keep(v.last()) && b == f.len() - 1 {
                let x = rest.filter(keep)[a];
                assert(rest.filter(keep).contains(x));
                rest.lemma_filter_contains_rev(keep, x);
                let w = choose|w: int| 0 <= w < rest.len() && rest[w] == x;
                assert(v[w] == x);
            }
        }
    }
}


/// Pruning keeps ids increasing.
pub proof fn lemma_prune_increasing(nodes: Seq<NodeView>, gone: Seq<u32>)
    requires
        ids_increasing(nodes),
    ensures
        ids_increasing(prune(nodes, gone)),
{
    let n = nodes.len() as int;
    assert(nodes.take(n) =~= nodes);
    let pr = prune(nodes, gone);
    assert forall|a: int, b: int| 0 <= a < b < pr.len() implies pr[a].id < pr[b].id by {
        let i = lemma_prune_source(nodes, gone, n, a);
        let j = lemma_prune_source(nodes, gone, n, b);
        if j <= i {
            lemma_kept_monotone(nodes, gone, j, i);
        }
    }
}

/// A surviving node sits, pruned, at the position given by the survivors
/// before it.
pub proof fn lemma_prune_position(nodes: Seq<NodeView>, gone: Seq<u32>, i: int)
    requires
        ids_increasing(nodes),
        0 <= i < nodes.len(),
        !gone.contains(nodes[i].id),
    ensures
        position_of(prune(nodes, gone), nodes[i].id) == kept(nodes, gone, i),
        prune(nodes, gone)[kept(nodes, gone, i)] == nodes[i].forget(gone),
{
    let n = nodes.len() as int;
    assert(nodes.take(n) =~= nodes);
    lemma_prune_index(nodes, gone, i, n);
    lemma_prune_increasing(nodes, gone);
    lemma_position_of(prune(nodes, gone), nodes[i].id);
    assert(prune(nodes, gone)[kept(nodes, gone, i)].id == nodes[i].id);
}

/// An id is removed with `root` exactly where its node reaches `root`.
pub proof fn lemma_removal_has(t: TreeView, root: u32, j: int)
    requires
        ids_increasing(t.arena),
        0 <= j < t.arena.len(),
    ensures
        t.removal(root).contains(t.arena[j].id) <==> reaches(t.arena, j, root),
{
    lemma_removal_contains(t, root, t.arena.len() as int, t.arena[j].id, j);
}

/// `remove` of a present node keeps the invariant.
pub proof fn lemma_remove_keeps_wf(t: TreeView, id: u32)
    requires
        t.wf(),
        t.has(id),
    ensures
        t.after_remove(id).wf(),
{
    let s = t.arena;
    let n = s.len() as int;
    let gone = t.removal(id);
    let u = t.after_remove(id);
    let pr = u.arena;
    assert(s.take(n) =~= s);
    lemma_prune_increasing(s, gone);
    assert(u.ids_allocated()) by {
        assert forall|m: int| 0 <= m < pr.len() implies 0 < #[trigger] pr[m].id <= u.next_id by {
            let i = lemma_prune_source(s, gone, n, m);
            assert(0 < s[i].id <= t.next_id);
        }
    }
    assert forall|m: int| 0 <= m < pr.len() && (#[trigger] pr[m]).parent_id is Some implies {
        let j = position_of(pr, pr[m].parent_id->0);
        &&& 0 <= j < m
        &&& pr[j].child_ids.contains(pr[m].id)
    } by {
        let i = lemma_prune_source(s, gone, n, m);
        let p = s[i].parent_id->0;
        assert(s[i].parent_id is Some);
        let j = position_of(s, p);
        lemma_position_of(s, p);
        lemma_removal_has(t, id, i);
        lemma_removal_has(t, id, j);
        assert(!reaches(s, j, id));
        lemma_prune_position(s, gone, j);
        lemma_kept_monotone(s, gone, j, i);
        let w = choose|w: int| 0 <= w < s[j].child_ids.len() && s[j].child_ids[w] == s[i].id;
        let keep = |c: u32| !gone.contains(c);
        s[j].child_ids.lemma_filter_contains(keep, w);
    }
    assert forall|m: int, c: int|
        #![trigger pr[m].child_ids[c]]
        0 <= m < pr.len() && 0 <= c < pr[m].child_ids.len() implies {
        let q = position_of(pr, pr[m].child_ids[c]);
        &&& 0 <= q < pr.len()
        &&& pr[q].parent_id == Some(pr[m].id)
    } by {
        let i = lemma_prune_source(s, gone, n, m);
        let keep = |c: u32| !gone.contains(c);
        let x = pr[m].child_ids[c];
        assert(pr[m].child_ids == s[i].child_ids.filter(keep));
        s[i].child_ids.lemma_filter_pred(keep, c);
        assert(s[i].child_ids.filter(keep).contains(x));
        s[i].child_ids.lemma_filter_contains_rev(keep, x);
        let w = choose|w: int| 0 <= w < s[i].child_ids.len() && s[i].child_ids[w] == x;
        assert(s[i].child_ids[w] == x);
        let q = position_of(s, x);
        lemma_position_of(s, x);
        assert(s[q].id == x);
        lemma_prune_position(s, gone, q);
        lemma_prune_index(s, gone, q, n);
    }
    assert forall|m: int, a: int, b: int|
        #![trigger pr[m].child_ids[a], pr[m].child_ids[b]]
        0 <= m < pr.len() && 0 <= a < b < pr[m].child_ids.len()
        implies pr[m].child_ids[a] < pr[m].child_ids[b] by {
        let i = lemma_prune_source(s, gone, n, m);
        let keep = |c: u32| !gone.contains(c);
        assert forall|a2: int, b2: int| 0 <= a2 < b2 < s[i].child_ids.len()
            implies s[i].child_ids[a2] < s[i].child_ids[b2] by {
            assert(s[i].child_ids[a2] == t.arena[i].child_ids[a2]);
        }
        lemma_filter_increasing(s[i].child_ids, keep);
    }
}


/// Widening commutes with appending one entry.
pub proof fn lemma_widen_push(entries: Seq<(usize, u32)>, e: (usize, u32))
    ensures
        widen(entries.push(e)) == widen(entries).push((e.0 as nat, e.1)),
{
    assert(widen(entries.push(e)) =~= widen(entries).push((e.0 as nat, e.1)));
}

/// The outline of a node starts with the node itself.
pub proof fn lemma_outline_open(start: Seq<(nat, u32)>, nodes: Seq<NodeView>, i: int, depth: nat)
    requires
        0 <= i < nodes.len(),
    ensures
        start.push((depth, nodes[i].id)) == start + seq![(depth, nodes[i].id)] + outline_children(nodes, i, 0, depth + 1),
{
    assert(start.push((depth, nodes[i].id)) =~= start + seq![(depth, nodes[i].id)] + Seq::<(nat, u32)>::empty());
}

/// One more child adds that child's outline.
pub proof fn lemma_outline_step(head: Seq<(nat, u32)>, nodes: Seq<NodeView>, p: int, c: int, depth: nat)
    requires
        0 <= p < nodes.len(),
        0 <= c < nodes[p].child_ids.len(),
        p < position_of(nodes, nodes[p].child_ids[c]) < nodes.len(),
    ensures
        head + outline_children(nodes, p, c, depth) + outline_from(nodes, position_of(nodes, nodes[p].child_ids[c]), depth)
            == head + outline_children(nodes, p, c + 1, depth),
{
    let q = position_of(nodes, nodes[p].child_ids[c]);
    assert(outline_children(nodes, p, c + 1, depth) == outline_children(nodes, p, c, depth) + outline_from(nodes, q, depth));
    assert(head + outline_children(nodes, p, c, depth) + outline_from(nodes, q, depth)
        =~= head + (outline_children(nodes, p, c, depth) + outline_from(nodes, q, depth)));
}

/// The outline of a node is the node followed by its children's outlines.
pub proof fn lemma_outline_close(start: Seq<(nat, u32)>, nodes: Seq<NodeView>, i: int, depth: nat)
    requires
        0 <= i < nodes.len(),
    ensures
        start + seq![(depth, nodes[i].id)] + outline_children(nodes, i, nodes[i].child_ids.len() as int, depth + 1)
            == start + outline_from(nodes, i, depth),
{
    assert(start + seq![(depth, nodes[i].id)] + outline_children(nodes, i, nodes[i].child_ids.len() as int, depth + 1)
        =~= start + outline_from(nodes, i, depth));
}

} // verus!

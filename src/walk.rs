//! What the directory walker yields from a tree: its nodes in pre-order, no
//! deeper than the bound, with each pruned directory left out together with
//! everything beneath it, and no link followed (a link is a leaf).
use vstd::prelude::*;
use crate::entry::{EntryKind, SearchTarget, pruned};
use crate::coordinator::{Outcome, WalkItem};
use crate::run::{
    first_hit, hit, item_path, lemma_first_hit, run_outcome, run_scanned, samples_upto,
};

verus! {

/// A node of a directory tree.
pub struct Node {
    pub name: Seq<char>,
    pub kind: EntryKind,
    pub children: Seq<Node>,
}

/// One node as the walker yields it, with the directories above it.
pub struct Visit {
    pub name: Seq<char>,
    pub kind: EntryKind,
    pub depth: nat,
    pub above: Seq<Node>,
}

/// The walk of `n`, found at `depth` beneath the directories `above`.
pub open spec fn walk_node(n: Node, above: Seq<Node>, depth: nat, max_depth: nat) -> Seq<Visit>
    decreases n,
{
    if depth > max_depth || pruned(n.kind, n.name) {
        Seq::empty()
    } else {
        seq![Visit { name: n.name, kind: n.kind, depth, above }] + walk_children(
            n.children,
            above.push(n),
            depth + 1,
            max_depth,
        )
    }
}

/// The walks of the nodes `cs`, one after the other.
pub open spec fn walk_children(
    cs: Seq<Node>,
    above: Seq<Node>,
    depth: nat,
    max_depth: nat,
) -> Seq<Visit>
    decreases cs,
{
    if cs.len() == 0 {
        Seq::empty()
    } else {
        walk_children(cs.subrange(0, cs.len() - 1), above, depth, max_depth) + walk_node(
            cs[cs.len() - 1],
            above,
            depth,
            max_depth,
        )
    }
}

/// The walk of a tree from its root, which has depth 0.
pub open spec fn walk(root: Node, max_depth: nat) -> Seq<Visit> {
    walk_node(root, Seq::empty(), 0, max_depth)
}

/// A yielded node that lies within the bound, is not pruned, and has no
/// pruned directory above it.
pub open spec fn clear(v: Visit, max_depth: nat) -> bool {
    &&& v.depth <= max_depth
    &&& !pruned(v.kind, v.name)
    &&& forall|i: int| 0 <= i < v.above.len() ==> !pruned(#[trigger] v.above[i].kind, v.above[i].name)
}

/// The walker's items are the entries of these visits, in order.
pub open spec fn lists(items: Seq<WalkItem>, visits: Seq<Visit>) -> bool {
    &&& items.len() == visits.len()
    &&& forall|k: int|
        0 <= k < items.len() ==> (#[trigger] items[k] matches WalkItem::Visited(e) && {
            &&& e.name@ == visits[k].name
            &&& e.kind == visits[k].kind
            &&& e.depth == visits[k].depth
        })
}

proof fn lemma_walk_node_clear(n: Node, above: Seq<Node>, depth: nat, max_depth: nat)
    requires
        forall|i: int| 0 <= i < above.len() ==> !pruned(#[trigger] above[i].kind, above[i].name),
    ensures
        forall|k: int|
            0 <= k < walk_node(n, above, depth, max_depth).len() ==> clear(
                #[trigger] walk_node(n, above, depth, max_depth)[k],
                max_depth,
            ),
    decreases n,
{
    if !(depth > max_depth || pruned(n.kind, n.name)) {
        let up = above.push(n);
        assert forall|i: int| 0 <= i < up.len() implies !pruned(#[trigger] up[i].kind, up[i].name) by {
            if i < above.len() {
                assert(up[i] == above[i]);
            }
        }
        lemma_walk_children_clear(n.children, up, depth + 1, max_depth);
        let head = seq![Visit { name: n.name, kind: n.kind, depth, above }];
        let rest = walk_children(n.children, up, depth + 1, max_depth);
        assert forall|k: int| 0 <= k < (head + rest).len() implies clear(
            #[trigger] (head + rest)[k],
            max_depth,
        ) by {
            if k >= 1 {
                assert((head + rest)[k] == rest[k - 1]);
            }
        }
    }
}

proof fn lemma_walk_children_clear(cs: Seq<Node>, above: Seq<Node>, depth: nat, max_depth: nat)
    requires
        forall|i: int| 0 <= i < above.len() ==> !pruned(#[trigger] above[i].kind, above[i].name),
    ensures
        forall|k: int|
            0 <= k < walk_children(cs, above, depth, max_depth).len() ==> clear(
                #[trigger] walk_children(cs, above, depth, max_depth)[k],
                max_depth,
            ),
    decreases cs,
{
    if cs.len() > 0 {
        let front = cs.subrange(0, cs.len() - 1);
        lemma_walk_children_clear(front, above, depth, max_depth);
        lemma_walk_node_clear(cs[cs.len() - 1], above, depth, max_depth);
        let a = walk_children(front, above, depth, max_depth);
        let b = walk_node(cs[cs.len() - 1], above, depth, max_depth);
        assert forall|k: int| 0 <= k < (a + b).len() implies clear(#[trigger] (a + b)[k], max_depth) by {
            if k >= a.len() {
                assert((a + b)[k] == b[k - a.len()]);
            }
        }
    }
}

/// Every node that the walker yields lies within the depth bound, is not a
/// pruned directory, and lies beneath no pruned directory.
pub proof fn lemma_walk_yields_only_clear(root: Node, max_depth: nat)
    ensures
        forall|k: int|
            0 <= k < walk(root, max_depth).len() ==> clear(#[trigger] walk(root, max_depth)[k], max_depth),
{
    lemma_walk_node_clear(root, Seq::empty(), 0, max_depth);
}

/// A search over the walk of a tree never reports, nor counts, an entry
/// beneath a pruned directory: every counted item, the reported one among
/// them, comes from a node with no pruned directory above it.
pub proof fn lemma_pruned_subtree_unseen(
    root: Node,
    items: Seq<WalkItem>,
    t: SearchTarget,
    stop_after_match: bool,
    cancel_at: Option<usize>,
)
    requires
        lists(items, walk(root, t.max_depth as nat)),
    ensures
        0 <= run_scanned(items, t, stop_after_match, cancel_at) <= items.len(),
        forall|k: int|
            0 <= k < run_scanned(items, t, stop_after_match, cancel_at) ==> clear(
                #[trigger] walk(root, t.max_depth as nat)[k],
                t.max_depth as nat,
            ),
        run_outcome(items, t, cancel_at) matches Outcome::Found(p) ==> exists|w: int|
            0 <= w < items.len() && item_path(items[w]) == p && clear(
                #[trigger] walk(root, t.max_depth as nat)[w],
                t.max_depth as nat,
            ),
{
    let max = t.max_depth as nat;
    lemma_walk_yields_only_clear(root, max);
    let lim = match cancel_at {
        Some(c) => if c < items.len() {
            c as int
        } else {
            items.len() as int
        },
        None => items.len() as int,
    };
    let pre = items.take(lim);
    lemma_first_hit(pre, t);
    if first_hit(pre, t) is Some {
        let w = first_hit(pre, t)->0;
        assert(pre[w] == items[w]);
        assert(clear(walk(root, max)[w], max));
    }
}

/// `b` is `a` with, at most, other contents beneath `a`'s pruned directories.
pub open spec fn grafted(a: Node, b: Node) -> bool
    decreases a,
{
    &&& a.name == b.name
    &&& a.kind == b.kind
    &&& (pruned(a.kind, a.name) || {
        &&& a.children.len() == b.children.len()
        &&& forall|i: int|
            0 <= i < a.children.len() ==> grafted(#[trigger] a.children[i], b.children[i])
    })
}

/// What the search reads of a visit: its name, kind and depth.
pub open spec fn shape(v: Seq<Visit>) -> Seq<(Seq<char>, EntryKind, nat)> {
    v.map_values(|x: Visit| (x.name, x.kind, x.depth))
}

proof fn lemma_shape_concat(a: Seq<Visit>, b: Seq<Visit>)
    ensures
        shape(a + b) == shape(a) + shape(b),
{
    assert(shape(a + b) =~= shape(a) + shape(b));
}

proof fn lemma_grafted_node(
    a: Node,
    b: Node,
    up_a: Seq<Node>,
    up_b: Seq<Node>,
    depth: nat,
    max_depth: nat,
)
    requires
        grafted(a, b),
    ensures
        shape(walk_node(a, up_a, depth, max_depth)) == shape(walk_node(b, up_b, depth, max_depth)),
    decreases a,
{
    if !(depth > max_depth || pruned(a.kind, a.name)) {
        lemma_grafted_children(a.children, b.children, up_a.push(a), up_b.push(b), depth + 1, max_depth);
        let head_a = seq![Visit { name: a.name, kind: a.kind, depth, above: up_a }];
        let head_b = seq![Visit { name: b.name, kind: b.kind, depth, above: up_b }];
        lemma_shape_concat(head_a, walk_children(a.children, up_a.push(a), depth + 1, max_depth));
        lemma_shape_concat(head_b, walk_children(b.children, up_b.push(b), depth + 1, max_depth));
        assert(shape(head_a) =~= shape(head_b));
    }
}

proof fn lemma_grafted_children(
    ca: Seq<Node>,
    cb: Seq<Node>,
    up_a: Seq<Node>,
    up_b: Seq<Node>,
    depth: nat,
    max_depth: nat,
)
    requires
        ca.len() == cb.len(),
        forall|i: int| 0 <= i < ca.len() ==> grafted(#[trigger] ca[i], cb[i]),
    ensures
        shape(walk_children(ca, up_a, depth, max_depth)) == shape(
            walk_children(cb, up_b, depth, max_depth),
        ),
    decreases ca,
{
    if ca.len() > 0 {
        let n = ca.len() - 1;
        let fa = ca.subrange(0, n);
        let fb = cb.subrange(0, n);
        assert forall|i: int| 0 <= i < fa.len() implies grafted(#[trigger] fa[i], fb[i]) by {
            assert(fa[i] == ca[i] && fb[i] == cb[i]);
        }
        lemma_grafted_children(fa, fb, up_a, up_b, depth, max_depth);
        assert(grafted(ca[n], cb[n]));
        lemma_grafted_node(ca[n], cb[n], up_a, up_b, depth, max_depth);
        lemma_shape_concat(
            walk_children(fa, up_a, depth, max_depth),
            walk_node(ca[n], up_a, depth, max_depth),
        );
        lemma_shape_concat(
            walk_children(fb, up_b, depth, max_depth),
            walk_node(cb[n], up_b, depth, max_depth),
        );
    }
}

/// Items that answer the search at the same places give the same first hit.
proof fn lemma_first_hit_agrees(a: Seq<WalkItem>, b: Seq<WalkItem>, t: SearchTarget)
    requires
        a.len() == b.len(),
        forall|k: int| 0 <= k < a.len() ==> hit(t, #[trigger] a[k]) == hit(t, b[k]),
    ensures
        first_hit(a, t) == first_hit(b, t),
    decreases a.len(),
{
    if a.len() > 0 {
        let (da, db) = (a.drop_last(), b.drop_last());
        assert forall|k: int| 0 <= k < da.len() implies hit(t, #[trigger] da[k]) == hit(t, db[k]) by {
            assert(da[k] == a[k] && db[k] == b[k]);
        }
        lemma_first_hit_agrees(da, db, t);
        assert(hit(t, a[a.len() - 1]) == hit(t, b[b.len() - 1]));
    }
}

/// Adding entries beneath a pruned directory changes nothing that a search
/// counts or reports: the walks of the two trees have as many items, the
/// searches count as many and so send the same progress samples, one finds a
/// match exactly when the other does, and otherwise both end alike.
pub proof fn lemma_pruned_additions_unseen(
    t1: Node,
    t2: Node,
    items1: Seq<WalkItem>,
    items2: Seq<WalkItem>,
    t: SearchTarget,
    stop_after_match: bool,
    cancel_at: Option<usize>,
)
    requires
        grafted(t1, t2),
        lists(items1, walk(t1, t.max_depth as nat)),
        lists(items2, walk(t2, t.max_depth as nat)),
    ensures
        items1.len() == items2.len(),
        run_scanned(items1, t, stop_after_match, cancel_at) == run_scanned(
            items2,
            t,
            stop_after_match,
            cancel_at,
        ),
        samples_upto(run_scanned(items1, t, stop_after_match, cancel_at)) == samples_upto(
            run_scanned(items2, t, stop_after_match, cancel_at),
        ),
        (run_outcome(items1, t, cancel_at) is Found) == (run_outcome(items2, t, cancel_at) is Found),
        !(run_outcome(items1, t, cancel_at) is Found) ==> run_outcome(items1, t, cancel_at)
            == run_outcome(items2, t, cancel_at),
{
    let max = t.max_depth as nat;
    let (w1, w2) = (walk(t1, max), walk(t2, max));
    lemma_grafted_node(t1, t2, Seq::empty(), Seq::empty(), 0, max);
    assert(shape(w1).len() == w1.len() && shape(w2).len() == w2.len());
    assert forall|k: int| 0 <= k < items1.len() implies hit(t, #[trigger] items1[k]) == hit(
        t,
        items2[k],
    ) by {
        assert(shape(w1)[k] == shape(w2)[k]);
        assert(items1[k] matches WalkItem::Visited(_));
        assert(items2[k] matches WalkItem::Visited(_));
    }
    let lim = match cancel_at {
        Some(c) => if c < items1.len() {
            c as int
        } else {
            items1.len() as int
        },
        None => items1.len() as int,
    };
    let (p1, p2) = (items1.take(lim), items2.take(lim));
    assert forall|k: int| 0 <= k < p1.len() implies hit(t, #[trigger] p1[k]) == hit(t, p2[k]) by {
        assert(p1[k] == items1[k] && p2[k] == items2[k]);
    }
    lemma_first_hit_agrees(p1, p2, t);
}

} // verus!

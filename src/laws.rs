//! Properties of a whole search, stated over the run of `search_items`.
use vstd::prelude::*;
use crate::entry::{SearchTarget, kind_agrees, qualifies};
use crate::coordinator::{Outcome, WalkItem};
use crate::names::lower_of;
use crate::run::{first_hit, hit, item_path, lemma_first_hit, run_outcome, run_scanned};

verus! {

/// When exactly one walked entry answers the search, an uncancelled search
/// reports that entry's path, whichever order the workers claim the entries
/// in and whatever the stop-after-match policy.
pub proof fn lemma_single_match_found(items: Seq<WalkItem>, t: SearchTarget, i: int)
    requires
        0 <= i < items.len(),
        hit(t, items[i]),
        forall|k: int| 0 <= k < items.len() && k != i ==> !hit(t, #[trigger] items[k]),
    ensures
        run_outcome(items, t, None) == Outcome::Found(item_path(items[i])),
{
    assert(items.take(items.len() as int) =~= items);
    lemma_first_hit(items, t);
}

/// When no walked entry answers the search, an uncancelled search reports
/// not-found after counting every walked item exactly once.
pub proof fn lemma_no_match_not_found(items: Seq<WalkItem>, t: SearchTarget, stop_after_match: bool)
    requires
        forall|k: int| 0 <= k < items.len() ==> !hit(t, #[trigger] items[k]),
    ensures
        run_outcome(items, t, None) == Outcome::NotFound,
        run_scanned(items, t, stop_after_match, None) == items.len(),
{
    assert(items.take(items.len() as int) =~= items);
    lemma_first_hit(items, t);
}

/// A reported path is that of a walked entry whose name equals the target's
/// up to case, whose kind is the one asked for (a directory never answers a
/// search for a file, nor a file one for a directory), and which lies no
/// deeper than the depth bound.
pub proof fn lemma_found_entry_answers(
    items: Seq<WalkItem>,
    t: SearchTarget,
    cancel_at: Option<usize>,
    p: String,
)
    requires
        run_outcome(items, t, cancel_at) == Outcome::Found(p),
    ensures
        exists|w: int|
            #![trigger items[w]]
            0 <= w < items.len() && (items[w] matches WalkItem::Visited(e) && {
                &&& e.path == p
                &&& lower_of(e.name@) == t.folded_name@
                &&& kind_agrees(e.kind, t.kind)
                &&& e.depth <= t.max_depth
            }),
{
    let lim = match cancel_at {
        Some(c) => if c < items.len() {
            c as int
        } else {
            items.len() as int
        },
        None => items.len() as int,
    };
    let pre = items.take(lim);
    lemma_first_hit(pre, t);
    let w = first_hit(pre, t)->0;
    assert(pre[w] == items[w]);
    assert(qualifies(t, items[w]->Visited_0));
}

/// A token set before any entry that answers the search has been looked at
/// ends the search as cancelled, not as found or not-found, even when a
/// matching entry lies further on.
pub proof fn lemma_cancelled_before_match(items: Seq<WalkItem>, t: SearchTarget, c: usize)
    requires
        forall|k: int| 0 <= k < c && k < items.len() ==> !hit(t, #[trigger] items[k]),
    ensures
        run_outcome(items, t, Some(c)) == Outcome::Cancelled,
{
    let lim = if c < items.len() {
        c as int
    } else {
        items.len() as int
    };
    let pre = items.take(lim);
    assert forall|k: int| 0 <= k < pre.len() implies !hit(t, #[trigger] pre[k]) by {
        assert(pre[k] == items[k]);
    }
    lemma_first_hit(pre, t);
    if first_hit(pre, t) is Some {
        let w = first_hit(pre, t)->0;
        assert(hit(t, pre[w]));
    }
}

/// Two uncancelled searches over the same walked entries, in any order, end
/// alike when every entry that answers the search has the same path: both
/// report that path, or both report not-found.
pub proof fn lemma_same_entries_same_outcome(
    items1: Seq<WalkItem>,
    items2: Seq<WalkItem>,
    t: SearchTarget,
)
    requires
        items1.to_set() == items2.to_set(),
        forall|i: int, j: int|
            0 <= i < items1.len() && 0 <= j < items1.len() && hit(t, #[trigger] items1[i]) && hit(
                t,
                #[trigger] items1[j],
            ) ==> item_path(items1[i]) == item_path(items1[j]),
    ensures
        run_outcome(items1, t, None) == run_outcome(items2, t, None),
{
    assert(items1.take(items1.len() as int) =~= items1);
    assert(items2.take(items2.len() as int) =~= items2);
    lemma_first_hit(items1, t);
    lemma_first_hit(items2, t);
    match first_hit(items2, t) {
        Some(w2) => {
            assert(items2.to_set().contains(items2[w2]));
            assert(items1.to_set().contains(items2[w2]));
            let j = choose|j: int| 0 <= j < items1.len() && items1[j] == items2[w2];
            let w1 = first_hit(items1, t)->0;
            assert(hit(t, items1[j]));
        },
        None => {
            if first_hit(items1, t) is Some {
                let w1 = first_hit(items1, t)->0;
                assert(items1.to_set().contains(items1[w1]));
                assert(items2.to_set().contains(items1[w1]));
                let j = choose|j: int| 0 <= j < items2.len() && items2[j] == items1[w1];
                assert(hit(t, items2[j]));
            }
        },
    }
}

} // verus!

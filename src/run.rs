//! A whole search on one worker, over the items that a walk produced in order.
use vstd::prelude::*;
use crate::entry::{SearchTarget, qualifies};
use crate::coordinator::{
    Admission, Outcome, Scanner, WalkItem, PROGRESS_INTERVAL, claims, classify, outcome_of,
};

verus! {

/// The item is an entry that answers the search.
pub open spec fn hit(t: SearchTarget, item: WalkItem) -> bool {
    match item {
        WalkItem::Visited(e) => qualifies(t, e),
        WalkItem::Failed(_) => false,
    }
}

/// The path of a walked entry.
pub open spec fn item_path(item: WalkItem) -> String {
    match item {
        WalkItem::Visited(e) => e.path,
        WalkItem::Failed(_) => arbitrary(),
    }
}

/// The index of the first item that answers the search, if any.
pub open spec fn first_hit(items: Seq<WalkItem>, t: SearchTarget) -> Option<int>
    decreases items.len(),
{
    if items.len() == 0 {
        None
    } else {
        match first_hit(items.drop_last(), t) {
            Some(w) => Some(w),
            None => if hit(t, items.last()) {
                Some(items.len() - 1)
            } else {
                None
            },
        }
    }
}

/// How many items are looked at before the cancellation token is seen: the
/// token set before item `c` stops the walk there.
pub open spec fn walk_limit(len: int, cancel_at: Option<usize>) -> int {
    match cancel_at {
        Some(c) => if c < len {
            c as int
        } else {
            len
        },
        None => len,
    }
}

/// The path that a run publishes: that of the first qualifying item before the
/// cancellation.
pub open spec fn run_winner(
    items: Seq<WalkItem>,
    t: SearchTarget,
    cancel_at: Option<usize>,
) -> Option<String> {
    match first_hit(items.take(walk_limit(items.len() as int, cancel_at)), t) {
        Some(w) => Some(item_path(items[w])),
        None => None,
    }
}

/// The outcome of a run whose token is set before item `cancel_at`, if ever.
pub open spec fn run_outcome(
    items: Seq<WalkItem>,
    t: SearchTarget,
    cancel_at: Option<usize>,
) -> Outcome {
    outcome_of(run_winner(items, t, cancel_at), cancel_at is Some)
}

/// How many items a run counts: all up to the cancellation, or, under the
/// stop-after-match policy, all up to and including the first match.
pub open spec fn run_scanned(
    items: Seq<WalkItem>,
    t: SearchTarget,
    stop_after_match: bool,
    cancel_at: Option<usize>,
) -> int {
    let lim = walk_limit(items.len() as int, cancel_at);
    match first_hit(items.take(lim), t) {
        Some(w) => if stop_after_match {
            w + 1
        } else {
            lim
        },
        None => lim,
    }
}

/// The progress samples sent while `n` items are counted.
pub open spec fn samples_upto(n: int) -> Seq<usize> {
    Seq::new((n / PROGRESS_INTERVAL as int) as nat, |k: int| (PROGRESS_INTERVAL * (k + 1)) as usize)
}

/// What a run reports: how it ended, how many items it counted and the
/// progress samples it sent.
#[derive(Clone, Debug)]
pub struct SearchReport {
    pub outcome: Outcome,
    pub scanned: usize,
    pub samples: Vec<usize>,
}

/// What `first_hit` gives: the least index of an item that answers the search.
pub proof fn lemma_first_hit(items: Seq<WalkItem>, t: SearchTarget)
    ensures
        first_hit(items, t) matches Some(w) ==> {
            &&& 0 <= w < items.len()
            &&& hit(t, items[w])
            &&& forall|k: int| 0 <= k < w ==> !hit(t, #[trigger] items[k])
        },
        first_hit(items, t) is None ==> forall|k: int|
            0 <= k < items.len() ==> !hit(t, #[trigger] items[k]),
    decreases items.len(),
{
    if items.len() > 0 {
        lemma_first_hit(items.drop_last(), t);
        assert forall|k: int| 0 <= k < items.len() - 1 implies items.drop_last()[k] == items[k] by {}
    }
}

/// A first hit in a prefix stays the first hit of every longer prefix.
proof fn lemma_first_hit_extends(items: Seq<WalkItem>, t: SearchTarget, i: int, j: int)
    requires
        0 <= i <= j <= items.len(),
        first_hit(items.take(i), t) is Some,
    ensures
        first_hit(items.take(j), t) == first_hit(items.take(i), t),
    decreases j - i,
{
    if j > i {
        lemma_first_hit_extends(items, t, i, j - 1);
        assert(items.take(j).drop_last() =~= items.take(j - 1));
    }
}

/// One more item of the prefix.
proof fn lemma_first_hit_step(items: Seq<WalkItem>, t: SearchTarget, i: int)
    requires
        0 <= i < items.len(),
    ensures
        first_hit(items.take(i + 1), t) == (match first_hit(items.take(i), t) {
            Some(w) => Some(w),
            None => if hit(t, items[i]) {
                Some(i)
            } else {
                None
            },
        }),
{
    assert(items.take(i + 1).drop_last() =~= items.take(i));
    assert(items.take(i + 1).last() == items[i]);
}

/// Runs the search on one worker over `items`, in order. The cancellation
/// token is set before item `cancel_at` is looked at (`None`: never set).
pub fn search_items(
    items: &Vec<WalkItem>,
    target: &SearchTarget,
    stop_after_match: bool,
    cancel_at: Option<usize>,
) -> (r: SearchReport)
    ensures
        r.outcome == run_outcome(items@, *target, cancel_at),
        r.scanned == run_scanned(items@, *target, stop_after_match, cancel_at),
        r.samples@ == samples_upto(r.scanned as int),
{
    let mut scanner = Scanner::new();
    let mut found = false;
    let mut winner: Option<String> = None;
    let mut samples: Vec<usize> = Vec::new();
    let mut halted = false;
    let mut i: usize = 0;
    while i < items.len() && !halted
        invariant
            i <= items.len(),
            scanner.scanned == i,
            samples@ == samples_upto(i as int),
            found == (winner is Some),
            match first_hit(items@.take(i as int), *target) {
                Some(w) => winner == Some(item_path(items@[w])),
                None => winner is None,
            },
            cancel_at matches Some(c) ==> i <= c,
            found && stop_after_match ==> first_hit(items@.take(i as int), *target) == Some(
                i - 1,
            ),
            halted ==> (cancel_at matches Some(c) && c == i) || (found && stop_after_match),
        decreases items.len() - i, if halted { 0int } else { 1int },
    {
        let cancelled = match cancel_at {
            Some(c) => c <= i,
            None => false,
        };
        let step = scanner.take_next(cancelled, found, stop_after_match);
        match step {
            Admission::Halt => {
                halted = true;
            },
            Admission::Pass(sample) => {
                proof {
                    lemma_first_hit_step(items@, *target, i as int);
                }
                assert(samples_upto(i + 1) =~= if (i + 1) % (PROGRESS_INTERVAL as int) == 0 {
                    samples_upto(i as int).push((i + 1) as usize)
                } else {
                    samples_upto(i as int)
                });
                if let Some(n) = sample {
                    samples.push(n);
                }
                match &items[i] {
                    WalkItem::Visited(e) => {
                        if claims(target, e, cancelled, found, stop_after_match) && !found {
                            found = true;
                            winner = Some(e.path.clone());
                        }
                    },
                    WalkItem::Failed(_) => {},
                }
                i = i + 1;
            },
        }
    }
    proof {
        let lim = walk_limit(items@.len() as int, cancel_at);
        if !halted {
            assert(items@.take(i as int) =~= items@.take(lim));
        } else if cancel_at matches Some(c) && c == i {
            assert(lim == i);
        } else {
            lemma_first_hit_extends(items@, *target, i as int, lim);
        }
    }
    let outcome = classify(winner, cancel_at.is_some());
    SearchReport { outcome, scanned: scanner.scanned, samples }
}

} // verus!

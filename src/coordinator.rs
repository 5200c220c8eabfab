//! The decisions that the walker and the workers take for each walked item.
use vstd::prelude::*;
use crate::entry::{Entry, SearchTarget, qualifies};

verus! {

/// The walker samples its progress each time its count reaches a multiple
/// of this.
pub const PROGRESS_INTERVAL: usize = 500;

/// Why the walker could not read a node.
#[derive(PartialEq, Eq, Structural, Clone, Copy, Debug)]
pub enum AccessError {
    PermissionDenied,
    NotFound,
    Interrupted,
    /// Any other failure of the operating system.
    OtherIo,
    /// A failure that is not one of the operating system, such as a link loop.
    NotIo,
}

/// Failures that a walk of a live filesystem meets as a matter of course.
pub open spec fn is_expected_noise(e: AccessError) -> bool {
    e == AccessError::PermissionDenied || e == AccessError::NotFound || e
        == AccessError::Interrupted
}

/// Whether a failure of kind `e` is worth a warning when verbose output is
/// asked for: only the failures that a live walk meets as a matter of course
/// are kept quiet.
pub fn should_log_error(e: AccessError) -> (r: bool)
    ensures
        r == !is_expected_noise(e),
{
    match e {
        AccessError::PermissionDenied => false,
        AccessError::NotFound => false,
        AccessError::Interrupted => false,
        _ => true,
    }
}

/// One item that the walker produces: a node it read, or a node it could not.
#[derive(Clone, Debug)]
pub enum WalkItem {
    Visited(Entry),
    Failed(AccessError),
}

/// A walker or a worker goes on only while the search is not cancelled and,
/// under the stop-after-match policy, no match has been published.
pub open spec fn may_proceed(cancelled: bool, found: bool, stop_after_match: bool) -> bool {
    !cancelled && !(found && stop_after_match)
}

/// Whether work may go on, given the two shared flags and the policy.
pub fn should_proceed(cancelled: bool, found: bool, stop_after_match: bool) -> (r: bool)
    ensures
        r == may_proceed(cancelled, found, stop_after_match),
{
    !cancelled && !(found && stop_after_match)
}

/// The walker's count after one more item; it stays at its largest value.
pub open spec fn next_count(n: usize) -> usize {
    if n == usize::MAX {
        n
    } else {
        (n + 1) as usize
    }
}

/// The progress sample that the count `n` gives, if any.
pub open spec fn sample_of(n: usize) -> Option<usize> {
    if n % PROGRESS_INTERVAL == 0 {
        Some(n)
    } else {
        None
    }
}

/// What the walker does with the next item.
#[derive(PartialEq, Eq, Structural, Clone, Copy, Debug)]
pub enum Admission {
    /// Hand nothing on: the search is over.
    Halt,
    /// Hand the item on, with a progress sample to send if one is due.
    Pass(Option<usize>),
}

/// The walker's side of the search: it counts the items it hands on.
#[derive(Clone, Copy, Debug)]
pub struct Scanner {
    pub scanned: usize,
}

impl Scanner {
    /// A walker that has handed on nothing yet.
    pub fn new() -> (r: Scanner)
        ensures
            r.scanned == 0,
    {
        Scanner { scanned: 0 }
    }

    /// Decides on the next item, counting it when it is handed on.
    pub fn take_next(&mut self, cancelled: bool, found: bool, stop_after_match: bool) -> (r: Admission)
        ensures
            !may_proceed(cancelled, found, stop_after_match) ==> r == Admission::Halt
                && final(self).scanned == old(self).scanned,
            may_proceed(cancelled, found, stop_after_match) ==> final(self).scanned == next_count(
                old(self).scanned,
            ) && r == Admission::Pass(sample_of(final(self).scanned)),
    {
        if !should_proceed(cancelled, found, stop_after_match) {
            return Admission::Halt;
        }
        if self.scanned < usize::MAX {
            self.scanned = self.scanned + 1;
        }
        if self.scanned % PROGRESS_INTERVAL == 0 {
            Admission::Pass(Some(self.scanned))
        } else {
            Admission::Pass(None)
        }
    }
}

/// Whether a worker that holds `e` claims it as a match: work may go on and
/// the entry answers the search. Only the worker that then wins the race on
/// the found flag publishes it.
pub fn claims(
    target: &SearchTarget,
    e: &Entry,
    cancelled: bool,
    found: bool,
    stop_after_match: bool,
) -> (r: bool)
    ensures
        r == (may_proceed(cancelled, found, stop_after_match) && qualifies(*target, *e)),
{
    should_proceed(cancelled, found, stop_after_match) && target.is_match(e)
}

/// How a search ended.
#[derive(Clone, Debug)]
pub enum Outcome {
    /// The path of the one published match.
    Found(String),
    NotFound,
    /// The search was cancelled before any match was published.
    Cancelled,
}

/// A published match wins over a cancellation; a cancellation over not-found.
pub open spec fn outcome_of(winner: Option<String>, cancelled: bool) -> Outcome {
    match winner {
        Some(p) => Outcome::Found(p),
        None => if cancelled {
            Outcome::Cancelled
        } else {
            Outcome::NotFound
        },
    }
}

/// The outcome of a search, from the published path and the cancellation flag.
pub fn classify(winner: Option<String>, cancelled: bool) -> (r: Outcome)
    ensures
        r == outcome_of(winner, cancelled),
{
    match winner {
        Some(p) => Outcome::Found(p),
        None => if cancelled {
            Outcome::Cancelled
        } else {
            Outcome::NotFound
        },
    }
}

impl Outcome {
    /// Whether a match was published.
    pub fn is_found(&self) -> (r: bool)
        ensures
            r == (*self is Found),
    {
        match self {
            Outcome::Found(_) => true,
            _ => false,
        }
    }
}

} // verus!

//! What the walker reports of each node, and what the search looks for.
use vstd::prelude::*;
use crate::names::{lower_of, lowercase, same_text, is_deny_listed};

verus! {

/// The kind of a walked node, as the walker read it without following links.
#[derive(PartialEq, Eq, Structural, Clone, Copy, Debug)]
pub enum EntryKind {
    File,
    Directory,
    Other,
}

/// The kind of node that a search asks for.
#[derive(PartialEq, Eq, Structural, Clone, Copy, Debug)]
pub enum TargetKind {
    File,
    Directory,
}

/// One node seen during the walk: its full path, its base name, its kind and
/// its depth below the root (the root itself has depth 0).
#[derive(Clone, Debug)]
pub struct Entry {
    pub path: String,
    pub name: String,
    pub kind: EntryKind,
    pub depth: usize,
}

/// What is searched for: a folded name, a kind, and the deepest level that
/// may be walked (`usize::MAX` leaves the walk unbounded).
#[derive(Clone, Debug)]
pub struct SearchTarget {
    pub folded_name: String,
    pub kind: TargetKind,
    pub max_depth: usize,
}

/// A node of kind `k` is what a search for `t` asks for.
pub open spec fn kind_agrees(k: EntryKind, t: TargetKind) -> bool {
    match t {
        TargetKind::File => k == EntryKind::File,
        TargetKind::Directory => k == EntryKind::Directory,
    }
}

/// A node with this folded name, kind and depth answers the search.
pub open spec fn accepted(
    t: SearchTarget,
    folded: Seq<char>,
    kind: EntryKind,
    depth: usize,
) -> bool {
    &&& folded == t.folded_name@
    &&& kind_agrees(kind, t.kind)
    &&& depth <= t.max_depth
}

/// An entry answers the search: its name equals the target's up to case,
/// its kind is the one asked for, and it lies within the depth bound.
pub open spec fn qualifies(t: SearchTarget, e: Entry) -> bool {
    accepted(t, lower_of(e.name@), e.kind, e.depth)
}

/// A walked directory whose subtree is never entered.
pub open spec fn pruned(kind: EntryKind, name: Seq<char>) -> bool {
    kind == EntryKind::Directory && is_deny_listed(lower_of(name))
}

/// Whether the walker must leave this node's subtree out: only directories
/// are pruned, by the deny-list.
pub fn should_prune(kind: EntryKind, name: &str) -> (r: bool)
    ensures
        r == pruned(kind, name@),
{
    match kind {
        EntryKind::Directory => crate::names::should_skip_directory(name),
        _ => false,
    }
}

/// Whether a node of kind `k` is of the kind that `t` asks for.
pub fn kind_matches(k: EntryKind, t: TargetKind) -> (r: bool)
    ensures
        r == kind_agrees(k, t),
{
    match t {
        TargetKind::File => k == EntryKind::File,
        TargetKind::Directory => k == EntryKind::Directory,
    }
}

impl SearchTarget {
    /// A search for `name` up to case, of kind `kind`, no deeper than `max_depth`.
    pub fn new(name: &str, kind: TargetKind, max_depth: usize) -> (r: SearchTarget)
        ensures
            r.folded_name@ == lower_of(name@),
            r.kind == kind,
            r.max_depth == max_depth,
    {
        SearchTarget { folded_name: lowercase(name), kind, max_depth }
    }

    /// Whether a node whose name folds to `folded` answers this search.
    pub fn accepts(&self, folded: &str, kind: EntryKind, depth: usize) -> (r: bool)
        ensures
            r == accepted(*self, folded@, kind, depth),
    {
        depth <= self.max_depth && kind_matches(kind, self.kind) && same_text(
            folded,
            self.folded_name.as_str(),
        )
    }

    /// Whether a walked entry answers this search.
    pub fn is_match(&self, e: &Entry) -> (r: bool)
        ensures
            r == qualifies(*self, *e),
    {
        let folded = lowercase(e.name.as_str());
        self.accepts(folded.as_str(), e.kind, e.depth)
    }
}

} // verus!

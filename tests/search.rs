use speedy::coordinator::{
    classify, should_log_error, should_proceed, AccessError, Admission, Outcome, Scanner, WalkItem,
};
use speedy::entry::{should_prune, Entry, EntryKind, SearchTarget, TargetKind};
use speedy::names::{is_noise_name, same_text, should_skip_directory};
use speedy::run::search_items;

fn entry(path: &str, kind: EntryKind, depth: usize) -> WalkItem {
    let name = path.rsplit('/').next().unwrap().to_string();
    WalkItem::Visited(Entry { path: path.to_string(), name, kind, depth })
}

/// The walk of `/tmp/t` holding `a/target.txt` and `b/other.txt`.
fn sample_tree() -> Vec<WalkItem> {
    vec![
        entry("/tmp/t", EntryKind::Directory, 0),
        entry("/tmp/t/a", EntryKind::Directory, 1),
        entry("/tmp/t/a/target.txt", EntryKind::File, 2),
        entry("/tmp/t/b", EntryKind::Directory, 1),
        entry("/tmp/t/b/other.txt", EntryKind::File, 2),
    ]
}

fn found_path(o: &Outcome) -> Option<String> {
    match o {
        Outcome::Found(p) => Some(p.clone()),
        _ => None,
    }
}

#[test]
fn end_to_end_file_found() {
    let t = SearchTarget::new("target.txt", TargetKind::File, usize::MAX);
    let r = search_items(&sample_tree(), &t, false, None);
    let p = found_path(&r.outcome).unwrap();
    assert!(p.ends_with("/a/target.txt"));
    assert_eq!(r.scanned, 5);
}

#[test]
fn end_to_end_directory_not_found() {
    let t = SearchTarget::new("target.txt", TargetKind::Directory, usize::MAX);
    let r = search_items(&sample_tree(), &t, false, None);
    assert!(matches!(r.outcome, Outcome::NotFound));
}

#[test]
fn single_match_found_under_both_policies() {
    let t = SearchTarget::new("other.txt", TargetKind::File, usize::MAX);
    for stop in [false, true] {
        let r = search_items(&sample_tree(), &t, stop, None);
        assert_eq!(found_path(&r.outcome).as_deref(), Some("/tmp/t/b/other.txt"));
    }
}

#[test]
fn stop_after_match_counts_up_to_the_match() {
    let t = SearchTarget::new("target.txt", TargetKind::File, usize::MAX);
    let r = search_items(&sample_tree(), &t, true, None);
    assert_eq!(r.scanned, 3);
    assert!(r.outcome.is_found());
}

#[test]
fn no_match_visits_every_item_once() {
    let t = SearchTarget::new("missing.txt", TargetKind::File, usize::MAX);
    let mut items = sample_tree();
    items.push(WalkItem::Failed(AccessError::PermissionDenied));
    let r = search_items(&items, &t, true, None);
    assert!(matches!(r.outcome, Outcome::NotFound));
    assert_eq!(r.scanned, 6);
}

#[test]
fn name_matching_ignores_case() {
    let t = SearchTarget::new("Report.TXT", TargetKind::File, usize::MAX);
    assert_eq!(t.folded_name, "report.txt");
    let items = vec![entry("/r/report.txt", EntryKind::File, 1)];
    let r = search_items(&items, &t, false, None);
    assert_eq!(found_path(&r.outcome).as_deref(), Some("/r/report.txt"));
}

#[test]
fn kind_is_discriminated() {
    let items = vec![
        entry("/r/notes", EntryKind::Directory, 1),
        entry("/r/data", EntryKind::File, 1),
    ];
    let as_file = SearchTarget::new("notes", TargetKind::File, usize::MAX);
    assert!(matches!(search_items(&items, &as_file, false, None).outcome, Outcome::NotFound));
    let as_dir = SearchTarget::new("data", TargetKind::Directory, usize::MAX);
    assert!(matches!(search_items(&items, &as_dir, false, None).outcome, Outcome::NotFound));
    let dir = SearchTarget::new("notes", TargetKind::Directory, usize::MAX);
    assert!(search_items(&items, &dir, false, None).outcome.is_found());
}

#[test]
fn depth_bound_excludes_deeper_entries() {
    let items = vec![
        entry("/r", EntryKind::Directory, 0),
        entry("/r/n.txt", EntryKind::File, 1),
    ];
    let t = SearchTarget::new("n.txt", TargetKind::File, 0);
    assert!(matches!(search_items(&items, &t, false, None).outcome, Outcome::NotFound));
    let t1 = SearchTarget::new("n.txt", TargetKind::File, 1);
    assert!(search_items(&items, &t1, false, None).outcome.is_found());
}

#[test]
fn deny_listed_directories_are_pruned() {
    assert!(should_prune(EntryKind::Directory, ".git"));
    assert!(should_prune(EntryKind::Directory, "Node_Modules"));
    assert!(should_prune(EntryKind::Directory, "$Recycle.Bin"));
    assert!(should_prune(EntryKind::Directory, "Program Files (x86)"));
    assert!(!should_prune(EntryKind::File, "tmp"));
    assert!(!should_prune(EntryKind::Directory, "src"));
    assert!(!should_prune(EntryKind::Directory, ".github"));
}

#[test]
fn skip_predicate_folds_case() {
    assert!(should_skip_directory("WINDOWS"));
    assert!(should_skip_directory("System Volume Information"));
    assert!(should_skip_directory("AppData"));
    assert!(should_skip_directory("Temp"));
    assert!(!should_skip_directory("windows2"));
    assert!(!should_skip_directory(""));
    assert!(is_noise_name("program files"));
    assert!(!is_noise_name("Program Files"));
}

#[test]
fn text_comparison() {
    assert!(same_text("abc", "abc"));
    assert!(!same_text("abc", "abd"));
    assert!(!same_text("abc", "ab"));
    assert!(same_text("", ""));
    assert!(same_text("\u{e9}t\u{e9}", "\u{e9}t\u{e9}"));
}

#[test]
fn cancellation_before_the_match_is_reported() {
    let t = SearchTarget::new("target.txt", TargetKind::File, usize::MAX);
    let r = search_items(&sample_tree(), &t, false, Some(1));
    assert!(matches!(r.outcome, Outcome::Cancelled));
    assert_eq!(r.scanned, 1);
    let before_walk = search_items(&sample_tree(), &t, false, Some(0));
    assert!(matches!(before_walk.outcome, Outcome::Cancelled));
    assert_eq!(before_walk.scanned, 0);
}

#[test]
fn match_published_before_cancellation_wins() {
    let t = SearchTarget::new("target.txt", TargetKind::File, usize::MAX);
    let r = search_items(&sample_tree(), &t, false, Some(4));
    assert_eq!(found_path(&r.outcome).as_deref(), Some("/tmp/t/a/target.txt"));
    assert_eq!(r.scanned, 4);
}

#[test]
fn repeated_search_gives_the_same_answer() {
    let t = SearchTarget::new("other.txt", TargetKind::File, usize::MAX);
    let first = search_items(&sample_tree(), &t, true, None);
    let second = search_items(&sample_tree(), &t, true, None);
    assert_eq!(found_path(&first.outcome), found_path(&second.outcome));
    let mut reversed = sample_tree();
    reversed.reverse();
    let third = search_items(&reversed, &t, true, None);
    assert_eq!(found_path(&first.outcome), found_path(&third.outcome));
}

#[test]
fn first_of_several_matches_wins_in_order() {
    let items = vec![
        entry("/r/x/dup.txt", EntryKind::File, 2),
        entry("/r/y/dup.txt", EntryKind::File, 2),
    ];
    let t = SearchTarget::new("dup.txt", TargetKind::File, usize::MAX);
    let r = search_items(&items, &t, false, None);
    assert_eq!(found_path(&r.outcome).as_deref(), Some("/r/x/dup.txt"));
    assert_eq!(r.scanned, 2);
}

#[test]
fn progress_is_sampled_every_five_hundred_items() {
    let items: Vec<WalkItem> = (0..1203)
        .map(|k| entry(&format!("/r/f{}", k), EntryKind::File, 1))
        .collect();
    let t = SearchTarget::new("absent", TargetKind::File, usize::MAX);
    let r = search_items(&items, &t, false, None);
    assert_eq!(r.samples, vec![500, 1000]);
    assert_eq!(r.scanned, 1203);
}

#[test]
fn scanner_counts_and_halts() {
    let mut s = Scanner::new();
    assert_eq!(s.take_next(false, false, true), Admission::Pass(None));
    assert_eq!(s.scanned, 1);
    assert_eq!(s.take_next(true, false, false), Admission::Halt);
    assert_eq!(s.take_next(false, true, true), Admission::Halt);
    assert_eq!(s.take_next(false, true, false), Admission::Pass(None));
    assert_eq!(s.scanned, 2);
    let mut t = Scanner { scanned: 499 };
    assert_eq!(t.take_next(false, false, false), Admission::Pass(Some(500)));
    let mut full = Scanner { scanned: usize::MAX };
    full.take_next(false, false, false);
    assert_eq!(full.scanned, usize::MAX);
}

#[test]
fn proceed_policy() {
    assert!(should_proceed(false, false, true));
    assert!(should_proceed(false, true, false));
    assert!(!should_proceed(false, true, true));
    assert!(!should_proceed(true, false, false));
}

#[test]
fn error_logging_filter() {
    assert!(!should_log_error(AccessError::PermissionDenied));
    assert!(!should_log_error(AccessError::NotFound));
    assert!(!should_log_error(AccessError::Interrupted));
    assert!(should_log_error(AccessError::OtherIo));
    assert!(should_log_error(AccessError::NotIo));
}

#[test]
fn outcome_classification() {
    assert!(matches!(classify(Some("/p".to_string()), true), Outcome::Found(_)));
    assert!(matches!(classify(None, true), Outcome::Cancelled));
    assert!(matches!(classify(None, false), Outcome::NotFound));
}


struct TestNode {
    name: &'static str,
    kind: EntryKind,
    children: Vec<TestNode>,
}

fn listing(n: &TestNode, parent: &str, depth: usize, out: &mut Vec<WalkItem>) {
    if should_prune(n.kind, n.name) {
        return;
    }
    let path = format!("{}/{}", parent, n.name);
    out.push(WalkItem::Visited(Entry { path: path.clone(), name: n.name.to_string(), kind: n.kind, depth }));
    for c in &n.children {
        listing(c, &path, depth + 1, out);
    }
}

fn file(name: &'static str) -> TestNode {
    TestNode { name, kind: EntryKind::File, children: vec![] }
}

fn dir(name: &'static str, children: Vec<TestNode>) -> TestNode {
    TestNode { name, kind: EntryKind::Directory, children }
}

#[test]
fn additions_beneath_a_pruned_directory_are_unseen() {
    let filler: Vec<TestNode> = (0..700).map(|_| file("n.txt")).collect();
    let small = dir("r", vec![dir(".git", vec![]), file("a.txt")]);
    let large = dir("r", vec![dir(".git", filler), file("a.txt")]);
    let (mut l1, mut l2) = (Vec::new(), Vec::new());
    listing(&small, "", 0, &mut l1);
    listing(&large, "", 0, &mut l2);
    let t = SearchTarget::new("n.txt", TargetKind::File, usize::MAX);
    let r1 = search_items(&l1, &t, false, None);
    let r2 = search_items(&l2, &t, false, None);
    assert!(matches!(r1.outcome, Outcome::NotFound));
    assert!(matches!(r2.outcome, Outcome::NotFound));
    assert_eq!(r1.scanned, 2);
    assert_eq!(r2.scanned, 2);
    assert_eq!(r1.samples, r2.samples);
}

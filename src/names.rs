//! Case-folded names and the deny-list of noisy directories.
use vstd::prelude::*;

verus! {

/// What `str::to_lowercase` returns for a given text.
pub uninterp spec fn lower_of(s: Seq<char>) -> Seq<char>;

/// Relies on `str::to_lowercase`: its result depends on the characters alone.
#[verifier::external_body]
pub(crate) fn lowercase(s: &str) -> (r: String)
    ensures
        r@ == lower_of(s@),
{
    s.to_lowercase()
}

/// Two texts are compared character by character.
pub fn same_text(a: &str, b: &str) -> (r: bool)
    ensures
        r == (a@ == b@),
{
    let n = a.unicode_len();
    if n != b.unicode_len() {
        return false;
    }
    let mut i: usize = 0;
    while i < n
        invariant
            n == a@.len(),
            n == b@.len(),
            i <= n,
            a@.subrange(0, i as int) == b@.subrange(0, i as int),
        decreases n - i,
    {
        if a.get_char(i) != b.get_char(i) {
            assert(a@[i as int] != b@[i as int]);
            return false;
        }
        assert(a@.subrange(0, i + 1) == a@.subrange(0, i as int).push(a@[i as int]));
        assert(b@.subrange(0, i + 1) == b@.subrange(0, i as int).push(b@[i as int]));
        i = i + 1;
    }
    assert(a@ == a@.subrange(0, n as int));
    assert(b@ == b@.subrange(0, n as int));
    true
}

/// The folded names of the directories whose subtrees are never walked:
/// recycle and trash locations, system directories, generated artifacts and
/// version-control metadata.
pub open spec fn deny_list() -> Seq<Seq<char>> {
    seq![
        "$recycle.bin"@,
        "system volume information"@,
        "windows"@,
        "program files"@,
        "program files (x86)"@,
        "appdata"@,
        "temp"@,
        "tmp"@,
        "node_modules"@,
        ".git"@,
    ]
}

/// A folded name is on the deny-list.
pub open spec fn is_deny_listed(folded: Seq<char>) -> bool {
    deny_list().contains(folded)
}

/// Whether an already folded name is on the deny-list.
pub fn is_noise_name(folded: &str) -> (r: bool)
    ensures
        r == is_deny_listed(folded@),
{
    let r = same_text(folded, "$recycle.bin") || same_text(folded, "system volume information")
        || same_text(folded, "windows") || same_text(folded, "program files") || same_text(
        folded,
        "program files (x86)",
    ) || same_text(folded, "appdata") || same_text(folded, "temp") || same_text(folded, "tmp")
        || same_text(folded, "node_modules") || same_text(folded, ".git");
    proof {
        let d = deny_list();
        if r {
            assert(d.contains(folded@)) by {
                if folded@ == "$recycle.bin"@ { assert(d[0] == folded@); }
                else if folded@ == "system volume information"@ { assert(d[1] == folded@); }
                else if folded@ == "windows"@ { assert(d[2] == folded@); }
                else if folded@ == "program files"@ { assert(d[3] == folded@); }
                else if folded@ == "program files (x86)"@ { assert(d[4] == folded@); }
                else if folded@ == "appdata"@ { assert(d[5] == folded@); }
                else if folded@ == "temp"@ { assert(d[6] == folded@); }
                else if folded@ == "tmp"@ { assert(d[7] == folded@); }
                else if folded@ == "node_modules"@ { assert(d[8] == folded@); }
                else { assert(d[9] == folded@); }
            }
        } else {
            assert(!d.contains(folded@)) by {
                if d.contains(folded@) {
                    let k = choose|k: int| 0 <= k < d.len() && d[k] == folded@;
                    assert(0 <= k < 10);
                }
            }
        }
    }
    r
}

/// Whether a directory of the given base name has its whole subtree pruned:
/// its folded name is on the deny-list.
pub fn should_skip_directory(name: &str) -> (r: bool)
    ensures
        r == is_deny_listed(lower_of(name@)),
{
    let folded = lowercase(name);
    is_noise_name(folded.as_str())
}

} // verus!

//! The change filter: which filesystem events provoke a fresh pass.
//!
//! Only content-modification events are accepted; an event touching the
//! output artifact itself (the self-trigger guard) or the version-control
//! metadata directory is rejected.

use vstd::prelude::*;

use crate::strutil::str_range_eq;

verus! {

/// The kind of a filesystem change event, as the event source reports it.
pub enum ChangeKind {
    /// Something was created.
    Create,
    /// A file's content or metadata was modified.
    Modify,
    /// Something was removed.
    Remove,
    /// Any other kind of notification.
    Other,
}

/// One filesystem change event: a kind and the affected paths.
pub struct ChangeEvent {
    /// The event's kind.
    pub kind: ChangeKind,
    /// The affected paths.
    pub paths: Vec<String>,
}

/// Whether `p` ends with the path `suffix` on a component boundary: `p` is
/// `suffix` itself, or `suffix` preceded by a separator.
pub open spec fn spec_path_ends_with(p: Seq<char>, suffix: Seq<char>) -> bool {
    p == suffix || (p.len() > suffix.len() && p.subrange(
        p.len() - suffix.len(),
        p.len() as int,
    ) == suffix && p[p.len() - suffix.len() - 1] == '/')
}

/// Whether `p` holds the version-control metadata directory as a path
/// component: `p` is `.git` itself, begins with `.git/`, ends with
/// `/.git`, or contains `/.git/` anywhere.  Stated over the whole path so
/// that the guard holds of the absolute paths an event source delivers.
pub open spec fn spec_under_vcs_dir(p: Seq<char>) -> bool {
    ||| p == ".git"@
    ||| (p.len() >= 5 && p.subrange(0, 5) == ".git/"@)
    ||| (p.len() >= 5 && p.subrange(p.len() - 5, p.len() as int) == "/.git"@)
    ||| exists|i: int| 0 <= i && i + 6 <= p.len() && #[trigger] p.subrange(i, i + 6) == "/.git/"@
}

/// Whether the filter accepts `e`: a modification event none of whose
/// paths ends with the output artifact path or holds the version-control
/// metadata directory as a component.
pub open spec fn spec_accept(e: ChangeEvent, output_path: Seq<char>) -> bool {
    &&& e.kind is Modify
    &&& forall|j: int|
        0 <= j < e.paths@.len() ==> !spec_path_ends_with(e.paths@[j]@, output_path)
            && !spec_under_vcs_dir(e.paths@[j]@)
}

/// Whether `p` ends with the path `suffix` on a component boundary.
pub fn path_ends_with(p: &str, suffix: &str) -> (b: bool)
    ensures
        b == spec_path_ends_with(p@, suffix@),
{
    let np = p.unicode_len();
    let ns = suffix.unicode_len();
    if np == ns {
        let r = str_range_eq(p, 0, ns, suffix);
        proof {
            assert(p@.subrange(0, ns as int) =~= p@);
        }
        r
    } else if np > ns {
        str_range_eq(p, np - ns, ns, suffix) && p.get_char(np - ns - 1) == '/'
    } else {
        false
    }
}

/// Whether `p` holds the version-control metadata directory as a path
/// component.
pub fn under_vcs_dir(p: &str) -> (b: bool)
    ensures
        b == spec_under_vcs_dir(p@),
{
    proof {
        reveal_strlit(".git");
        reveal_strlit(".git/");
        reveal_strlit("/.git");
        reveal_strlit("/.git/");
    }
    let n = p.unicode_len();
    if n == 4 {
        let r = str_range_eq(p, 0, 4, ".git");
        proof {
            assert(p@.subrange(0, 4) =~= p@);
        }
        return r;
    }
    if n < 5 {
        return false;
    }
    if str_range_eq(p, 0, 5, ".git/") {
        return true;
    }
    if str_range_eq(p, n - 5, 5, "/.git") {
        return true;
    }
    if n >= 6 {
        let mut i: usize = 0;
        while i <= n - 6
            invariant
                n >= 6,
                n == p@.len(),
                i <= n - 5,
                "/.git/"@.len() == 6,
                forall|j: int| 0 <= j < i ==> #[trigger] p@.subrange(j, j + 6) != "/.git/"@,
            decreases n - i,
        {
            if str_range_eq(p, i, 6, "/.git/") {
                return true;
            }
            i = i + 1;
        }
    }
    false
}

/// Decides whether a change event provokes a fresh pass: true iff the
/// event is a modification and no affected path is the output artifact or
/// version-control metadata.
pub fn accept(event: &ChangeEvent, output_path: &str) -> (b: bool)
    ensures
        b == spec_accept(*event, output_path@),
{
    match event.kind {
        ChangeKind::Modify => {},
        _ => { return false; },
    }
    let n = event.paths.len();
    let mut i: usize = 0;
    while i < n
        invariant
            i <= n,
            n == event.paths@.len(),
            event.kind is Modify,
            forall|j: int|
                0 <= j < i ==> !spec_path_ends_with(event.paths@[j]@, output_path@)
                    && !spec_under_vcs_dir(event.paths@[j]@),
        decreases n - i,
    {
        let p = &event.paths[i];
        if path_ends_with(p.as_str(), output_path) {
            return false;
        }
        if under_vcs_dir(p.as_str()) {
            return false;
        }
        i = i + 1;
    }
    true
}

/// A modification event whose path is the output artifact itself — or ends
/// with it on a component boundary — is never accepted: a pass cannot
/// re-trigger itself through its own write.
pub proof fn lemma_no_self_trigger(e: ChangeEvent, output_path: Seq<char>, j: int)
    requires
        0 <= j < e.paths@.len(),
        e.paths@[j]@ == output_path || spec_path_ends_with(e.paths@[j]@, output_path),
    ensures
        !spec_accept(e, output_path),
{
}

/// An event under the version-control metadata directory is never
/// accepted.
pub proof fn lemma_no_vcs_trigger(e: ChangeEvent, output_path: Seq<char>, j: int)
    requires
        0 <= j < e.paths@.len(),
        spec_under_vcs_dir(e.paths@[j]@),
    ensures
        !spec_accept(e, output_path),
{
}

/// A non-modification event — a pure creation or a pure deletion — is
/// never accepted, by design.
pub proof fn lemma_only_modifications_trigger(e: ChangeEvent, output_path: Seq<char>)
    requires
        !(e.kind is Modify),
    ensures
        !spec_accept(e, output_path),
{
}

} // verus!

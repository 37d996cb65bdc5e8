//! Rendering a scanned directory tree into the single text artifact:
//! a fixed header, one delimiter-prefixed block per included file in visit
//! order, and a terminator line.
//!
//! The caller walks the tree and reads file contents; an entry whose
//! content could not be read as text arrives with `content == None` and is
//! skipped silently, as is every entry excluded by the ignore rules.

use vstd::prelude::*;

use crate::rules::{is_ignored, rel_path, spec_is_ignored, spec_rel_path, RuleSet};

verus! {

/// One filesystem entry seen by the tree walk: its path as walked, and its
/// content where it could be read as text.
pub struct ScanEntry {
    /// The entry's path, as the walk produced it (root-prefixed).
    pub path: String,
    /// The file's text content, or `None` when it could not be read.
    pub content: Option<String>,
}

/// The fixed header that opens every artifact.
pub open spec fn spec_header() -> Seq<char> {
    "# Repository Content Structure\n# Section start: '----'\n# File path: Relative path of the file\n# File content: Contents of the file\n# Repository ends with: '--END--'\n# Text after '--END--': Instructions or context\n\n"@
}

/// The terminator line that closes every artifact.
pub open spec fn spec_terminator() -> Seq<char> {
    "--END--\n"@
}

/// `path` relative to `root` where it lies under `root`, else `path`
/// itself.
pub open spec fn spec_rel_or_self(path: Seq<char>, root: Seq<char>) -> Seq<char> {
    match spec_rel_path(path, root) {
        Some(rel) => rel,
        None => path,
    }
}

/// Whether an entry contributes a block: its content was readable and its
/// path is not ignored.
pub open spec fn spec_included(e: ScanEntry, root: Seq<char>, srcs: Seq<Seq<char>>) -> bool {
    e.content is Some && !spec_is_ignored(e.path@, root, srcs)
}

/// The block an included entry contributes: a delimiter line, the
/// root-relative path, then the content and a closing newline.
pub open spec fn spec_block(rel: Seq<char>, content: Seq<char>) -> Seq<char> {
    "----\n"@ + rel + "\n"@ + content + "\n"@
}

/// The concatenated blocks of the included entries, in visit order.
pub open spec fn spec_blocks(entries: Seq<ScanEntry>, root: Seq<char>, srcs: Seq<Seq<char>>) -> Seq<
    char,
>
    decreases entries.len(),
{
    if entries.len() == 0 {
        Seq::empty()
    } else {
        spec_blocks(entries.drop_last(), root, srcs) + if spec_included(
            entries.last(),
            root,
            srcs,
        ) {
            spec_block(
                spec_rel_or_self(entries.last().path@, root),
                entries.last().content->0@,
            )
        } else {
            Seq::empty()
        }
    }
}

/// The whole artifact one pass produces from the given entries: header,
/// blocks, terminator.
pub open spec fn spec_artifact(entries: Seq<ScanEntry>, root: Seq<char>, srcs: Seq<Seq<char>>) -> Seq<
    char,
> {
    spec_header() + spec_blocks(entries, root, srcs) + spec_terminator()
}

/// Renders one pass over the scanned entries into the artifact text:
/// header, one block per readable non-ignored entry in the order given,
/// then the terminator line.
pub fn render_artifact(entries: &Vec<ScanEntry>, root: &str, rules: &RuleSet) -> (out: String)
    ensures
        out@ == spec_artifact(entries@, root@, rules.sources()),
{
    let mut out = String::from_str(
        "# Repository Content Structure\n# Section start: '----'\n# File path: Relative path of the file\n# File content: Contents of the file\n# Repository ends with: '--END--'\n# Text after '--END--': Instructions or context\n\n",
    );
    let n = entries.len();
    let mut k: usize = 0;
    proof {
        assert(entries@.subrange(0, 0) =~= Seq::<ScanEntry>::empty());
        assert(out@ + Seq::<char>::empty() =~= out@);
    }
    while k < n
        invariant
            k <= n,
            n == entries@.len(),
            out@ == spec_header() + spec_blocks(entries@.subrange(0, k as int), root@, rules.sources()),
        decreases n - k,
    {
        let ghost srcs = rules.sources();
        proof {
            assert(entries@.subrange(0, k + 1).drop_last() =~= entries@.subrange(0, k as int));
            assert(entries@.subrange(0, k + 1).last() == entries@[k as int]);
        }
        let e = &entries[k];
        match &e.content {
            Some(content) => {
                if !is_ignored(e.path.as_str(), root, rules) {
                    out.append("----\n");
                    match rel_path(e.path.as_str(), root) {
                        Some(rel) => out.append(rel.as_str()),
                        None => out.append(e.path.as_str()),
                    }
                    out.append("\n");
                    out.append(content.as_str());
                    out.append("\n");
                    proof {
                        assert(out@ =~= spec_header() + spec_blocks(
                            entries@.subrange(0, k + 1),
                            root@,
                            srcs,
                        ));
                    }
                } else {
                    proof {
                        assert(out@ =~= spec_header() + spec_blocks(
                            entries@.subrange(0, k + 1),
                            root@,
                            srcs,
                        ));
                    }
                }
            },
            None => {
                proof {
                    assert(out@ =~= spec_header() + spec_blocks(
                        entries@.subrange(0, k + 1),
                        root@,
                        srcs,
                    ));
                }
            },
        }
        k = k + 1;
    }
    proof {
        assert(entries@.subrange(0, n as int) =~= entries@);
    }
    out.append("--END--\n");
    out
}

/// Appending one more visited entry adds exactly one block when the entry
/// is included, and nothing when it is ignored or unreadable: each pass
/// holds one block per included file and none for the others.
pub proof fn lemma_one_block_per_entry(
    entries: Seq<ScanEntry>,
    e: ScanEntry,
    root: Seq<char>,
    srcs: Seq<Seq<char>>,
)
    ensures
        spec_included(e, root, srcs) ==> spec_blocks(entries.push(e), root, srcs) == spec_blocks(
            entries,
            root,
            srcs,
        ) + spec_block(spec_rel_or_self(e.path@, root), e.content->0@),
        !spec_included(e, root, srcs) ==> spec_blocks(entries.push(e), root, srcs) == spec_blocks(
            entries,
            root,
            srcs,
        ),
{
    assert(entries.push(e).drop_last() =~= entries);
    assert(entries.push(e).last() == e);
    if !spec_included(e, root, srcs) {
        assert(spec_blocks(entries.push(e), root, srcs) =~= spec_blocks(entries, root, srcs));
    }
}

/// Serialization is deterministic: two passes over the same entries with
/// the same rules and root produce byte-identical artifacts.
pub proof fn lemma_pass_idempotent(
    first: Seq<char>,
    second: Seq<char>,
    entries: Seq<ScanEntry>,
    root: Seq<char>,
    srcs: Seq<Seq<char>>,
)
    requires
        first == spec_artifact(entries, root, srcs),
        second == spec_artifact(entries, root, srcs),
    ensures
        first == second,
{
}

/// Every artifact ends with the terminator line; an empty tree yields
/// exactly the header followed by the terminator.
pub proof fn lemma_artifact_ends_with_terminator(
    entries: Seq<ScanEntry>,
    root: Seq<char>,
    srcs: Seq<Seq<char>>,
)
    ensures
        spec_artifact(entries, root, srcs).len() >= spec_terminator().len(),
        spec_artifact(entries, root, srcs).subrange(
            spec_artifact(entries, root, srcs).len() - spec_terminator().len(),
            spec_artifact(entries, root, srcs).len() as int,
        ) == spec_terminator(),
        entries.len() == 0 ==> spec_artifact(entries, root, srcs) == spec_header()
            + spec_terminator(),
{
    let a = spec_artifact(entries, root, srcs);
    assert(a.subrange(a.len() - spec_terminator().len(), a.len() as int) =~= spec_terminator());
    if entries.len() == 0 {
        assert(spec_blocks(entries, root, srcs) == Seq::<char>::empty());
        assert(spec_header() + Seq::<char>::empty() =~= spec_header());
    }
}

} // verus!

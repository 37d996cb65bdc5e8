//! Ignore rules: glob patterns loaded from a rules file, and the decision
//! whether a path, taken relative to the watched root, is excluded.
//!
//! Pattern compilation and matching are delegated to the `glob` crate; the
//! rest — parsing the rules file line by line, computing the root-relative
//! path, and combining the per-pattern answers — is verified here.

use vstd::prelude::*;

use crate::strutil::{spec_lines, spec_trim, split_lines, str_range_eq, trim_str};

verus! {

/// Whether `glob::Pattern::new` accepts `pattern` as a valid glob.
pub uninterp spec fn glob_compiles(pattern: Seq<char>) -> bool;

/// Whether the glob `pattern` matches `path`, as `glob::Pattern::matches`
/// decides it (default match options).
pub uninterp spec fn glob_matches(pattern: Seq<char>, path: Seq<char>) -> bool;

#[verifier::external_type_specification]
#[verifier::external_body]
pub struct ExPattern(glob::Pattern);

/// One ignore rule: a compiled glob pattern paired with the exact line it
/// was compiled from.  The pairing is established by the only constructor,
/// `compile_rule`, and is what justifies speaking of a rule through its
/// source text alone.
pub struct IgnoreRule {
    pattern: glob::Pattern,
    source: String,
}

impl IgnoreRule {
    /// The pattern text this rule was compiled from.
    pub closed spec fn spec_source(&self) -> Seq<char> {
        self.source@
    }
}

/// Relies on glob::Pattern::new: whether a pattern compiles depends on the
/// pattern text alone, and a compiled pattern carries no other state.
#[verifier::external_body]
fn compile_rule(line: &str) -> (r: Option<IgnoreRule>)
    ensures
        r is Some <==> glob_compiles(line@),
        r matches Some(rule) ==> rule.spec_source() == line@,
{
    match glob::Pattern::new(line) {
        Ok(pattern) => Some(IgnoreRule { pattern, source: line.to_string() }),
        Err(_) => None,
    }
}

/// Relies on glob::Pattern::matches: the answer depends on the pattern text
/// and the matched string alone (default match options).
#[verifier::external_body]
fn rule_matches(rule: &IgnoreRule, path: &str) -> (b: bool)
    ensures
        b == glob_matches(rule.spec_source(), path@),
{
    rule.pattern.matches(path)
}

/// An ordered set of ignore rules, in rules-file order.
pub struct RuleSet {
    rules: Vec<IgnoreRule>,
}

/// Whether a trimmed rules-file line contributes a rule: non-empty, not a
/// comment, and a valid glob.
pub open spec fn keeps_line(line: Seq<char>) -> bool {
    let t = spec_trim(line);
    t.len() > 0 && t[0] != '#' && glob_compiles(t)
}

/// The pattern texts that loading the given lines yields, in order.
pub open spec fn rules_of_lines(lines: Seq<Seq<char>>) -> Seq<Seq<char>>
    decreases lines.len(),
{
    if lines.len() == 0 {
        Seq::empty()
    } else {
        rules_of_lines(lines.drop_last()) + if keeps_line(lines.last()) {
            seq![spec_trim(lines.last())]
        } else {
            Seq::empty()
        }
    }
}

/// The pattern texts that loading a rules file with content `s` yields.
pub open spec fn rules_of(s: Seq<char>) -> Seq<Seq<char>> {
    rules_of_lines(spec_lines(s))
}

impl RuleSet {
    /// The pattern texts of the rules, in order.
    pub closed spec fn sources(&self) -> Seq<Seq<char>> {
        self.rules@.map_values(|r: IgnoreRule| r.spec_source())
    }

    /// The number of loaded rules.
    pub fn len(&self) -> (n: usize)
        ensures
            n == self.sources().len(),
    {
        self.rules.len()
    }

    /// Whether at least one rule matches `path`.
    fn any_match(&self, path: &str) -> (b: bool)
        ensures
            b == exists|i: int|
                0 <= i < self.sources().len() && glob_matches(self.sources()[i], path@),
    {
        let n = self.rules.len();
        let mut i: usize = 0;
        while i < n
            invariant
                i <= n,
                n == self.rules@.len(),
                forall|j: int| 0 <= j < i ==> !glob_matches(self.sources()[j], path@),
            decreases n - i,
        {
            if rule_matches(&self.rules[i], path) {
                proof {
                    assert(glob_matches(self.sources()[i as int], path@));
                }
                return true;
            }
            i = i + 1;
        }
        false
    }
}

/// Loads ignore rules from the content of a rules file: each line is
/// trimmed; empty lines, `#` comments and lines that do not compile as
/// globs are dropped; the rest become rules in file order.  A caller whose
/// rules file is absent passes the empty string and gets an empty rule set.
pub fn load_rules(contents: &str) -> (rs: RuleSet)
    ensures
        rs.sources() == rules_of(contents@),
{
    let lines = split_lines(contents);
    let mut rules: Vec<IgnoreRule> = Vec::new();
    let mut k: usize = 0;
    let n = lines.len();
    proof {
        let lv = lines@.map_values(|l: String| l@);
        assert(lv.subrange(0, 0) =~= Seq::<Seq<char>>::empty());
        let f = |r: IgnoreRule| r.spec_source();
        assert(rules@.map_values(f) =~= rules_of_lines(lv.subrange(0, 0)));
    }
    while k < n
        invariant
            k <= n,
            n == lines@.len(),
            lines@.map_values(|l: String| l@) == spec_lines(contents@),
            rules@.map_values(|r: IgnoreRule| r.spec_source()) == rules_of_lines(
                lines@.map_values(|l: String| l@).subrange(0, k as int),
            ),
        decreases n - k,
    {
        let ghost lv = lines@.map_values(|l: String| l@);
        let ghost f = |r: IgnoreRule| r.spec_source();
        proof {
            assert(lv.subrange(0, k + 1).drop_last() =~= lv.subrange(0, k as int));
            assert(lv.subrange(0, k + 1).last() == lv[k as int]);
            assert(lv[k as int] == lines@[k as int]@);
        }
        let t = trim_str(lines[k].as_str());
        if t.unicode_len() > 0 && t.get_char(0) != '#' {
            match compile_rule(t.as_str()) {
                Some(rule) => {
                    proof {
                        assert(rules@.push(rule).map_values(f) =~= rules@.map_values(f).push(
                            rule.spec_source(),
                        ));
                        assert(rules@.map_values(f).push(t@) =~= rules_of_lines(
                            lv.subrange(0, k as int),
                        ) + seq![spec_trim(lv[k as int])]);
                    }
                    rules.push(rule);
                },
                None => {
                    proof {
                        assert(!keeps_line(lv[k as int]));
                        assert(rules@.map_values(f) + Seq::<Seq<char>>::empty() =~= rules@.map_values(f));
                    }
                },
            }
        } else {
            proof {
                assert(!keeps_line(lv[k as int]));
                assert(rules@.map_values(f) + Seq::<Seq<char>>::empty() =~= rules@.map_values(f));
            }
        }
        k = k + 1;
    }
    proof {
        let lv = lines@.map_values(|l: String| l@);
        assert(lv.subrange(0, n as int) =~= lv);
    }
    RuleSet { rules }
}

/// `path` relative to `root`: `Some(rest)` when `path` is `root`, a path
/// separator, then `rest`; `None` when `path` does not lie under `root`.
/// A root that itself ends in a separator (such as `/`) needs no second
/// separator after it.
pub open spec fn spec_rel_path(path: Seq<char>, root: Seq<char>) -> Option<Seq<char>> {
    if root.len() > 0 && root[root.len() - 1] == '/' {
        if path.len() > root.len() && path.subrange(0, root.len() as int) == root {
            Some(path.subrange(root.len() as int, path.len() as int))
        } else {
            None
        }
    } else if path.len() > root.len() && path.subrange(0, root.len() as int) == root
        && path[root.len() as int] == '/' {
        Some(path.subrange(root.len() as int + 1, path.len() as int))
    } else {
        None
    }
}

/// Whether `path`, taken relative to `root`, is excluded by at least one of
/// the patterns `srcs`.  A path not under `root` is never ignored.
pub open spec fn spec_is_ignored(path: Seq<char>, root: Seq<char>, srcs: Seq<Seq<char>>) -> bool {
    match spec_rel_path(path, root) {
        Some(rel) => exists|i: int| 0 <= i < srcs.len() && glob_matches(srcs[i], rel),
        None => false,
    }
}

/// `path` relative to `root`, as `spec_rel_path` has it.
pub fn rel_path(path: &str, root: &str) -> (r: Option<String>)
    ensures
        r is Some <==> spec_rel_path(path@, root@) is Some,
        r matches Some(rel) ==> Some(rel@) == spec_rel_path(path@, root@),
{
    let np = path.unicode_len();
    let nr = root.unicode_len();
    if nr > 0 && root.get_char(nr - 1) == '/' {
        if np > nr && str_range_eq(path, 0, nr, root) {
            Some(String::from_str(path.substring_char(nr, np)))
        } else {
            None
        }
    } else if np > nr && str_range_eq(path, 0, nr, root) && path.get_char(nr) == '/' {
        Some(String::from_str(path.substring_char(nr + 1, np)))
    } else {
        None
    }
}

/// Decides whether `path` is excluded: true iff some rule of `rules`
/// matches `path` taken relative to `root`.
pub fn is_ignored(path: &str, root: &str, rules: &RuleSet) -> (b: bool)
    ensures
        b == spec_is_ignored(path@, root@, rules.sources()),
{
    match rel_path(path, root) {
        Some(rel) => rules.any_match(rel.as_str()),
        None => false,
    }
}

/// A path is ignored exactly when it lies under the root and at least one
/// pattern of the rule set matches its root-relative form; in particular an
/// empty rule set ignores nothing.
pub proof fn lemma_is_ignored_characterization(
    path: Seq<char>,
    root: Seq<char>,
    srcs: Seq<Seq<char>>,
)
    ensures
        spec_is_ignored(path, root, srcs) <==> (spec_rel_path(path, root) matches Some(rel)
            && exists|i: int| 0 <= i < srcs.len() && glob_matches(srcs[i], rel)),
        srcs.len() == 0 ==> !spec_is_ignored(path, root, srcs),
{
}

} // verus!

use repo_snapshot::artifact::{render_artifact, ScanEntry};
use repo_snapshot::rules::load_rules;

const HEADER: &str = "# Repository Content Structure\n# Section start: '----'\n# File path: Relative path of the file\n# File content: Contents of the file\n# Repository ends with: '--END--'\n# Text after '--END--': Instructions or context\n\n";

fn entry(path: &str, content: &str) -> ScanEntry {
    ScanEntry { path: path.to_string(), content: Some(content.to_string()) }
}

#[test]
fn ignored_file_never_appears() {
    let rules = load_rules("*.log\n");
    let entries = vec![entry("root/a.txt", "hello"), entry("root/b.log", "skip me")];
    let out = render_artifact(&entries, "root", &rules);
    let expected = format!("{}----\na.txt\nhello\n--END--\n", HEADER);
    assert_eq!(out, expected);
    assert!(!out.contains("b.log"));
    assert!(!out.contains("skip me"));
}

#[test]
fn absent_rules_file_includes_every_file() {
    let rules = load_rules("");
    let entries = vec![entry("root/a.txt", "hello"), entry("root/b.log", "skip me")];
    let out = render_artifact(&entries, "root", &rules);
    let expected = format!("{}----\na.txt\nhello\n----\nb.log\nskip me\n--END--\n", HEADER);
    assert_eq!(out, expected);
}

#[test]
fn empty_tree_yields_header_and_terminator_only() {
    let rules = load_rules("");
    let entries: Vec<ScanEntry> = Vec::new();
    let out = render_artifact(&entries, "root", &rules);
    let expected = format!("{}--END--\n", HEADER);
    assert_eq!(out, expected);
}

#[test]
fn artifact_always_ends_with_terminator() {
    let rules = load_rules("*.log\n");
    let entries = vec![entry("root/a.txt", "hello")];
    let out = render_artifact(&entries, "root", &rules);
    assert!(out.ends_with("--END--\n"));
    let none: Vec<ScanEntry> = Vec::new();
    let out2 = render_artifact(&none, "root", &rules);
    assert!(out2.ends_with("--END--\n"));
}

#[test]
fn two_passes_are_byte_identical() {
    let rules = load_rules("*.log\n");
    let entries = vec![entry("root/a.txt", "hello"), entry("root/sub/c.rs", "fn main() {}\n")];
    let first = render_artifact(&entries, "root", &rules);
    let second = render_artifact(&entries, "root", &rules);
    assert_eq!(first.as_bytes(), second.as_bytes());
}

#[test]
fn unreadable_file_is_skipped_silently() {
    let rules = load_rules("");
    let entries = vec![
        entry("root/a.txt", "hello"),
        ScanEntry { path: "root/blob.bin".to_string(), content: None },
    ];
    let out = render_artifact(&entries, "root", &rules);
    let expected = format!("{}----\na.txt\nhello\n--END--\n", HEADER);
    assert_eq!(out, expected);
    assert!(!out.contains("blob.bin"));
}

#[test]
fn deleted_file_vanishes_from_the_next_pass() {
    let rules = load_rules("");
    let before = vec![entry("root/a.txt", "hello"), entry("root/b.txt", "bye")];
    let first = render_artifact(&before, "root", &rules);
    assert!(first.contains("b.txt"));
    let after = vec![entry("root/a.txt", "hello")];
    let second = render_artifact(&after, "root", &rules);
    let expected = format!("{}----\na.txt\nhello\n--END--\n", HEADER);
    assert_eq!(second, expected);
    assert!(!second.contains("b.txt"));
}

#[test]
fn path_not_under_root_keeps_its_full_path() {
    let rules = load_rules("");
    let entries = vec![entry("elsewhere/x.txt", "stray")];
    let out = render_artifact(&entries, "root", &rules);
    let expected = format!("{}----\nelsewhere/x.txt\nstray\n--END--\n", HEADER);
    assert_eq!(out, expected);
}

#[test]
fn blocks_keep_visit_order() {
    let rules = load_rules("");
    let entries = vec![entry("root/z.txt", "last"), entry("root/a.txt", "first")];
    let out = render_artifact(&entries, "root", &rules);
    let expected = format!("{}----\nz.txt\nlast\n----\na.txt\nfirst\n--END--\n", HEADER);
    assert_eq!(out, expected);
}

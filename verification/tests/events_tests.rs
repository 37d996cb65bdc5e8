use repo_snapshot::events::{accept, ChangeEvent, ChangeKind};
use repo_snapshot::watch::{next_step, WatchInput, WatchStep};

fn event(kind: ChangeKind, paths: &[&str]) -> ChangeEvent {
    ChangeEvent { kind, paths: paths.iter().map(|p| p.to_string()).collect() }
}

#[test]
fn modification_of_an_ordinary_file_is_accepted() {
    let e = event(ChangeKind::Modify, &["src/main.rs"]);
    assert!(accept(&e, "output.txt"));
}

#[test]
fn own_output_file_never_triggers() {
    let e = event(ChangeKind::Modify, &["output.txt"]);
    assert!(!accept(&e, "output.txt"));
}

#[test]
fn output_path_suffix_on_component_boundary_never_triggers() {
    let e = event(ChangeKind::Modify, &["repo/output.txt"]);
    assert!(!accept(&e, "output.txt"));
}

#[test]
fn a_name_merely_ending_in_the_output_name_still_triggers() {
    let e = event(ChangeKind::Modify, &["repo/xoutput.txt"]);
    assert!(accept(&e, "output.txt"));
}

#[test]
fn any_affected_output_path_suffices_to_reject() {
    let e = event(ChangeKind::Modify, &["src/main.rs", "output.txt"]);
    assert!(!accept(&e, "output.txt"));
}

#[test]
fn version_control_metadata_never_triggers() {
    let e = event(ChangeKind::Modify, &[".git/index"]);
    assert!(!accept(&e, "output.txt"));
    let d = event(ChangeKind::Modify, &[".git"]);
    assert!(!accept(&d, "output.txt"));
}

#[test]
fn absolute_path_under_version_control_metadata_never_triggers() {
    let e = event(ChangeKind::Modify, &["/r/.git/config"]);
    assert!(!accept(&e, "out.txt"));
    let f = event(ChangeKind::Modify, &["repo/sub/.git/objects/aa"]);
    assert!(!accept(&f, "out.txt"));
}

#[test]
fn path_ending_in_the_metadata_directory_never_triggers() {
    let e = event(ChangeKind::Modify, &["repo/.git"]);
    assert!(!accept(&e, "out.txt"));
}

#[test]
fn a_directory_merely_ending_in_git_still_triggers() {
    let e = event(ChangeKind::Modify, &["r/x.git/y"]);
    assert!(accept(&e, "out.txt"));
}

#[test]
fn a_gitignore_like_name_is_not_metadata() {
    let e = event(ChangeKind::Modify, &[".gitignore"]);
    assert!(accept(&e, "output.txt"));
}

#[test]
fn creation_and_removal_never_trigger() {
    let c = event(ChangeKind::Create, &["src/new.rs"]);
    assert!(!accept(&c, "output.txt"));
    let r = event(ChangeKind::Remove, &["src/old.rs"]);
    assert!(!accept(&r, "output.txt"));
    let o = event(ChangeKind::Other, &["src/other.rs"]);
    assert!(!accept(&o, "output.txt"));
}

#[test]
fn accepted_event_yields_a_refresh_step() {
    let input = WatchInput::Event(event(ChangeKind::Modify, &["src/main.rs"]));
    assert!(matches!(next_step(&input, "output.txt"), WatchStep::Refresh));
}

#[test]
fn rejected_event_yields_a_skip_step() {
    let input = WatchInput::Event(event(ChangeKind::Create, &["src/new.rs"]));
    assert!(matches!(next_step(&input, "output.txt"), WatchStep::Skip));
}

#[test]
fn source_error_yields_a_skip_step() {
    let input = WatchInput::SourceError;
    assert!(matches!(next_step(&input, "output.txt"), WatchStep::Skip));
}

use fathomable::paths::{file_name, starts_with};
use fathomable::watch::{on_this_side, WatchEvent};

fn renamed(from: &str, to: &str) -> WatchEvent {
    WatchEvent::Renamed { from: from.to_owned(), to: to.to_owned() }
}

fn describe(event: Option<WatchEvent>) -> String {
    match event {
        None => "none".to_owned(),
        Some(WatchEvent::Change(p)) => format!("change {p}"),
        Some(WatchEvent::Created(p)) => format!("created {p}"),
        Some(WatchEvent::Removed(p)) => format!("removed {p}"),
        Some(WatchEvent::Renamed { from, to }) => format!("renamed {from} {to}"),
        Some(WatchEvent::Rescan) => "rescan".to_owned(),
    }
}

#[test]
fn a_rename_across_the_root_is_a_creation_or_a_removal() {
    assert_eq!(describe(on_this_side(renamed("/w/a.md", "/w/b.md"), "/w")), "renamed /w/a.md /w/b.md");
    assert_eq!(describe(on_this_side(renamed("/w/a.md", "/tmp/a.md"), "/w")), "removed /w/a.md");
    assert_eq!(describe(on_this_side(renamed("/tmp/a.md", "/w/a.md"), "/w")), "created /w/a.md");
    assert_eq!(describe(on_this_side(renamed("/tmp/a", "/tmp/b"), "/w")), "none");
}

#[test]
fn the_root_is_matched_by_whole_components() {
    assert!(!starts_with("/wide/a.md", "/w"));
    assert!(starts_with("/w/a.md", "/w"));
    assert_eq!(describe(on_this_side(renamed("/wide/a.md", "/w/a.md"), "/w")), "created /w/a.md");
}

#[test]
fn other_events_pass_unchanged() {
    assert_eq!(describe(on_this_side(WatchEvent::Change("/elsewhere".to_owned()), "/w")), "change /elsewhere");
    assert_eq!(describe(on_this_side(WatchEvent::Removed("/w/x".to_owned()), "/w")), "removed /w/x");
    assert_eq!(describe(on_this_side(WatchEvent::Rescan, "/w")), "rescan");
}

#[test]
fn a_path_names_its_last_component() {
    assert_eq!(file_name("docs/guide.md").as_deref(), Some("guide.md"));
    assert_eq!(file_name("docs/").as_deref(), Some("docs"));
    assert_eq!(file_name("docs/.."), None);
}

use fathomable::paths::{parent, strip_base};
use fathomable::watch::{after_events, plan_events, EventFacts, FileOp, StatusRefresh};

fn facts() -> EventFacts {
    EventFacts { other_worktree: false, git_metadata: false, listed: true, status_deleted: false, kept: true, from_kept: true }
}

fn op(o: &FileOp) -> String {
    match o {
        FileOp::Changed(p) => format!("changed {p}"),
        FileOp::Removed(p) => format!("removed {p}"),
        FileOp::Renamed { from, to } => format!("renamed {from} {to}"),
    }
}

#[test]
fn paths_are_cut_and_parented_by_components() {
    assert_eq!(strip_base("/w/src/a.rs", "/w"), Some("src/a.rs".to_owned()));
    assert_eq!(strip_base("/wide/a.rs", "/w"), None);
    assert_eq!(parent("src/a.rs"), Some("src".to_owned()));
    assert_eq!(parent("a.rs"), Some(String::new()));
    assert_eq!(parent(""), None);
}

#[test]
fn a_lost_event_rescans_the_whole_batch() {
    let events = vec![WatchEvent::Change("/w/a.md".to_owned()), WatchEvent::Rescan];
    let plan = plan_events(&events, "/w", &[facts(), facts()]);
    assert!(plan.rescan);
    assert!(plan.changed.is_empty() && plan.ops.is_empty() && !plan.git_changed);
}

#[test]
fn a_batch_names_its_files_once_and_lists_their_directories() {
    let events = vec![
        WatchEvent::Change("/w/docs/a.md".to_owned()),
        WatchEvent::Change("/w/docs/a.md".to_owned()),
        WatchEvent::Created("/w/docs/b.md".to_owned()),
        WatchEvent::Removed("/w/c.md".to_owned()),
        renamed("/w/docs/d.md", "/w/e.md"),
        renamed("/w/f.md", "/tmp/f.md"),
        WatchEvent::Change("/w/.git/index".to_owned()),
    ];
    let git = EventFacts { git_metadata: true, ..facts() };
    let plan = plan_events(&events, "/w", &[facts(), facts(), facts(), facts(), facts(), facts(), git]);
    assert!(!plan.rescan);
    assert!(plan.git_changed);
    assert_eq!(
        plan.changed,
        vec!["docs/a.md", "docs/a.md", "docs/b.md", "c.md", "docs/d.md", "e.md", "f.md"]
    );
    assert_eq!(plan.dirs, vec!["docs".to_owned(), String::new()]);
    assert_eq!(
        plan.ops.iter().map(op).collect::<Vec<_>>(),
        vec!["changed docs/a.md", "changed docs/b.md", "removed c.md", "renamed docs/d.md e.md", "removed f.md"]
    );
}

#[test]
fn unlisted_changes_and_ignored_paths_decide_the_listings() {
    let events = vec![
        WatchEvent::Change("/w/x/new.md".to_owned()),
        WatchEvent::Change("/w/y/known.md".to_owned()),
        WatchEvent::Removed("/w/target/out.o".to_owned()),
        WatchEvent::Change("/other/.git/HEAD".to_owned()),
    ];
    let unlisted = EventFacts { listed: false, ..facts() };
    let ignored = EventFacts { kept: false, ..facts() };
    let worktree = EventFacts { other_worktree: true, ..facts() };
    let plan = plan_events(&events, "/w", &[unlisted, facts(), ignored, worktree]);
    assert!(plan.git_changed);
    assert_eq!(plan.dirs, vec!["x".to_owned()]);
    assert_eq!(plan.changed.len(), 3);
}

#[test]
fn refreshes_follow_git_rules_and_named_paths() {
    let all = after_events(true, false, true);
    assert_eq!(all.status, StatusRefresh::All);
    assert!(!all.clear_indexes && all.comparison);
    let rules = after_events(false, true, false);
    assert!(rules.clear_indexes);
    assert_eq!(rules.status, StatusRefresh::All);
    assert_eq!(after_events(false, false, true).status, StatusRefresh::Paths);
    let quiet = after_events(false, false, false);
    assert_eq!(quiet.status, StatusRefresh::Nothing);
    assert!(!quiet.comparison);
}

use fathomable::opening::{
    deleted_source, open_end, open_plan, touch_recent, EntrySides, OpenEnd, OpenFacts, OpenNotice,
    OpenPlan, Source,
};
use fathomable::picker::Deleted;

fn facts() -> OpenFacts {
    OpenFacts {
        loaded: None,
        diff_off: false,
        target_is_working_tree: true,
        target_lacks_path: false,
        missing_on_disk: false,
        status: None,
    }
}

const WORKTREE_DELETED: EntrySides = EntrySides { staged_deleted: false, unstaged_deleted: true, unstaged_clean: false };
const STAGED_DELETED: EntrySides = EntrySides { staged_deleted: true, unstaged_deleted: false, unstaged_clean: true };

#[test]
fn an_open_path_switches_to_its_document() {
    assert_eq!(open_plan(OpenFacts { loaded: Some(2), ..facts() }), OpenPlan::Switch(2));
}

#[test]
fn a_deleted_file_shows_the_index_or_head() {
    assert_eq!(deleted_source(Some(WORKTREE_DELETED)), Some(Deleted::Index));
    assert_eq!(deleted_source(Some(STAGED_DELETED)), Some(Deleted::Head));
    assert_eq!(deleted_source(None), None);
    let gone = OpenFacts { missing_on_disk: true, status: Some(WORKTREE_DELETED), ..facts() };
    assert_eq!(open_plan(gone), OpenPlan::Load { source: Source::Index, deleted: Some(Deleted::Index) });
    let staged = OpenFacts { missing_on_disk: true, status: Some(STAGED_DELETED), ..facts() };
    assert_eq!(open_plan(staged), OpenPlan::Load { source: Source::Head, deleted: Some(Deleted::Head) });
    let untracked = OpenFacts { missing_on_disk: true, ..facts() };
    assert_eq!(open_plan(untracked), OpenPlan::Load { source: Source::Disk, deleted: None });
}

#[test]
fn the_comparison_and_the_diff_mode_choose_the_content() {
    assert_eq!(open_plan(facts()), OpenPlan::Load { source: Source::Disk, deleted: None });
    let lacking = OpenFacts { target_lacks_path: true, ..facts() };
    assert_eq!(open_plan(lacking), OpenPlan::Load { source: Source::Comparison, deleted: Some(Deleted::ComparisonBase) });
    let commit = OpenFacts { target_is_working_tree: false, missing_on_disk: true, status: Some(WORKTREE_DELETED), ..facts() };
    assert_eq!(open_plan(commit), OpenPlan::Load { source: Source::Comparison, deleted: None });
    let off = OpenFacts { diff_off: true, target_lacks_path: true, ..facts() };
    assert_eq!(open_plan(off), OpenPlan::Load { source: Source::OffTarget, deleted: None });
}

#[test]
fn unreadable_content_opens_empty_only_within_the_comparison() {
    let staged = OpenFacts { status: Some(STAGED_DELETED), ..facts() };
    assert_eq!(
        open_end(staged, Some(Deleted::Head), true, false, false, false),
        OpenEnd::Add { empty: false, worktree_missing: true, index_missing: true, notice: None }
    );
    assert_eq!(
        open_end(facts(), None, false, false, true, false),
        OpenEnd::Add { empty: true, worktree_missing: false, index_missing: false, notice: Some(OpenNotice::Unavailable) }
    );
    assert_eq!(open_end(facts(), None, false, false, false, true), OpenEnd::Fail { relayout: true });
    let off = OpenFacts { diff_off: true, ..facts() };
    assert_eq!(open_end(off, None, false, false, true, false), OpenEnd::Fail { relayout: false });
    assert_eq!(
        open_end(off, None, true, true, false, false),
        OpenEnd::Add { empty: false, worktree_missing: true, index_missing: false, notice: Some(OpenNotice::NotInTarget) }
    );
}

#[test]
fn the_opened_file_becomes_the_most_recent_once() {
    let mut recent = vec![3, 1, 4, 1, 5];
    touch_recent(&mut recent, 1);
    assert_eq!(recent, vec![1, 3, 4, 5]);
    touch_recent(&mut recent, 9);
    assert_eq!(recent, vec![9, 1, 3, 4, 5]);
    let mut empty = Vec::new();
    touch_recent(&mut empty, 0);
    assert_eq!(empty, vec![0]);
}

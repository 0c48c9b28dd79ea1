use fathomable::picker::{
    commit_prefix, commit_search, picker_list_rows, CommitSearch, ComparisonSide, Deleted, PickerKind,
    PickerWindow,
};

#[test]
fn the_picker_list_is_three_to_twenty_rows_less_its_border() {
    assert_eq!(picker_list_rows(30), 18);
    assert_eq!(picker_list_rows(12), 8);
    assert_eq!(picker_list_rows(4), 1);
    assert_eq!(picker_list_rows(0), 1);
}

#[test]
fn each_comparison_side_names_its_picker() {
    assert_eq!(ComparisonSide::Base.picker_kind(), PickerKind::ComparisonBase);
    assert_eq!(ComparisonSide::Target.picker_kind(), PickerKind::ComparisonTarget);
    assert_eq!(ComparisonSide::Base.label(), "base");
    assert_eq!(ComparisonSide::Target.label(), "target");
}

#[test]
fn a_deleted_file_says_which_source_it_shows() {
    assert_eq!(Deleted::Loaded.banner(), "deleted from worktree · showing last loaded");
    assert_eq!(Deleted::Index.banner(), "deleted from worktree · showing INDEX");
    assert_eq!(Deleted::Head.banner(), "staged deletion · showing HEAD");
    assert_eq!(Deleted::ComparisonBase.banner(), "deleted in comparison · showing base");
}

#[test]
fn the_picker_window_follows_the_selection_with_a_margin() {
    let mut w = PickerWindow { selected: 0, scroll: 0 };
    w.move_by(1, 100, 10);
    assert_eq!(w, PickerWindow { selected: 1, scroll: 0 });
    w.move_by(6, 100, 10);
    assert_eq!(w, PickerWindow { selected: 7, scroll: 1 });
    w.move_by(100, 100, 10);
    assert_eq!(w, PickerWindow { selected: 99, scroll: 90 });
    w.move_by(-95, 100, 10);
    assert_eq!(w, PickerWindow { selected: 4, scroll: 1 });
    assert_eq!(w.first_visible(100, 0), 0);
    let mut none = PickerWindow { selected: 3, scroll: 2 };
    none.move_by(1, 0, 10);
    assert_eq!(none, PickerWindow { selected: 3, scroll: 2 });
    let short = PickerWindow { selected: 2, scroll: 9 };
    assert_eq!(short.first_visible(4, 10), 0);
}

#[test]
fn a_commit_prefix_is_four_or_more_hex_digits() {
    assert_eq!(commit_prefix("  ABcd12 ").as_deref(), Some("abcd12"));
    assert_eq!(commit_prefix("abc"), None);
    assert_eq!(commit_prefix("abcg"), None);
    assert_eq!(commit_prefix("éabcd"), None);
    assert_eq!(commit_prefix("0000"), Some("0000".to_owned()));
}

#[test]
fn typing_in_a_comparison_picker_searches_commits() {
    assert_eq!(commit_search(PickerKind::Files, None, "abcd", None), CommitSearch::Requery);
    assert_eq!(commit_search(PickerKind::ComparisonBase, None, "zz", None), CommitSearch::Reset);
    assert_eq!(
        commit_search(PickerKind::ComparisonBase, Some("main"), "ABCD", None),
        CommitSearch::Search { revision: None, prefix: "abcd".to_owned() }
    );
    assert_eq!(
        commit_search(PickerKind::ComparisonTarget, None, "abcd", Some("abc")),
        CommitSearch::Narrow("abcd".to_owned())
    );
    assert_eq!(
        commit_search(PickerKind::ComparisonTarget, None, "abcd", Some("abce")),
        CommitSearch::Search { revision: None, prefix: "abcd".to_owned() }
    );
    assert_eq!(
        commit_search(PickerKind::ComparisonBranchCommits(ComparisonSide::Base), Some("main"), "1234", None),
        CommitSearch::Search { revision: Some("main".to_owned()), prefix: "1234".to_owned() }
    );
}

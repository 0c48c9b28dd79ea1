use fathomable::navigation::{
    landing_hunk, stepped_hunk_index, traversal_order, wrap_notice, Direction, PathLanding,
};

#[test]
fn exact_hunk_index_keeps_equal_target_lines_distinct() {
    let lines = [4, 4, 9];
    assert_eq!(stepped_hunk_index(&lines, 4, None, true), Some(2));
    assert_eq!(stepped_hunk_index(&lines, 4, Some(0), true), Some(1));
    assert_eq!(stepped_hunk_index(&lines, 4, Some(1), false), Some(0));
}

#[test]
fn steps_without_a_remembered_hunk_use_the_cursor_line() {
    let lines = [3, 8, 8, 15];
    assert_eq!(stepped_hunk_index(&lines, 8, None, false), Some(0));
    assert_eq!(stepped_hunk_index(&lines, 9, None, false), Some(2));
    assert_eq!(stepped_hunk_index(&lines, 15, None, true), None);
    assert_eq!(stepped_hunk_index(&lines, 3, None, false), None);
    assert_eq!(stepped_hunk_index(&lines, 0, None, true), Some(0));
    assert_eq!(stepped_hunk_index(&[], 0, None, true), None);
}

#[test]
fn a_remembered_hunk_stops_at_the_ends() {
    let lines = [1, 2, 3];
    assert_eq!(stepped_hunk_index(&lines, 0, Some(2), true), None);
    assert_eq!(stepped_hunk_index(&lines, 0, Some(0), false), None);
    assert_eq!(stepped_hunk_index(&lines, 0, Some(usize::MAX), true), None);
}

#[test]
fn next_from_a_changed_path_starts_after_it_and_wraps() {
    let order = traversal_order(Ok(1), 3, Direction::Next);
    assert_eq!(order, [(2, false), (0, true), (1, true)]);
    let order = traversal_order(Ok(2), 3, Direction::Next);
    assert_eq!(order, [(0, true), (1, true), (2, true)]);
}

#[test]
fn next_from_an_unchanged_path_starts_at_its_insertion_point() {
    assert_eq!(
        traversal_order(Err(1), 3, Direction::Next),
        [(1, false), (2, false), (0, true)]
    );
    assert_eq!(
        traversal_order(Err(3), 3, Direction::Next),
        [(0, true), (1, true), (2, true)]
    );
}

#[test]
fn previous_goes_before_and_wraps_to_the_last() {
    assert_eq!(
        traversal_order(Ok(1), 3, Direction::Previous),
        [(0, false), (2, true), (1, true)]
    );
    assert_eq!(
        traversal_order(Err(0), 3, Direction::Previous),
        [(2, true), (1, true), (0, true)]
    );
    assert_eq!(
        traversal_order(Err(2), 3, Direction::Previous),
        [(1, false), (0, false), (2, true)]
    );
}

#[test]
fn notices_and_landings_follow_the_direction() {
    assert_eq!(wrap_notice(Direction::Next, PathLanding::TraversalEdge), "wrapped to first change");
    assert_eq!(wrap_notice(Direction::Previous, PathLanding::TraversalEdge), "wrapped to last change");
    assert_eq!(wrap_notice(Direction::Next, PathLanding::FirstHunk), "wrapped to first changed file");
    assert_eq!(wrap_notice(Direction::Previous, PathLanding::FirstHunk), "wrapped to last changed file");
    assert_eq!(landing_hunk(Direction::Previous, PathLanding::TraversalEdge, 4), 3);
    assert_eq!(landing_hunk(Direction::Previous, PathLanding::FirstHunk, 4), 0);
    assert_eq!(landing_hunk(Direction::Next, PathLanding::TraversalEdge, 4), 0);
    assert!(Direction::Next.is_next());
    assert!(!Direction::Previous.is_next());
}

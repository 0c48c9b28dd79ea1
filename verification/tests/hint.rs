use fathomable::bindings::{c, menu_sections, no_relabel, Where};
use fathomable::hint::{
    best_partition, hint_box_width, hint_column_dimensions, hint_column_width,
    responsive_hint_plan, segment_height, HintCell, HintColumn, HintGrid,
};

const IDS: [usize; 3] = [0, 0, 1];
const WIDTHS: [(usize, usize); 3] = [(1, 3), (1, 3), (1, 3)];

#[test]
fn a_section_change_takes_a_rule_row() {
    assert_eq!(segment_height(&IDS, 0, 3), 4);
    assert_eq!(segment_height(&IDS, 0, 2), 2);
    assert_eq!(segment_height(&IDS, 1, 3), 3);
    assert_eq!(segment_height(&IDS, 2, 2), 0);
}

#[test]
fn column_dimensions_clip_labels_and_keep_one_key_cell() {
    assert_eq!(hint_column_dimensions(&[(2, 9), (4, 3)], 0, 2, 5), (4, 5));
    assert_eq!(hint_column_dimensions(&[(2, 9), (4, 3)], 1, 1, 5), (1, 0));
    assert_eq!(hint_column_width(4, 5), 14);
    assert_eq!(hint_column_width(3, 0), 3);
}

#[test]
fn a_card_box_adds_rules_and_borders() {
    let column = |width| HintColumn { width, key_width: 1, label_width: 1, cells: Vec::new() };
    assert_eq!(hint_box_width(&[column(9), column(7)]), 9 + 7 + 1 + 2);
    assert_eq!(hint_box_width(&[]), 2);
}

#[test]
fn one_column_wins_when_it_fits_without_splitting_a_section() {
    let plan = responsive_hint_plan(&IDS, &WIDTHS, 3, 40, 10).expect("a layout fits");
    assert_eq!(plan.ends, vec![3]);
    assert_eq!(plan.rows, 4);
    assert_eq!(plan.cuts, 0);
    assert_eq!(plan.squared_heights, 16);
    assert_eq!(plan.label_width, 3);
}

#[test]
fn few_rows_split_the_entries_between_sections() {
    let plan = responsive_hint_plan(&IDS, &WIDTHS, 3, 40, 3).expect("a layout fits");
    assert_eq!(plan.ends, vec![2, 3]);
    assert_eq!(plan.rows, 2);
    assert_eq!(plan.cuts, 0);
    assert_eq!(plan.squared_heights, 5);
}

#[test]
fn a_narrow_pane_drops_the_labels_before_giving_up() {
    let plan = responsive_hint_plan(&IDS, &WIDTHS, 3, 5, 10).expect("keys alone fit");
    assert_eq!(plan.label_width, 0);
    assert_eq!(plan.ends, vec![3]);
}

#[test]
fn no_layout_without_room_or_rows() {
    assert!(responsive_hint_plan(&IDS, &WIDTHS, 3, 1, 10).is_none());
    assert!(responsive_hint_plan(&IDS, &WIDTHS, 3, 40, 0).is_none());
    assert!(responsive_hint_plan(&[], &[], 1, 40, 10).is_none());
}

#[test]
fn the_card_sits_at_the_bottom_right_and_maps_clicks_to_entries() {
    let sections = menu_sections(Where::View, &[c(' '), c('d')], no_relabel);
    let grid = HintGrid::bottom(&sections, "Diff", 0, 0, 100, 30);
    assert!(!grid.insufficient_space);
    assert_eq!(grid.x + grid.width, 100);
    assert_eq!(grid.y + grid.height, 30);
    assert_eq!(grid.height, grid.rows + 2);
    let entries = grid
        .columns
        .iter()
        .flat_map(|column| column.cells.iter())
        .filter(|cell| matches!(cell, HintCell::Entry(_)))
        .count();
    assert_eq!(entries, 11);
    let first_x = grid.column_x(0).expect("the first column");
    assert_eq!(first_x, grid.x + 1);
    assert_eq!(grid.entry_at(first_x, grid.y + 1), Some(0));
    assert_eq!(grid.entry_at(first_x, grid.y), None);
    assert!(grid.contains(grid.x, grid.y));
    assert!(!grid.contains(grid.x + grid.width, grid.y));
}

#[test]
fn a_pane_without_rows_gets_the_cramped_card() {
    let sections = menu_sections(Where::View, &[c(' '), c('d')], no_relabel);
    let grid = HintGrid::bottom(&sections, "Diff", 4, 6, 50, 2);
    assert!(grid.insufficient_space);
    assert_eq!(grid.x, 4);
    assert_eq!(grid.y, 6);
    assert_eq!(grid.width, 50);
    assert_eq!(grid.height, 2);
    assert_eq!(grid.rows, 0);
    assert!(grid.columns.is_empty());
}

#[test]
fn the_best_cut_splits_the_fewest_sections_then_evens_the_columns() {
    let ids = [0, 0, 0, 1];
    let widths = [(1, 0); 4];
    let best = best_partition(&ids, &widths, 0, 2, 10, 40).expect("two columns fit");
    assert_eq!(best.ends, vec![3, 4]);
    assert_eq!(best.cuts, 0);
    assert_eq!(best.squared_heights, 9 + 1);
    let even = best_partition(&[0, 0, 0, 0], &widths, 0, 2, 10, 40).expect("two columns fit");
    assert_eq!(even.ends, vec![2, 4]);
    assert_eq!(even.cuts, 1);
    assert_eq!(even.squared_heights, 8);
    let later = best_partition(&[0, 0, 0], &[(1, 0); 3], 0, 2, 10, 40).expect("two columns fit");
    assert_eq!(later.ends, vec![2, 3]);
    assert!(best_partition(&ids, &widths, 0, 2, 1, 40).is_none());
    assert!(best_partition(&ids, &widths, 0, 5, 10, 40).is_none());
}

#[test]
fn measured_sections_lay_out_as_the_card_does() {
    let sections = menu_sections(Where::View, &[c(' '), c('d')], no_relabel);
    let measured = HintGrid::bottom_measured(&sections, "Diff", 0, 0, 100, 30).expect("the sections fit");
    let direct = HintGrid::bottom(&sections, "Diff", 0, 0, 100, 30);
    assert_eq!(measured.x, direct.x);
    assert_eq!(measured.width, direct.width);
    assert_eq!(measured.rows, direct.rows);
    assert_eq!(measured.columns.len(), direct.columns.len());
}

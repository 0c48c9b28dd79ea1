use std::collections::HashSet;

use fathomable::help::{
    contains_case_insensitive, contains_text, content, entry_lines, footer_lines, section_rank,
    section_title, wrap_hard, wrap_phrases, wrap_words, Cell, Help, Layout,
};
use fathomable::keys::{KeyCode, KeyPress};
use unicode_width::UnicodeWidthStr;

fn key(help: &mut Help, code: KeyCode) -> bool {
    help.key(plain(code), 80, 24)
}

fn ctrl(help: &mut Help, ch: char) -> bool {
    help.key(KeyPress { code: KeyCode::Char(ch), ctrl: true, alt: false, shift: false, extra: false }, 80, 24)
}

fn press_text(help: &mut Help, text: &str) {
    for ch in text.chars() {
        key(help, KeyCode::Char(ch));
    }
}

fn heading_column(layout: &Layout, wanted: &str) -> Option<usize> {
    layout.rows.iter().find_map(|row| {
        row.cells.iter().enumerate().find_map(|(column, cell)| match cell {
            Some(Cell::Heading(text)) if text == wanted => Some(column),
            _ => None,
        })
    })
}

fn plain(code: KeyCode) -> KeyPress {
    KeyPress { code, ctrl: false, alt: false, shift: false, extra: false }
}

fn strings(lines: &[&str]) -> Vec<String> {
    lines.iter().map(|line| (*line).to_owned()).collect()
}

#[test]
fn sections_sort_movement_first_and_show_friendly_titles() {
    assert_eq!(section_rank("Move"), 0);
    assert_eq!(section_rank("Display"), 4);
    assert_eq!(section_rank("Links"), 5);
    assert_eq!(section_rank("Space menu"), 6);
    assert_eq!(section_title("Select"), "Select & copy");
    assert_eq!(section_title("Display"), "View & diff");
    assert_eq!(section_title("Move"), "Move");
}

#[test]
fn matching_ignores_the_text_case_only() {
    assert!(contains_text("goto top", "to t"));
    assert!(!contains_text("goto", "gotop"));
    assert!(contains_text("abc", ""));
    assert!(contains_case_insensitive("Goto Top", "top"));
    assert!(contains_case_insensitive("anything", ""));
    assert!(!contains_case_insensitive("abc", "B"));
}

#[test]
fn hard_wrapping_cuts_between_characters() {
    assert_eq!(wrap_hard("abcdef", 4), strings(&["abcd", "ef"]));
    assert_eq!(wrap_hard("", 3), strings(&[""]));
    assert_eq!(wrap_hard("ab", 0), strings(&["a", "b"]));
}

#[test]
fn word_wrapping_packs_words_and_cuts_long_ones() {
    assert_eq!(wrap_words("one two three", 7), strings(&["one two", "three"]));
    assert_eq!(wrap_words("", 5), strings(&[""]));
    assert_eq!(wrap_words("abcdefgh ij", 3), strings(&["abc", "def", "gh", "ij"]));
}

#[test]
fn phrase_wrapping_breaks_at_two_space_gaps_first() {
    assert_eq!(wrap_phrases("short", 10), strings(&["short"]));
    assert_eq!(wrap_phrases("a b  c d", 3), strings(&["a b", "c d"]));
    assert_eq!(
        footer_lines(&Help::default(), 200),
        strings(&["/ filter  Up/Down scroll  PgUp/PgDn page  Esc close"])
    );
}

#[test]
fn a_binding_wraps_keys_and_label_side_by_side() {
    let cells = entry_lines(7, "j / Down", "move down one line", 14);
    assert_eq!(cells.len(), 4);
    match &cells[0] {
        Cell::Entry { binding, key, label, key_width } => {
            assert_eq!(*binding, 7);
            assert_eq!(key, "j / Down");
            assert_eq!(label, "move");
            assert_eq!(*key_width, 8);
        },
        _ => panic!("an entry line"),
    }
    match &cells[1] {
        Cell::Entry { key, label, .. } => {
            assert_eq!(key, "");
            assert_eq!(label, "down");
        },
        _ => panic!("an entry line"),
    }
    assert_eq!(cells[3].binding(), Some(7));
}

#[test]
fn normal_help_shows_every_binding_in_two_lanes() {
    let layout = Help::default().layout(100, 40);
    assert_eq!((layout.x, layout.y, layout.width, layout.height), (1, 1, 98, 38));
    assert_eq!(layout.columns, 2);
    assert_eq!(layout.column_width, 47);
    assert_eq!(layout.footer.len(), 1);
    assert_eq!(layout.body_y, 2);
    assert_eq!(layout.body_rows, 35);
    assert_eq!(layout.total_bindings, 169);
    assert_eq!(layout.shown_bindings, layout.total_bindings);
    assert!(!layout.more_above);
    assert!(layout.more_below);
    match &layout.rows[0].cells[0] {
        Some(Cell::Heading(title)) => assert_eq!(title, "Move"),
        _ => panic!("the first lane starts with movement"),
    }
    assert_eq!(layout.binding_index_at(2, 3), Some(0));
    assert_eq!(layout.binding_index_at(49, 3), None);
    assert_eq!(layout.binding_index_at(2, 2), None);
    assert_eq!(layout.footer_y(), 1 + 38 - 1 - 1);
}

#[test]
fn a_query_that_matches_nothing_says_so() {
    let mut help = Help::default();
    help.key(plain(KeyCode::Char('/')), 100, 40);
    for ch in "xyzzy".chars() {
        help.key(plain(KeyCode::Char(ch)), 100, 40);
    }
    let layout = help.layout(100, 40);
    assert_eq!(layout.shown_bindings, 0);
    match &layout.rows[0].cells[0] {
        Some(Cell::Message(text)) => assert_eq!(text, "No keys match “xyzzy”"),
        _ => panic!("a notice"),
    }
}

#[test]
fn keys_type_filter_and_close() {
    let mut help = Help::default();
    assert!(!help.key(plain(KeyCode::Char('/')), 100, 40));
    assert!(help.filtering());
    help.key(plain(KeyCode::Char('t')), 100, 40);
    help.key(plain(KeyCode::Char('o')), 100, 40);
    assert_eq!(help.query(), "to");
    help.key(plain(KeyCode::Backspace), 100, 40);
    assert_eq!(help.query(), "t");
    help.key(plain(KeyCode::Enter), 100, 40);
    assert!(!help.filtering());
    assert_eq!(help.query(), "t");
    assert!(!help.key(plain(KeyCode::Esc), 100, 40));
    assert_eq!(help.query(), "");
    assert!(help.key(plain(KeyCode::Esc), 100, 40));
}

#[test]
fn scrolling_stays_within_the_sections() {
    let mut help = Help::default();
    help.key(plain(KeyCode::Char('j')), 100, 40);
    assert_eq!(help.layout(100, 40).scroll, 1);
    help.key(plain(KeyCode::End), 100, 40);
    let end = help.layout(100, 40);
    assert_eq!(end.scroll, end.max_scroll);
    assert!(!end.more_below);
    help.key(plain(KeyCode::Down), 100, 40);
    assert_eq!(help.layout(100, 40).scroll, end.max_scroll);
    help.key(plain(KeyCode::Char('g')), 100, 40);
    assert_eq!(help.layout(100, 40).scroll, 0);
    help.key(plain(KeyCode::PageDown), 100, 40);
    assert_eq!(help.layout(100, 40).scroll, 35.min(end.max_scroll));
    help.key(plain(KeyCode::Up), 100, 40);
    assert_eq!(help.layout(100, 40).scroll, 35.min(end.max_scroll) - 1);
    help.key(plain(KeyCode::PageUp), 100, 40);
    assert_eq!(help.layout(100, 40).scroll, 0);
}

#[test]
fn normal_help_is_compact_and_every_binding_is_reachable() {
    let mut help = Help::default();
    let layout = help.layout(80, 24);
    assert_eq!(layout.columns, 2);
    assert_eq!(heading_column(&layout, "Move"), Some(0));
    assert_eq!(heading_column(&layout, "Search"), Some(0));
    assert_eq!(heading_column(&layout, "Select & copy"), Some(0));
    assert_eq!(heading_column(&layout, "Threads"), Some(1));
    let (lanes, _) = content(&help, layout.column_width, layout.columns);
    assert_eq!(lanes.len(), 2);
    assert!(layout.more_below);
    assert_eq!(layout.footer, ["/ filter  Up/Down scroll  PgUp/PgDn page  Esc close"]);

    let narrow = help.layout(60, 24);
    assert_eq!(narrow.columns, 1);

    let mut reached = HashSet::new();
    key(&mut help, KeyCode::Home);
    for scroll in 0..=layout.max_scroll {
        let shown = help.layout(80, 24);
        assert_eq!(shown.scroll, scroll);
        for row in shown.rows {
            for cell in row.cells.into_iter().flatten() {
                if let Some(binding) = cell.binding() {
                    reached.insert(binding);
                }
                if let Cell::Entry { key, label, key_width, .. } = cell {
                    assert!(key.width() <= key_width);
                    assert!(label.width() <= layout.column_width.saturating_sub(key_width + 2));
                }
            }
        }
        key(&mut help, KeyCode::Down);
    }
    assert_eq!(reached.len(), layout.total_bindings);
    help.scroll_end(80, 24);
    let bottom = help.layout(80, 24);
    assert!(!bottom.more_below);
    assert!(bottom.more_above);
}

#[test]
fn help_keys_filter_scroll_and_restore_the_document() {
    let mut help = Help::default();
    key(&mut help, KeyCode::Down);
    let after_line = help.layout(80, 24).scroll;
    assert!(after_line > 0);
    ctrl(&mut help, 'd');
    assert!(help.layout(80, 24).scroll > after_line);
    key(&mut help, KeyCode::PageUp);

    key(&mut help, KeyCode::Char('/'));
    press_text(&mut help, "no-such-j");
    assert!(help.filtering());
    assert_eq!(help.query(), "no-such-j");
    assert_eq!(help.layout(80, 24).shown_bindings, 0);
    assert!(help
        .layout(80, 24)
        .rows
        .iter()
        .flat_map(|row| row.cells.iter().flatten())
        .any(|cell| matches!(cell, Cell::Message(text) if text.contains("No keys match"))));
    key(&mut help, KeyCode::Backspace);
    assert_eq!(help.query(), "no-such-");
    assert!(!key(&mut help, KeyCode::Esc));
    assert_eq!(help.query(), "");
    assert!(!help.filtering());
    assert!(key(&mut help, KeyCode::Esc));
}

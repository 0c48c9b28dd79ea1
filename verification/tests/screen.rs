use fathomable::screen::{
    file_chrome_rows, pane_rows, pane_top, text_bar_row, text_bar_shown, text_rows, text_top,
    text_width, view_rows, ScreenFacts,
};

fn reading() -> ScreenFacts {
    ScreenFacts {
        width: 100,
        height: 30,
        menu_bar_shown: true,
        banner_shown: false,
        has_document: true,
        on_directory: false,
        review_open: false,
        getting_started: false,
        info_shown: false,
        sidebar_width: 30,
        gutter_width: 4,
    }
}

#[test]
fn the_menu_bar_reserves_the_top_row_and_the_status_line_the_bottom() {
    let f = reading();
    assert_eq!((pane_top(f), pane_rows(f)), (1, 28));
    let hidden = ScreenFacts { menu_bar_shown: false, ..f };
    assert_eq!((pane_top(hidden), pane_rows(hidden)), (0, 29));
}

#[test]
fn the_file_header_and_the_key_bar_take_text_rows() {
    let f = reading();
    assert_eq!(file_chrome_rows(f), 1);
    assert_eq!((text_top(f), text_rows(f)), (2, 27));
    assert!(text_bar_shown(f));
    assert_eq!(text_bar_row(f), 28);
    assert_eq!(view_rows(f), 26);
    assert_eq!(text_width(f), 66);
    let deleted = ScreenFacts { banner_shown: true, ..f };
    assert_eq!((text_top(deleted), text_rows(deleted)), (3, 26));
    let review = ScreenFacts { review_open: true, ..f };
    assert_eq!(file_chrome_rows(review), 0);
    assert!(!text_bar_shown(review));
    assert_eq!(view_rows(review), 28);
    let dir = ScreenFacts { on_directory: true, has_document: false, ..f };
    assert_eq!(file_chrome_rows(dir), 1);
    assert!(!text_bar_shown(dir));
}

#[test]
fn a_tiny_screen_keeps_one_text_row_and_column() {
    let f = ScreenFacts { height: 1, width: 10, ..reading() };
    assert_eq!(pane_rows(f), 1);
    assert_eq!(text_rows(f), 1);
    assert_eq!(text_bar_row(f), 2);
    assert_eq!(view_rows(f), 0);
    assert_eq!(text_width(f), 1);
}

use fathomable::keys::{KeyCode, KeyPress};
use fathomable::pager::{content_size, Pager};

fn press(code: KeyCode) -> KeyPress {
    KeyPress { code, ctrl: false, alt: false, shift: false, extra: false }
}

fn ctrl(ch: char) -> KeyPress {
    KeyPress { code: KeyCode::Char(ch), ctrl: true, alt: false, shift: false, extra: false }
}

#[test]
fn licenses_scrolls_by_keyboard_and_mouse_and_clamps_at_both_ends() {
    let (_, height) = content_size(80, 22);
    assert_eq!(height, 20);
    let lines = 100;
    let mut pager = Pager::new();
    assert!(!pager.key(press(KeyCode::PageDown), lines, height));
    assert_eq!(pager.first_line(), height);
    pager.scroll_by(3, lines, height);
    assert_eq!(pager.first_line(), height + 3);
    pager.key(ctrl('u'), lines, height);
    assert_eq!(pager.first_line(), height + 3 - (height / 2).max(1));
    pager.key(press(KeyCode::End), lines, height);
    let end = pager.first_line();
    assert_eq!(end, lines - height);
    for _ in 0..3 {
        pager.key(press(KeyCode::Char('j')), lines, height);
    }
    assert_eq!(pager.first_line(), end);
    pager.key(press(KeyCode::Home), lines, height);
    for _ in 0..3 {
        pager.key(press(KeyCode::Char('k')), lines, height);
    }
    assert_eq!(pager.first_line(), 0);
}

#[test]
fn escape_closes_and_modified_keys_do_nothing() {
    let mut pager = Pager::new();
    pager.key(ctrl('d'), 100, 9);
    assert_eq!(pager.first_line(), 4);
    let held = KeyPress { code: KeyCode::Char('j'), ctrl: true, alt: false, shift: false, extra: false };
    assert!(!pager.key(held, 100, 9));
    assert_eq!(pager.first_line(), 4);
    let shifted = KeyPress { code: KeyCode::Char('G'), ctrl: false, alt: false, shift: true, extra: false };
    pager.key(shifted, 100, 9);
    assert_eq!(pager.first_line(), 91);
    assert!(pager.key(press(KeyCode::Esc), 100, 9));
    assert_eq!(pager.first_line(), 91);
    let mut short = Pager::new();
    short.key(press(KeyCode::PageDown), 5, 9);
    assert_eq!(short.first_line(), 0);
    assert_eq!(content_size(1, 0), (1, 1));
}

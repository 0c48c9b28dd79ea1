use fathomable::bindings::{bindings, c, submenu_word, Key};
use fathomable::text::{split_words, trim};

#[test]
fn trimming_drops_every_kind_of_white_space_at_the_ends() {
    assert_eq!(trim("  a b \t\n"), "a b");
    assert_eq!(trim("\u{a0}\u{3000}x\u{2028}"), "x");
    assert_eq!(trim("\u{200b}x"), "\u{200b}x");
    assert_eq!(trim(" \t "), "");
}

#[test]
fn words_are_the_runs_between_white_space() {
    assert_eq!(split_words("  open  the\tfile\u{a0}now "), vec!["open", "the", "file", "now"]);
    assert!(split_words(" \n ").is_empty());
}

#[test]
fn no_binding_needs_a_chord_zellij_locks_or_an_unnamed_space_prefix() {
    for binding in bindings() {
        for keys in &binding.keys {
            for chord in keys {
                let locked = chord.ctrl
                    && matches!(chord.key, Key::Char(ch) if "gptnhsoqb".contains(ch));
                assert!(!locked);
            }
            if keys.len() > 2 && keys[0] == c(' ') {
                assert!(submenu_word(&keys[..2]).is_some());
            }
        }
    }
}

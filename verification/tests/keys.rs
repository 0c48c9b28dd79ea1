use fathomable::bindings::{c, ctrl, k, shift, Action, Chord, Key};
use fathomable::keys::{
    available_while_panes_do_not_fit, is_far_move, unavailable_for_directory,
    unavailable_while_diff_is_off, KeyCode, KeyPress,
};

fn press(code: KeyCode, ctrl: bool, alt: bool, shift: bool) -> KeyPress {
    KeyPress { code, ctrl, alt, shift, extra: false }
}

#[test]
fn a_shifted_tab_is_back_tab() {
    let chord = Chord::from_event(press(KeyCode::Tab, false, false, true));
    assert_eq!(chord, Some(Chord { key: Key::BackTab, ctrl: false, alt: false, shift: false }));
}

#[test]
fn shift_is_kept_only_on_enter_and_the_arrows() {
    let up = Chord::from_event(press(KeyCode::Up, false, false, true));
    assert_eq!(up, Some(Chord { key: Key::Up, ctrl: false, alt: false, shift: true }));
    let enter = Chord::from_event(press(KeyCode::Enter, false, false, true));
    assert_eq!(enter, Some(Chord { key: Key::Enter, ctrl: false, alt: false, shift: true }));
    let capital = Chord::from_event(press(KeyCode::Char('G'), false, false, true));
    assert_eq!(capital, Some(Chord { key: Key::Char('G'), ctrl: false, alt: false, shift: false }));
}

#[test]
fn ctrl_and_alt_are_kept() {
    let chord = Chord::from_event(press(KeyCode::Char('d'), true, true, false));
    assert_eq!(chord, Some(Chord { key: Key::Char('d'), ctrl: true, alt: true, shift: false }));
}

#[test]
fn keys_the_viewer_never_binds_are_no_chord() {
    assert_eq!(Chord::from_event(press(KeyCode::PageUp, false, false, false)), None);
    assert_eq!(Chord::from_event(press(KeyCode::Other, true, false, false)), None);
}

#[test]
fn far_moves_are_the_jumps_that_leave_the_screen() {
    assert!(is_far_move(Action::Top));
    assert!(is_far_move(Action::GotoFile));
    assert!(is_far_move(Action::SearchNext));
    assert!(!is_far_move(Action::HalfPageDown));
}

#[test]
fn diff_off_refuses_comparison_navigation() {
    assert!(unavailable_while_diff_is_off(Action::ChangeNext));
    assert!(unavailable_while_diff_is_off(Action::FilesChanged));
    assert!(!unavailable_while_diff_is_off(Action::Top));
}

#[test]
fn cramped_panes_keep_only_the_escape_hatches() {
    assert!(available_while_panes_do_not_fit(Action::Escape));
    assert!(available_while_panes_do_not_fit(Action::MenuBarToggle));
    assert!(!available_while_panes_do_not_fit(Action::Top));
}

#[test]
fn a_directory_refuses_thread_and_source_actions() {
    assert!(unavailable_for_directory(Action::NewThread));
    assert!(unavailable_for_directory(Action::SourceView));
    assert!(!unavailable_for_directory(Action::Top));
}

#[test]
fn shift_is_retained_for_arrows_and_enter() {
    let shifted = press(KeyCode::Tab, false, false, true);
    let backtab = press(KeyCode::BackTab, false, false, true);
    assert_eq!(Chord::from_event(shifted), Some(k(Key::BackTab)));
    assert_eq!(Chord::from_event(backtab), Some(k(Key::BackTab)));
    assert_eq!(Chord::from_event(press(KeyCode::Char('A'), false, false, true)), Some(c('A')));
    assert_eq!(Chord::from_event(press(KeyCode::Enter, false, false, true)), Some(shift(Key::Enter)));
    for key in [Key::Up, Key::Down, Key::Left, Key::Right] {
        let code = match key {
            Key::Up => KeyCode::Up,
            Key::Down => KeyCode::Down,
            Key::Left => KeyCode::Left,
            Key::Right => KeyCode::Right,
            _ => unreachable!("the test lists only arrow keys"),
        };
        assert_eq!(Chord::from_event(press(code, false, false, true)), Some(shift(key)));
    }
}

use fathomable::bindings::Where;
use fathomable::keys::{dispatch, Dispatch, TextTarget};

#[test]
fn a_sequence_waits_then_fires() {
    assert_eq!(
        dispatch(&[], Where::View, c('g'), true),
        Dispatch::Wait { typed: vec![c('g')], arm_delete: false }
    );
    assert_eq!(dispatch(&[c('g')], Where::View, c('g'), true), Dispatch::Act(Action::Top));
}

#[test]
fn the_first_d_of_dd_arms_the_delete() {
    assert_eq!(
        dispatch(&[], Where::View, c('d'), true),
        Dispatch::Wait { typed: vec![c('d')], arm_delete: true }
    );
    assert_eq!(dispatch(&[c('d')], Where::View, c('d'), true), Dispatch::Act(Action::Delete));
}

#[test]
fn a_sequence_that_leads_nowhere_is_swallowed_whole() {
    assert_eq!(dispatch(&[c('g')], Where::View, c('@'), true), Dispatch::Cancel);
}

#[test]
fn cramped_panes_keep_only_sequences_that_still_work() {
    assert_eq!(dispatch(&[], Where::View, c('g'), false), Dispatch::Cancel);
    assert_eq!(dispatch(&[], Where::View, c('@'), false), Dispatch::Ignore);
}

#[test]
fn single_unbound_characters_go_to_text_entry() {
    assert_eq!(dispatch(&[], Where::Draft, c('@'), true), Dispatch::Insert(TextTarget::Draft, '@'));
    assert_eq!(dispatch(&[], Where::Picker, c('@'), true), Dispatch::Insert(TextTarget::Picker, '@'));
    assert_eq!(dispatch(&[], Where::Input, ctrl('@'), true), Dispatch::Insert(TextTarget::Input, '@'));
    assert_eq!(dispatch(&[], Where::Draft, ctrl('@'), true), Dispatch::Ignore);
    assert_eq!(dispatch(&[], Where::View, c('@'), true), Dispatch::Ignore);
}

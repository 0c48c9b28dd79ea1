use fathomable::bindings::{c, Action, Chord, Key, Where};
use fathomable::keys::{KeyCode, KeyPress};
use fathomable::picker::PickerKind;
use fathomable::routing::{
    accepts, confirmation_key, place, review_point_action_key, review_point_rename_key,
    route_key, Acceptance, Confirmed, Focus, KeyRoute, NameEdit, PointAction, PopupKind,
    Surface,
};

fn surface(popup: Option<PopupKind>) -> Surface {
    Surface { title_menu_open: false, panes_fit: true, popup, input_mode: false, focus: Focus::View }
}

fn press(code: KeyCode) -> KeyPress {
    KeyPress { code, ctrl: false, alt: false, shift: false, extra: false }
}

fn with(code: KeyCode, ctrl: bool, alt: bool, shift: bool) -> KeyPress {
    KeyPress { code, ctrl, alt, shift, extra: false }
}

#[test]
fn a_key_lands_on_the_focused_pane_or_the_open_box() {
    assert_eq!(place(surface(None)), Some(Where::View));
    assert_eq!(place(Surface { focus: Focus::Tree, ..surface(None) }), Some(Where::Tree));
    assert_eq!(place(Surface { focus: Focus::ThreadsPane, ..surface(None) }), Some(Where::ThreadsPane));
    assert_eq!(place(Surface { input_mode: true, focus: Focus::Review, ..surface(None) }), Some(Where::Input));
    assert_eq!(place(surface(Some(PopupKind::Compose))), Some(Where::Draft));
    assert_eq!(place(surface(Some(PopupKind::Picker(PickerKind::Files)))), Some(Where::Picker));
    assert_eq!(place(surface(Some(PopupKind::Help))), None);
    assert_eq!(place(Surface { title_menu_open: true, ..surface(None) }), None);
}

#[test]
fn the_application_menu_key_wins_everywhere() {
    let alt_space = with(KeyCode::Char(' '), false, true, false);
    assert_eq!(route_key(surface(Some(PopupKind::Help)), alt_space), KeyRoute::ApplicationMenu);
    assert_eq!(route_key(Surface { title_menu_open: true, ..surface(None) }, alt_space), KeyRoute::ApplicationMenu);
    assert_eq!(route_key(Surface { title_menu_open: true, ..surface(None) }, press(KeyCode::Down)), KeyRoute::MenuBar);
}

#[test]
fn without_room_to_draw_only_escape_quit_and_confirming_work() {
    let cramped = Surface { panes_fit: false, ..surface(None) };
    assert_eq!(route_key(cramped, press(KeyCode::Esc)), KeyRoute::EscapeAll);
    assert_eq!(route_key(cramped, press(KeyCode::Char('q'))), KeyRoute::RequestQuit);
    assert_eq!(route_key(cramped, with(KeyCode::Char('q'), true, false, false)), KeyRoute::Typed(Where::View, Chord { key: Key::Char('q'), ctrl: true, alt: false, shift: false }));
    let asking = Surface { popup: Some(PopupKind::ConfirmQuit), ..cramped };
    assert_eq!(route_key(asking, press(KeyCode::Enter)), KeyRoute::Confirmation);
    let helping = Surface { popup: Some(PopupKind::Help), ..cramped };
    assert_eq!(route_key(helping, press(KeyCode::Char('j'))), KeyRoute::Ignore);
}

#[test]
fn popups_take_their_keys_first() {
    assert_eq!(route_key(surface(Some(PopupKind::Licenses)), press(KeyCode::Char('j'))), KeyRoute::Licenses);
    assert_eq!(route_key(surface(Some(PopupKind::McpSetup)), press(KeyCode::Char('j'))), KeyRoute::McpSetup);
    assert_eq!(route_key(surface(Some(PopupKind::ConfirmBoard)), press(KeyCode::Enter)), KeyRoute::Confirmation);
    assert_eq!(route_key(surface(Some(PopupKind::About)), press(KeyCode::Esc)), KeyRoute::ClosePopup);
    assert_eq!(route_key(surface(Some(PopupKind::About)), press(KeyCode::Char('x'))), KeyRoute::Ignore);
    assert_eq!(route_key(surface(Some(PopupKind::DiffMode)), press(KeyCode::Down)), KeyRoute::ModeMenu);
    assert_eq!(route_key(surface(Some(PopupKind::Menu)), press(KeyCode::Char('y'))), KeyRoute::MenuKey(c('y')));
    assert_eq!(route_key(surface(Some(PopupKind::Status)), press(KeyCode::Char('y'))), KeyRoute::ClosePopup);
    let points = surface(Some(PopupKind::Picker(PickerKind::ComparisonReviewPoints)));
    assert_eq!(route_key(points, with(KeyCode::Char('r'), true, false, false)), KeyRoute::RenameReviewPoint);
    assert_eq!(route_key(points, press(KeyCode::Char('r'))), KeyRoute::Typed(Where::Picker, c('r')));
    assert_eq!(route_key(surface(None), press(KeyCode::Other)), KeyRoute::DropPrefix);
    assert_eq!(route_key(surface(None), press(KeyCode::Char('j'))), KeyRoute::Typed(Where::View, c('j')));
}

#[test]
fn a_surface_refuses_what_it_cannot_do() {
    assert_eq!(accepts(Where::View, Action::Top, true, false, false), Acceptance::Accept);
    assert_eq!(accepts(Where::View, Action::Top, false, false, false), Acceptance::Refuse);
    assert_eq!(accepts(Where::Draft, Action::Top, false, false, false), Acceptance::Accept);
    assert_eq!(accepts(Where::View, Action::DiffUnified, true, true, false), Acceptance::Accept);
    let off = accepts(Where::View, Action::ComparisonWhitespace, true, true, false);
    assert_eq!(off, Acceptance::DiffModeOff);
    assert_eq!(off.notice(), Some("diff mode is off"));
    let dir = accepts(Where::Tree, Action::NewThread, true, false, true);
    assert_eq!(dir, Acceptance::NeedsFile);
    assert_eq!(dir.notice(), Some("select a file to use file or thread actions"));
    assert_eq!(accepts(Where::Review, Action::NewThread, true, false, true), Acceptance::Accept);
    assert_eq!(Acceptance::Refuse.notice(), None);
}

#[test]
fn confirmations_answer_enter_escape_and_y() {
    assert_eq!(confirmation_key(Some(PopupKind::ConfirmQuit), false, KeyCode::Enter), Confirmed::Quit);
    assert_eq!(confirmation_key(Some(PopupKind::ConfirmBoard), false, KeyCode::Enter), Confirmed::ClearBoard);
    assert_eq!(confirmation_key(Some(PopupKind::ConfirmQuit), false, KeyCode::Esc), Confirmed::Close);
    assert_eq!(confirmation_key(Some(PopupKind::ConfirmBoard), false, KeyCode::Esc), Confirmed::CancelClearBoard);
    assert_eq!(confirmation_key(Some(PopupKind::ConfirmReviewPointDelete), true, KeyCode::Char('y')), Confirmed::DeleteReviewPoint);
    assert_eq!(confirmation_key(Some(PopupKind::ConfirmReviewPointDelete), false, KeyCode::Char('y')), Confirmed::Nothing);
    assert_eq!(confirmation_key(Some(PopupKind::ConfirmReviewPointDelete), true, KeyCode::Esc), Confirmed::CancelReviewPointDelete);
    assert_eq!(confirmation_key(Some(PopupKind::ConfirmReviewPointDelete), true, KeyCode::Enter), Confirmed::Nothing);
}

#[test]
fn review_point_prompts_take_bare_keys() {
    assert_eq!(review_point_action_key(press(KeyCode::Char('r'))), PointAction::Rename);
    assert_eq!(review_point_action_key(press(KeyCode::Char('d'))), PointAction::Delete);
    assert_eq!(review_point_action_key(press(KeyCode::Esc)), PointAction::Cancel);
    assert_eq!(review_point_action_key(with(KeyCode::Char('r'), false, false, true)), PointAction::Nothing);
    assert_eq!(review_point_rename_key(press(KeyCode::Enter)), NameEdit::Submit);
    assert_eq!(review_point_rename_key(with(KeyCode::Enter, false, false, true)), NameEdit::Nothing);
    assert_eq!(review_point_rename_key(with(KeyCode::Char('a'), true, false, false)), NameEdit::LineStart);
    assert_eq!(review_point_rename_key(press(KeyCode::Char('a'))), NameEdit::Insert('a'));
    assert_eq!(review_point_rename_key(with(KeyCode::Char('A'), false, false, true)), NameEdit::Insert('A'));
    assert_eq!(review_point_rename_key(with(KeyCode::Char('b'), false, true, false)), NameEdit::Nothing);
    assert_eq!(review_point_rename_key(press(KeyCode::Home)), NameEdit::LineStart);
    assert_eq!(review_point_rename_key(press(KeyCode::Backspace)), NameEdit::DeleteBack);
}

use fathomable::routing::{means_the_same_everywhere, placed_operation, Operation};

#[test]
fn super_held_is_not_a_bare_key() {
    let s = Surface { panes_fit: false, ..surface(None) };
    let q = KeyPress { code: KeyCode::Char('q'), ctrl: false, alt: false, shift: false, extra: true };
    assert_ne!(route_key(s, q), route_key(s, press(KeyCode::Char('q'))));
    let enter = KeyPress { code: KeyCode::Enter, ctrl: false, alt: false, shift: false, extra: true };
    assert_eq!(review_point_rename_key(enter), NameEdit::Nothing);
    let letter = KeyPress { code: KeyCode::Char('x'), ctrl: false, alt: false, shift: false, extra: true };
    assert_eq!(review_point_rename_key(letter), NameEdit::Nothing);
}

#[test]
fn an_action_runs_everywhere_on_its_surface_or_not_at_all() {
    let ok = Acceptance::Accept;
    assert_eq!(placed_operation(None, Action::Help, ok, false), Operation::Nothing);
    assert_eq!(
        placed_operation(Some(Where::View), Action::ChangeNext, Acceptance::DiffModeOff, false),
        Operation::Refused(Acceptance::DiffModeOff)
    );
    assert_eq!(placed_operation(Some(Where::Tree), Action::Help, ok, false), Operation::Everywhere(Action::Help));
    assert_eq!(placed_operation(Some(Where::View), Action::ApplicationMenu, ok, false), Operation::ApplicationMenu);
    assert_eq!(placed_operation(Some(Where::View), Action::ArchiveThread, ok, false), Operation::NoThreadHere);
    assert_eq!(
        placed_operation(Some(Where::View), Action::RestoreThread, ok, true),
        Operation::Everywhere(Action::RestoreThread)
    );
    assert_eq!(
        placed_operation(Some(Where::Tree), Action::CommandLine, ok, false),
        Operation::CommandLine { leave_tree: true }
    );
    assert_eq!(
        placed_operation(Some(Where::View), Action::CommandLine, ok, false),
        Operation::CommandLine { leave_tree: false }
    );
    assert_eq!(
        placed_operation(Some(Where::Review), Action::MoveDown, ok, false),
        Operation::OnSurface(Where::Review, Action::MoveDown)
    );
    assert_eq!(placed_operation(Some(Where::Any), Action::MoveDown, ok, false), Operation::Nothing);
    assert!(means_the_same_everywhere(Action::DiffStandard));
    assert!(!means_the_same_everywhere(Action::Yank));
}

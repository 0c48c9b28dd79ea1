use fathomable::bindings::{Action, Where};
use fathomable::context_menus::{file_settings_menu, reviews_settings_menu, tree_menu};
use fathomable::menu_bar::MouseKind;
use fathomable::pointer::{
    confirmation_mouse, context_menu_mouse, count_press, pane_hit, press_gesture, runs_from_help,
    Gesture, MenuMouse, PaneFacts, PaneHit, Press,
};
use fathomable::routing::{Confirmed, PopupKind};

#[test]
fn a_context_menu_runs_the_clicked_entry_and_closes_elsewhere() {
    let menu = tree_menu("docs", true, false, 2, 3);
    let grid = menu.grid_in(100, 0, 40);
    assert_eq!((grid.x, grid.y), (2, 3));
    let run = context_menu_mouse(&menu, MouseKind::LeftDown, grid.x + 1, grid.y + 1, 100, 0, 40);
    assert_eq!(run, MenuMouse::Run(Action::Confirm));
    let copy = context_menu_mouse(&menu, MouseKind::LeftDown, grid.x + 1, grid.y + 2, 100, 0, 40);
    assert_eq!(copy, MenuMouse::Run(Action::CopyPath));
    assert_eq!(context_menu_mouse(&menu, MouseKind::LeftDown, grid.x, grid.y, 100, 0, 40), MenuMouse::Close);
    assert_eq!(context_menu_mouse(&menu, MouseKind::LeftDown, 90, 30, 100, 0, 40), MenuMouse::Close);
    assert_eq!(context_menu_mouse(&menu, MouseKind::RightDown, 90, 30, 100, 0, 40), MenuMouse::CloseAndPass);
    assert_eq!(context_menu_mouse(&menu, MouseKind::Moved, grid.x + 1, grid.y + 1, 100, 0, 40), MenuMouse::Handled);
}

#[test]
fn rules_and_dormant_entries_keep_the_menu_open() {
    let menu = reviews_settings_menu(0, 0, false, false);
    let grid = menu.grid_in(100, 0, 40);
    assert_eq!(context_menu_mouse(&menu, MouseKind::LeftDown, grid.x + 1, grid.y + 2, 100, 0, 40), MenuMouse::Handled);
    let dormant = file_settings_menu(0, 0, false, false, true, false);
    let grid = dormant.grid_in(100, 0, 40);
    assert_eq!(context_menu_mouse(&dormant, MouseKind::LeftDown, grid.x + 1, grid.y + 3, 100, 0, 40), MenuMouse::Handled);
    assert_eq!(
        context_menu_mouse(&dormant, MouseKind::LeftDown, grid.x + 1, grid.y + 4, 100, 0, 40),
        MenuMouse::Run(Action::StubsToggle)
    );
}

#[test]
fn confirmation_buttons_and_clicks_outside() {
    let quit = PopupKind::ConfirmQuit;
    assert_eq!(confirmation_mouse(quit, false, true, Some(Action::Confirm), true), Confirmed::Quit);
    assert_eq!(confirmation_mouse(quit, false, true, Some(Action::Escape), true), Confirmed::Close);
    assert_eq!(confirmation_mouse(quit, false, true, None, false), Confirmed::Close);
    assert_eq!(confirmation_mouse(quit, false, true, None, true), Confirmed::Nothing);
    assert_eq!(confirmation_mouse(quit, false, false, Some(Action::Confirm), true), Confirmed::Nothing);
    let board = PopupKind::ConfirmBoard;
    assert_eq!(confirmation_mouse(board, false, true, Some(Action::Confirm), true), Confirmed::ClearBoard);
    assert_eq!(confirmation_mouse(board, false, true, None, false), Confirmed::CancelClearBoard);
    let point = PopupKind::ConfirmReviewPointDelete;
    assert_eq!(confirmation_mouse(point, true, true, Some(Action::Confirm), true), Confirmed::DeleteReviewPoint);
    assert_eq!(confirmation_mouse(point, false, true, Some(Action::Confirm), true), Confirmed::Nothing);
    assert_eq!(confirmation_mouse(point, false, true, Some(Action::Escape), true), Confirmed::CancelReviewPointDelete);
}

#[test]
fn a_help_click_runs_only_where_the_binding_applies() {
    assert!(runs_from_help(Where::View, Where::View));
    assert!(!runs_from_help(Where::Tree, Where::View));
    assert!(runs_from_help(Where::Any, Where::Review));
    assert!(!runs_from_help(Where::Any, Where::Draft));
    assert!(!runs_from_help(Where::Any, Where::Input));
}

#[test]
fn quick_presses_on_one_cell_count_up_to_three() {
    let first = count_press(None, 1000, 5, 6, false);
    assert_eq!(first, Press { at: 1000, column: 5, row: 6, count: 1, gutter: false });
    let second = count_press(Some(first), 1300, 5, 6, true);
    assert_eq!(second.count, 2);
    assert!(second.gutter);
    let third = count_press(Some(second), 1600, 5, 6, false);
    assert_eq!(third.count, 3);
    let fourth = count_press(Some(third), 1700, 5, 6, false);
    assert_eq!(fourth.count, 1);
    assert_eq!(count_press(Some(fourth), 2100, 5, 6, false).count, 1);
    assert_eq!(count_press(Some(fourth), 1800, 5, 7, false).count, 1);
    assert_eq!(count_press(Some(fourth), 1200, 5, 6, false).count, 2);
}

fn panes() -> PaneFacts {
    PaneFacts {
        pane_top: 1,
        pane_rows: 20,
        sidebar_width: 30,
        compose_open: false,
        getting_started: false,
        review_open: false,
        text_bar_row: Some(20),
    }
}

#[test]
fn a_mouse_event_lands_on_the_pane_under_it() {
    let f = panes();
    assert_eq!(pane_hit(f, MouseKind::LeftDown, 40, 0), PaneHit::Outside);
    assert_eq!(pane_hit(f, MouseKind::LeftDown, 29, 5), PaneHit::DividerDrag);
    assert_eq!(pane_hit(f, MouseKind::Moved, 29, 5), PaneHit::Sidebar { pane_row: 4 });
    assert_eq!(pane_hit(f, MouseKind::LeftDown, 29, 21), PaneHit::StatusLine);
    assert_eq!(pane_hit(f, MouseKind::LeftDown, 10, 3), PaneHit::Sidebar { pane_row: 2 });
    assert_eq!(pane_hit(f, MouseKind::LeftDown, 40, 20), PaneHit::TextBar);
    assert_eq!(pane_hit(f, MouseKind::ScrollDown, 40, 20), PaneHit::Text);
    assert_eq!(pane_hit(f, MouseKind::LeftDown, 40, 3), PaneHit::Text);
    let drafting = PaneFacts { compose_open: true, ..f };
    assert_eq!(pane_hit(drafting, MouseKind::RightDown, 40, 3), PaneHit::Swallowed);
    assert_eq!(pane_hit(PaneFacts { review_open: true, ..f }, MouseKind::LeftDown, 40, 3), PaneHit::Review { pane_row: 2 });
    assert_eq!(pane_hit(PaneFacts { getting_started: true, ..f }, MouseKind::LeftDown, 40, 3), PaneHit::Paused);
    let hidden = PaneFacts { sidebar_width: 0, ..f };
    assert_eq!(pane_hit(hidden, MouseKind::LeftDown, 0, 3), PaneHit::Text);
}

#[test]
fn presses_select_more_the_more_they_repeat() {
    assert_eq!(press_gesture(false, false, 1), Gesture::Place);
    assert_eq!(press_gesture(false, false, 2), Gesture::SelectWord);
    assert_eq!(press_gesture(false, false, 3), Gesture::SelectLine);
    assert_eq!(press_gesture(false, true, 1), Gesture::SelectLine);
    assert_eq!(press_gesture(true, true, 3), Gesture::Extend);
}

use fathomable::pointer::{
    text_mouse, Columns, DraftRow, PressUpdate, StubFacts, TextAct, TextFacts, WHEEL_LINES,
};

fn text() -> TextFacts {
    TextFacts {
        sidebar: 20,
        text_left: 25,
        top: 2,
        text_rows: 10,
        file_header: true,
        diff_mode_control: Some(Columns { from: 40, to: 48 }),
        title_width: 12,
        directory: false,
        draft: None,
        stub: None,
        last: None,
        now: 1_000,
    }
}

#[test]
fn the_file_header_opens_the_diff_chooser_or_the_file_menu() {
    let f = text();
    assert_eq!(text_mouse(f, MouseKind::LeftDown, false, false, 62, 1).0, TextAct::DiffModeMenu { column: 68, row: 1 });
    assert_eq!(text_mouse(f, MouseKind::LeftDown, false, false, 25, 1).0, TextAct::FileMenu { row: 1 });
    assert_eq!(text_mouse(f, MouseKind::LeftDown, false, false, 35, 1).0, TextAct::Focus);
    assert_eq!(text_mouse(f, MouseKind::LeftDown, false, false, 35, 0).0, TextAct::Nothing);
    assert_eq!(text_mouse(f, MouseKind::RightDown, false, false, 25, 1).0, TextAct::Nothing);
}

#[test]
fn text_presses_count_and_gesture() {
    let f = text();
    let (act, update) = text_mouse(f, MouseKind::LeftDown, false, false, 30, 4);
    assert_eq!(act, TextAct::Press { gesture: Gesture::Place, text_row: 2, col: 5 });
    let PressUpdate::Record(first) = update else { panic!("a press") };
    let again = TextFacts { last: Some(first), now: 1_100, ..f };
    assert_eq!(
        text_mouse(again, MouseKind::LeftDown, false, false, 30, 4).0,
        TextAct::Press { gesture: Gesture::SelectWord, text_row: 2, col: 5 }
    );
    assert_eq!(
        text_mouse(f, MouseKind::LeftDown, false, false, 21, 4).0,
        TextAct::Press { gesture: Gesture::SelectLine, text_row: 2, col: 0 }
    );
    assert_eq!(
        text_mouse(f, MouseKind::LeftDown, true, false, 30, 4),
        (TextAct::FollowLink { text_row: 2, col: 5 }, PressUpdate::Keep)
    );
    assert_eq!(
        text_mouse(f, MouseKind::RightDown, false, false, 30, 4).0,
        TextAct::ViewMenu { text_row: 2, col: 5, column: 30, row: 4 }
    );
    assert_eq!(text_mouse(f, MouseKind::LeftDown, false, false, 30, 40).0, TextAct::Focus);
    let dir = TextFacts { directory: true, ..f };
    assert_eq!(text_mouse(dir, MouseKind::LeftDown, false, false, 30, 4).0, TextAct::Focus);
}

#[test]
fn drafts_stubs_and_the_wheel() {
    let draft = TextFacts { draft: Some(DraftRow::Text(3)), ..text() };
    assert_eq!(text_mouse(draft, MouseKind::LeftDown, false, false, 30, 4).0, TextAct::DraftCursor { index: 3, col: 5 });
    let author = TextFacts { draft: Some(DraftRow::Author), ..text() };
    assert_eq!(text_mouse(author, MouseKind::LeftDown, false, false, 30, 4).0, TextAct::Nothing);
    let stub = StubFacts { expanded: false, first_row: true, has_thread: true, known: true, on_chevron: true };
    let on_stub = TextFacts { stub: Some(stub), ..text() };
    assert_eq!(text_mouse(on_stub, MouseKind::LeftDown, false, false, 30, 4), (TextAct::ExpandThread, PressUpdate::Clear));
    let open = TextFacts { stub: Some(StubFacts { expanded: true, on_chevron: false, ..stub }), ..text() };
    let (rest, update) = text_mouse(open, MouseKind::LeftDown, false, false, 22, 4);
    assert_eq!(rest, TextAct::RestOnStub { text_row: 2, select_line: true });
    let PressUpdate::Record(first) = update else { panic!("a press") };
    let twice = TextFacts { last: Some(first), now: 1_200, ..open };
    assert_eq!(text_mouse(twice, MouseKind::LeftDown, false, false, 22, 4), (TextAct::FoldThread, PressUpdate::Clear));
    let f = text();
    assert_eq!(text_mouse(f, MouseKind::ScrollDown, false, false, 30, 4).0, TextAct::Scroll(WHEEL_LINES));
    assert_eq!(text_mouse(f, MouseKind::ScrollUp, false, false, 30, 4).0, TextAct::Scroll(-WHEEL_LINES));
    assert_eq!(text_mouse(f, MouseKind::LeftDrag, false, false, 30, 40).0, TextAct::Drag { text_row: 9, col: 5 });
    let gutter = Press { at: 900, column: 21, row: 4, count: 1, gutter: true };
    let lines = TextFacts { last: Some(gutter), ..f };
    assert_eq!(text_mouse(lines, MouseKind::LeftDrag, false, false, 30, 5).0, TextAct::DragLines { text_row: 3 });
    assert_eq!(text_mouse(f, MouseKind::LeftUp, false, false, 30, 5).0, TextAct::Release);
}

#[test]
fn gutter_double_and_triple_clicks_select() {
    let f = text();
    let (act, update) = text_mouse(f, MouseKind::LeftDown, false, false, 21, 4);
    assert_eq!(act, TextAct::Press { gesture: Gesture::SelectLine, text_row: 2, col: 0 });
    let PressUpdate::Record(gutter) = update else { panic!("a press") };
    let dragging = TextFacts { last: Some(gutter), ..f };
    assert_eq!(text_mouse(dragging, MouseKind::LeftDrag, false, false, 21, 6).0, TextAct::DragLines { text_row: 4 });
    assert_eq!(text_mouse(dragging, MouseKind::LeftUp, false, false, 21, 6).0, TextAct::Release);
    let mut last = None;
    let mut gestures = Vec::new();
    for now in [2_000, 2_100, 2_200] {
        let (act, update) = text_mouse(TextFacts { last, now, ..f }, MouseKind::LeftDown, false, false, 32, 4);
        gestures.push(act);
        if let PressUpdate::Record(p) = update {
            last = Some(p);
        }
    }
    assert_eq!(
        gestures,
        [
            TextAct::Press { gesture: Gesture::Place, text_row: 2, col: 7 },
            TextAct::Press { gesture: Gesture::SelectWord, text_row: 2, col: 7 },
            TextAct::Press { gesture: Gesture::SelectLine, text_row: 2, col: 7 },
        ]
    );
}

use fathomable::picker::PickerKind;
use fathomable::pointer::{popup_mouse, PopupFacts, PopupMouse};

#[test]
fn each_popup_takes_its_own_share_of_the_mouse() {
    let inside = PopupFacts { inside: true, entry: Some(2), on_link: false };
    let outside = PopupFacts { inside: false, entry: None, on_link: false };
    let left = MouseKind::LeftDown;
    assert_eq!(popup_mouse(Some(PopupKind::DiffMode), left, inside), PopupMouse::ModeEntry(2));
    assert_eq!(popup_mouse(Some(PopupKind::DiffMode), left, outside), PopupMouse::Close);
    assert_eq!(popup_mouse(Some(PopupKind::Help), MouseKind::ScrollUp, outside), PopupMouse::Wheel(-3));
    assert_eq!(popup_mouse(Some(PopupKind::Help), left, outside), PopupMouse::HelpClick);
    assert_eq!(popup_mouse(Some(PopupKind::Status), left, inside), PopupMouse::Close);
    assert_eq!(popup_mouse(Some(PopupKind::Status), MouseKind::RightDown, inside), PopupMouse::Consumed);
    let picker = Some(PopupKind::Picker(PickerKind::Files));
    assert_eq!(popup_mouse(picker, MouseKind::ScrollDown, inside), PopupMouse::Wheel(3));
    assert_eq!(popup_mouse(picker, MouseKind::ScrollDown, outside), PopupMouse::Consumed);
    assert_eq!(popup_mouse(picker, left, inside), PopupMouse::Pick(2));
    assert_eq!(popup_mouse(picker, left, outside), PopupMouse::Close);
    assert_eq!(popup_mouse(Some(PopupKind::Licenses), left, outside), PopupMouse::Close);
    assert_eq!(popup_mouse(Some(PopupKind::Doctor), left, inside), PopupMouse::Consumed);
    let link = PopupFacts { on_link: true, ..inside };
    assert_eq!(popup_mouse(Some(PopupKind::About), left, link), PopupMouse::OpenLink);
    assert_eq!(popup_mouse(Some(PopupKind::About), left, outside), PopupMouse::Close);
    assert_eq!(popup_mouse(Some(PopupKind::ConfirmQuit), left, outside), PopupMouse::Confirmation);
    assert_eq!(popup_mouse(Some(PopupKind::Compose), left, outside), PopupMouse::Pass);
    assert_eq!(popup_mouse(None, left, outside), PopupMouse::Pass);
}

use fathomable::bindings::{c, Action, Chord, Key};
use fathomable::keys::{KeyCode, KeyPress};
use fathomable::menu::DiffMode;
use fathomable::menu_bar::{
    action_available, action_checked, bar_tail, child_layout, colon, keep_visible, label_at,
    labels, layout_at, menu_rows, menu_width, next_item, root_layout, submenu_rows, target_keys,
    BarIdentity, BarMouse, BarState, BarTail, Focused, Item, Label, MenuBar, MenuLayout, MouseKind,
    Root, Row, Shortcut, Submenu, Target,
};
use fathomable::picker::PickerKind;

fn quit_row() -> Row {
    Row::Item(Item::command("Quit", Target::Quit))
}

#[test]
fn menus_have_labels_and_titles() {
    assert_eq!(Root::App.label(), "☰");
    assert_eq!(Root::App.title(), "Fathomable");
    assert_eq!(Root::Review.label(), "Review");
    assert_eq!(Submenu::Help.title(), "Help");
}

#[test]
fn labels_collapse_to_the_application_menu_when_narrow() {
    assert_eq!(labels(80).len(), 5);
    assert_eq!(labels(20).len(), 1);
}

#[test]
fn labels_take_their_text_and_a_cell_each_side() {
    let wide = labels(100);
    assert_eq!(
        wide,
        vec![
            Label { root: Root::App, x: 0, width: 4 },
            Label { root: Root::Layout, x: 4, width: 8 },
            Label { root: Root::Go, x: 12, width: 4 },
            Label { root: Root::Review, x: 16, width: 8 },
            Label { root: Root::Diff, x: 24, width: 6 },
        ]
    );
    assert_eq!(labels(20), vec![Label { root: Root::App, x: 0, width: 4 }]);
    assert_eq!(label_at(100, 5), Some(Root::Layout));
    assert_eq!(label_at(100, 29), Some(Root::Diff));
    assert_eq!(label_at(100, 30), None);
    assert_eq!(label_at(20, 4), None);
    assert_eq!(label_at(20, 2), Some(Root::App));
}

#[test]
fn colon_commands_are_typed_bare() {
    assert_eq!(colon("help"), vec![c(':'), c('h'), c('e'), c('l'), c('p')]);
    assert_eq!(target_keys(Target::Quit), Some(vec![c(':'), c('q')]));
    assert_eq!(target_keys(Target::ReviewResolved), Some(vec![c('x')]));
    assert_eq!(target_keys(Target::Submenu(Submenu::Go)), None);
    assert_eq!(target_keys(Target::Action(Action::Top)), Some(vec![c('g'), c('g')]));
}

#[test]
fn items_show_their_shortcut_compactly() {
    let quit = Item::command("Quit", Target::Quit);
    assert_eq!(quit.hint, ":q");
    assert!(quit.enabled && !quit.checked && !quit.active);
    let top = Item::action(Action::Top, "Top", false, true);
    assert_eq!(top.hint, "gg");
    assert!(!top.enabled && top.checked);
    let choice = Item::choice(Action::Top, "Top", true, true);
    assert!(choice.active && !choice.checked);
    let fly = Item::submenu("Layout", Submenu::Layout);
    assert_eq!(fly.hint, "");
    assert_eq!(fly.target, Target::Submenu(Submenu::Layout));
}

#[test]
fn the_keyboard_skips_separators_and_disabled_rows() {
    let rows = vec![
        quit_row(),
        Row::Separator,
        Row::Item(Item::action(Action::Top, "Top", false, false)),
        quit_row(),
    ];
    assert!(rows[1].item().is_none());
    assert_eq!(next_item(&rows, None, 1), Some(0));
    assert_eq!(next_item(&rows, Some(0), 1), Some(3));
    assert_eq!(next_item(&rows, Some(3), 1), None);
    assert_eq!(next_item(&rows, None, -1), Some(3));
    assert_eq!(next_item(&rows, Some(3), -1), Some(0));
    assert_eq!(next_item(&rows, Some(0), -1), None);
}

#[test]
fn keep_visible_scrolls_the_least_and_stops_at_the_last_page() {
    let mut scroll = 0;
    keep_visible(&mut scroll, 10, 5, 20);
    assert_eq!(scroll, 6);
    keep_visible(&mut scroll, 2, 5, 20);
    assert_eq!(scroll, 2);
    keep_visible(&mut scroll, 19, 5, 20);
    assert_eq!(scroll, 15);
    keep_visible(&mut scroll, 16, 5, 20);
    assert_eq!(scroll, 15);
}

#[test]
fn hiding_the_bar_closes_its_menu() {
    let mut bar = MenuBar::new(true);
    assert!(bar.shown());
    assert!(bar.open().is_none());
    bar.show(Root::Go);
    let open = bar.open().expect("a menu");
    assert_eq!(open.root, Root::Go);
    assert_eq!(open.focused, Focused::Label);
    bar.toggle();
    assert!(!bar.shown());
    assert!(bar.open().is_none());
    bar.toggle();
    assert!(bar.shown());
    bar.show(Root::Diff);
    bar.close();
    assert!(bar.open().is_none());
}

#[test]
fn an_open_menu_can_be_changed_in_place() {
    let mut bar = MenuBar::new(true);
    assert!(bar.open_mut().is_none());
    bar.show(Root::App);
    if let Some(open) = bar.open_mut() {
        open.root_scroll = 4;
    }
    assert_eq!(bar.open().map(|open| open.root_scroll), Some(4));
}

#[test]
fn the_endpoints_sit_at_the_right_edge_when_they_fit() {
    let tail = bar_tail(100, "main".to_owned(), "work".to_owned(), false);
    assert_eq!(tail.padding, 58);
    let base = tail.base.as_ref().expect("the base");
    assert_eq!((base.x, base.width), (88, 4));
    let target = tail.target.as_ref().expect("the target");
    assert_eq!((target.x, target.width), (96, 4));
    assert_eq!(tail.picker_at(89), Some(PickerKind::ComparisonBase));
    assert_eq!(tail.picker_at(97), Some(PickerKind::ComparisonTarget));
    assert_eq!(tail.picker_at(93), None);
    assert!(tail.endpoints_rendered());

    let off = bar_tail(100, "main".to_owned(), "work".to_owned(), true);
    assert!(off.base.is_none());
    assert_eq!(off.target.as_ref().map(|t| t.x), Some(96));

    let narrow = bar_tail(30, "main".to_owned(), "work".to_owned(), false);
    assert_eq!(narrow.padding, 0);
    assert!(narrow.base.is_none() && narrow.target.is_none());
    assert!(!narrow.endpoints_rendered());
}

#[test]
fn a_menu_box_maps_rows_and_cells() {
    let rows = vec![quit_row(), Row::Separator, quit_row()];
    assert_eq!(menu_width(&rows, "Go"), 11);
    let layout = layout_at(&rows, "Go", 11, 1, 0, 100, 30);
    assert_eq!(layout, MenuLayout { x: 11, y: 1, width: 11, height: 5, scroll: 0, visible_rows: 3 });
    assert_eq!(layout.row_at(12, 2, &rows), Some(0));
    assert_eq!(layout.row_at(12, 3, &rows), None);
    assert_eq!(layout.row_at(12, 4, &rows), Some(2));
    assert_eq!(layout.row_at(11, 2, &rows), None);
    assert_eq!(layout.row_at(12, 5, &rows), None);
    assert!(layout.contains(11, 1));
    assert!(!layout.contains(22, 1));
    let short = layout_at(&rows, "Go", 95, 1, 7, 100, 5);
    assert_eq!(short.x, 89);
    assert_eq!(short.visible_rows, 1);
    assert_eq!(short.scroll, 2);
    assert_eq!(short.height, 3);
}

#[test]
fn colon_shortcuts_wait_run_or_close() {
    let rows = vec![quit_row()];
    let mut bar = MenuBar::new(true);
    bar.show(Root::App);
    assert_eq!(bar.shortcut(&rows, &[], c(':')), Shortcut::Pending);
    assert_eq!(bar.open().map(|open| open.typed().to_vec()), Some(vec![c(':')]));
    assert_eq!(bar.shortcut(&rows, &[], c('q')), Shortcut::Run(Target::Quit));

    let mut missed = MenuBar::new(true);
    missed.show(Root::App);
    assert_eq!(missed.shortcut(&rows, &[], c(':')), Shortcut::Pending);
    assert_eq!(missed.shortcut(&rows, &[], c('x')), Shortcut::Closed);
    assert!(missed.open().is_none());

    let mut fresh = MenuBar::new(true);
    fresh.show(Root::App);
    let enter = Chord { key: Key::Enter, ctrl: false, alt: false, shift: false };
    assert_eq!(fresh.shortcut(&rows, &[], enter), Shortcut::Unhandled);
    assert!(fresh.open().is_some());
}

#[test]
fn switching_menus_stays_among_the_shown_labels() {
    let mut bar = MenuBar::new(true);
    bar.show(Root::Go);
    bar.switch_root(1, 100);
    assert_eq!(bar.open().map(|open| open.root), Some(Root::Review));
    bar.switch_root(10, 100);
    assert_eq!(bar.open().map(|open| open.root), Some(Root::Diff));
    bar.switch_root(-10, 100);
    assert_eq!(bar.open().map(|open| open.root), Some(Root::App));
    bar.show(Root::Go);
    bar.switch_root(1, 20);
    assert_eq!(bar.open().map(|open| open.root), Some(Root::App));
}

#[test]
fn focusing_a_fly_out_row_opens_it() {
    let rows = vec![Row::Item(Item::submenu("Layout", Submenu::Layout)), quit_row()];
    let mut bar = MenuBar::new(true);
    bar.show(Root::App);
    bar.focus_root_item(&rows, 0, true, 100, 30);
    let open = bar.open().expect("a menu");
    assert_eq!(open.focused, Focused::Root(0));
    assert_eq!(open.submenu, Some((Submenu::Layout, 0)));
    let child = vec![quit_row(), quit_row()];
    bar.focus_child_item(1, &rows, &child, 100, 30);
    let open = bar.open().expect("a menu");
    assert_eq!(open.focused, Focused::Child(1));
    assert_eq!(open.child_scroll, 0);
    bar.focus_root_item(&rows, 1, true, 100, 30);
    assert_eq!(bar.open().and_then(|open| open.submenu), None);
}

fn state(width: usize) -> BarState {
    BarState {
        width,
        can_back: false,
        can_forward: true,
        has_document: true,
        deleted: false,
        on_thread: false,
        thread_lifecycle_resolved: false,
        thread_archived: false,
        thread_status_resolved: false,
        review_points: false,
        diff_mode: DiffMode::Unified,
        source_view_available: true,
        any_resolved_thread: false,
        any_thread: false,
        sidebar_shown: true,
        sidebar_has_restore: false,
        tree: true,
        threads: false,
        whitespace_ignored: true,
        review_list_open: false,
        threads_pane_focused: false,
        review_resolved: false,
        review_file_only: false,
    }
}

fn press(code: KeyCode) -> KeyPress {
    KeyPress { code, ctrl: false, alt: false, shift: false, extra: false }
}

fn item_of(row: &Row) -> &Item {
    row.item().expect("an item row")
}

#[test]
fn rows_run_only_when_the_viewer_allows_them() {
    let s = state(100);
    assert!(!action_available(s, Action::JumpBack));
    assert!(action_available(s, Action::JumpForward));
    assert!(action_available(s, Action::NewThread));
    assert!(!action_available(s, Action::Reply));
    assert!(action_available(s, Action::ComparisonWhitespace));
    assert!(action_available(s, Action::SidebarToggle));
    assert!(action_available(s, Action::Top));
    let off = BarState { diff_mode: DiffMode::Off, sidebar_shown: false, ..s };
    assert!(!action_available(off, Action::ComparisonWhitespace));
    assert!(!action_available(off, Action::SidebarToggle));
    assert!(action_checked(s, Action::SidebarToggle));
    assert!(action_checked(s, Action::TreeToggle));
    assert!(!action_checked(s, Action::ThreadsPaneToggle));
    assert!(action_checked(s, Action::ComparisonWhitespace));
    assert!(!action_checked(s, Action::Top));
}

#[test]
fn the_go_menu_follows_the_jumplist() {
    let rows = menu_rows(state(100), Root::Go);
    assert_eq!(rows.len(), 6);
    assert_eq!(item_of(&rows[0]).label, "Open file…");
    assert_eq!(item_of(&rows[0]).target, Target::Action(Action::PickFile));
    assert!(rows[3].item().is_none());
    assert_eq!(item_of(&rows[4]).label, "Back");
    assert!(!item_of(&rows[4]).enabled);
    assert!(item_of(&rows[5]).enabled);
}

#[test]
fn the_application_menu_gains_the_workflow_menus_when_narrow() {
    let wide = menu_rows(state(100), Root::App);
    assert_eq!(wide.len(), 5);
    assert_eq!(item_of(&wide[0]).target, Target::Submenu(Submenu::Help));
    assert_eq!(item_of(&wide[4]).target, Target::Quit);
    let narrow = menu_rows(state(20), Root::App);
    assert_eq!(narrow.len(), 9);
    assert_eq!(item_of(&narrow[0]).target, Target::Submenu(Submenu::Layout));
    assert_eq!(item_of(&narrow[3]).target, Target::Submenu(Submenu::Diff));
    assert_eq!(item_of(&narrow[8]).label, "Quit");
}

#[test]
fn the_diff_menu_marks_the_current_mode() {
    let rows = menu_rows(state(100), Root::Diff);
    assert_eq!(rows.len(), 11);
    assert!(!item_of(&rows[0]).active);
    assert!(item_of(&rows[1]).active);
    assert!(!item_of(&rows[2]).active);
    let whitespace = item_of(&rows[10]);
    assert_eq!(whitespace.label, "Ignore whitespace");
    assert!(whitespace.enabled && whitespace.checked);
    let help = submenu_rows(state(100), Submenu::Help);
    assert_eq!(help.len(), 4);
    assert_eq!(item_of(&help[2]).target, Target::Action(Action::Help));
    let layout = submenu_rows(state(100), Submenu::Layout);
    assert!(item_of(&layout[0]).active && !item_of(&layout[1]).active);
    assert_eq!(submenu_rows(state(100), Submenu::Review).len(), 16);
}

#[test]
fn the_keyboard_walks_a_menu_and_enter_runs_the_row() {
    let s = state(100);
    let mut bar = MenuBar::new(true);
    bar.show(Root::Go);
    assert_eq!(bar.selected_target(s), None);
    assert_eq!(bar.key(press(KeyCode::Down), s, 100, 30), None);
    assert_eq!(bar.open().map(|open| open.focused), Some(Focused::Root(0)));
    assert_eq!(bar.selected_target(s), Some(Target::Action(Action::PickFile)));
    assert_eq!(bar.key(press(KeyCode::Char('j')), s, 100, 30), None);
    assert_eq!(bar.open().map(|open| open.focused), Some(Focused::Root(1)));
    assert_eq!(bar.key(press(KeyCode::Up), s, 100, 30), None);
    assert_eq!(bar.key(press(KeyCode::Up), s, 100, 30), None);
    assert_eq!(bar.open().map(|open| open.focused), Some(Focused::Label));
    assert_eq!(bar.key(press(KeyCode::Down), s, 100, 30), None);
    assert_eq!(bar.key(press(KeyCode::Enter), s, 100, 30), Some(Target::Action(Action::PickFile)));
    assert!(bar.open().is_none());
    assert!(bar.shown());
}

#[test]
fn escape_closes_and_left_and_right_switch_menus() {
    let s = state(100);
    let mut bar = MenuBar::new(true);
    bar.show(Root::Go);
    assert_eq!(bar.key(press(KeyCode::Right), s, 100, 30), None);
    assert_eq!(bar.open().map(|open| open.root), Some(Root::Review));
    assert_eq!(bar.key(press(KeyCode::Char('h')), s, 100, 30), None);
    assert_eq!(bar.open().map(|open| open.root), Some(Root::Go));
    assert_eq!(bar.key(press(KeyCode::Esc), s, 100, 30), None);
    assert!(bar.open().is_none());
    let mut closed = MenuBar::new(true);
    assert_eq!(closed.key(press(KeyCode::Enter), s, 100, 30), None);
    assert!(closed.open().is_none());
}

#[test]
fn right_opens_a_fly_out_and_left_returns_to_its_row() {
    let s = state(100);
    let mut bar = MenuBar::new(true);
    bar.show(Root::App);
    bar.key(press(KeyCode::Down), s, 100, 30);
    assert_eq!(bar.selected_target(s), Some(Target::Submenu(Submenu::Help)));
    bar.key(press(KeyCode::Right), s, 100, 30);
    let open = bar.open().expect("a menu");
    assert_eq!(open.submenu, Some((Submenu::Help, 0)));
    assert_eq!(open.focused, Focused::Child(0));
    assert_eq!(bar.selected_target(s), Some(Target::GettingStarted));
    bar.key(press(KeyCode::Left), s, 100, 30);
    let open = bar.open().expect("a menu");
    assert_eq!(open.submenu, None);
    assert_eq!(open.focused, Focused::Root(0));
}

#[test]
fn a_typed_colon_command_runs_from_the_open_menu() {
    let s = state(100);
    let mut bar = MenuBar::new(true);
    bar.show(Root::App);
    assert_eq!(bar.key(press(KeyCode::Char(':')), s, 100, 30), None);
    assert!(bar.open().is_some());
    assert_eq!(bar.key(press(KeyCode::Char('q')), s, 100, 30), Some(Target::Quit));
    assert!(bar.open().is_none());
    let mut missed = MenuBar::new(true);
    missed.show(Root::App);
    assert_eq!(missed.key(press(KeyCode::Char('z')), s, 100, 30), None);
    assert!(missed.open().is_none());
}

#[test]
fn scrolling_a_short_menu_moves_the_keyboard_into_view() {
    let s = BarState { any_resolved_thread: true, ..state(100) };
    let mut bar = MenuBar::new(true);
    bar.show(Root::Review);
    bar.key(press(KeyCode::Down), s, 100, 8);
    assert_eq!(bar.open().map(|open| open.focused), Some(Focused::Root(0)));
    bar.scroll_menu(s, false, 3, 100, 8);
    let open = bar.open().expect("a menu");
    assert_eq!(open.root_scroll, 3);
    assert_eq!(open.focused, Focused::Root(3));
    bar.scroll_menu(s, false, -100, 100, 8);
    assert_eq!(bar.open().map(|open| open.root_scroll), Some(0));
    assert_eq!(bar.open().map(|open| open.focused), Some(Focused::Root(3)));
}

fn no_tail() -> BarTail {
    bar_tail(100, "main".to_owned(), "work".to_owned(), false)
}

fn point(bar: &mut MenuBar, kind: MouseKind, column: usize, row: usize, s: BarState) -> BarMouse {
    bar.mouse(kind, column, row, s, &no_tail(), &None, 100, 30)
}

#[test]
fn a_label_click_opens_its_menu_and_a_second_closes_it() {
    let s = state(100);
    let mut bar = MenuBar::new(true);
    assert_eq!(point(&mut bar, MouseKind::Moved, 13, 0, s), BarMouse::Handled);
    assert!(bar.open().is_none());
    assert_eq!(point(&mut bar, MouseKind::LeftDown, 12, 0, s), BarMouse::Opened(Root::Go));
    assert_eq!(bar.open().map(|open| open.root), Some(Root::Go));
    assert_eq!(point(&mut bar, MouseKind::Moved, 17, 0, s), BarMouse::Opened(Root::Review));
    assert_eq!(point(&mut bar, MouseKind::LeftDown, 17, 0, s), BarMouse::Handled);
    assert!(bar.open().is_none());
    let mut hidden = MenuBar::new(false);
    assert_eq!(point(&mut hidden, MouseKind::LeftDown, 12, 0, s), BarMouse::Pass);
    assert!(hidden.open().is_none());
}

#[test]
fn hovering_a_fly_out_row_opens_it_beside_that_row() {
    let s = state(100);
    let mut bar = MenuBar::new(true);
    assert_eq!(point(&mut bar, MouseKind::LeftDown, 1, 0, s), BarMouse::Opened(Root::App));
    assert_eq!(point(&mut bar, MouseKind::Moved, 2, 2, s), BarMouse::Handled);
    let open = bar.open().expect("a menu");
    assert_eq!(open.focused, Focused::Root(0));
    assert_eq!(open.submenu, Some((Submenu::Help, 0)));
    let root_rows = menu_rows(s, Root::App);
    let root = root_layout(&bar, &root_rows, 100, 30).expect("the root menu");
    let child_rows = submenu_rows(s, Submenu::Help);
    let child = child_layout(&bar, root, &child_rows, 100, 30).expect("the fly-out");
    assert_eq!(child.y, root.y + 1);
    assert_eq!(child.x, root.x + root.width);
    let run = point(&mut bar, MouseKind::LeftDown, child.x + 2, child.y + 1, s);
    assert_eq!(run, BarMouse::Run(Target::GettingStarted));
    assert!(bar.open().is_none());
}

#[test]
fn a_click_on_a_row_that_cannot_run_only_moves_the_keyboard() {
    let s = state(100);
    let mut bar = MenuBar::new(true);
    point(&mut bar, MouseKind::LeftDown, 12, 0, s);
    assert_eq!(point(&mut bar, MouseKind::LeftDown, 14, 6, s), BarMouse::Handled);
    assert_eq!(bar.open().map(|open| open.focused), Some(Focused::Root(4)));
    assert_eq!(point(&mut bar, MouseKind::LeftDown, 14, 7, s), BarMouse::Run(Target::Action(Action::JumpForward)));
    assert!(bar.open().is_none());
}

#[test]
fn outside_the_menu_a_left_click_closes_and_a_right_click_passes_on() {
    let s = state(100);
    let mut bar = MenuBar::new(true);
    point(&mut bar, MouseKind::LeftDown, 12, 0, s);
    assert_eq!(point(&mut bar, MouseKind::Moved, 80, 20, s), BarMouse::Handled);
    assert!(bar.open().is_some());
    assert_eq!(point(&mut bar, MouseKind::LeftDown, 80, 20, s), BarMouse::Handled);
    assert!(bar.open().is_none());
    point(&mut bar, MouseKind::LeftDown, 12, 0, s);
    assert_eq!(point(&mut bar, MouseKind::RightDown, 80, 20, s), BarMouse::Pass);
    assert!(bar.open().is_none());
    assert_eq!(point(&mut bar, MouseKind::LeftDown, 80, 20, s), BarMouse::Pass);
}

#[test]
fn the_wheel_scrolls_the_fly_out_under_the_pointer() {
    let s = state(20);
    let mut bar = MenuBar::new(true);
    point(&mut bar, MouseKind::LeftDown, 1, 0, s);
    bar.key(press(KeyCode::Down), s, 20, 8);
    bar.key(press(KeyCode::Right), s, 20, 8);
    assert_eq!(bar.open().map(|open| open.focused), Some(Focused::Child(0)));
    let root_rows = menu_rows(s, Root::App);
    let root = root_layout(&bar, &root_rows, 20, 8).expect("the root menu");
    let child_rows = submenu_rows(s, Submenu::Layout);
    let child = child_layout(&bar, root, &child_rows, 20, 8).expect("the fly-out");
    let outcome = bar.mouse(MouseKind::ScrollDown, child.x + 2, child.y + 1, s, &no_tail(), &None, 20, 8);
    assert_eq!(outcome, BarMouse::Handled);
    let open = bar.open().expect("a menu");
    assert!(matches!(open.focused, Focused::Child(index) if index >= 1));
    assert_eq!(open.child_scroll, 1);
}

#[test]
fn the_bar_endpoints_and_identity_open_their_pickers() {
    let s = state(100);
    let identity = Some(BarIdentity {
        repo: "repo".to_owned(),
        x: 50,
        width: 4,
        picker: Some(PickerKind::Worktree),
    });
    let mut bar = MenuBar::new(true);
    point(&mut bar, MouseKind::LeftDown, 12, 0, s);
    let outcome = bar.mouse(MouseKind::LeftDown, 89, 0, s, &no_tail(), &identity, 100, 30);
    assert_eq!(outcome, BarMouse::Picker(PickerKind::ComparisonBase));
    assert!(bar.open().is_none());
    assert_eq!(bar.mouse(MouseKind::LeftDown, 51, 0, s, &no_tail(), &identity, 100, 30), BarMouse::Worktree);
    assert_eq!(bar.mouse(MouseKind::Moved, 51, 0, s, &no_tail(), &identity, 100, 30), BarMouse::Handled);
    assert_eq!(bar.mouse(MouseKind::LeftDown, 60, 0, s, &no_tail(), &identity, 100, 30), BarMouse::Handled);
}

fn fresh(width: usize) -> BarState {
    BarState {
        can_forward: false,
        diff_mode: DiffMode::Normal,
        threads: true,
        whitespace_ignored: false,
        ..state(width)
    }
}

fn labels_of(rows: &[Row]) -> Vec<String> {
    rows.iter().filter_map(Row::item).map(|item| item.label.clone()).collect()
}

#[test]
fn menus_are_stable() {
    let s = fresh(100);
    assert_eq!(menu_rows(s, Root::App).len(), 5);
    assert_eq!(menu_rows(s, Root::Layout).len(), 6);
    assert_eq!(menu_rows(s, Root::Go).len(), 6);
    assert_eq!(menu_rows(s, Root::Review).len(), 16);
    let diff_rows = menu_rows(s, Root::Diff);
    assert_eq!(diff_rows.len(), 11);
    assert_eq!(
        labels_of(&diff_rows),
        [
            "Standard diff",
            "Unified diff",
            "Diff off",
            "Pick base…",
            "Pick target…",
            "Head to WorkingTree",
            "Save review point",
            "Ignore whitespace",
        ]
    );
    let review = menu_rows(s, Root::Review);
    assert_eq!(review[0].item().map(|item| (item.label.as_str(), item.checked)), Some(("Reviews", false)));
    assert_eq!(review[5].item().map(|item| (item.label.as_str(), item.checked)), Some(("Show resolved", false)));
    assert_eq!(review[6].item().map(|item| (item.label.as_str(), item.checked)), Some(("Only current file", false)));
    assert_eq!(submenu_rows(s, Submenu::Help).len(), 4);
    let go = menu_rows(s, Root::Go);
    assert_eq!(go[0].item().map(|item| item.hint.as_str()), Some("Sp f"));
    assert_eq!(go[1].item().map(|item| item.hint.as_str()), Some("Sp F i"));
    assert!(labels_of(&go).iter().all(|label| label != "Newest change"));
    assert!(!menu_rows(s, Root::App)
        .iter()
        .filter_map(Row::item)
        .any(|item| item.target == Target::Action(Action::MenuBarToggle)));
}

#[test]
fn diff_menu_choices_and_dormant_whitespace_are_exact() {
    let s = BarState { diff_mode: DiffMode::Off, whitespace_ignored: true, ..fresh(100) };
    let rows = menu_rows(s, Root::Diff);
    let items: Vec<&Item> = rows.iter().filter_map(Row::item).collect();
    assert_eq!(
        items.iter().map(|item| (item.label.as_str(), item.active)).collect::<Vec<_>>(),
        [
            ("Standard diff", false),
            ("Unified diff", false),
            ("Diff off", true),
            ("Pick base…", false),
            ("Pick target…", false),
            ("Head to WorkingTree", false),
            ("Save review point", false),
            ("Ignore whitespace", false),
        ]
    );
    assert!(items[3].enabled);
    assert!(items[7].checked);
    assert!(!items[7].enabled);
}

fn layout_items(s: BarState) -> Vec<(String, bool, bool)> {
    submenu_rows(s, Submenu::Layout)
        .iter()
        .filter_map(Row::item)
        .map(|item| (item.label.clone(), item.checked, item.active))
        .collect()
}

#[test]
fn layout_menu_uses_stable_checked_labels() {
    let s = fresh(100);
    let owned = |rows: [(&str, bool, bool); 5]| {
        rows.iter().map(|(l, c, a)| ((*l).to_owned(), *c, *a)).collect::<Vec<_>>()
    };
    assert_eq!(
        layout_items(s),
        owned([
            ("File view", false, true),
            ("Reviews view", false, false),
            ("Sidebar", true, false),
            ("Files pane", true, false),
            ("Threads pane", true, false),
        ])
    );
    let review = layout_items(BarState { review_list_open: true, ..s });
    assert!(!review[0].2);
    assert!(review[1].2);
    let no_files = BarState { tree: false, ..s };
    assert_eq!(
        layout_items(no_files),
        owned([
            ("File view", false, true),
            ("Reviews view", false, false),
            ("Sidebar", true, false),
            ("Files pane", false, false),
            ("Threads pane", true, false),
        ])
    );
    let hidden = BarState { sidebar_shown: false, threads: false, ..no_files };
    assert_eq!(
        layout_items(hidden),
        owned([
            ("File view", false, true),
            ("Reviews view", false, false),
            ("Sidebar", false, false),
            ("Files pane", false, false),
            ("Threads pane", false, false),
        ])
    );
}

#[test]
fn narrow_application_menu_contains_the_hidden_workflow_menus() {
    let labels = labels_of(&menu_rows(fresh(20), Root::App));
    assert!(labels.windows(3).any(|labels| labels == ["Go", "Review", "Diff"]));
}

#[test]
fn enter_does_not_run_a_disabled_hovered_item() {
    let s = fresh(100);
    let mut bar = MenuBar::new(true);
    assert_eq!(point(&mut bar, MouseKind::LeftDown, 17, 0, s), BarMouse::Opened(Root::Review));
    point(&mut bar, MouseKind::Moved, 19, 5, s);
    assert_eq!(bar.open().map(|open| open.focused), Some(Focused::Root(3)));
    let rows = menu_rows(s, Root::Review);
    assert!(!item_of(&rows[3]).enabled);
    assert_eq!(bar.key(press(KeyCode::Enter), s, 100, 30), None);
}

#[test]
fn scrolling_a_child_moves_focus_to_a_visible_item() {
    let s = fresh(20);
    let mut bar = MenuBar::new(true);
    let tail = bar_tail(20, "main".to_owned(), "work".to_owned(), false);
    assert_eq!(bar.mouse(MouseKind::LeftDown, 1, 0, s, &tail, &None, 20, 8), BarMouse::Opened(Root::App));
    bar.key(press(KeyCode::Down), s, 20, 8);
    bar.key(press(KeyCode::Right), s, 20, 8);
    assert_eq!(bar.open().map(|open| open.focused), Some(Focused::Child(0)));
    let root_rows = menu_rows(s, Root::App);
    let root = root_layout(&bar, &root_rows, 20, 8).expect("the root menu");
    let child_rows = submenu_rows(s, Submenu::Layout);
    let child = child_layout(&bar, root, &child_rows, 20, 8).expect("the layout fly-out");
    bar.mouse(MouseKind::ScrollDown, child.x + 2, child.y + 1, s, &tail, &None, 20, 8);
    assert!(matches!(bar.open().map(|open| open.focused), Some(Focused::Child(index)) if index >= 1));
}

#[test]
fn menu_width_preserves_full_shortcuts_and_colon_commands_run() {
    let s = fresh(100);
    let mut bar = MenuBar::new(true);
    assert_eq!(point(&mut bar, MouseKind::LeftDown, 12, 0, s), BarMouse::Opened(Root::Go));
    let go_rows = menu_rows(s, Root::Go);
    let layout = root_layout(&bar, &go_rows, 100, 30).expect("the Go menu");
    let item = item_of(&go_rows[1]);
    let label_x = layout.x + 3;
    let hint_x = layout.x + layout.width - 1 - item.hint.chars().count();
    assert!(label_x + item.label.chars().count() < hint_x, "the widest action and shortcut keep a gap");
    assert!(go_rows.iter().filter_map(Row::item).any(|item| item.hint == "Sp F i"));
    bar.close();
    bar.show(Root::App);
    for ch in ":about".chars() {
        let run = bar.key(press(KeyCode::Char(ch)), s, 100, 30);
        if ch == 't' {
            assert_eq!(run, Some(Target::About));
        } else {
            assert_eq!(run, None);
        }
    }
}

#[test]
fn displayed_multi_chord_runs_from_an_open_title_menu() {
    let s = fresh(100);
    let mut bar = MenuBar::new(true);
    assert_eq!(point(&mut bar, MouseKind::LeftDown, 12, 0, s), BarMouse::Opened(Root::Go));
    assert_eq!(bar.key(press(KeyCode::Char(' ')), s, 100, 30), None);
    assert!(bar.open().is_some());
    assert_eq!(bar.key(press(KeyCode::Char('f')), s, 100, 30), Some(Target::Action(Action::PickFile)));
    assert!(bar.open().is_none());
}

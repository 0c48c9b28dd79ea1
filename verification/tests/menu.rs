use fathomable::bindings::{c, Action, Match, Where};
use fathomable::keys::{KeyCode, KeyPress};
use fathomable::menu::{DiffMode, Grid, Menu, MenuTyped, ModeKey, ModeMenu};

fn file_menu() -> Menu {
    let mut menu = Menu::new("File", Where::View, 3, 4);
    menu.push(Action::Top, Action::Top, "Top");
    menu.push_toggle(Action::DiffStandard, Action::DiffStandard, "Diff", true);
    menu
}

#[test]
fn a_menu_lists_bound_actions_with_their_compact_keys() {
    let menu = file_menu();
    assert_eq!(menu.title(), "File");
    assert_eq!(menu.entries().len(), 2);
    assert_eq!(menu.entries()[0].key(), "gg");
    assert_eq!(menu.entries()[0].label(), "Top");
    assert_eq!(menu.entries()[0].action(), Some(Action::Top));
    assert_eq!(menu.entries()[0].checked(), None);
    assert_eq!(menu.entries()[1].key(), "Sp d s");
    assert_eq!(menu.entries()[1].checked(), Some(true));
    assert!(menu.entries()[1].enabled());
}

#[test]
fn an_action_unbound_on_the_surface_adds_no_entry() {
    let mut menu = Menu::new("Draft", Where::Draft, 0, 0);
    menu.push(Action::Top, Action::Top, "Top");
    assert!(menu.entries().is_empty());
}

#[test]
fn a_separator_is_keyless_and_never_enabled() {
    let mut menu = file_menu();
    menu.separator();
    let rule = &menu.entries()[2];
    assert!(rule.is_separator());
    assert_eq!(rule.key(), "");
    assert_eq!(rule.action(), None);
    assert!(!rule.enabled());
}

#[test]
fn disabled_toggles_keep_their_state_but_do_not_fire() {
    let mut menu = Menu::new("File", Where::View, 0, 0);
    menu.push_toggle_enabled(Action::Top, Action::Top, "Top", false, false);
    assert_eq!(menu.entries()[0].checked(), Some(false));
    assert!(!menu.entries()[0].enabled());
    assert_eq!(menu.typed(&[c('g'), c('g')]), Match::Miss);
    assert_eq!(menu.typed(&[c('g')]), Match::Prefix);
}

#[test]
fn typed_keys_fire_wait_or_miss() {
    let menu = file_menu();
    assert_eq!(menu.typed(&[c('g'), c('g')]), Match::Exact(Action::Top));
    assert_eq!(menu.typed(&[c('g')]), Match::Prefix);
    assert_eq!(menu.typed(&[c('q')]), Match::Miss);
}

#[test]
fn the_grid_fits_the_widest_row_and_stays_on_screen() {
    let menu = file_menu();
    let grid = menu.grid(80, 24);
    assert_eq!(
        grid,
        Grid { x: 3, y: 4, width: 15, height: 4, rows: 2, columns: 1, key_width: 6, label_width: 4, count: 2 }
    );
    let squeezed = menu.grid(10, 5);
    assert_eq!(squeezed.width, 10);
    assert_eq!(squeezed.x, 0);
    assert_eq!(squeezed.y, 1);
}

#[test]
fn grid_cells_map_to_entries_inside_the_border() {
    let grid = file_menu().grid(80, 24);
    assert!(grid.contains(3, 4));
    assert!(!grid.contains(18, 4));
    assert_eq!(grid.entry_at(4, 5), Some(0));
    assert_eq!(grid.entry_at(4, 6), Some(1));
    assert_eq!(grid.entry_at(3, 5), None);
    assert_eq!(grid.entry_at(4, 4), None);
    assert_eq!(grid.entry_at(4, 7), None);
    assert_eq!(Grid::column_width(6, 4), 15);
}

#[test]
fn below_header_and_right_edge_menus_open_one_row_down() {
    let menu = Menu::below_header("Files", Where::View, 2, 7);
    assert_eq!(menu.grid(80, 24).y, 8);
    let mut right = Menu::under_right_edge("Diff", Where::Any, 40, 2);
    right.push_choice(Action::DiffStandard, "Normal diff", true);
    let grid = right.grid(80, 24);
    assert_eq!(grid.x + grid.width, 40);
    assert_eq!(grid.y, 3);
}

#[test]
fn the_mode_chooser_stands_on_the_current_mode_and_clamps() {
    let mut chooser = ModeMenu::new(DiffMode::Unified, 40, 2);
    assert_eq!(chooser.selected(), 1);
    assert_eq!(chooser.menu().entries().len(), 3);
    assert!(chooser.menu().entries()[1].active());
    assert!(!chooser.menu().entries()[0].active());
    assert_eq!(chooser.selected_action(), Some(Action::DiffUnified));
    chooser.move_by(5);
    assert_eq!(chooser.selected(), 2);
    assert_eq!(chooser.selected_action(), Some(Action::DiffOff));
    chooser.move_by(-9);
    assert_eq!(chooser.selected(), 0);
    assert_eq!(chooser.selected_action(), Some(Action::DiffStandard));
}

fn key(code: KeyCode) -> KeyPress {
    KeyPress { code, ctrl: false, alt: false, shift: false, extra: false }
}

#[test]
fn the_mode_chooser_moves_and_runs_the_chosen_mode() {
    let mut chooser = ModeMenu::new(DiffMode::Normal, 40, 2);
    assert_eq!(chooser.selected(), 0);
    assert_eq!(chooser.key(key(KeyCode::Char('j'))), ModeKey::Stay);
    assert_eq!(chooser.selected(), 1);
    assert_eq!(chooser.key(key(KeyCode::Down)), ModeKey::Stay);
    assert_eq!(chooser.key(key(KeyCode::Down)), ModeKey::Stay);
    assert_eq!(chooser.selected(), 2);
    let held = KeyPress { code: KeyCode::Char('k'), ctrl: true, alt: false, shift: false, extra: false };
    assert_eq!(chooser.key(held), ModeKey::Stay);
    assert_eq!(chooser.selected(), 2);
    assert_eq!(chooser.key(key(KeyCode::Enter)), ModeKey::Run(Action::DiffOff));
    assert_eq!(chooser.key(key(KeyCode::Esc)), ModeKey::Close);
    assert_eq!(chooser.click(1), Some(Action::DiffUnified));
    assert_eq!(chooser.click(7), None);
}

#[test]
fn a_menu_runs_a_typed_key_waits_on_a_prefix_and_closes_on_a_miss() {
    let menu = file_menu();
    assert_eq!(menu.key(&[], c('g')), MenuTyped::Wait);
    assert_eq!(menu.key(&[c('g')], c('g')), MenuTyped::Run(Action::Top));
    assert_eq!(menu.key(&[], c('q')), MenuTyped::Close);
    assert_eq!(menu.click(0), Some(Action::Top));
    assert_eq!(menu.click(5), None);
    let mut off = Menu::new("File", Where::View, 0, 0);
    off.push_toggle_enabled(Action::Top, Action::Top, "Top", false, false);
    off.separator();
    assert_eq!(off.click(0), None);
    assert_eq!(off.click(1), None);
}

#[test]
fn the_diff_toggle_returns_to_unified_or_standard() {
    assert_eq!(fathomable::menu::last_active_diff_mode(DiffMode::Unified), DiffMode::Unified);
    assert_eq!(fathomable::menu::last_active_diff_mode(DiffMode::Off), DiffMode::Normal);
    assert_eq!(fathomable::menu::last_active_diff_mode(DiffMode::Normal), DiffMode::Normal);
}

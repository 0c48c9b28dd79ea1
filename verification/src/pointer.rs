//! What the mouse does in the popups: the context menu takes a click on
//! an entry and closes on one elsewhere, a confirmation answers its
//! buttons, a click on the help runs the binding where it applies; and
//! presses on one cell in quick succession count as a double or a triple
//! click.

use vstd::prelude::*;

use crate::bindings::{spec_takes_any, Action, Where};
use crate::menu::{spec_grid, spec_grid_entry_at, Menu};
use crate::menu_bar::MouseKind;
use crate::routing::{Confirmed, PopupKind};

verus! {

/// Presses on one cell closer together than this many milliseconds are
/// one gesture.
pub const MULTI_CLICK_MILLIS: u64 = 400;

/// What a mouse event does to an open context menu.
#[derive(Debug, Clone, Copy, PartialEq, Eq, Structural)]
pub enum MenuMouse {
    /// The menu closes and the entry's action runs.
    Run(Action),
    /// The menu closes.
    Close,
    /// The menu closes and the event goes on to what is under it.
    CloseAndPass,
    /// The menu takes the event and stays.
    Handled,
}

/// What `kind` at the cell does to `menu`, drawn `width` columns wide in
/// the `height` rows from `top`: a left click on an entry that can run
/// runs it (one that cannot leaves the menu open), a left click elsewhere
/// closes it, a right click closes it and goes on, anything else stays.
pub open spec fn spec_context_menu_mouse(menu: Menu, kind: MouseKind, column: usize, row: usize, width: usize, top: usize, height: usize) -> MenuMouse {
    if kind == MouseKind::LeftDown {
        match spec_grid_entry_at(spec_grid(menu@, width, top, height), column, row) {
            Some(index) => {
                let entry = menu@.entries[index];
                if entry.enabled && entry.action is Some { MenuMouse::Run(entry.action->0) } else { MenuMouse::Handled }
            },
            None => MenuMouse::Close,
        }
    } else if kind == MouseKind::RightDown {
        MenuMouse::CloseAndPass
    } else {
        MenuMouse::Handled
    }
}

/// What `kind` at the cell does to the open context menu.
pub fn context_menu_mouse(menu: &Menu, kind: MouseKind, column: usize, row: usize, width: usize, top: usize, height: usize) -> (outcome: MenuMouse)
    requires
        top + height <= usize::MAX,
    ensures
        outcome == spec_context_menu_mouse(*menu, kind, column, row, width, top, height),
{
    if kind == MouseKind::LeftDown {
        let grid = menu.grid_in(width, top, height);
        match grid.entry_at(column, row) {
            Some(index) => {
                let entries = menu.entries();
                assert(index < grid.count);
                assert(entries@.len() == menu@.entries.len());
                let entry = &entries[index];
                assert(menu@.entries[index as int] == entry@);
                match entry.action() {
                    Some(action) => if entry.enabled() { MenuMouse::Run(action) } else { MenuMouse::Handled },
                    None => MenuMouse::Handled,
                }
            },
            None => MenuMouse::Close,
        }
    } else if kind == MouseKind::RightDown {
        MenuMouse::CloseAndPass
    } else {
        MenuMouse::Handled
    }
}

/// What a click does in the confirmation `popup`, given the button the
/// drawn prompt has at the cell and whether the cell is inside it: the
/// confirm button quits, clears the board, or deletes the review point
/// once armed; the cancel button, or a click outside, backs out; only a
/// left click counts.
pub open spec fn spec_confirmation_mouse(popup: PopupKind, delete_armed: bool, left: bool, button: Option<Action>, inside: bool) -> Confirmed {
    let back_out = match popup {
        PopupKind::ConfirmQuit => Confirmed::Close,
        PopupKind::ConfirmReviewPointDelete => Confirmed::CancelReviewPointDelete,
        _ => Confirmed::CancelClearBoard,
    };
    if !left {
        Confirmed::Nothing
    } else if button == Some(Action::Confirm) {
        match popup {
            PopupKind::ConfirmQuit => Confirmed::Quit,
            PopupKind::ConfirmReviewPointDelete => if delete_armed { Confirmed::DeleteReviewPoint } else { Confirmed::Nothing },
            _ => Confirmed::ClearBoard,
        }
    } else if button == Some(Action::Escape) || !inside {
        back_out
    } else {
        Confirmed::Nothing
    }
}

/// What a click does in the confirmation `popup`.
pub fn confirmation_mouse(popup: PopupKind, delete_armed: bool, left: bool, button: Option<Action>, inside: bool) -> (outcome: Confirmed)
    requires
        popup == PopupKind::ConfirmQuit || popup == PopupKind::ConfirmBoard || popup == PopupKind::ConfirmReviewPointDelete,
    ensures
        outcome == spec_confirmation_mouse(popup, delete_armed, left, button, inside),
{
    let back_out = match popup {
        PopupKind::ConfirmQuit => Confirmed::Close,
        PopupKind::ConfirmReviewPointDelete => Confirmed::CancelReviewPointDelete,
        _ => Confirmed::CancelClearBoard,
    };
    if !left {
        Confirmed::Nothing
    } else if button == Some(Action::Confirm) {
        match popup {
            PopupKind::ConfirmQuit => Confirmed::Quit,
            PopupKind::ConfirmReviewPointDelete => if delete_armed { Confirmed::DeleteReviewPoint } else { Confirmed::Nothing },
            _ => Confirmed::ClearBoard,
        }
    } else if button == Some(Action::Escape) || !inside {
        back_out
    } else {
        Confirmed::Nothing
    }
}

/// Whether a binding on `binding_place`, clicked in the help, runs on the
/// surface `place` the help was opened over: on its own surface, or an
/// `Any` binding where those apply.
pub open spec fn spec_runs_from_help(binding_place: Where, place: Where) -> bool {
    binding_place == place || (binding_place == Where::Any && spec_takes_any(place))
}

/// Whether a binding on `binding_place`, clicked in the help, runs on
/// `place`.
pub fn runs_from_help(binding_place: Where, place: Where) -> (runs: bool)
    ensures
        runs == spec_runs_from_help(binding_place, place),
{
    binding_place == place || (binding_place == Where::Any && place.takes_any())
}

/// A left press in the text: when, where, how many in a row on that cell,
/// and whether it began in the gutter.
#[derive(Debug, Clone, Copy, PartialEq, Eq, Structural)]
pub struct Press {
    pub at: u64,
    pub column: usize,
    pub row: usize,
    pub count: u8,
    pub gutter: bool,
}

/// How many presses in a row a press at moment `now` on the cell makes:
/// one more than the last (a fourth starting over at one) when the last
/// was on the same cell less than the gesture's time before, else one.
pub open spec fn spec_press_count(last: Option<Press>, now: u64, column: usize, row: usize) -> u8 {
    match last {
        Some(p) => if (if now >= p.at { now - p.at } else { 0 }) < MULTI_CLICK_MILLIS && p.column == column && p.row == row {
            (p.count % 3 + 1) as u8
        } else {
            1
        },
        None => 1,
    }
}

/// The press at moment `now` on the cell, counted against the last one.
pub fn count_press(last: Option<Press>, now: u64, column: usize, row: usize, gutter: bool) -> (press: Press)
    ensures
        press == (Press { at: now, column, row, count: spec_press_count(last, now, column, row), gutter }),
        1 <= press.count <= 3,
{
    let count: u8 = match last {
        Some(p) => if now.saturating_sub(p.at) < MULTI_CLICK_MILLIS && p.column == column && p.row == row {
            p.count % 3 + 1
        } else {
            1
        },
        None => 1,
    };
    Press { at: now, column, row, count, gutter }
}

/// Presses on one cell in quick succession go one, two, three, and round
/// again: a count is always one to three.
pub proof fn lemma_press_counts_cycle(last: Option<Press>, now: u64, column: usize, row: usize)
    ensures
        1 <= spec_press_count(last, now, column, row) <= 3,
        last matches Some(p) && p.count == 3 && p.at <= now && now - p.at < MULTI_CLICK_MILLIS
            && p.column == column && p.row == row ==> spec_press_count(last, now, column, row) == 1,
{
}


/// What the panes read of the viewer to place a mouse event.
#[derive(Debug, Clone, Copy, PartialEq, Eq, Structural)]
pub struct PaneFacts {
    /// The screen row the panes start on.
    pub pane_top: usize,
    /// How many rows the panes take; the status line is the next.
    pub pane_rows: usize,
    /// The sidebar's columns, its divider the last of them; none when it
    /// is hidden.
    pub sidebar_width: usize,
    /// A draft is being written.
    pub compose_open: bool,
    /// The getting-started page is shown.
    pub getting_started: bool,
    /// The review list is open.
    pub review_open: bool,
    /// The screen row of the text's key bar, when it shows.
    pub text_bar_row: Option<usize>,
}

/// Where a mouse event lands among the panes.
#[derive(Debug, Clone, Copy, PartialEq, Eq, Structural)]
pub enum PaneHit {
    /// Above the panes: nothing.
    Outside,
    /// A press on the sidebar's divider starts dragging it.
    DividerDrag,
    /// A right click while a draft is open: nothing.
    Swallowed,
    /// A left click on the status line.
    StatusLine,
    /// The sidebar, `pane_row` rows into the panes.
    Sidebar { pane_row: usize },
    /// The getting-started page takes nothing.
    Paused,
    /// The review list, `pane_row` rows into the panes.
    Review { pane_row: usize },
    /// A left click on the text's key bar.
    TextBar,
    /// The text.
    Text,
}

/// Where `kind` at the cell lands: nothing above the panes; a left press
/// on the divider drags it; a draft swallows right clicks; a left click
/// on the status line goes there; left of the divider the sidebar; with
/// the getting-started page nothing more; then the review list when it is
/// open, a left click on the key bar, and else the text.
pub open spec fn spec_pane_hit(f: PaneFacts, kind: MouseKind, column: usize, row: usize) -> PaneHit {
    let left = kind == MouseKind::LeftDown;
    if row < f.pane_top {
        PaneHit::Outside
    } else {
        let pane_row = (row - f.pane_top) as usize;
        if left && pane_row < f.pane_rows && f.sidebar_width > 0 && column + 1 == f.sidebar_width {
            PaneHit::DividerDrag
        } else if kind == MouseKind::RightDown && f.compose_open {
            PaneHit::Swallowed
        } else if left && pane_row == f.pane_rows {
            PaneHit::StatusLine
        } else if column < f.sidebar_width {
            PaneHit::Sidebar { pane_row }
        } else if f.getting_started {
            PaneHit::Paused
        } else if f.review_open {
            PaneHit::Review { pane_row }
        } else if left && f.text_bar_row == Some(row) {
            PaneHit::TextBar
        } else {
            PaneHit::Text
        }
    }
}

/// Where `kind` at the cell lands among the panes.
pub fn pane_hit(f: PaneFacts, kind: MouseKind, column: usize, row: usize) -> (hit: PaneHit)
    ensures
        hit == spec_pane_hit(f, kind, column, row),
{
    let left = kind == MouseKind::LeftDown;
    if row < f.pane_top {
        return PaneHit::Outside;
    }
    let pane_row = row - f.pane_top;
    if left && pane_row < f.pane_rows && f.sidebar_width > 0 && column == f.sidebar_width - 1 {
        PaneHit::DividerDrag
    } else if kind == MouseKind::RightDown && f.compose_open {
        PaneHit::Swallowed
    } else if left && pane_row == f.pane_rows {
        PaneHit::StatusLine
    } else if column < f.sidebar_width {
        PaneHit::Sidebar { pane_row }
    } else if f.getting_started {
        PaneHit::Paused
    } else if f.review_open {
        PaneHit::Review { pane_row }
    } else if left && f.text_bar_row == Some(row) {
        PaneHit::TextBar
    } else {
        PaneHit::Text
    }
}

/// What a left press in the text does.
#[derive(Debug, Clone, Copy, PartialEq, Eq, Structural)]
pub enum Gesture {
    /// Shift-click: the selection reaches the cell.
    Extend,
    /// A press in the gutter or a triple click: the line is selected.
    SelectLine,
    /// A double click: the word is selected.
    SelectWord,
    /// The cursor goes to the cell.
    Place,
}

/// What a left press in the text does: Shift extends the selection; in
/// the gutter or on a third press it selects the line, on a second the
/// word; else it places the cursor.
pub open spec fn spec_press_gesture(shift: bool, in_gutter: bool, count: u8) -> Gesture {
    if shift {
        Gesture::Extend
    } else if in_gutter || count == 3 {
        Gesture::SelectLine
    } else if count == 2 {
        Gesture::SelectWord
    } else {
        Gesture::Place
    }
}

/// What a left press in the text does.
pub fn press_gesture(shift: bool, in_gutter: bool, count: u8) -> (gesture: Gesture)
    ensures
        gesture == spec_press_gesture(shift, in_gutter, count),
{
    if shift {
        Gesture::Extend
    } else if in_gutter || count == 3 {
        Gesture::SelectLine
    } else if count == 2 {
        Gesture::SelectWord
    } else {
        Gesture::Place
    }
}

/// Lines one notch of the wheel scrolls.
pub const WHEEL_LINES: isize = 3;

/// The thread stub or expanded header on the row under a press.
#[derive(Debug, Clone, Copy, PartialEq, Eq, Structural)]
pub struct StubFacts {
    /// The thread is shown expanded.
    pub expanded: bool,
    /// The row is the stub's first (the header's).
    pub first_row: bool,
    /// The stub belongs to a thread.
    pub has_thread: bool,
    /// The viewer still knows that thread.
    pub known: bool,
    /// The press is on the header's disclosure chevron.
    pub on_chevron: bool,
}

/// What a draft row under a press is.
#[derive(Debug, Clone, Copy, PartialEq, Eq, Structural)]
pub enum DraftRow {
    /// The author row, which takes nothing.
    Author,
    /// The draft's text line at this index.
    Text(usize),
}

/// A run of columns, `from` up to but not including `to`.
#[derive(Debug, Clone, Copy, PartialEq, Eq, Structural)]
pub struct Columns {
    pub from: usize,
    pub to: usize,
}

/// What the text pane reads of the viewer for a mouse event.
#[derive(Debug, Clone, Copy, PartialEq, Eq, Structural)]
pub struct TextFacts {
    /// Columns the sidebar takes at the left.
    pub sidebar: usize,
    /// The column the text starts at, after the sidebar and the gutter.
    pub text_left: usize,
    /// The screen row of the text's first row.
    pub top: usize,
    /// Rows of text shown.
    pub text_rows: usize,
    /// A file header sits on the row above the text.
    pub file_header: bool,
    /// The header's diff-mode control, from and to a column within the
    /// pane.
    pub diff_mode_control: Option<Columns>,
    /// Columns the header's title takes within the pane.
    pub title_width: usize,
    /// A directory is shown instead of a file.
    pub directory: bool,
    /// The draft row under the event, if any.
    pub draft: Option<DraftRow>,
    /// The thread stub under the event, if any.
    pub stub: Option<StubFacts>,
    /// The last left press, for counting and for a linewise drag.
    pub last: Option<Press>,
    /// The moment of the event, in milliseconds.
    pub now: u64,
}

/// What a mouse event on the text pane does. Every left press but one on
/// a draft row also focuses the text pane.
#[derive(Debug, Clone, Copy, PartialEq, Eq, Structural)]
pub enum TextAct {
    Nothing,
    /// Only the text pane takes the focus.
    Focus,
    /// The diff-mode chooser opens beside the control, at this screen
    /// cell.
    DiffModeMenu { column: usize, row: usize },
    /// The file's menu opens below the header row.
    FileMenu { row: usize },
    /// The view's context menu opens for this text cell at that screen
    /// cell.
    ViewMenu { text_row: usize, col: usize, column: usize, row: usize },
    /// The draft's cursor goes to this line and column.
    DraftCursor { index: usize, col: usize },
    /// The expanded thread folds.
    FoldThread,
    /// The folded thread opens on its newest message.
    ExpandThread,
    /// The cursor rests on the stub's row; from the gutter the row is
    /// selected.
    RestOnStub { text_row: usize, select_line: bool },
    /// Ctrl-click: the cursor goes to the cell and its link opens.
    FollowLink { text_row: usize, col: usize },
    /// A left press on the text makes this gesture.
    Press { gesture: Gesture, text_row: usize, col: usize },
    /// The wheel scrolls by this many lines.
    Scroll(isize),
    /// A drag from the gutter selects whole lines to this row.
    DragLines { text_row: usize },
    /// A drag extends the selection to this cell.
    Drag { text_row: usize, col: usize },
    /// The button came up: the gesture ends.
    Release,
}

/// How the last left press changes.
#[derive(Debug, Clone, Copy, PartialEq, Eq, Structural)]
pub enum PressUpdate {
    Keep,
    Record(Press),
    /// The gesture ended, so a next press counts as a first.
    Clear,
}

/// The press a text event records: the counted press, or none when it
/// folded or opened a thread.
pub open spec fn counted(f: TextFacts, column: usize, row: usize, in_gutter: bool) -> Press {
    Press { at: f.now, column, row, count: spec_press_count(f.last, f.now, column, row), gutter: in_gutter }
}

/// What a mouse event at the screen cell does to the text pane: above
/// the text, the file header's control or title; on a directory, only the
/// focus; a right press opens the view's menu; a left press places the
/// draft's cursor, folds or opens a thread or rests on its stub, follows a
/// link with Ctrl, or makes a press gesture; the wheel scrolls, a drag
/// extends the selection, linewise when the press began in the gutter, and
/// a release ends the gesture.
pub open spec fn spec_text_mouse(f: TextFacts, kind: MouseKind, ctrl: bool, shift: bool, column: usize, row: usize) -> (TextAct, PressUpdate) {
    let in_gutter = column < f.text_left;
    let col: usize = if column >= f.text_left { (column - f.text_left) as usize } else { 0 };
    let left = kind == MouseKind::LeftDown;
    let local: usize = if column >= f.sidebar { (column - f.sidebar) as usize } else { 0 };
    if row < f.top {
        if f.file_header && row + 1 == f.top && left {
            let act = match f.diff_mode_control {
                Some(c) if c.from <= local < c.to && f.sidebar + c.to <= usize::MAX => TextAct::DiffModeMenu { column: (f.sidebar + c.to) as usize, row },
                _ => if local < f.title_width { TextAct::FileMenu { row } } else { TextAct::Focus },
            };
            (act, PressUpdate::Keep)
        } else {
            (TextAct::Nothing, PressUpdate::Keep)
        }
    } else {
        let text_row = (row - f.top) as usize;
        if f.directory {
            (if left { TextAct::Focus } else { TextAct::Nothing }, PressUpdate::Keep)
        } else if kind == MouseKind::RightDown {
            (if text_row < f.text_rows {
                TextAct::ViewMenu { text_row, col, column, row }
            } else {
                TextAct::Nothing
            }, PressUpdate::Keep)
        } else if left {
            if text_row < f.text_rows && f.draft is Some {
                (match f.draft {
                    Some(DraftRow::Text(index)) => TextAct::DraftCursor { index, col },
                    _ => TextAct::Nothing,
                }, PressUpdate::Keep)
            } else if text_row < f.text_rows && (f.stub matches Some(s) && s.has_thread && (!s.expanded || s.first_row)) {
                let s = f.stub->0;
                if !s.known {
                    (TextAct::Focus, PressUpdate::Keep)
                } else if !in_gutter && s.on_chevron {
                    (if s.expanded { TextAct::FoldThread } else { TextAct::ExpandThread }, PressUpdate::Clear)
                } else if counted(f, column, row, in_gutter).count == 2 {
                    (if s.expanded { TextAct::FoldThread } else { TextAct::ExpandThread }, PressUpdate::Clear)
                } else {
                    (TextAct::RestOnStub { text_row, select_line: in_gutter }, PressUpdate::Record(counted(f, column, row, in_gutter)))
                }
            } else if text_row >= f.text_rows {
                (TextAct::Focus, PressUpdate::Keep)
            } else if ctrl {
                (TextAct::FollowLink { text_row, col }, PressUpdate::Keep)
            } else {
                let p = counted(f, column, row, in_gutter);
                (TextAct::Press { gesture: spec_press_gesture(shift, in_gutter, p.count), text_row, col }, PressUpdate::Record(p))
            }
        } else {
            let act = match kind {
                MouseKind::ScrollDown => TextAct::Scroll(WHEEL_LINES),
                MouseKind::ScrollUp => TextAct::Scroll((-WHEEL_LINES) as isize),
                MouseKind::LeftDrag => {
                    let last_row: usize = if f.text_rows > 0 { (f.text_rows - 1) as usize } else { 0 };
                    let r = if text_row < last_row { text_row } else { last_row };
                    if f.last matches Some(p) && p.gutter {
                        TextAct::DragLines { text_row: r }
                    } else {
                        TextAct::Drag { text_row: r, col }
                    }
                },
                MouseKind::LeftUp => TextAct::Release,
                _ => TextAct::Nothing,
            };
            (act, PressUpdate::Keep)
        }
    }
}

/// Only a left press on the text records a press; a directory takes only
/// the focus; the header row opens its menus only on a left press; the
/// wheel scrolls by a notch either way; Ctrl-click follows a link without
/// counting; a drag never reaches past the last text row.
pub proof fn lemma_text_mouse_keeps_its_place(f: TextFacts, kind: MouseKind, ctrl: bool, shift: bool, column: usize, row: usize)
    ensures
        ({
            let (act, update) = spec_text_mouse(f, kind, ctrl, shift, column, row);
            &&& kind != MouseKind::LeftDown ==> update == PressUpdate::Keep
            &&& update matches PressUpdate::Record(p) ==> p.column == column && p.row == row && p.at == f.now
                && p.gutter == (column < f.text_left)
            &&& row >= f.top && f.directory ==> (act == TextAct::Focus || act == TextAct::Nothing)
            &&& row < f.top ==> update == PressUpdate::Keep
            &&& (act is DiffModeMenu || act is FileMenu) ==> kind == MouseKind::LeftDown && row + 1 == f.top && f.file_header
            &&& row >= f.top && !f.directory && kind == MouseKind::ScrollDown ==> act == TextAct::Scroll(WHEEL_LINES)
            &&& row >= f.top && !f.directory && kind == MouseKind::ScrollUp ==> (act matches TextAct::Scroll(d) && d == -WHEEL_LINES)
            &&& act matches TextAct::FollowLink { .. } ==> ctrl && update == PressUpdate::Keep
            &&& act matches TextAct::Drag { text_row, .. } ==> text_row < f.text_rows || text_row == 0
            &&& act matches TextAct::DragLines { text_row } ==> (text_row < f.text_rows || text_row == 0)
                && (f.last matches Some(p) && p.gutter)
            &&& act matches TextAct::Press { gesture, .. } ==> (shift <==> gesture == Gesture::Extend)
        }),
{
}

/// What a mouse event at the screen cell does to the text pane, and how
/// the last left press changes.
pub fn text_mouse(f: TextFacts, kind: MouseKind, ctrl: bool, shift: bool, column: usize, row: usize) -> (outcome: (TextAct, PressUpdate))
    ensures
        outcome == spec_text_mouse(f, kind, ctrl, shift, column, row),
{
    let in_gutter = column < f.text_left;
    let col: usize = if column >= f.text_left { column - f.text_left } else { 0 };
    let left = kind == MouseKind::LeftDown;
    let local: usize = if column >= f.sidebar { column - f.sidebar } else { 0 };
    if row < f.top {
        if f.file_header && row + 1 == f.top && left {
            let act = match f.diff_mode_control {
                Some(c) if c.from <= local && local < c.to && f.sidebar <= usize::MAX - c.to => TextAct::DiffModeMenu { column: f.sidebar + c.to, row },
                _ => if local < f.title_width { TextAct::FileMenu { row } } else { TextAct::Focus },
            };
            return (act, PressUpdate::Keep);
        }
        return (TextAct::Nothing, PressUpdate::Keep);
    }
    let text_row = row - f.top;
    if f.directory {
        return (if left { TextAct::Focus } else { TextAct::Nothing }, PressUpdate::Keep);
    }
    if kind == MouseKind::RightDown {
        return (if text_row < f.text_rows {
            TextAct::ViewMenu { text_row, col, column, row }
        } else {
            TextAct::Nothing
        }, PressUpdate::Keep);
    }
    if left {
        if text_row < f.text_rows && f.draft.is_some() {
            return (match f.draft {
                Some(DraftRow::Text(index)) => TextAct::DraftCursor { index, col },
                _ => TextAct::Nothing,
            }, PressUpdate::Keep);
        }
        if text_row < f.text_rows {
            if let Some(s) = f.stub {
                if s.has_thread && (!s.expanded || s.first_row) {
                    if !s.known {
                        return (TextAct::Focus, PressUpdate::Keep);
                    }
                    let toggle = if s.expanded { TextAct::FoldThread } else { TextAct::ExpandThread };
                    if !in_gutter && s.on_chevron {
                        return (toggle, PressUpdate::Clear);
                    }
                    let p = count_press(f.last, f.now, column, row, in_gutter);
                    if p.count == 2 {
                        return (toggle, PressUpdate::Clear);
                    }
                    return (TextAct::RestOnStub { text_row, select_line: in_gutter }, PressUpdate::Record(p));
                }
            }
        }
        if text_row >= f.text_rows {
            return (TextAct::Focus, PressUpdate::Keep);
        }
        if ctrl {
            return (TextAct::FollowLink { text_row, col }, PressUpdate::Keep);
        }
        let p = count_press(f.last, f.now, column, row, in_gutter);
        return (TextAct::Press { gesture: press_gesture(shift, in_gutter, p.count), text_row, col }, PressUpdate::Record(p));
    }
    let act = match kind {
        MouseKind::ScrollDown => TextAct::Scroll(WHEEL_LINES),
        MouseKind::ScrollUp => TextAct::Scroll(-WHEEL_LINES),
        MouseKind::LeftDrag => {
            let last_row: usize = if f.text_rows > 0 { f.text_rows - 1 } else { 0 };
            let r = if text_row < last_row { text_row } else { last_row };
            let linewise = match f.last {
                Some(p) => p.gutter,
                None => false,
            };
            if linewise {
                TextAct::DragLines { text_row: r }
            } else {
                TextAct::Drag { text_row: r, col }
            }
        },
        MouseKind::LeftUp => TextAct::Release,
        _ => TextAct::Nothing,
    };
    (act, PressUpdate::Keep)
}

/// What the popup under a mouse event reads of the cell.
#[derive(Debug, Clone, Copy, PartialEq, Eq, Structural)]
pub struct PopupFacts {
    /// The popup's box holds the cell.
    pub inside: bool,
    /// The chooser's or picker's entry under the cell.
    pub entry: Option<usize>,
    /// The cell is on the about box's source link.
    pub on_link: bool,
}

/// What a mouse event does to the popup over the panes (a context menu
/// aside).
#[derive(Debug, Clone, Copy, PartialEq, Eq, Structural)]
pub enum PopupMouse {
    /// No popup takes it: the event goes on to the panes.
    Pass,
    /// The popup takes it and nothing changes.
    Consumed,
    Close,
    /// The diff-mode chooser runs this entry.
    ModeEntry(usize),
    /// The help, doctor or licenses text scrolls, or the picker moves, by
    /// this many lines.
    Wheel(isize),
    /// A left click on the help: the binding there runs where it applies.
    HelpClick,
    /// The picker selects and confirms this entry.
    Pick(usize),
    /// The about box closes and its source link opens.
    OpenLink,
    /// The confirmation answers the click.
    Confirmation,
}

/// What a mouse event does to the popup: the chooser runs an entry and
/// closes on a click outside; the help scrolls and takes clicks; the
/// status closes on a click; the picker scrolls inside, picks an entry and
/// closes on a click outside; the doctor and licenses reports scroll and
/// close on a click outside; the about box opens its link or closes
/// outside; a confirmation answers; other popups and none pass it on.
pub open spec fn spec_popup_mouse(popup: Option<PopupKind>, kind: MouseKind, f: PopupFacts) -> PopupMouse {
    let left = kind == MouseKind::LeftDown;
    let wheel = if kind == MouseKind::ScrollDown {
        Some(WHEEL_LINES)
    } else if kind == MouseKind::ScrollUp {
        Some((-WHEEL_LINES) as isize)
    } else {
        None::<isize>
    };
    match popup {
        Some(PopupKind::DiffMode) => if left && !f.inside {
            PopupMouse::Close
        } else if left && f.entry is Some {
            PopupMouse::ModeEntry(f.entry->0)
        } else {
            PopupMouse::Consumed
        },
        Some(PopupKind::Help) => match wheel {
            Some(d) => PopupMouse::Wheel(d),
            None => if left { PopupMouse::HelpClick } else { PopupMouse::Consumed },
        },
        Some(PopupKind::Status) => if left { PopupMouse::Close } else { PopupMouse::Consumed },
        Some(PopupKind::Picker(_)) => match wheel {
            Some(d) => if f.inside { PopupMouse::Wheel(d) } else { PopupMouse::Consumed },
            None => if left && !f.inside {
                PopupMouse::Close
            } else if left && f.entry is Some {
                PopupMouse::Pick(f.entry->0)
            } else {
                PopupMouse::Consumed
            },
        },
        Some(PopupKind::Doctor) | Some(PopupKind::Licenses) => match wheel {
            Some(d) => PopupMouse::Wheel(d),
            None => if left && !f.inside { PopupMouse::Close } else { PopupMouse::Consumed },
        },
        Some(PopupKind::About) => if left && f.on_link {
            PopupMouse::OpenLink
        } else if left && !f.inside {
            PopupMouse::Close
        } else {
            PopupMouse::Consumed
        },
        Some(PopupKind::ConfirmQuit) | Some(PopupKind::ConfirmBoard) | Some(PopupKind::ConfirmReviewPointDelete) => PopupMouse::Confirmation,
        _ => PopupMouse::Pass,
    }
}

/// Without a popup the mouse goes on to the panes; an entry is run or
/// picked only by a left press on it; a popup closes only on a left press,
/// never on the wheel; a confirmation answers every event itself.
pub proof fn lemma_popups_take_their_share(popup: Option<PopupKind>, kind: MouseKind, f: PopupFacts)
    ensures
        popup is None ==> spec_popup_mouse(popup, kind, f) == PopupMouse::Pass,
        spec_popup_mouse(popup, kind, f) matches PopupMouse::ModeEntry(e) ==> kind == MouseKind::LeftDown && f.entry == Some(e) && f.inside,
        spec_popup_mouse(popup, kind, f) matches PopupMouse::Pick(e) ==> kind == MouseKind::LeftDown && f.entry == Some(e) && f.inside,
        spec_popup_mouse(popup, kind, f) == PopupMouse::Close ==> kind == MouseKind::LeftDown,
        spec_popup_mouse(popup, kind, f) is Wheel ==> kind == MouseKind::ScrollDown || kind == MouseKind::ScrollUp,
        (popup == Some(PopupKind::ConfirmQuit) || popup == Some(PopupKind::ConfirmBoard)
            || popup == Some(PopupKind::ConfirmReviewPointDelete)) ==> spec_popup_mouse(popup, kind, f) == PopupMouse::Confirmation,
{
}

/// What a mouse event does to the popup over the panes.
pub fn popup_mouse(popup: Option<PopupKind>, kind: MouseKind, f: PopupFacts) -> (outcome: PopupMouse)
    ensures
        outcome == spec_popup_mouse(popup, kind, f),
{
    let left = kind == MouseKind::LeftDown;
    let wheel: Option<isize> = if kind == MouseKind::ScrollDown {
        Some(WHEEL_LINES)
    } else if kind == MouseKind::ScrollUp {
        Some(-WHEEL_LINES)
    } else {
        None
    };
    match popup {
        Some(PopupKind::DiffMode) => if left && !f.inside {
            PopupMouse::Close
        } else if left && f.entry.is_some() {
            PopupMouse::ModeEntry(f.entry.unwrap())
        } else {
            PopupMouse::Consumed
        },
        Some(PopupKind::Help) => match wheel {
            Some(d) => PopupMouse::Wheel(d),
            None => if left { PopupMouse::HelpClick } else { PopupMouse::Consumed },
        },
        Some(PopupKind::Status) => if left { PopupMouse::Close } else { PopupMouse::Consumed },
        Some(PopupKind::Picker(_)) => match wheel {
            Some(d) => if f.inside { PopupMouse::Wheel(d) } else { PopupMouse::Consumed },
            None => if left && !f.inside {
                PopupMouse::Close
            } else if left && f.entry.is_some() {
                PopupMouse::Pick(f.entry.unwrap())
            } else {
                PopupMouse::Consumed
            },
        },
        Some(PopupKind::Doctor) | Some(PopupKind::Licenses) => match wheel {
            Some(d) => PopupMouse::Wheel(d),
            None => if left && !f.inside { PopupMouse::Close } else { PopupMouse::Consumed },
        },
        Some(PopupKind::About) => if left && f.on_link {
            PopupMouse::OpenLink
        } else if left && !f.inside {
            PopupMouse::Close
        } else {
            PopupMouse::Consumed
        },
        Some(PopupKind::ConfirmQuit) | Some(PopupKind::ConfirmBoard) | Some(PopupKind::ConfirmReviewPointDelete) => PopupMouse::Confirmation,
        _ => PopupMouse::Pass,
    }
}

} // verus!

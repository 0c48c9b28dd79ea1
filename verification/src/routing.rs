//! Where a key press goes: the surface it lands on, the popup or menu
//! that takes it first, whether a surface accepts an action, and what the
//! confirmation and review-point prompts do with their keys.

use vstd::prelude::*;

use crate::bindings::{binding_table, lookup, spec_lookup, Action, Chord, Match, Where};
use crate::keys::{
    available_while_panes_do_not_fit, spec_available_while_panes_do_not_fit, spec_from_event,
    spec_unavailable_for_directory, spec_unavailable_while_diff_is_off, unavailable_for_directory,
    unavailable_while_diff_is_off, KeyCode, KeyPress,
};
use crate::picker::PickerKind;

verus! {

/// A popup over the viewer, by what it is.
#[derive(Debug, Clone, Copy, PartialEq, Eq, Structural)]
pub enum PopupKind {
    Help,
    Status,
    Doctor,
    Licenses,
    McpSetup,
    About,
    /// A context menu.
    Menu,
    /// The diff-mode chooser.
    DiffMode,
    ConfirmQuit,
    /// Confirming that the board be cleared.
    ConfirmBoard,
    /// The actions on a review point.
    ReviewPointAction,
    /// Renaming a review point.
    ReviewPointRename,
    ConfirmReviewPointDelete,
    /// The draft being written.
    Compose,
    Picker(PickerKind),
}

/// Which pane receives keys.
#[derive(Debug, Clone, Copy, PartialEq, Eq, Structural)]
pub enum Focus {
    View,
    /// The sidebar's files pane.
    Tree,
    /// The review list.
    Review,
    /// The sidebar's threads pane.
    ThreadsPane,
}

/// What the routing of a key reads of the viewer.
#[derive(Debug, Clone, Copy, PartialEq, Eq, Structural)]
pub struct Surface {
    /// A menu of the bar is open.
    pub title_menu_open: bool,
    /// The panes have room to draw.
    pub panes_fit: bool,
    pub popup: Option<PopupKind>,
    /// The command line or a search is being typed.
    pub input_mode: bool,
    pub focus: Focus,
}

/// The surface a key lands on, or `None` under a menu of the bar or a
/// popup that any key closes.
pub open spec fn spec_place(s: Surface) -> Option<Where> {
    if s.title_menu_open {
        None
    } else {
        match s.popup {
            Some(PopupKind::Compose) => Some(Where::Draft),
            Some(PopupKind::Picker(_)) => Some(Where::Picker),
            Some(_) => None,
            None => Some(if s.input_mode {
                Where::Input
            } else {
                match s.focus {
                    Focus::View => Where::View,
                    Focus::Tree => Where::Tree,
                    Focus::Review => Where::Review,
                    Focus::ThreadsPane => Where::ThreadsPane,
                }
            }),
        }
    }
}

/// The surface a key lands on now.
pub fn place(s: Surface) -> (place: Option<Where>)
    ensures
        place == spec_place(s),
{
    if s.title_menu_open {
        return None;
    }
    match s.popup {
        Some(PopupKind::Compose) => Some(Where::Draft),
        Some(PopupKind::Picker(_)) => Some(Where::Picker),
        Some(_) => None,
        None => Some(if s.input_mode {
            Where::Input
        } else {
            match s.focus {
                Focus::View => Where::View,
                Focus::Tree => Where::Tree,
                Focus::Review => Where::Review,
                Focus::ThreadsPane => Where::ThreadsPane,
            }
        }),
    }
}

/// Who takes a key press.
#[derive(Debug, Clone, Copy, PartialEq, Eq, Structural)]
pub enum KeyRoute {
    /// The key that opens the application menu, wherever it is typed.
    ApplicationMenu,
    /// The open menu of the bar.
    MenuBar,
    /// The open confirmation.
    Confirmation,
    /// Escape with no room to draw: every popup, prefix and line closes.
    EscapeAll,
    /// A bare `q` with no room to draw asks to quit.
    RequestQuit,
    /// Nothing takes it.
    Ignore,
    ReviewPointAction,
    ReviewPointRename,
    Doctor,
    Licenses,
    McpSetup,
    /// The popup closes.
    ClosePopup,
    /// The diff-mode chooser.
    ModeMenu,
    Help,
    /// Ctrl-r in the review-point picker renames the selection.
    RenameReviewPoint,
    /// A key no chord stands for drops the typed prefix.
    DropPrefix,
    /// The open context menu takes the chord.
    MenuKey(Chord),
    /// The chord is typed on the surface.
    Typed(Where, Chord),
}

/// Who takes `event` on surface `s`: the application-menu key first, then
/// an open menu of the bar; with no room to draw only confirming, Escape
/// and a bare `q` do anything; then the open prompt or popup; then Ctrl-r
/// in the review-point picker; a key no chord stands for drops the
/// prefix; the context menu takes its chords; a popup any key closes
/// closes; else the chord is typed where it lands.
pub open spec fn spec_route_key(s: Surface, event: KeyPress) -> KeyRoute {
    let chord = spec_from_event(event);
    let bare = !event.ctrl && !event.alt && !event.shift && !event.extra;
    let ctrl_only = event.ctrl && !event.alt && !event.shift && !event.extra;
    let confirming = s.popup == Some(PopupKind::ConfirmQuit) || s.popup == Some(PopupKind::ConfirmBoard)
        || s.popup == Some(PopupKind::ConfirmReviewPointDelete);
    if chord is Some && spec_lookup(binding_table(), Where::Any, seq![chord->0]) == Match::Exact(Action::ApplicationMenu) {
        KeyRoute::ApplicationMenu
    } else if s.title_menu_open {
        KeyRoute::MenuBar
    } else if !s.panes_fit && s.popup == Some(PopupKind::ConfirmQuit) {
        KeyRoute::Confirmation
    } else if !s.panes_fit && event.code == KeyCode::Esc {
        KeyRoute::EscapeAll
    } else if !s.panes_fit && event.code == KeyCode::Char('q') && bare {
        KeyRoute::RequestQuit
    } else if !s.panes_fit && (s.popup is Some || s.input_mode) {
        KeyRoute::Ignore
    } else if s.popup == Some(PopupKind::ReviewPointAction) {
        KeyRoute::ReviewPointAction
    } else if s.popup == Some(PopupKind::ReviewPointRename) {
        KeyRoute::ReviewPointRename
    } else if confirming {
        KeyRoute::Confirmation
    } else if s.popup == Some(PopupKind::Doctor) {
        KeyRoute::Doctor
    } else if s.popup == Some(PopupKind::Licenses) {
        KeyRoute::Licenses
    } else if s.popup == Some(PopupKind::McpSetup) {
        KeyRoute::McpSetup
    } else if s.popup == Some(PopupKind::About) {
        if event.code == KeyCode::Esc { KeyRoute::ClosePopup } else { KeyRoute::Ignore }
    } else if s.popup == Some(PopupKind::DiffMode) {
        KeyRoute::ModeMenu
    } else if s.popup == Some(PopupKind::Help) {
        KeyRoute::Help
    } else if event.code == KeyCode::Char('r') && ctrl_only
        && s.popup == Some(PopupKind::Picker(PickerKind::ComparisonReviewPoints)) {
        KeyRoute::RenameReviewPoint
    } else if chord is None {
        KeyRoute::DropPrefix
    } else if s.popup == Some(PopupKind::Menu) {
        KeyRoute::MenuKey(chord->0)
    } else {
        match spec_place(s) {
            None => KeyRoute::ClosePopup,
            Some(place) => KeyRoute::Typed(place, chord->0),
        }
    }
}

/// Who takes `event` on surface `s`.
pub fn route_key(s: Surface, event: KeyPress) -> (route: KeyRoute)
    ensures
        route == spec_route_key(s, event),
{
    let chord = Chord::from_event(event);
    let bare = !event.ctrl && !event.alt && !event.shift && !event.extra;
    let ctrl_only = event.ctrl && !event.alt && !event.shift && !event.extra;
    if let Some(ch) = chord {
        let one = vec![ch];
        assert(one@ =~= seq![ch]);
        if lookup(Where::Any, one.as_slice()) == Match::Exact(Action::ApplicationMenu) {
            return KeyRoute::ApplicationMenu;
        }
    }
    if s.title_menu_open {
        return KeyRoute::MenuBar;
    }
    if !s.panes_fit {
        if s.popup == Some(PopupKind::ConfirmQuit) {
            return KeyRoute::Confirmation;
        }
        if event.code == KeyCode::Esc {
            return KeyRoute::EscapeAll;
        }
        if event.code == KeyCode::Char('q') && bare {
            return KeyRoute::RequestQuit;
        }
        if s.popup.is_some() || s.input_mode {
            return KeyRoute::Ignore;
        }
    }
    match s.popup {
        Some(PopupKind::ReviewPointAction) => return KeyRoute::ReviewPointAction,
        Some(PopupKind::ReviewPointRename) => return KeyRoute::ReviewPointRename,
        Some(PopupKind::ConfirmQuit) | Some(PopupKind::ConfirmBoard) | Some(PopupKind::ConfirmReviewPointDelete) => {
            return KeyRoute::Confirmation;
        },
        Some(PopupKind::Doctor) => return KeyRoute::Doctor,
        Some(PopupKind::Licenses) => return KeyRoute::Licenses,
        Some(PopupKind::McpSetup) => return KeyRoute::McpSetup,
        Some(PopupKind::About) => {
            return if event.code == KeyCode::Esc { KeyRoute::ClosePopup } else { KeyRoute::Ignore };
        },
        Some(PopupKind::DiffMode) => return KeyRoute::ModeMenu,
        Some(PopupKind::Help) => return KeyRoute::Help,
        _ => {},
    }
    if event.code == KeyCode::Char('r') && ctrl_only
        && s.popup == Some(PopupKind::Picker(PickerKind::ComparisonReviewPoints)) {
        return KeyRoute::RenameReviewPoint;
    }
    let ch = match chord {
        Some(ch) => ch,
        None => return KeyRoute::DropPrefix,
    };
    if s.popup == Some(PopupKind::Menu) {
        return KeyRoute::MenuKey(ch);
    }
    match place(s) {
        None => KeyRoute::ClosePopup,
        Some(at) => KeyRoute::Typed(at, ch),
    }
}

/// The application-menu key opens that menu from anywhere; an open menu of
/// the bar takes every other key; without room to draw, Escape closes
/// everything and no surface under a popup or the command line sees a
/// key.
pub proof fn lemma_menus_come_first(s: Surface, event: KeyPress)
    ensures
        ({
            let app_key = spec_from_event(event) matches Some(chord)
                && spec_lookup(binding_table(), Where::Any, seq![chord]) == Match::Exact(Action::ApplicationMenu);
            &&& app_key ==> spec_route_key(s, event) == KeyRoute::ApplicationMenu
            &&& !app_key && s.title_menu_open ==> spec_route_key(s, event) == KeyRoute::MenuBar
            &&& !app_key && !s.title_menu_open && !s.panes_fit && s.popup != Some(PopupKind::ConfirmQuit)
                && event.code == KeyCode::Esc ==> spec_route_key(s, event) == KeyRoute::EscapeAll
            &&& !s.panes_fit && (s.popup is Some || s.input_mode) ==> !(spec_route_key(s, event) is Typed)
        }),
{
}

/// A confirmation takes every key while the panes fit and no menu of the
/// bar is open, the application-menu key aside: quitting, clearing the
/// board and deleting a review point are answered by the confirmation
/// itself, never closed past it.
pub proof fn lemma_confirmations_take_their_keys(s: Surface, event: KeyPress)
    requires
        s.panes_fit,
        !s.title_menu_open,
        s.popup == Some(PopupKind::ConfirmQuit) || s.popup == Some(PopupKind::ConfirmBoard)
            || s.popup == Some(PopupKind::ConfirmReviewPointDelete),
        spec_from_event(event) matches Some(chord) ==> spec_lookup(binding_table(), Where::Any, seq![chord]) != Match::Exact(Action::ApplicationMenu),
    ensures
        spec_route_key(s, event) == KeyRoute::Confirmation,
{
}

/// A refused action runs nothing, and an accepted one runs everywhere
/// alike, on its surface or not at all: the command line leaves the files
/// pane only from there, and a thread action with no thread is refused by
/// a notice.
pub proof fn lemma_refusals_run_nothing(place: Option<Where>, action: Action, acceptance: Acceptance, thread_here: bool)
    ensures
        place is None ==> spec_placed_operation(place, action, acceptance, thread_here) == Operation::Nothing,
        place is Some && acceptance != Acceptance::Accept ==> spec_placed_operation(place, action, acceptance, thread_here) == Operation::Refused(acceptance),
        spec_placed_operation(place, action, acceptance, thread_here) matches Operation::OnSurface(p, a) ==> place == Some(p) && a == action && p != Where::Any,
        spec_placed_operation(place, action, acceptance, thread_here) matches Operation::Everywhere(a) ==> a == action && acceptance == Acceptance::Accept,
        spec_placed_operation(place, action, acceptance, thread_here) matches Operation::CommandLine { leave_tree } ==> leave_tree == (place == Some(Where::Tree)),
        (action == Action::ArchiveThread || action == Action::RestoreThread) && !thread_here
            ==> spec_placed_operation(place, action, acceptance, thread_here) != Operation::Everywhere(action),
{
}

/// Whether a surface takes an action, and the notice a refusal shows.
#[derive(Debug, Clone, Copy, PartialEq, Eq, Structural)]
pub enum Acceptance {
    Accept,
    /// Refused without a word: the pane has no room to navigate.
    Refuse,
    /// Refused: the action needs a diff and the diff mode is off.
    DiffModeOff,
    /// Refused: the action needs a file and a directory is shown.
    NeedsFile,
}

impl Acceptance {
    /// The notice a refusal shows.
    pub fn notice(self) -> (text: Option<&'static str>)
        ensures
            self == Acceptance::DiffModeOff ==> text == Some("diff mode is off"),
            self == Acceptance::NeedsFile ==> text == Some("select a file to use file or thread actions"),
            (self == Acceptance::Accept || self == Acceptance::Refuse) ==> text is None,
    {
        match self {
            Acceptance::DiffModeOff => Some("diff mode is off"),
            Acceptance::NeedsFile => Some("select a file to use file or thread actions"),
            _ => None,
        }
    }
}

/// Whether `place` takes `action`: a pane with no room to navigate takes
/// only what works without it; with the diff off, nothing that needs a
/// diff; with a directory in the text or the tree, nothing that needs a
/// file.
pub open spec fn spec_accepts(place: Where, action: Action, has_navigation: bool, diff_off: bool, on_directory: bool) -> Acceptance {
    let pane = place == Where::View || place == Where::Tree || place == Where::Review || place == Where::ThreadsPane;
    if pane && !has_navigation && !spec_available_while_panes_do_not_fit(action) {
        Acceptance::Refuse
    } else if diff_off && spec_unavailable_while_diff_is_off(action) {
        Acceptance::DiffModeOff
    } else if (place == Where::View || place == Where::Tree) && on_directory && spec_unavailable_for_directory(action) {
        Acceptance::NeedsFile
    } else {
        Acceptance::Accept
    }
}

/// Whether `place` takes `action`.
pub fn accepts(place: Where, action: Action, has_navigation: bool, diff_off: bool, on_directory: bool) -> (acceptance: Acceptance)
    ensures
        acceptance == spec_accepts(place, action, has_navigation, diff_off, on_directory),
{
    let pane = place == Where::View || place == Where::Tree || place == Where::Review || place == Where::ThreadsPane;
    if pane && !has_navigation && !available_while_panes_do_not_fit(action) {
        Acceptance::Refuse
    } else if diff_off && unavailable_while_diff_is_off(action) {
        Acceptance::DiffModeOff
    } else if (place == Where::View || place == Where::Tree) && on_directory && unavailable_for_directory(action) {
        Acceptance::NeedsFile
    } else {
        Acceptance::Accept
    }
}

/// Actions that mean the same thing on every surface: the Space menu,
/// the command line's verbs, and the threads, view and diff submenus.
pub open spec fn spec_means_the_same_everywhere(action: Action) -> bool {
    match action {
        Action::TreeToggle | Action::PickFile | Action::PickAnyFile | Action::PickRecent
        | Action::FileView | Action::Review | Action::ReviewRecentlyResolved
        | Action::ReviewArchived | Action::ArchiveResolved | Action::ClearBoard
        | Action::SidebarToggle | Action::MenuBarToggle | Action::ThreadsPaneToggle
        | Action::WindowNext | Action::WindowPrev | Action::WindowFiles | Action::WindowThreads
        | Action::Help | Action::JumpBack | Action::JumpForward | Action::ChangeNext
        | Action::ChangePrev | Action::ChangeFileNext | Action::ChangeFilePrev
        | Action::OpenThreadNext | Action::OpenThreadPrev | Action::ConfirmQuit
        | Action::NewThread | Action::FileComment | Action::Reply | Action::ToggleResolved
        | Action::ToggleAutoResolve | Action::EditNewestOwn | Action::StubResolvedToggle
        | Action::DeleteThread | Action::SourceView | Action::DiffStandard
        | Action::DiffUnified | Action::DiffOff | Action::ComparisonSave
        | Action::ComparisonManage | Action::ComparisonBase | Action::ComparisonTarget
        | Action::ComparisonHeadWorkingTree | Action::ComparisonHeadParent
        | Action::ComparisonCommitParent | Action::ComparisonWhitespace | Action::WorktreeNext
        | Action::WorktreePrev | Action::StubsToggle | Action::FilesChanged
        | Action::FilesReviews | Action::FilesUntracked | Action::FilesIgnored
        | Action::PaneScope | Action::ReviewResolved => true,
        _ => false,
    }
}

/// Whether `action` means the same thing on every surface.
pub fn means_the_same_everywhere(action: Action) -> (same: bool)
    ensures
        same == spec_means_the_same_everywhere(action),
{
    match action {
        Action::TreeToggle | Action::PickFile | Action::PickAnyFile | Action::PickRecent
        | Action::FileView | Action::Review | Action::ReviewRecentlyResolved
        | Action::ReviewArchived | Action::ArchiveResolved | Action::ClearBoard
        | Action::SidebarToggle | Action::MenuBarToggle | Action::ThreadsPaneToggle
        | Action::WindowNext | Action::WindowPrev | Action::WindowFiles | Action::WindowThreads
        | Action::Help | Action::JumpBack | Action::JumpForward | Action::ChangeNext
        | Action::ChangePrev | Action::ChangeFileNext | Action::ChangeFilePrev
        | Action::OpenThreadNext | Action::OpenThreadPrev | Action::ConfirmQuit
        | Action::NewThread | Action::FileComment | Action::Reply | Action::ToggleResolved
        | Action::ToggleAutoResolve | Action::EditNewestOwn | Action::StubResolvedToggle
        | Action::DeleteThread | Action::SourceView | Action::DiffStandard
        | Action::DiffUnified | Action::DiffOff | Action::ComparisonSave
        | Action::ComparisonManage | Action::ComparisonBase | Action::ComparisonTarget
        | Action::ComparisonHeadWorkingTree | Action::ComparisonHeadParent
        | Action::ComparisonCommitParent | Action::ComparisonWhitespace | Action::WorktreeNext
        | Action::WorktreePrev | Action::StubsToggle | Action::FilesChanged
        | Action::FilesReviews | Action::FilesUntracked | Action::FilesIgnored
        | Action::PaneScope | Action::ReviewResolved => true,
        _ => false,
    }
}

/// The operation an action runs once it has a surface.
#[derive(Debug, Clone, Copy, PartialEq, Eq, Structural)]
pub enum Operation {
    /// Nothing runs: no surface takes keys, or the action means nothing
    /// on a catch-all surface.
    Nothing,
    /// The surface refused the action; the acceptance names the notice.
    Refused(Acceptance),
    /// The application menu opens.
    ApplicationMenu,
    /// The action runs as it does everywhere.
    Everywhere(Action),
    /// Archiving or restoring needs a thread under the cursor; the notice
    /// "no thread here" is shown instead.
    NoThreadHere,
    /// The command line opens, after the files pane hands the focus back
    /// to the text when it had it.
    CommandLine { leave_tree: bool },
    /// The surface's own handler runs the action.
    OnSurface(Where, Action),
}

/// The operation `action` runs on `place` (none when no surface takes
/// keys), given whether that surface accepts it and whether a thread is
/// under the cursor.
pub open spec fn spec_placed_operation(place: Option<Where>, action: Action, acceptance: Acceptance, thread_here: bool) -> Operation {
    match place {
        None => Operation::Nothing,
        Some(p) => if acceptance != Acceptance::Accept {
            Operation::Refused(acceptance)
        } else if action == Action::ApplicationMenu {
            Operation::ApplicationMenu
        } else if action == Action::ArchiveThread || action == Action::RestoreThread {
            if thread_here { Operation::Everywhere(action) } else { Operation::NoThreadHere }
        } else if action == Action::CommandLine {
            Operation::CommandLine { leave_tree: p == Where::Tree }
        } else if spec_means_the_same_everywhere(action) {
            Operation::Everywhere(action)
        } else if p == Where::Any {
            Operation::Nothing
        } else {
            Operation::OnSurface(p, action)
        },
    }
}

/// The operation `action` runs on `place`.
pub fn placed_operation(place: Option<Where>, action: Action, acceptance: Acceptance, thread_here: bool) -> (op: Operation)
    ensures
        op == spec_placed_operation(place, action, acceptance, thread_here),
{
    let p = match place {
        None => return Operation::Nothing,
        Some(p) => p,
    };
    if acceptance != Acceptance::Accept {
        Operation::Refused(acceptance)
    } else if action == Action::ApplicationMenu {
        Operation::ApplicationMenu
    } else if action == Action::ArchiveThread || action == Action::RestoreThread {
        if thread_here { Operation::Everywhere(action) } else { Operation::NoThreadHere }
    } else if action == Action::CommandLine {
        Operation::CommandLine { leave_tree: p == Where::Tree }
    } else if means_the_same_everywhere(action) {
        Operation::Everywhere(action)
    } else if p == Where::Any {
        Operation::Nothing
    } else {
        Operation::OnSurface(p, action)
    }
}

/// What a key does in a confirmation.
#[derive(Debug, Clone, Copy, PartialEq, Eq, Structural)]
pub enum Confirmed {
    /// `y` deletes the review point.
    DeleteReviewPoint,
    /// Enter quits.
    Quit,
    /// Enter clears the board.
    ClearBoard,
    /// Escape closes the quit prompt.
    Close,
    CancelClearBoard,
    CancelReviewPointDelete,
    Nothing,
}

/// What `code` does in the confirmation `popup`: `y` confirms an armed
/// review-point deletion; Enter confirms quitting or clearing the board;
/// Escape backs out of any of the three.
pub open spec fn spec_confirmation_key(popup: Option<PopupKind>, delete_armed: bool, code: KeyCode) -> Confirmed {
    if code == KeyCode::Char('y') && delete_armed {
        Confirmed::DeleteReviewPoint
    } else if code == KeyCode::Enter {
        match popup {
            Some(PopupKind::ConfirmQuit) => Confirmed::Quit,
            Some(PopupKind::ConfirmBoard) => Confirmed::ClearBoard,
            _ => Confirmed::Nothing,
        }
    } else if code == KeyCode::Esc {
        match popup {
            Some(PopupKind::ConfirmQuit) => Confirmed::Close,
            Some(PopupKind::ConfirmBoard) => Confirmed::CancelClearBoard,
            Some(PopupKind::ConfirmReviewPointDelete) => Confirmed::CancelReviewPointDelete,
            _ => Confirmed::Nothing,
        }
    } else {
        Confirmed::Nothing
    }
}

/// What `code` does in the confirmation `popup`.
pub fn confirmation_key(popup: Option<PopupKind>, delete_armed: bool, code: KeyCode) -> (outcome: Confirmed)
    ensures
        outcome == spec_confirmation_key(popup, delete_armed, code),
{
    if code == KeyCode::Char('y') && delete_armed {
        Confirmed::DeleteReviewPoint
    } else if code == KeyCode::Enter {
        match popup {
            Some(PopupKind::ConfirmQuit) => Confirmed::Quit,
            Some(PopupKind::ConfirmBoard) => Confirmed::ClearBoard,
            _ => Confirmed::Nothing,
        }
    } else if code == KeyCode::Esc {
        match popup {
            Some(PopupKind::ConfirmQuit) => Confirmed::Close,
            Some(PopupKind::ConfirmBoard) => Confirmed::CancelClearBoard,
            Some(PopupKind::ConfirmReviewPointDelete) => Confirmed::CancelReviewPointDelete,
            _ => Confirmed::Nothing,
        }
    } else {
        Confirmed::Nothing
    }
}

/// What a key does among a review point's actions.
#[derive(Debug, Clone, Copy, PartialEq, Eq, Structural)]
pub enum PointAction {
    Rename,
    /// Ask to confirm the deletion.
    Delete,
    Cancel,
    Nothing,
}

/// What `event` does among a review point's actions: bare `r` renames,
/// `d` asks to delete, Escape backs out; any modifier does nothing.
pub open spec fn spec_review_point_action_key(event: KeyPress) -> PointAction {
    if event.ctrl || event.alt || event.shift || event.extra {
        PointAction::Nothing
    } else if event.code == KeyCode::Char('r') {
        PointAction::Rename
    } else if event.code == KeyCode::Char('d') {
        PointAction::Delete
    } else if event.code == KeyCode::Esc {
        PointAction::Cancel
    } else {
        PointAction::Nothing
    }
}

/// What `event` does among a review point's actions.
pub fn review_point_action_key(event: KeyPress) -> (outcome: PointAction)
    ensures
        outcome == spec_review_point_action_key(event),
{
    if event.ctrl || event.alt || event.shift || event.extra {
        PointAction::Nothing
    } else if event.code == KeyCode::Char('r') {
        PointAction::Rename
    } else if event.code == KeyCode::Char('d') {
        PointAction::Delete
    } else if event.code == KeyCode::Esc {
        PointAction::Cancel
    } else {
        PointAction::Nothing
    }
}

/// What a key does to a review point's new name.
#[derive(Debug, Clone, Copy, PartialEq, Eq, Structural)]
pub enum NameEdit {
    Submit,
    Cancel,
    DeleteBack,
    DeleteForward,
    Left,
    Right,
    LineStart,
    LineEnd,
    Insert(char),
    Nothing,
}

/// What `event` does to a review point's new name: bare Enter, Escape,
/// Backspace, Delete and the arrows, Home and End (or Ctrl-a) edit and
/// move; a character, bare or shifted, goes in.
pub open spec fn spec_review_point_rename_key(event: KeyPress) -> NameEdit {
    let none = !event.ctrl && !event.alt && !event.shift && !event.extra;
    let ctrl_only = event.ctrl && !event.alt && !event.shift && !event.extra;
    match event.code {
        KeyCode::Enter => if none { NameEdit::Submit } else { NameEdit::Nothing },
        KeyCode::Esc => if none { NameEdit::Cancel } else { NameEdit::Nothing },
        KeyCode::Backspace => if none { NameEdit::DeleteBack } else { NameEdit::Nothing },
        KeyCode::Delete => if none { NameEdit::DeleteForward } else { NameEdit::Nothing },
        KeyCode::Left => if none { NameEdit::Left } else { NameEdit::Nothing },
        KeyCode::Right => if none { NameEdit::Right } else { NameEdit::Nothing },
        KeyCode::Home => if none { NameEdit::LineStart } else { NameEdit::Nothing },
        KeyCode::End => if none { NameEdit::LineEnd } else { NameEdit::Nothing },
        KeyCode::Char(ch) => if ch == 'a' && ctrl_only {
            NameEdit::LineStart
        } else if !event.ctrl && !event.alt && !event.extra {
            NameEdit::Insert(ch)
        } else {
            NameEdit::Nothing
        },
        _ => NameEdit::Nothing,
    }
}

/// What `event` does to a review point's new name.
pub fn review_point_rename_key(event: KeyPress) -> (edit: NameEdit)
    ensures
        edit == spec_review_point_rename_key(event),
{
    let none = !event.ctrl && !event.alt && !event.shift && !event.extra;
    let ctrl_only = event.ctrl && !event.alt && !event.shift && !event.extra;
    match event.code {
        KeyCode::Enter => if none { NameEdit::Submit } else { NameEdit::Nothing },
        KeyCode::Esc => if none { NameEdit::Cancel } else { NameEdit::Nothing },
        KeyCode::Backspace => if none { NameEdit::DeleteBack } else { NameEdit::Nothing },
        KeyCode::Delete => if none { NameEdit::DeleteForward } else { NameEdit::Nothing },
        KeyCode::Left => if none { NameEdit::Left } else { NameEdit::Nothing },
        KeyCode::Right => if none { NameEdit::Right } else { NameEdit::Nothing },
        KeyCode::Home => if none { NameEdit::LineStart } else { NameEdit::Nothing },
        KeyCode::End => if none { NameEdit::LineEnd } else { NameEdit::Nothing },
        KeyCode::Char(ch) => if ch == 'a' && ctrl_only {
            NameEdit::LineStart
        } else if !event.ctrl && !event.alt && !event.extra {
            NameEdit::Insert(ch)
        } else {
            NameEdit::Nothing
        },
        _ => NameEdit::Nothing,
    }
}

} // verus!

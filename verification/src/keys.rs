//! Key presses as the viewer reads them, and the action classes key
//! dispatch consults: far moves, actions that need a comparison, actions
//! that work while the panes do not fit, and actions that need a file.

use vstd::prelude::*;

use crate::bindings::{binding_table, bindings, lookup, spec_lookup, table_view, Action, BindingView, Chord, Key, Match, Where};

verus! {

/// A terminal key code, as far as the viewer tells them apart.
#[derive(Debug, Clone, Copy, PartialEq, Eq, Structural)]
pub enum KeyCode {
    Char(char),
    Enter,
    Esc,
    Tab,
    BackTab,
    Backspace,
    Delete,
    Up,
    Down,
    Left,
    Right,
    Home,
    End,
    PageUp,
    PageDown,
    /// A key the viewer never binds: function keys, media keys.
    Other,
}

/// A terminal key event: the code and the modifiers held.
#[derive(Debug, Clone, Copy, PartialEq, Eq, Structural)]
pub struct KeyPress {
    pub code: KeyCode,
    pub ctrl: bool,
    pub alt: bool,
    pub shift: bool,
    /// Super, Hyper or Meta is held.
    pub extra: bool,
}

/// The key a code is, Shift-Tab folded into `BackTab`, or `None` for a key
/// the viewer never binds.
pub open spec fn spec_event_key(event: KeyPress) -> Option<Key> {
    match event.code {
        KeyCode::Char(ch) => Some(Key::Char(ch)),
        KeyCode::Enter => Some(Key::Enter),
        KeyCode::Esc => Some(Key::Esc),
        KeyCode::Tab => if event.shift { Some(Key::BackTab) } else { Some(Key::Tab) },
        KeyCode::BackTab => Some(Key::BackTab),
        KeyCode::Backspace => Some(Key::Backspace),
        KeyCode::Delete => Some(Key::Delete),
        KeyCode::Up => Some(Key::Up),
        KeyCode::Down => Some(Key::Down),
        KeyCode::Left => Some(Key::Left),
        KeyCode::Right => Some(Key::Right),
        KeyCode::Home => Some(Key::Home),
        KeyCode::End => Some(Key::End),
        KeyCode::PageUp | KeyCode::PageDown | KeyCode::Other => None,
    }
}

/// The chord an event is: Ctrl and Alt kept, Shift kept only for Enter and
/// the arrow keys (a shifted letter arrives as its capital).
pub open spec fn spec_from_event(event: KeyPress) -> Option<Chord> {
    match spec_event_key(event) {
        Some(key) => Some(Chord {
            key,
            ctrl: event.ctrl,
            alt: event.alt,
            shift: event.shift && (key is Enter || key is Up || key is Down || key is Left || key is Right),
        }),
        None => None,
    }
}

impl Chord {
    /// The chord a terminal event is, or `None` for a key the viewer never
    /// binds (function keys, media keys).
    pub fn from_event(event: KeyPress) -> (chord: Option<Chord>)
        ensures
            chord == spec_from_event(event),
    {
        let key = match event.code {
            KeyCode::Char(ch) => Key::Char(ch),
            KeyCode::Enter => Key::Enter,
            KeyCode::Esc => Key::Esc,
            KeyCode::Tab => if event.shift { Key::BackTab } else { Key::Tab },
            KeyCode::BackTab => Key::BackTab,
            KeyCode::Backspace => Key::Backspace,
            KeyCode::Delete => Key::Delete,
            KeyCode::Up => Key::Up,
            KeyCode::Down => Key::Down,
            KeyCode::Left => Key::Left,
            KeyCode::Right => Key::Right,
            KeyCode::Home => Key::Home,
            KeyCode::End => Key::End,
            KeyCode::PageUp | KeyCode::PageDown | KeyCode::Other => return None,
        };
        Some(Chord {
            key,
            ctrl: event.ctrl,
            alt: event.alt,
            shift: event.shift && matches!(key, Key::Enter | Key::Up | Key::Down | Key::Left | Key::Right),
        })
    }
}

/// Whether `action` is a far move, which records the position it leaves.
pub open spec fn spec_is_far_move(action: Action) -> bool {
    action is Confirm || action is SearchNext || action is SearchPrev || action is Top
        || action is Bottom || action is ThreadNext || action is ThreadPrev || action is ChangeNext
        || action is ChangePrev || action is ChangeFileNext || action is ChangeFilePrev
        || action is OpenThreadNext || action is OpenThreadPrev || action is GotoFile
}

/// Whether `action` is a far move, which records the position it leaves.
pub fn is_far_move(action: Action) -> (far: bool)
    ensures
        far == spec_is_far_move(action),
{
    matches!(
        action,
        Action::Confirm | Action::SearchNext | Action::SearchPrev | Action::Top | Action::Bottom
            | Action::ThreadNext | Action::ThreadPrev | Action::ChangeNext | Action::ChangePrev
            | Action::ChangeFileNext | Action::ChangeFilePrev | Action::OpenThreadNext
            | Action::OpenThreadPrev | Action::GotoFile
    )
}

/// Whether `action` needs a comparison, so diff mode `off` refuses it.
pub open spec fn spec_unavailable_while_diff_is_off(action: Action) -> bool {
    action is ComparisonWhitespace || action is FilesChanged || action is ChangeNext
        || action is ChangePrev || action is ChangeFileNext || action is ChangeFilePrev
}

/// Whether `action` needs a comparison, so diff mode `off` refuses it.
pub fn unavailable_while_diff_is_off(action: Action) -> (refused: bool)
    ensures
        refused == spec_unavailable_while_diff_is_off(action),
{
    matches!(
        action,
        Action::ComparisonWhitespace | Action::FilesChanged | Action::ChangeNext
            | Action::ChangePrev | Action::ChangeFileNext | Action::ChangeFilePrev
    )
}

/// Whether `action` still runs when the panes do not fit the terminal:
/// leaving, quitting, and the layout toggles that make room.
pub open spec fn spec_available_while_panes_do_not_fit(action: Action) -> bool {
    action is Escape || action is ConfirmQuit || action is SidebarToggle || action is TreeToggle
        || action is ThreadsPaneToggle || action is MenuBarToggle
}

/// Whether `action` still runs when the panes do not fit the terminal.
pub fn available_while_panes_do_not_fit(action: Action) -> (available: bool)
    ensures
        available == spec_available_while_panes_do_not_fit(action),
{
    matches!(
        action,
        Action::Escape | Action::ConfirmQuit | Action::SidebarToggle | Action::TreeToggle
            | Action::ThreadsPaneToggle | Action::MenuBarToggle
    )
}

/// Whether `action` needs a file, so a directory refuses it.
pub open spec fn spec_unavailable_for_directory(action: Action) -> bool {
    action is NewThread || action is FileComment || action is Reply || action is ToggleResolved
        || action is ToggleAutoResolve || action is EditNewestOwn || action is DeleteThread
        || action is ArchiveThread || action is RestoreThread || action is SourceView
}

/// Whether `action` needs a file, so a directory refuses it.
pub fn unavailable_for_directory(action: Action) -> (refused: bool)
    ensures
        refused == spec_unavailable_for_directory(action),
{
    matches!(
        action,
        Action::NewThread | Action::FileComment | Action::Reply | Action::ToggleResolved
            | Action::ToggleAutoResolve | Action::EditNewestOwn | Action::DeleteThread
            | Action::ArchiveThread | Action::RestoreThread | Action::SourceView
    )
}

/// A chord read from the terminal never carries Shift on a character or on
/// Tab: Shift survives only on Enter and the arrow keys, so the table's
/// capital letters and `Shift-Tab` are what a shifted key matches.
pub proof fn lemma_shift_only_on_enter_and_arrows(event: KeyPress)
    ensures
        spec_from_event(event) matches Some(chord) ==> (chord.shift ==> (chord.key is Enter
            || chord.key is Up || chord.key is Down || chord.key is Left || chord.key is Right)),
        event.code is Tab && event.shift ==> spec_from_event(event) == Some(Chord {
            key: Key::BackTab,
            ctrl: event.ctrl,
            alt: event.alt,
            shift: false,
        }),
{
}

/// Where a single unbound character goes.
#[derive(Debug, Clone, Copy, PartialEq, Eq, Structural)]
pub enum TextTarget {
    /// The draft being composed.
    Draft,
    /// The picker's query.
    Picker,
    /// The command or search input line.
    Input,
}

/// What a typed chord does, given the sequence typed before it.
#[derive(Debug, PartialEq, Eq)]
pub enum Dispatch {
    /// The sequence fires this action; the pending prefix is dropped.
    Act(Action),
    /// The sequence starts a binding: keep it pending, and arm the
    /// delete when it is the lone `d` of `dd`.
    Wait { typed: Vec<Chord>, arm_delete: bool },
    /// The sequence leads nowhere, or nowhere usable while the panes do
    /// not fit: drop it and any armed delete.
    Cancel,
    /// A single unbound character for text entry.
    Insert(TextTarget, char),
    /// Nothing happens; the pending prefix is dropped.
    Ignore,
}

/// What a dispatch is, as the contracts see it.
pub enum DispatchView {
    Act(Action),
    Wait { typed: Seq<Chord>, arm_delete: bool },
    Cancel,
    Insert(TextTarget, char),
    Ignore,
}

impl View for Dispatch {
    type V = DispatchView;

    open spec fn view(&self) -> DispatchView {
        match self {
            Dispatch::Act(a) => DispatchView::Act(*a),
            Dispatch::Wait { typed, arm_delete } => DispatchView::Wait { typed: typed@, arm_delete: *arm_delete },
            Dispatch::Cancel => DispatchView::Cancel,
            Dispatch::Insert(t, ch) => DispatchView::Insert(*t, *ch),
            Dispatch::Ignore => DispatchView::Ignore,
        }
    }
}

/// Some binding that works while the panes do not fit has a sequence
/// starting with `typed`.
pub open spec fn escape_continues(tb: Seq<BindingView>, typed: Seq<Chord>) -> bool {
    exists|i: int, j: int|
        0 <= i < tb.len() && spec_available_while_panes_do_not_fit(tb[i].action) && 0 <= j < tb[i].keys.len()
            && typed.len() <= (#[trigger] tb[i].keys[j]).len() && tb[i].keys[j].take(typed.len() as int) == typed
}

/// What a single unbound chord does: text entry takes a character (a
/// draft or the picker only a bare one); anything else, or anything while
/// the panes do not fit, is dropped.
pub open spec fn spec_fallback(place: Where, chord: Chord, panes_fit: bool) -> DispatchView {
    if !panes_fit {
        DispatchView::Ignore
    } else {
        match chord.key {
            Key::Char(ch) => if place is Draft && !chord.ctrl && !chord.alt {
                DispatchView::Insert(TextTarget::Draft, ch)
            } else if place is Picker && !chord.ctrl && !chord.alt {
                DispatchView::Insert(TextTarget::Picker, ch)
            } else if place is Input {
                DispatchView::Insert(TextTarget::Input, ch)
            } else {
                DispatchView::Ignore
            },
            _ => DispatchView::Ignore,
        }
    }
}

/// What `chord` does on `place` after the pending `prefix`: the whole
/// sequence fires its binding; a sequence that starts one waits (unless
/// the panes do not fit and it leads to nothing that still works then),
/// arming the delete on a lone `d`; a single unbound chord falls back to
/// text entry; a longer sequence that leads nowhere is dropped.
pub open spec fn spec_dispatch(prefix: Seq<Chord>, place: Where, chord: Chord, panes_fit: bool) -> DispatchView {
    let typed = prefix.push(chord);
    let tb = binding_table();
    match spec_lookup(tb, place, typed) {
        Match::Exact(action) => DispatchView::Act(action),
        Match::Prefix => if !panes_fit && !escape_continues(tb, typed) {
            DispatchView::Cancel
        } else {
            DispatchView::Wait {
                typed,
                arm_delete: typed == seq![Chord { key: Key::Char('d'), ctrl: false, alt: false, shift: false }],
            }
        },
        Match::Miss => if typed.len() == 1 { spec_fallback(place, chord, panes_fit) } else { DispatchView::Cancel },
    }
}

/// Whether some binding that works while the panes do not fit has a
/// sequence starting with `typed`.
fn escape_continues_exec(typed: &[Chord]) -> (found: bool)
    ensures
        found == escape_continues(binding_table(), typed@),
{
    let table = bindings();
    let ghost tb = table_view(table@);
    let mut i: usize = 0;
    while i < table.len()
        invariant
            tb == table_view(table@),
            tb == binding_table(),
            i <= table@.len(),
            forall|x: int, j: int|
                0 <= x < i && spec_available_while_panes_do_not_fit(tb[x].action) && 0 <= j < tb[x].keys.len()
                    ==> !(typed@.len() <= (#[trigger] tb[x].keys[j]).len() && tb[x].keys[j].take(typed@.len() as int) == typed@),
        decreases table@.len() - i,
    {
        let b = &table[i];
        assert(tb[i as int] == b@);
        if available_while_panes_do_not_fit(b.action) {
            let mut j: usize = 0;
            while j < b.keys.len()
                invariant
                    tb == table_view(table@),
                    tb == binding_table(),
                    i < table@.len(),
                    tb[i as int] == b@,
                    spec_available_while_panes_do_not_fit(b.action),
                    j <= b.keys@.len(),
                    b@.keys.len() == b.keys@.len(),
                    forall|x: int, k: int|
                        0 <= x < i && spec_available_while_panes_do_not_fit(tb[x].action) && 0 <= k < tb[x].keys.len()
                            ==> !(typed@.len() <= (#[trigger] tb[x].keys[k]).len() && tb[x].keys[k].take(typed@.len() as int) == typed@),
                    forall|k: int| 0 <= k < j ==> !(typed@.len() <= (#[trigger] b@.keys[k]).len() && b@.keys[k].take(typed@.len() as int) == typed@),
                decreases b.keys@.len() - j,
            {
                let keys = &b.keys[j];
                assert(b@.keys[j as int] == keys@);
                if typed.len() <= keys.len() {
                    let mut same = true;
                    let mut m: usize = 0;
                    while m < typed.len()
                        invariant
                            typed@.len() <= keys@.len(),
                            m <= typed@.len(),
                            same == forall|p: int| 0 <= p < m ==> keys@[p] == typed@[p],
                        decreases typed@.len() - m,
                    {
                        if keys[m] != typed[m] {
                            same = false;
                        }
                        m = m + 1;
                    }
                    if same {
                        assert(keys@.take(typed@.len() as int) =~= typed@);
                        assert(tb[i as int].keys[j as int] == keys@);
                        return true;
                    }
                    proof {
                        if keys@.take(typed@.len() as int) == typed@ {
                            let p = choose|p: int| 0 <= p < typed@.len() && keys@[p] != typed@[p];
                            assert(keys@.take(typed@.len() as int)[p] == keys@[p]);
                        }
                    }
                }
                j = j + 1;
            }
        }
        i = i + 1;
    }
    false
}

/// What `chord` does on `place` after the pending `prefix`.
pub fn dispatch(prefix: &[Chord], place: Where, chord: Chord, panes_fit: bool) -> (d: Dispatch)
    ensures
        d@ == spec_dispatch(prefix@, place, chord, panes_fit),
{
    let mut typed: Vec<Chord> = Vec::new();
    let mut i: usize = 0;
    while i < prefix.len()
        invariant
            i <= prefix@.len(),
            typed@ == prefix@.take(i as int),
        decreases prefix@.len() - i,
    {
        typed.push(prefix[i]);
        assert(typed@ =~= prefix@.take(i as int + 1));
        i = i + 1;
    }
    assert(prefix@.take(prefix@.len() as int) =~= prefix@);
    typed.push(chord);
    match lookup(place, typed.as_slice()) {
        Match::Exact(action) => Dispatch::Act(action),
        Match::Prefix => {
            if !panes_fit && !escape_continues_exec(typed.as_slice()) {
                return Dispatch::Cancel;
            }
            let delete = Chord { key: Key::Char('d'), ctrl: false, alt: false, shift: false };
            let arm_delete = typed.len() == 1 && typed[0] == delete;
            assert(arm_delete == (typed@ == seq![delete])) by {
                if typed@.len() == 1 && typed@[0] == delete {
                    assert(typed@ =~= seq![delete]);
                }
            }
            Dispatch::Wait { typed, arm_delete }
        },
        Match::Miss => {
            if typed.len() != 1 {
                return Dispatch::Cancel;
            }
            if !panes_fit {
                return Dispatch::Ignore;
            }
            match chord.key {
                Key::Char(ch) => {
                    if place == Where::Draft && !chord.ctrl && !chord.alt {
                        Dispatch::Insert(TextTarget::Draft, ch)
                    } else if place == Where::Picker && !chord.ctrl && !chord.alt {
                        Dispatch::Insert(TextTarget::Picker, ch)
                    } else if place == Where::Input {
                        Dispatch::Insert(TextTarget::Input, ch)
                    } else {
                        Dispatch::Ignore
                    }
                },
                _ => Dispatch::Ignore,
            }
        },
    }
}

} // verus!

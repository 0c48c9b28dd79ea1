//! The key bindings as one table: what each key does where, and the
//! words the help popup, the menus, and the hint bars show for it.
//!
//! A [`Binding`] pairs one [`Action`] with the key sequences that fire it
//! in one [`Where`]. Dispatch looks a typed sequence up with [`lookup`];
//! a sequence that is the start of a longer binding is a prefix and the
//! viewer waits for the rest, showing [`menu_sections`] meanwhile. A pane
//! header asks [`hint`] how a key is spelled, so no surface can name a key
//! the table does not bind.

use vstd::prelude::*;

use crate::table::{binding, binding_spec, BINDING_COUNT};
use crate::text::{push_char, strip_prefix, opt_str};

verus! {

/// A key on its own, without modifiers.
#[derive(Debug, Clone, Copy, PartialEq, Eq, Structural)]
pub enum Key {
    Char(char),
    Enter,
    Esc,
    Tab,
    BackTab,
    Backspace,
    Delete,
    Up,
    Down,
    Left,
    Right,
    Home,
    End,
}

/// How a key is written on its own (`Space` for the space bar).
pub open spec fn key_name(key: Key) -> Seq<char> {
    match key {
        Key::Char(ch) => if ch == ' ' { "Space"@ } else { seq![ch] },
        Key::Enter => "Enter"@,
        Key::Esc => "Esc"@,
        Key::Tab => "Tab"@,
        Key::BackTab => "Shift-Tab"@,
        Key::Backspace => "Backspace"@,
        Key::Delete => "Delete"@,
        Key::Up => "Up"@,
        Key::Down => "Down"@,
        Key::Left => "Left"@,
        Key::Right => "Right"@,
        Key::Home => "Home"@,
        Key::End => "End"@,
    }
}

impl Key {
    /// The key's name, as the help popup and the hint bars show it.
    pub fn to_string(&self) -> (s: String)
        ensures
            s@ == key_name(*self),
    {
        match *self {
            Key::Char(ch) => {
                if ch == ' ' {
                    "Space".to_owned()
                } else {
                    let mut s = String::new();
                    push_char(&mut s, ch);
                    s
                }
            },
            Key::Enter => "Enter".to_owned(),
            Key::Esc => "Esc".to_owned(),
            Key::Tab => "Tab".to_owned(),
            Key::BackTab => "Shift-Tab".to_owned(),
            Key::Backspace => "Backspace".to_owned(),
            Key::Delete => "Delete".to_owned(),
            Key::Up => "Up".to_owned(),
            Key::Down => "Down".to_owned(),
            Key::Left => "Left".to_owned(),
            Key::Right => "Right".to_owned(),
            Key::Home => "Home".to_owned(),
            Key::End => "End".to_owned(),
        }
    }
}

/// One key press: a [`Key`] with its modifiers. Shift is retained for
/// Enter and arrow keys; shifted letters arrive as uppercase characters,
/// and Shift-Tab is normalized to [`Key::BackTab`].
#[derive(Debug, Clone, Copy, PartialEq, Eq, Structural)]
pub struct Chord {
    pub key: Key,
    pub ctrl: bool,
    pub alt: bool,
    pub shift: bool,
}

/// A bare character: no modifier, not the space bar.
pub open spec fn plain_char(chord: Chord) -> bool {
    !chord.ctrl && !chord.alt && !chord.shift && (chord.key matches Key::Char(ch) && ch != ' ')
}

/// The modifier prefix of a chord: `Ctrl-`, `Alt-`, `Shift-`, in that order.
pub open spec fn modifier_text(chord: Chord) -> Seq<char> {
    (if chord.ctrl { "Ctrl-"@ } else { Seq::empty() }) + (if chord.alt { "Alt-"@ } else { Seq::empty() })
        + (if chord.shift { "Shift-"@ } else { Seq::empty() })
}

/// How a chord is written, with `space` naming the space bar.
pub open spec fn chord_text(chord: Chord, space: Seq<char>) -> Seq<char> {
    modifier_text(chord) + if chord.key == Key::Char(' ') { space } else { key_name(chord.key) }
}

impl Chord {
    /// Whether this is a bare character: no modifier, not the space bar.
    pub fn is_plain_char(self) -> (b: bool)
        ensures
            b == plain_char(self),
    {
        !self.ctrl && !self.alt && !self.shift && match self.key {
            Key::Char(ch) => ch != ' ',
            _ => false,
        }
    }

    /// The chord as the menus show it (`Ctrl-d`, `Shift-Enter`, `Space`).
    pub fn to_string(&self) -> (s: String)
        ensures
            s@ == chord_text(*self, "Space"@),
    {
        let mut s = String::new();
        append_modifiers(&mut s, *self);
        let key = self.key.to_string();
        s.append(key.as_str());
        s
    }
}

/// Append `chord`'s modifier prefix to `s`.
fn append_modifiers(s: &mut String, chord: Chord)
    ensures
        final(s)@ == old(s)@ + modifier_text(chord),
{
    if chord.ctrl {
        s.append("Ctrl-");
    }
    if chord.alt {
        s.append("Alt-");
    }
    if chord.shift {
        s.append("Shift-");
    }
    assert(final(s)@ =~= old(s)@ + modifier_text(chord));
}

/// A plain character key.
pub open spec fn sc(ch: char) -> Chord {
    Chord { key: Key::Char(ch), ctrl: false, alt: false, shift: false }
}

/// A key with Ctrl held.
pub open spec fn sctrl(ch: char) -> Chord {
    Chord { key: Key::Char(ch), ctrl: true, alt: false, shift: false }
}

/// A key with Alt held.
pub open spec fn salt(key: Key) -> Chord {
    Chord { key, ctrl: false, alt: true, shift: false }
}

/// A named key with Shift held.
pub open spec fn sshift(key: Key) -> Chord {
    Chord { key, ctrl: false, alt: false, shift: true }
}

/// A named key without modifiers.
pub open spec fn sk(key: Key) -> Chord {
    Chord { key, ctrl: false, alt: false, shift: false }
}

/// A plain character key.
pub fn c(ch: char) -> (chord: Chord)
    ensures
        chord == sc(ch),
{
    Chord { key: Key::Char(ch), ctrl: false, alt: false, shift: false }
}

/// A key with Ctrl held.
pub fn ctrl(ch: char) -> (chord: Chord)
    ensures
        chord == sctrl(ch),
{
    Chord { key: Key::Char(ch), ctrl: true, alt: false, shift: false }
}

/// A key with Alt held.
pub fn alt(key: Key) -> (chord: Chord)
    ensures
        chord == salt(key),
{
    Chord { key, ctrl: false, alt: true, shift: false }
}

/// A named key with Shift held.
pub fn shift(key: Key) -> (chord: Chord)
    ensures
        chord == sshift(key),
{
    Chord { key, ctrl: false, alt: false, shift: true }
}

/// A named key without modifiers.
pub fn k(key: Key) -> (chord: Chord)
    ensures
        chord == sk(key),
{
    Chord { key, ctrl: false, alt: false, shift: false }
}

/// `parts` joined with `sep` between neighbours.
pub open spec fn join(parts: Seq<Seq<char>>, sep: Seq<char>) -> Seq<char>
    decreases parts.len(),
{
    if parts.len() == 0 {
        Seq::empty()
    } else if parts.len() == 1 {
        parts[0]
    } else {
        join(parts.drop_last(), sep) + sep + parts.last()
    }
}

/// How a sequence is written: bare characters run together (`gg`, `]w`),
/// anything else is space-separated (`Space d s`, `Ctrl-d`), with `space`
/// naming the space bar.
pub open spec fn spelled(keys: Seq<Chord>, space: Seq<char>) -> Seq<char> {
    let sep = if forall|i: int| 0 <= i < keys.len() ==> plain_char(#[trigger] keys[i]) {
        Seq::<char>::empty()
    } else {
        seq![' ']
    };
    join(keys.map_values(|chord: Chord| chord_text(chord, space)), sep)
}

/// How a sequence is written: bare characters run together (`gg`, `]w`),
/// anything else is space-separated (`Space d s`, `Ctrl-d`).
pub fn spell(keys: &[Chord]) -> (s: String)
    ensures
        s@ == spelled(keys@, "Space"@),
{
    spell_with_space(keys, "Space")
}

/// Spell a sequence compactly for action-menu shortcut columns.
pub fn menu_spell(keys: &[Chord]) -> (s: String)
    ensures
        s@ == spelled(keys@, "Sp"@),
{
    spell_with_space(keys, "Sp")
}

fn all_plain(keys: &[Chord]) -> (b: bool)
    ensures
        b == forall|i: int| 0 <= i < keys@.len() ==> plain_char(#[trigger] keys@[i]),
{
    let mut i: usize = 0;
    while i < keys.len()
        invariant
            i <= keys@.len(),
            forall|j: int| 0 <= j < i ==> plain_char(#[trigger] keys@[j]),
        decreases keys@.len() - i,
    {
        if !keys[i].is_plain_char() {
            return false;
        }
        i = i + 1;
    }
    true
}

fn spell_with_space(keys: &[Chord], space: &str) -> (s: String)
    ensures
        s@ == spelled(keys@, space@),
{
    let plain = all_plain(keys);
    let separator = if plain { "" } else { " " };
    proof {
        reveal_strlit(" ");
        reveal_strlit("");
    }
    let ghost parts = keys@.map_values(|chord: Chord| chord_text(chord, space@));
    let mut s = String::new();
    let mut i: usize = 0;
    while i < keys.len()
        invariant
            i <= keys@.len(),
            parts == keys@.map_values(|chord: Chord| chord_text(chord, space@)),
            separator@ == (if plain { Seq::<char>::empty() } else { seq![' '] }),
            s@ == join(parts.take(i as int), separator@),
        decreases keys@.len() - i,
    {
        let ghost before = s@;
        if i > 0 {
            s.append(separator);
        }
        let chord = keys[i];
        append_modifiers(&mut s, chord);
        if chord.key == Key::Char(' ') {
            s.append(space);
        } else {
            let key = chord.key.to_string();
            s.append(key.as_str());
        }
        proof {
            assert(parts.take(i + 1).drop_last() =~= parts.take(i as int));
            assert(parts[i as int] == chord_text(chord, space@));
            if i == 0 {
                assert(parts.take(1) =~= seq![parts[0]]);
            }
        }
        i = i + 1;
    }
    proof {
        assert(parts.take(keys@.len() as int) =~= parts);
    }
    s
}

/// Which surface a binding lives on: the pane that has focus, the popup
/// that is open, or [`Where::Any`] for every pane at once. `Any` never
/// reaches a popup: the draft, the picker, and the command line
/// take only their own keys.
#[derive(Debug, Clone, Copy, PartialEq, Eq, Structural)]
pub enum Where {
    /// The text, in normal or select mode.
    View,
    /// The file tree.
    Tree,
    /// The sidebar's threads pane.
    ThreadsPane,
    /// The review list.
    Review,
    /// The draft being written in the text.
    Draft,
    /// A file, diff, or worktree picker.
    Picker,
    /// The `:` and `/` input line.
    Input,
    /// Every pane: the view, the tree, and the two thread surfaces.
    Any,
}

/// Whether `Any` bindings apply on `place`: a pane, not a popup.
pub open spec fn spec_takes_any(place: Where) -> bool {
    !(place is Draft || place is Picker || place is Input)
}

impl Where {
    /// Whether `Any` bindings apply here: in a pane, not a popup.
    pub fn takes_any(self) -> (b: bool)
        ensures
            b == spec_takes_any(self),
    {
        !matches!(self, Where::Draft | Where::Picker | Where::Input)
    }
}

/// What a key does. One action can be bound on several surfaces; the
/// viewer gives it that surface's meaning.
#[derive(Debug, Clone, Copy, PartialEq, Eq, Structural)]
pub enum Action {
    MoveDown,
    MoveUp,
    MoveLeft,
    MoveRight,
    LineStart,
    LineEnd,
    GotoLineStart,
    GotoLineEnd,
    Top,
    Bottom,
    HalfPageDown,
    HalfPageUp,
    ScrollDown,
    ScrollUp,
    SearchForward,
    SearchBackward,
    SearchNext,
    SearchPrev,
    SelectChars,
    SelectLines,
    ExtendLine,
    Yank,
    GotoFile,
    CopyPath,
    CopyFullPath,
    Comment,
    NewThread,
    /// `Space t f`: a comment on the open file as a whole (ADR 0063).
    FileComment,
    SourceView,
    DiffStandard,
    DiffUnified,
    DiffOff,
    ComparisonSave,
    ComparisonManage,
    ComparisonBase,
    ComparisonTarget,
    ComparisonHeadWorkingTree,
    /// `Space d l`: compare the first parent of `HEAD` to `HEAD`.
    ComparisonHeadParent,
    /// `Space d c`: choose a commit and compare its first parent to it.
    ComparisonCommitParent,
    /// `]w`: the next worktree (ADR 0070).
    WorktreeNext,
    /// `[w`: the previous worktree (ADR 0070).
    WorktreePrev,
    ComparisonWhitespace,
    StubsToggle,
    /// `Space F c`: only changed files in the files pane (ADR 0068).
    FilesChanged,
    /// `Space F o`: only files with reviews in the files pane (ADR 0068).
    FilesReviews,
    /// `Space F u`: hide untracked files in the files pane (ADR 0068).
    FilesUntracked,
    /// `Space F i`: show ignored files in the files pane (ADR 0068).
    FilesIgnored,
    ChangeNext,
    ChangePrev,
    ChangeFileNext,
    ChangeFilePrev,
    JumpBack,
    JumpForward,
    /// `q`: open the guarded quit confirmation from any normal pane.
    ConfirmQuit,
    CommandLine,
    Escape,
    Confirm,
    TreeToggle,
    PickFile,
    PickAnyFile,
    PickRecent,
    /// `f`: open and focus the file view.
    FileView,
    Review,
    ReviewRecentlyResolved,
    ReviewArchived,
    ArchiveResolved,
    ClearBoard,
    ArchiveThread,
    RestoreThread,
    /// `Space p s`: hide or show the sidebar as one remembered layout.
    SidebarToggle,
    /// `Space p m`: hide or show the persistent menu bar.
    MenuBarToggle,
    ThreadsPaneToggle,
    WindowNext,
    WindowPrev,
    WindowFiles,
    WindowThreads,
    ApplicationMenu,
    PaneScope,
    ReviewResolved,
    Help,
    ThreadNext,
    ThreadPrev,
    OpenThreadNext,
    OpenThreadPrev,
    Reply,
    EditMessage,
    EditNewestOwn,
    StubResolvedToggle,
    ToggleResolved,
    ToggleAutoResolve,
    Delete,
    DeleteThread,
    Fold,
    FoldAll,
    FileOnly,
    Newline,
    SubmitAutoResolve,
    CompleteNext,
    CompletePrevious,
    Backspace,
    DeleteForward,
    WordBack,
    WordForward,
    DeleteWordBack,
    DeleteToLineStart,
    DeleteToLineEnd,
    ClearDraft,
    EditDraft,
}

/// One row of the table: the sequences that fire `action` in `place`.
pub struct Binding {
    pub keys: Vec<Vec<Chord>>,
    pub place: Where,
    pub action: Action,
    pub label: &'static str,
    pub group: &'static str,
    pub menu_section: u8,
}

/// A row of the table as the contracts see it.
pub struct BindingView {
    pub keys: Seq<Seq<Chord>>,
    pub place: Where,
    pub action: Action,
    pub label: Seq<char>,
    pub group: Seq<char>,
    pub menu_section: u8,
}

/// The sequences of a row, each by its chords.
pub open spec fn keys_view(keys: Seq<Vec<Chord>>) -> Seq<Seq<Chord>> {
    keys.map_values(|keys: Vec<Chord>| keys@)
}

impl View for Binding {
    type V = BindingView;

    open spec fn view(&self) -> BindingView {
        BindingView {
            keys: keys_view(self.keys@),
            place: self.place,
            action: self.action,
            label: self.label@,
            group: self.group@,
            menu_section: self.menu_section,
        }
    }
}

/// A one-chord sequence.
pub fn one(a: Chord) -> (keys: Vec<Chord>)
    ensures
        keys@ == seq![a],
{
    vec![a]
}

/// A two-chord sequence.
pub fn two(a: Chord, b: Chord) -> (keys: Vec<Chord>)
    ensures
        keys@ == seq![a, b],
{
    vec![a, b]
}

/// A three-chord sequence.
pub fn three(a: Chord, b: Chord, c: Chord) -> (keys: Vec<Chord>)
    ensures
        keys@ == seq![a, b, c],
{
    vec![a, b, c]
}

/// A binding's only sequence.
pub fn alts1(a: Vec<Chord>) -> (keys: Vec<Vec<Chord>>)
    ensures
        keys_view(keys@) == seq![a@],
{
    let keys = vec![a];
    assert(keys_view(keys@) =~= seq![keys@[0]@]);
    keys
}

/// A binding's two sequences, in the order help shows them.
pub fn alts2(a: Vec<Chord>, b: Vec<Chord>) -> (keys: Vec<Vec<Chord>>)
    ensures
        keys_view(keys@) == seq![a@, b@],
{
    let keys = vec![a, b];
    assert(keys_view(keys@) =~= seq![keys@[0]@, keys@[1]@]);
    keys
}

/// A row in the unsectioned part of a which-key card.
pub fn bind(
    place: Where,
    keys: Vec<Vec<Chord>>,
    action: Action,
    group: &'static str,
    label: &'static str,
) -> (b: Binding)
    ensures
        b@ == (BindingView {
            keys: keys_view(keys@),
            place,
            action,
            label: label@,
            group: group@,
            menu_section: 0,
        }),
{
    Binding { keys, place, action, label, group, menu_section: 0 }
}

/// A row in semantic section `menu_section` of its which-key card.
pub fn bind_in(
    place: Where,
    keys: Vec<Vec<Chord>>,
    action: Action,
    group: &'static str,
    label: &'static str,
    menu_section: u8,
) -> (b: Binding)
    ensures
        b@ == (BindingView {
            keys: keys_view(keys@),
            place,
            action,
            label: label@,
            group: group@,
            menu_section,
        }),
{
    Binding { keys, place, action, label, group, menu_section }
}

/// Rows of a table by their views.
pub open spec fn table_view(table: Seq<Binding>) -> Seq<BindingView> {
    table.map_values(|b: Binding| b@)
}

/// The whole table as the contracts see it.
pub open spec fn binding_table() -> Seq<BindingView> {
    Seq::new(BINDING_COUNT as nat, |i: int| binding_spec(i))
}

/// Every binding, in table order.
pub fn bindings() -> (table: Vec<Binding>)
    ensures
        table_view(table@) == binding_table(),
{
    let mut table: Vec<Binding> = Vec::new();
    let mut i: usize = 0;
    while i < BINDING_COUNT
        invariant
            i <= BINDING_COUNT,
            table@.len() == i,
            forall|j: int| 0 <= j < i ==> #[trigger] table@[j]@ == binding_spec(j),
        decreases BINDING_COUNT - i,
    {
        table.push(binding(i));
        i = i + 1;
    }
    assert(table_view(table@) =~= binding_table());
    table
}

/// Whether the row applies on `place`: its own rows, and `Any` rows where
/// the place takes them.
pub open spec fn applies(b: BindingView, place: Where) -> bool {
    b.place == place || (b.place == Where::Any && spec_takes_any(place))
}

/// Whether `keys` is a longer sequence that starts with `typed`.
pub open spec fn continues(typed: Seq<Chord>, keys: Seq<Chord>) -> bool {
    keys.len() > typed.len() && keys.take(typed.len() as int) == typed
}

/// Whether row `b` fires on `typed` at `place`.
pub open spec fn fires(b: BindingView, place: Where, typed: Seq<Chord>) -> bool {
    applies(b, place) && b.keys.contains(typed)
}

/// Row `i` is the first row of `table` that fires on `typed` at `place`.
pub open spec fn first_firing(table: Seq<BindingView>, place: Where, typed: Seq<Chord>, i: int) -> bool {
    &&& 0 <= i < table.len()
    &&& fires(table[i], place, typed)
    &&& forall|k: int| 0 <= k < i ==> !fires(#[trigger] table[k], place, typed)
}

/// Some applying row has a longer sequence that starts with `typed`.
pub open spec fn is_prefix_at(table: Seq<BindingView>, place: Where, typed: Seq<Chord>) -> bool {
    exists|i: int, j: int|
        0 <= i < table.len() && applies(table[i], place) && 0 <= j < table[i].keys.len()
            && continues(typed, #[trigger] table[i].keys[j])
}

/// What a typed sequence is on one surface.
#[derive(Debug, Clone, Copy, PartialEq, Eq, Structural)]
pub enum Match {
    /// A binding fires.
    Exact(Action),
    /// A longer binding starts this way; wait for more.
    Prefix,
    /// Nothing starts this way.
    Miss,
}

/// `typed` looked up on `place` in `table`: the action of the first row
/// that binds it, else a prefix when a longer sequence starts with it,
/// else a miss.
pub open spec fn spec_lookup(table: Seq<BindingView>, place: Where, typed: Seq<Chord>) -> Match {
    if exists|i: int| first_firing(table, place, typed, i) {
        Match::Exact(table[choose|i: int| first_firing(table, place, typed, i)].action)
    } else if is_prefix_at(table, place, typed) {
        Match::Prefix
    } else {
        Match::Miss
    }
}

/// Whether two sequences hold the same chords.
pub fn same_keys(a: &[Chord], b: &[Chord]) -> (same: bool)
    ensures
        same == (a@ == b@),
{
    if a.len() != b.len() {
        return false;
    }
    let mut i: usize = 0;
    while i < a.len()
        invariant
            a@.len() == b@.len(),
            i <= a@.len(),
            forall|j: int| 0 <= j < i ==> a@[j] == b@[j],
        decreases a@.len() - i,
    {
        if a[i] != b[i] {
            return false;
        }
        i = i + 1;
    }
    assert(a@ =~= b@);
    true
}

/// Whether `keys` is longer than `typed` and starts with it.
pub fn continues_keys(typed: &[Chord], keys: &[Chord]) -> (b: bool)
    ensures
        b == continues(typed@, keys@),
{
    if keys.len() <= typed.len() {
        return false;
    }
    let mut i: usize = 0;
    while i < typed.len()
        invariant
            typed@.len() < keys@.len(),
            i <= typed@.len(),
            forall|j: int| 0 <= j < i ==> keys@[j] == typed@[j],
        decreases typed@.len() - i,
    {
        if keys[i] != typed[i] {
            assert(keys@.take(typed@.len() as int)[i as int] != typed@[i as int]);
            return false;
        }
        i = i + 1;
    }
    assert(keys@.take(typed@.len() as int) =~= typed@);
    true
}

/// Whether `b` applies on `place`.
fn applies_on(b: &Binding, place: Where) -> (yes: bool)
    ensures
        yes == applies(b@, place),
{
    b.place == place || (b.place == Where::Any && place.takes_any())
}

/// The bindings that apply on `place`, as indices into `table` in table
/// order: its own rows, then `Any` rows when it takes them.
pub fn applicable(table: &Vec<Binding>, place: Where) -> (rows: Vec<usize>)
    ensures
        forall|k: int| 0 <= k < rows@.len() ==> #[trigger] rows@[k] < table@.len() && applies(table@[rows@[k] as int]@, place),
        forall|k1: int, k2: int| 0 <= k1 < k2 < rows@.len() ==> rows@[k1] < rows@[k2],
        forall|i: int| 0 <= i < table@.len() && applies(#[trigger] table@[i]@, place) ==> rows@.contains(i as usize),
{
    let mut rows: Vec<usize> = Vec::new();
    let mut i: usize = 0;
    while i < table.len()
        invariant
            i <= table@.len(),
            forall|k: int| 0 <= k < rows@.len() ==> #[trigger] rows@[k] < i && applies(table@[rows@[k] as int]@, place),
            forall|k1: int, k2: int| 0 <= k1 < k2 < rows@.len() ==> rows@[k1] < rows@[k2],
            forall|j: int| 0 <= j < i && applies(#[trigger] table@[j]@, place) ==> rows@.contains(j as usize),
        decreases table@.len() - i,
    {
        let ghost old_rows = rows@;
        if applies_on(&table[i], place) {
            rows.push(i);
        }
        proof {
            assert forall|j: int| 0 <= j < i + 1 && applies(#[trigger] table@[j]@, place) implies rows@.contains(j as usize) by {
                if j < i {
                    let k = choose|k: int| 0 <= k < old_rows.len() && old_rows[k] == j as usize;
                    assert(rows@[k] == j as usize);
                } else {
                    assert(rows@[rows@.len() - 1] == i);
                }
            }
        }
        i = i + 1;
    }
    rows
}

/// Look `typed` up on `place` in `table`.
fn lookup_in(table: &Vec<Binding>, place: Where, typed: &[Chord]) -> (m: Match)
    ensures
        m == spec_lookup(table_view(table@), place, typed@),
{
    let ghost t = table_view(table@);
    let mut prefix = false;
    let mut i: usize = 0;
    while i < table.len()
        invariant
            t == table_view(table@),
            i <= table@.len(),
            forall|k: int| 0 <= k < i ==> !fires(#[trigger] t[k], place, typed@),
            prefix == exists|a: int, j: int|
                0 <= a < i && applies(t[a], place) && 0 <= j < t[a].keys.len()
                    && continues(typed@, #[trigger] t[a].keys[j]),
        decreases table@.len() - i,
    {
        let b = &table[i];
        assert(t[i as int] == b@);
        if applies_on(b, place) {
            let mut j: usize = 0;
            while j < b.keys.len()
                invariant
                    t == table_view(table@),
                    i < table@.len(),
                    b == &table@[i as int],
                    t[i as int] == b@,
                    applies(b@, place),
                    j <= b.keys@.len(),
                    forall|k: int| 0 <= k < i ==> !fires(#[trigger] t[k], place, typed@),
                    forall|jj: int| 0 <= jj < j ==> b@.keys[jj] != typed@,
                    prefix == ((exists|a: int, jj: int|
                        0 <= a < i && applies(t[a], place) && 0 <= jj < t[a].keys.len()
                            && continues(typed@, #[trigger] t[a].keys[jj]))
                        || (exists|jj: int| 0 <= jj < j && continues(typed@, #[trigger] b@.keys[jj]))),
                decreases b.keys@.len() - j,
            {
                let keys = b.keys[j].as_slice();
                assert(b@.keys[j as int] == keys@);
                if same_keys(keys, typed) {
                    proof {
                        assert(fires(t[i as int], place, typed@));
                        assert(first_firing(t, place, typed@, i as int));
                        assert forall|x: int| first_firing(t, place, typed@, x) implies x == i by {
                            if x < i {
                                assert(!fires(t[x], place, typed@));
                            }
                            if x > i {
                                assert(!fires(t[i as int], place, typed@));
                            }
                        }
                    }
                    return Match::Exact(b.action);
                }
                if continues_keys(typed, keys) {
                    prefix = true;
                }
                j = j + 1;
            }
            proof {
                assert(!b@.keys.contains(typed@));
            }
            proof {
                let before_row = exists|a: int, jj: int|
                    0 <= a < i && applies(t[a], place) && 0 <= jj < t[a].keys.len()
                        && continues(typed@, #[trigger] t[a].keys[jj]);
                assert(b@.keys.len() == b.keys@.len());
                let in_row = exists|jj: int| 0 <= jj < j && continues(typed@, #[trigger] b@.keys[jj]);
                let through = exists|a: int, jj: int|
                    0 <= a < i + 1 && applies(t[a], place) && 0 <= jj < t[a].keys.len()
                        && continues(typed@, #[trigger] t[a].keys[jj]);
                assert(prefix == (before_row || in_row));
                if before_row {
                    let (a, jj) = choose|a: int, jj: int|
                        0 <= a < i && applies(t[a], place) && 0 <= jj < t[a].keys.len()
                            && continues(typed@, #[trigger] t[a].keys[jj]);
                    assert(continues(typed@, t[a].keys[jj]));
                    assert(through);
                }
                if in_row {
                    let jj = choose|jj: int| 0 <= jj < j && continues(typed@, #[trigger] b@.keys[jj]);
                    assert(continues(typed@, t[i as int].keys[jj]));
                    assert(through);
                }
                if through {
                    let (a, jj) = choose|a: int, jj: int|
                        0 <= a < i + 1 && applies(t[a], place) && 0 <= jj < t[a].keys.len()
                            && continues(typed@, #[trigger] t[a].keys[jj]);
                    if a == i {
                        assert(continues(typed@, b@.keys[jj]));
                        assert(in_row);
                    } else {
                        assert(before_row);
                    }
                }
                assert(prefix == through);
            }
        }
        i = i + 1;
    }
    proof {
        assert(!exists|x: int| first_firing(t, place, typed@, x));
    }
    if prefix {
        Match::Prefix
    } else {
        Match::Miss
    }
}

/// Look `typed` up on `place`.
pub fn lookup(place: Where, typed: &[Chord]) -> (m: Match)
    ensures
        m == spec_lookup(binding_table(), place, typed@),
{
    let table = bindings();
    lookup_in(&table, place, typed)
}

/// The word a submenu prefix is named by in its parent menu and in the
/// breadcrumb row, or `None` when `typed` is no submenu.
pub open spec fn spec_submenu_word(typed: Seq<Chord>) -> Option<Seq<char>> {
    if typed == seq![sc(' '), sc('f')] {
        Some("open files"@)
    } else if typed == seq![sc(' '), sc('F')] {
        Some("files"@)
    } else if typed == seq![sc(' '), sc('p')] {
        Some("panes"@)
    } else if typed == seq![sc(' '), sc('t')] {
        Some("threads"@)
    } else if typed == seq![sc(' '), sc('T')] {
        Some("thread list"@)
    } else if typed == seq![sc(' '), sc('v')] {
        Some("view"@)
    } else if typed == seq![sc(' '), sc('d')] {
        Some("diff"@)
    } else if typed == seq![sc(' '), sc('j')] {
        Some("jump"@)
    } else {
        None
    }
}

/// The word `typed` is a submenu for, when it is one.
pub fn submenu_word(typed: &[Chord]) -> (word: Option<&'static str>)
    ensures
        opt_str(word) == spec_submenu_word(typed@),
{
    if typed.len() != 2 {
        return None;
    }
    assert(typed@ =~= seq![typed@[0], typed@[1]]);
    if typed[0] != c(' ') {
        return None;
    }
    let second = typed[1];
    if second == c('f') {
        Some("open files")
    } else if second == c('F') {
        Some("files")
    } else if second == c('p') {
        Some("panes")
    } else if second == c('t') {
        Some("threads")
    } else if second == c('T') {
        Some("thread list")
    } else if second == c('v') {
        Some("view")
    } else if second == c('d') {
        Some("diff")
    } else if second == c('j') {
        Some("jump")
    } else {
        None
    }
}

/// The breadcrumb row of the which-key menu: the prefix as it is spelled,
/// then the submenu's word (`Space t · threads`).
pub open spec fn spec_menu_title(typed: Seq<Chord>) -> Seq<char> {
    match spec_submenu_word(typed) {
        Some(word) => spelled(typed, "Space"@) + " · "@ + word,
        None => spelled(typed, "Space"@),
    }
}

/// The breadcrumb row of the which-key menu: the prefix as it is spelled,
/// then the submenu's word (`Space t · threads`).
pub fn menu_title(typed: &[Chord]) -> (title: String)
    ensures
        title@ == spec_menu_title(typed@),
{
    let mut title = spell(typed);
    match submenu_word(typed) {
        Some(word) => {
            title.append(" · ");
            title.append(word);
        },
        None => {},
    }
    title
}

/// `label` without the `word: ` that names the submenu `typed` is, which
/// the menu's breadcrumb row already carries.
pub open spec fn spec_strip_submenu_word(typed: Seq<Chord>, label: Seq<char>) -> Seq<char> {
    match spec_submenu_word(typed) {
        Some(word) => {
            let named = word + ": "@;
            if named.len() <= label.len() && label.take(named.len() as int) == named {
                label.skip(named.len() as int)
            } else {
                label
            }
        },
        None => label,
    }
}

/// `label` without the `word: ` that names the submenu `typed` is, which
/// the menu's breadcrumb row already carries.
pub fn strip_submenu_word<'a>(typed: &[Chord], label: &'a str) -> (stripped: &'a str)
    ensures
        stripped@ == spec_strip_submenu_word(typed@, label@),
{
    proof {
        reveal_strlit(": ");
    }
    match submenu_word(typed) {
        Some(word) => {
            let ghost named = word@ + ": "@;
            match strip_prefix(label, word) {
                Some(rest) => match strip_prefix(rest, ": ") {
                    Some(tail) => {
                        assert(label@.take(named.len() as int) =~= named) by {
                            assert(label@.take(word@.len() as int) == word@);
                            assert(rest@.take(2) == ": "@);
                            assert forall|x: int| 0 <= x < named.len() implies label@.take(named.len() as int)[x] == named[x] by {
                                if x < word@.len() {
                                    assert(label@.take(word@.len() as int)[x] == word@[x]);
                                } else {
                                    assert(rest@.take(2)[x - word@.len()] == ": "@[x - word@.len()]);
                                }
                            }
                        }
                        assert(tail@ =~= label@.skip(named.len() as int));
                        tail
                    },
                    None => {
                        assert(!(named.len() <= label@.len() && label@.take(named.len() as int) == named)) by {
                            if named.len() <= label@.len() && label@.take(named.len() as int) == named {
                                assert(rest@.take(2) =~= ": "@) by {
                                    assert forall|x: int| 0 <= x < 2 implies rest@.take(2)[x] == ": "@[x] by {
                                        assert(label@.take(named.len() as int)[word@.len() + x] == named[word@.len() + x]);
                                    }
                                }
                            }
                        }
                        label
                    },
                },
                None => {
                    assert(!(named.len() <= label@.len() && label@.take(named.len() as int) == named)) by {
                        if named.len() <= label@.len() && label@.take(named.len() as int) == named {
                            assert(label@.take(word@.len() as int) =~= word@) by {
                                assert forall|x: int| 0 <= x < word@.len() implies label@.take(word@.len() as int)[x] == word@[x] by {
                                    assert(label@.take(named.len() as int)[x] == named[x]);
                                }
                            }
                        }
                    }
                    label
                },
            }
        },
        None => label,
    }
}

/// Row `b` binds `action` on exactly `place`.
pub open spec fn binds_on(b: BindingView, place: Where, action: Action) -> bool {
    b.place == place && b.action == action
}

/// Row `i` is the first that binds `action` on exactly `place`.
pub open spec fn first_binding(table: Seq<BindingView>, place: Where, action: Action, i: int) -> bool {
    &&& 0 <= i < table.len()
    &&& binds_on(table[i], place, action)
    &&& forall|k: int| 0 <= k < i ==> !binds_on(#[trigger] table[k], place, action)
}

/// The first sequence of a row, if it has one.
pub open spec fn first_seq(b: BindingView) -> Option<Seq<Chord>> {
    if b.keys.len() > 0 { Some(b.keys[0]) } else { None }
}

/// The sequence a hint spells for `action` on `place`: the first one of the
/// first row bound on `place`, else of the first `Any` row when the place
/// takes those.
pub open spec fn spec_first_keys(table: Seq<BindingView>, place: Where, action: Action) -> Option<Seq<Chord>> {
    if exists|i: int| first_binding(table, place, action, i) {
        first_seq(table[choose|i: int| first_binding(table, place, action, i)])
    } else if spec_takes_any(place) && exists|i: int| first_binding(table, Where::Any, action, i) {
        first_seq(table[choose|i: int| first_binding(table, Where::Any, action, i)])
    } else {
        None
    }
}

/// A copy of a sequence.
pub fn copy_keys(keys: &[Chord]) -> (copy: Vec<Chord>)
    ensures
        copy@ == keys@,
{
    let mut copy: Vec<Chord> = Vec::new();
    let mut i: usize = 0;
    while i < keys.len()
        invariant
            i <= keys@.len(),
            copy@ == keys@.take(i as int),
        decreases keys@.len() - i,
    {
        copy.push(keys[i]);
        i = i + 1;
        assert(copy@ =~= keys@.take(i as int));
    }
    assert(keys@.take(keys@.len() as int) =~= keys@);
    copy
}

/// The index of the first row of `table` binding `action` on `place`.
fn find_binding(table: &Vec<Binding>, place: Where, action: Action) -> (found: Option<usize>)
    ensures
        match found {
            Some(i) => first_binding(table_view(table@), place, action, i as int),
            None => !exists|i: int| first_binding(table_view(table@), place, action, i),
        },
{
    let ghost t = table_view(table@);
    let mut i: usize = 0;
    while i < table.len()
        invariant
            t == table_view(table@),
            i <= table@.len(),
            forall|k: int| 0 <= k < i ==> !binds_on(#[trigger] t[k], place, action),
        decreases table@.len() - i,
    {
        assert(t[i as int] == table@[i as int]@);
        if table[i].place == place && table[i].action == action {
            return Some(i);
        }
        i = i + 1;
    }
    proof {
        assert forall|x: int| !first_binding(t, place, action, x) by {
            if 0 <= x < t.len() {
                assert(!binds_on(t[x], place, action));
            }
        }
    }
    None
}

/// The first sequence of row `i`.
fn first_seq_of(table: &Vec<Binding>, i: usize) -> (keys: Option<Vec<Chord>>)
    requires
        i < table@.len(),
    ensures
        match keys {
            Some(k) => first_seq(table_view(table@)[i as int]) == Some(k@),
            None => first_seq(table_view(table@)[i as int]) is None,
        },
{
    let b = &table[i];
    assert(table_view(table@)[i as int] == b@);
    if b.keys.len() > 0 {
        assert(b@.keys[0] == b.keys@[0]@);
        Some(copy_keys(b.keys[0].as_slice()))
    } else {
        None
    }
}

/// An optional sequence by its chords.
pub open spec fn opt_keys(o: Option<Vec<Chord>>) -> Option<Seq<Chord>> {
    match o {
        Some(k) => Some(k@),
        None => None,
    }
}

/// The sequence `hint` spells: the first one bound on `place`, else the
/// first `Any` one when the place takes those.
pub fn first_keys(place: Where, action: Action) -> (keys: Option<Vec<Chord>>)
    ensures
        opt_keys(keys) == spec_first_keys(binding_table(), place, action),
{
    let table = bindings();
    let ghost t = table_view(table@);
    proof {
        assert forall|x: int, y: int| first_binding(t, place, action, x) && first_binding(t, place, action, y) implies x == y by {
            if x < y { assert(!binds_on(t[x], place, action)); }
            if y < x { assert(!binds_on(t[y], place, action)); }
        }
        assert forall|x: int, y: int| first_binding(t, Where::Any, action, x) && first_binding(t, Where::Any, action, y) implies x == y by {
            if x < y { assert(!binds_on(t[x], Where::Any, action)); }
            if y < x { assert(!binds_on(t[y], Where::Any, action)); }
        }
    }
    match find_binding(&table, place, action) {
        Some(i) => first_seq_of(&table, i),
        None => {
            if place.takes_any() {
                match find_binding(&table, Where::Any, action) {
                    Some(i) => first_seq_of(&table, i),
                    None => None,
                }
            } else {
                None
            }
        },
    }
}

/// An optional string by its characters.
pub open spec fn opt_string(o: Option<String>) -> Option<Seq<char>> {
    match o {
        Some(s) => Some(s@),
        None => None,
    }
}

/// How `action` is spelled on `place`, for a hint bar: its first sequence
/// there, else its first `Any` sequence.
pub fn hint(place: Where, action: Action) -> (spelling: Option<String>)
    ensures
        opt_string(spelling) == match spec_first_keys(binding_table(), place, action) {
            Some(keys) => Some(spelled(keys, "Space"@)),
            None => None,
        },
{
    match first_keys(place, action) {
        Some(keys) => Some(spell(keys.as_slice())),
        None => None,
    }
}

/// Pair `(i, j)` is sequence `j` of applying row `i`, and it continues
/// `typed`.
pub open spec fn continuing(t: Seq<BindingView>, place: Where, typed: Seq<Chord>, i: int, j: int) -> bool {
    &&& 0 <= i < t.len()
    &&& applies(t[i], place)
    &&& 0 <= j < t[i].keys.len()
    &&& continues(typed, t[i].keys[j])
}

/// The chord that follows `typed` in sequence `j` of row `i`.
pub open spec fn next_chord(t: Seq<BindingView>, typed: Seq<Chord>, i: int, j: int) -> Chord {
    t[i].keys[j][typed.len() as int]
}

/// Pair `(i1, j1)` comes before `(i2, j2)` in table order.
pub open spec fn lex_before(i1: int, j1: int, i2: int, j2: int) -> bool {
    i1 < i2 || (i1 == i2 && j1 < j2)
}

/// Pair `(i, j)` continues `typed`, and no earlier continuing pair has the
/// same next chord: it is the one that names that key in the menu.
pub open spec fn opens_entry(t: Seq<BindingView>, place: Where, typed: Seq<Chord>, i: int, j: int) -> bool {
    &&& continuing(t, place, typed, i, j)
    &&& forall|i2: int, j2: int|
        continuing(t, place, typed, i2, j2) && lex_before(i2, j2, i, j)
            ==> #[trigger] next_chord(t, typed, i2, j2) != next_chord(t, typed, i, j)
}

/// How an entry that leads into a submenu is named: after where it leads.
pub open spec fn branch_label(typed: Seq<Chord>, keys: Seq<Chord>) -> Seq<char> {
    let word = match spec_submenu_word(keys.take(typed.len() + 1 as int)) {
        Some(word) => word,
        None => "more"@,
    };
    word + "…"@
}

/// What a leaf entry is labelled: the live label `relabel` gave, else the
/// table's label without the submenu's word.
pub open spec fn leaf_label(typed: Seq<Chord>, b: BindingView, relabeled: Option<Seq<char>>) -> Seq<char> {
    match relabeled {
        Some(live) => live,
        None => spec_strip_submenu_word(typed, b.label),
    }
}

/// `label` is what the entry of pair `(i, j)` shows.
pub open spec fn entry_label<F: Fn(Action) -> Option<&'static str>>(
    relabel: F,
    t: Seq<BindingView>,
    typed: Seq<Chord>,
    i: int,
    j: int,
    label: Seq<char>,
) -> bool {
    if t[i].keys[j].len() == typed.len() + 1 {
        exists|o: Option<&'static str>|
            call_ensures(relabel, (t[i].action,), o) && label == leaf_label(typed, t[i], opt_str(o))
    } else {
        label == branch_label(typed, t[i].keys[j])
    }
}

/// `entries` is the which-key listing of `typed` on `place`, with `w`
/// naming the pair each entry comes from: one entry per next key, from the
/// first pair that continues `typed` with it, in table order.
pub open spec fn listing_at<F: Fn(Action) -> Option<&'static str>>(
    relabel: F,
    t: Seq<BindingView>,
    place: Where,
    typed: Seq<Chord>,
    entries: Seq<(Chord, Seq<char>, u8)>,
    w: Seq<(int, int)>,
) -> bool {
    &&& w.len() == entries.len()
    &&& forall|k: int| 0 <= k < w.len() ==> opens_entry(t, place, typed, #[trigger] w[k].0, w[k].1)
    &&& forall|k1: int, k2: int| 0 <= k1 < k2 < w.len() ==> lex_before(#[trigger] w[k1].0, w[k1].1, #[trigger] w[k2].0, w[k2].1)
    &&& forall|i: int, j: int| #[trigger] opens_entry(t, place, typed, i, j) ==> exists|k: int| 0 <= k < w.len() && #[trigger] w[k] == (i, j)
    &&& forall|k: int| 0 <= k < w.len() ==> {
        &&& #[trigger] entries[k].0 == next_chord(t, typed, w[k].0, w[k].1)
        &&& entries[k].2 == t[w[k].0].menu_section
        &&& entry_label(relabel, t, typed, w[k].0, w[k].1, entries[k].1)
    }
}

/// `entries` is the which-key listing of `typed` on `place` in the table:
/// one entry per key that continues `typed`, from the first row that
/// continues it so, in table order, labelled by `relabel` or the table.
pub open spec fn menu_listing<F: Fn(Action) -> Option<&'static str>>(
    relabel: F,
    place: Where,
    typed: Seq<Chord>,
    entries: Seq<(Chord, Seq<char>, u8)>,
) -> bool {
    exists|w: Seq<(int, int)>| listing_at(relabel, binding_table(), place, typed, entries, w)
}

/// An entry with its label by characters.
pub open spec fn entry_view(e: (Chord, String, u8)) -> (Chord, Seq<char>, u8) {
    (e.0, e.1@, e.2)
}

/// Entries with their labels by characters.
pub open spec fn entries_view(entries: Seq<(Chord, String, u8)>) -> Seq<(Chord, Seq<char>, u8)> {
    entries.map_values(|e: (Chord, String, u8)| entry_view(e))
}

/// Whether some entry already shows `next`.
fn has_entry(entries: &Vec<(Chord, String, u8)>, next: Chord) -> (found: bool)
    ensures
        found == exists|k: int| 0 <= k < entries@.len() && #[trigger] entries@[k].0 == next,
{
    let mut k: usize = 0;
    while k < entries.len()
        invariant
            k <= entries@.len(),
            forall|m: int| 0 <= m < k ==> #[trigger] entries@[m].0 != next,
        decreases entries@.len() - k,
    {
        if entries[k].0 == next {
            return true;
        }
        k = k + 1;
    }
    false
}

/// The first `n` chords of `keys`.
fn take_keys(keys: &[Chord], n: usize) -> (prefix: Vec<Chord>)
    requires
        n <= keys@.len(),
    ensures
        prefix@ == keys@.take(n as int),
{
    let mut prefix: Vec<Chord> = Vec::new();
    let mut i: usize = 0;
    while i < n
        invariant
            n <= keys@.len(),
            i <= n,
            prefix@ == keys@.take(i as int),
        decreases n - i,
    {
        prefix.push(keys[i]);
        i = i + 1;
        assert(prefix@ =~= keys@.take(i as int));
    }
    prefix
}

/// The label of the entry that `keys` of row `b` opens: a leaf shows the
/// live label `live` or the table's label without the submenu's word; a
/// branch is named after the submenu it leads into.
fn make_label(typed: &[Chord], b: &Binding, keys: &[Chord], live: Option<&'static str>) -> (label: String)
    requires
        continues(typed@, keys@),
    ensures
        keys@.len() == typed@.len() + 1 ==> label@ == leaf_label(typed@, b@, opt_str(live)),
        keys@.len() != typed@.len() + 1 ==> label@ == branch_label(typed@, keys@),
{
    if keys.len() == typed.len() + 1 {
        match live {
            Some(l) => l.to_owned(),
            None => strip_submenu_word(typed, b.label).to_owned(),
        }
    } else {
        let lead = take_keys(keys, typed.len() + 1);
        let mut label = match submenu_word(lead.as_slice()) {
            Some(word) => word.to_owned(),
            None => "more".to_owned(),
        };
        label.append("…");
        label
    }
}

/// The which-key entries for `typed` on `place`: the next key of every
/// binding that continues it, once each, in table order, with its label
/// and its semantic section.
#[verifier::rlimit(50)]
fn menu_entries_with_sections<F: Fn(Action) -> Option<&'static str>>(
    place: Where,
    typed: &[Chord],
    relabel: F,
) -> (entries: Vec<(Chord, String, u8)>)
    requires
        forall|a: Action| call_requires(relabel, (a,)),
    ensures
        menu_listing(relabel, place, typed@, entries_view(entries@)),
{
    let table = bindings();
    let ghost t = binding_table();
    let ghost n = typed@.len() as int;
    let mut entries: Vec<(Chord, String, u8)> = Vec::new();
    let ghost mut w: Seq<(int, int)> = Seq::empty();
    let mut i: usize = 0;
    while i < table.len()
        invariant
            t == table_view(table@),
            t == binding_table(),
            n == typed@.len(),
            forall|a: Action| call_requires(relabel, (a,)),
            i <= table@.len(),
            w.len() == entries@.len(),
            forall|k: int| 0 <= k < w.len() ==> opens_entry(t, place, typed@, #[trigger] w[k].0, w[k].1) && w[k].0 < i,
            forall|k1: int, k2: int| 0 <= k1 < k2 < w.len() ==> lex_before(#[trigger] w[k1].0, w[k1].1, #[trigger] w[k2].0, w[k2].1),
            forall|i2: int, j2: int| #[trigger] opens_entry(t, place, typed@, i2, j2) && i2 < i ==> exists|k: int| 0 <= k < w.len() && #[trigger] w[k] == (i2, j2),
            forall|i2: int, j2: int| #[trigger] continuing(t, place, typed@, i2, j2) && i2 < i
                ==> exists|k: int| 0 <= k < entries@.len() && #[trigger] entries@[k].0 == next_chord(t, typed@, i2, j2),
            forall|k: int| 0 <= k < w.len() ==> {
                &&& #[trigger] entries@[k].0 == next_chord(t, typed@, w[k].0, w[k].1)
                &&& entries@[k].2 == t[w[k].0].menu_section
                &&& entry_label(relabel, t, typed@, w[k].0, w[k].1, entries@[k].1@)
            },
        decreases table@.len() - i,
    {
        let b = &table[i];
        assert(t[i as int] == b@);
        if applies_on(b, place) {
            let mut j: usize = 0;
            while j < b.keys.len()
                invariant
                    t == table_view(table@),
                    t == binding_table(),
                    n == typed@.len(),
                    forall|a: Action| call_requires(relabel, (a,)),
                    i < table@.len(),
                    b == &table@[i as int],
                    t[i as int] == b@,
                    applies(b@, place),
                    j <= b.keys@.len(),
                    w.len() == entries@.len(),
                    forall|k: int| 0 <= k < w.len() ==> opens_entry(t, place, typed@, #[trigger] w[k].0, w[k].1) && lex_before(w[k].0, w[k].1, i as int, j as int),
                    forall|k1: int, k2: int| 0 <= k1 < k2 < w.len() ==> lex_before(#[trigger] w[k1].0, w[k1].1, #[trigger] w[k2].0, w[k2].1),
                    forall|i2: int, j2: int| #[trigger] opens_entry(t, place, typed@, i2, j2) && lex_before(i2, j2, i as int, j as int) ==> exists|k: int| 0 <= k < w.len() && #[trigger] w[k] == (i2, j2),
                    forall|i2: int, j2: int| #[trigger] continuing(t, place, typed@, i2, j2) && lex_before(i2, j2, i as int, j as int)
                        ==> exists|k: int| 0 <= k < entries@.len() && #[trigger] entries@[k].0 == next_chord(t, typed@, i2, j2),
                    forall|k: int| 0 <= k < w.len() ==> {
                        &&& #[trigger] entries@[k].0 == next_chord(t, typed@, w[k].0, w[k].1)
                        &&& entries@[k].2 == t[w[k].0].menu_section
                        &&& entry_label(relabel, t, typed@, w[k].0, w[k].1, entries@[k].1@)
                    },
                decreases b.keys@.len() - j,
            {
                let keys = b.keys[j].as_slice();
                assert(b@.keys[j as int] == keys@);
                let ghost old_entries = entries@;
                let ghost old_w = w;
                if continues_keys(typed, keys) {
                    let next = keys[typed.len()];
                    assert(next == next_chord(t, typed@, i as int, j as int));
                    assert(continuing(t, place, typed@, i as int, j as int));
                    if !has_entry(&entries, next) {
                        proof {
                            assert(opens_entry(t, place, typed@, i as int, j as int)) by {
                                assert forall|i2: int, j2: int|
                                    continuing(t, place, typed@, i2, j2) && lex_before(i2, j2, i as int, j as int)
                                        implies #[trigger] next_chord(t, typed@, i2, j2) != next_chord(t, typed@, i as int, j as int) by {
                                    let k = choose|k: int| 0 <= k < entries@.len() && #[trigger] entries@[k].0 == next_chord(t, typed@, i2, j2);
                                    assert(entries@[k].0 == next_chord(t, typed@, i2, j2));
                                }
                            }
                        }
                        let live = if keys.len() == typed.len() + 1 { relabel(b.action) } else { None };
                        let label = make_label(typed, b, keys, live);
                        proof {
                            if keys@.len() == typed@.len() + 1 {
                                assert(call_ensures(relabel, (t[i as int].action,), live));
                                assert(label@ == leaf_label(typed@, t[i as int], opt_str(live)));
                            }
                            assert(entry_label(relabel, t, typed@, i as int, j as int, label@));
                        }
                        entries.push((next, label, b.menu_section));
                        proof {
                            w = w.push((i as int, j as int));
                        }
                    }
                }
                proof {
                    assert forall|k: int| 0 <= k < old_w.len() implies #[trigger] w[k] == old_w[k] && entries@[k] == old_entries[k] by {}
                    assert forall|i2: int, j2: int| #[trigger] opens_entry(t, place, typed@, i2, j2) && lex_before(i2, j2, i as int, j as int + 1)
                        implies exists|k: int| 0 <= k < w.len() && #[trigger] w[k] == (i2, j2) by {
                        if lex_before(i2, j2, i as int, j as int) {
                            let k = choose|k: int| 0 <= k < old_w.len() && #[trigger] old_w[k] == (i2, j2);
                            assert(w[k] == (i2, j2));
                        } else {
                            assert(i2 == i && j2 == j);
                            if has_entry_chord(old_entries, next_chord(t, typed@, i2, j2)) {
                                let k = choose|k: int| 0 <= k < old_entries.len() && #[trigger] old_entries[k].0 == next_chord(t, typed@, i2, j2);
                                assert(opens_entry(t, place, typed@, old_w[k].0, old_w[k].1));
                                assert(lex_before(old_w[k].0, old_w[k].1, i2, j2));
                                assert(continuing(t, place, typed@, old_w[k].0, old_w[k].1));
                                assert(next_chord(t, typed@, old_w[k].0, old_w[k].1) != next_chord(t, typed@, i2, j2));
                            }
                            assert(w[w.len() - 1] == (i2, j2));
                        }
                    }
                    assert forall|i2: int, j2: int| #[trigger] continuing(t, place, typed@, i2, j2) && lex_before(i2, j2, i as int, j as int + 1)
                        implies exists|k: int| 0 <= k < entries@.len() && #[trigger] entries@[k].0 == next_chord(t, typed@, i2, j2) by {
                        if lex_before(i2, j2, i as int, j as int) {
                            let k = choose|k: int| 0 <= k < old_entries.len() && #[trigger] old_entries[k].0 == next_chord(t, typed@, i2, j2);
                            assert(entries@[k].0 == next_chord(t, typed@, i2, j2));
                        } else {
                            assert(i2 == i && j2 == j);
                            if has_entry_chord(old_entries, next_chord(t, typed@, i2, j2)) {
                                let k = choose|k: int| 0 <= k < old_entries.len() && #[trigger] old_entries[k].0 == next_chord(t, typed@, i2, j2);
                                assert(entries@[k].0 == next_chord(t, typed@, i2, j2));
                            } else {
                                assert(entries@[entries@.len() - 1].0 == next_chord(t, typed@, i2, j2));
                            }
                        }
                    }
                }
                j = j + 1;
            }
        }
        proof {
            assert forall|i2: int, j2: int| lex_before(i2, j2, i as int, b@.keys.len() as int) && continuing(t, place, typed@, i2, j2)
                implies i2 < i + 1 by {}
            assert forall|i2: int, j2: int| #[trigger] continuing(t, place, typed@, i2, j2) && i2 < i + 1
                implies lex_before(i2, j2, i as int, b@.keys.len() as int) by {
                if i2 == i {
                    assert(applies(b@, place));
                }
            }
        }
        i = i + 1;
    }
    proof {
        assert forall|i2: int, j2: int| #[trigger] opens_entry(t, place, typed@, i2, j2)
            implies exists|k: int| 0 <= k < w.len() && #[trigger] w[k] == (i2, j2) by {
            assert(i2 < table@.len());
        }
        let view = entries_view(entries@);
        assert forall|k: int| 0 <= k < w.len() implies {
            &&& #[trigger] view[k].0 == next_chord(t, typed@, w[k].0, w[k].1)
            &&& view[k].2 == t[w[k].0].menu_section
            &&& entry_label(relabel, t, typed@, w[k].0, w[k].1, view[k].1)
        } by {
            assert(view[k] == entry_view(entries@[k]));
        }
        assert(listing_at(relabel, t, place, typed@, view, w));
    }
    entries
}

/// Some entry shows `next`.
pub open spec fn has_entry_chord(entries: Seq<(Chord, String, u8)>, next: Chord) -> bool {
    exists|k: int| 0 <= k < entries.len() && #[trigger] entries[k].0 == next
}

/// The table's labels, unchanged.
pub fn no_relabel(action: Action) -> (live: Option<&'static str>)
    ensures
        live is None,
{
    None
}

/// The which-key entries as chords, so a click on a drawn entry can be the
/// key it shows typed. `relabel` may give an action's entry a live label in
/// place of the table's.
pub fn menu_entries<F: Fn(Action) -> Option<&'static str>>(
    place: Where,
    typed: &[Chord],
    relabel: F,
) -> (entries: Vec<(Chord, String)>)
    requires
        forall|a: Action| call_requires(relabel, (a,)),
    ensures
        exists|listing: Seq<(Chord, Seq<char>, u8)>| {
            &&& menu_listing(relabel, place, typed@, listing)
            &&& listing.len() == entries@.len()
            &&& forall|k: int| 0 <= k < listing.len() ==> (#[trigger] entries@[k]).0 == listing[k].0 && entries@[k].1@ == listing[k].1
        },
{
    let with_sections = menu_entries_with_sections(place, typed, relabel);
    let ghost listing = entries_view(with_sections@);
    let mut entries: Vec<(Chord, String)> = Vec::new();
    let mut k: usize = 0;
    while k < with_sections.len()
        invariant
            listing == entries_view(with_sections@),
            k <= with_sections@.len(),
            entries@.len() == k,
            forall|m: int| 0 <= m < k ==> (#[trigger] entries@[m]).0 == listing[m].0 && entries@[m].1@ == listing[m].1,
        decreases with_sections@.len() - k,
    {
        let (chord, label, _) = &with_sections[k];
        let label = label.clone();
        entries.push((*chord, label));
        k = k + 1;
    }
    entries
}

/// The which-key entries for `typed` on `place` with the table's labels, as
/// the key each shows and its label: the next key of every binding that
/// continues `typed`, in table order.
pub fn menu(place: Where, typed: &[Chord]) -> (entries: Vec<(String, String)>)
    ensures
        exists|listing: Seq<(Chord, Seq<char>, u8)>| {
            &&& menu_listing(no_relabel, place, typed@, listing)
            &&& listing.len() == entries@.len()
            &&& forall|k: int| 0 <= k < listing.len() ==> (#[trigger] entries@[k]).0@ == chord_text(listing[k].0, "Space"@) && entries@[k].1@ == listing[k].1
        },
{
    let chords = menu_entries(place, typed, no_relabel);
    let ghost listing = choose|listing: Seq<(Chord, Seq<char>, u8)>| {
        &&& menu_listing(no_relabel, place, typed@, listing)
        &&& listing.len() == chords@.len()
        &&& forall|k: int| 0 <= k < listing.len() ==> (#[trigger] chords@[k]).0 == listing[k].0 && chords@[k].1@ == listing[k].1
    };
    let mut entries: Vec<(String, String)> = Vec::new();
    let mut k: usize = 0;
    while k < chords.len()
        invariant
            listing.len() == chords@.len(),
            forall|m: int| 0 <= m < listing.len() ==> (#[trigger] chords@[m]).0 == listing[m].0 && chords@[m].1@ == listing[m].1,
            k <= chords@.len(),
            entries@.len() == k,
            forall|m: int| 0 <= m < k ==> (#[trigger] entries@[m]).0@ == chord_text(listing[m].0, "Space"@) && entries@[m].1@ == listing[m].1,
        decreases chords@.len() - k,
    {
        let (chord, label) = &chords[k];
        assert(chords@[k as int].0 == listing[k as int].0);
        let key = chord.to_string();
        let label = label.clone();
        entries.push((key, label));
        k = k + 1;
    }
    entries
}

/// One actionable entry in a semantic which-key section.
pub struct MenuEntry {
    chord: Chord,
    label: String,
}

impl View for MenuEntry {
    type V = (Chord, Seq<char>);

    closed spec fn view(&self) -> (Chord, Seq<char>) {
        (self.chord, self.label@)
    }
}

impl MenuEntry {
    /// The key the entry is typed with.
    pub fn chord(&self) -> (chord: Chord)
        ensures
            chord == self@.0,
    {
        self.chord
    }

    /// The key as the menu shows it.
    pub fn key(&self) -> (key: String)
        ensures
            key@ == chord_text(self@.0, "Space"@),
    {
        self.chord.to_string()
    }

    /// What the entry does.
    pub fn label(&self) -> (label: &str)
        ensures
            label@ == self@.1,
    {
        self.label.as_str()
    }
}

/// One semantic group in a which-key card.
pub struct MenuSection {
    entries: Vec<MenuEntry>,
}

impl View for MenuSection {
    type V = Seq<(Chord, Seq<char>)>;

    closed spec fn view(&self) -> Seq<(Chord, Seq<char>)> {
        self.entries@.map_values(|e: MenuEntry| e@)
    }
}

impl MenuSection {
    /// The section's entries, in menu order.
    pub fn entries(&self) -> (entries: &[MenuEntry])
        ensures
            entries@.map_values(|e: MenuEntry| e@) == self@,
    {
        self.entries.as_slice()
    }
}

/// Entries grouped into maximal runs of equal section number, in order.
pub open spec fn group_runs(items: Seq<(Chord, Seq<char>, u8)>) -> Seq<Seq<(Chord, Seq<char>)>>
    decreases items.len(),
{
    if items.len() == 0 {
        Seq::empty()
    } else {
        let rest = group_runs(items.drop_last());
        let last = items.last();
        if items.len() > 1 && items[items.len() - 2].2 == last.2 {
            rest.update(rest.len() - 1, rest.last().push((last.0, last.1)))
        } else {
            rest.push(seq![(last.0, last.1)])
        }
    }
}

/// The listing with its section numbers kept when `sectioned`, and all in
/// one section otherwise.
pub open spec fn sectioned(items: Seq<(Chord, Seq<char>, u8)>, sectioned: bool) -> Seq<(Chord, Seq<char>, u8)> {
    items.map_values(|e: (Chord, Seq<char>, u8)| (e.0, e.1, if sectioned { e.2 } else { 0u8 }))
}

/// Sections by their entries.
pub open spec fn sections_view(sections: Seq<MenuSection>) -> Seq<Seq<(Chord, Seq<char>)>> {
    sections.map_values(|s: MenuSection| s@)
}

proof fn lemma_group_runs_nonempty(items: Seq<(Chord, Seq<char>, u8)>)
    requires
        items.len() > 0,
    ensures
        group_runs(items).len() > 0,
    decreases items.len(),
{
    if items.len() > 1 {
        lemma_group_runs_nonempty(items.drop_last());
    }
}

/// Which-key sections in binding-table order: the listing of `typed` on
/// `place` cut into runs of one semantic section; a first-level menu is
/// one section.
pub fn menu_sections<F: Fn(Action) -> Option<&'static str>>(
    place: Where,
    typed: &[Chord],
    relabel: F,
) -> (sections: Vec<MenuSection>)
    requires
        forall|a: Action| call_requires(relabel, (a,)),
    ensures
        exists|listing: Seq<(Chord, Seq<char>, u8)>| {
            &&& menu_listing(relabel, place, typed@, listing)
            &&& sections_view(sections@) == group_runs(sectioned(listing, typed@.len() > 1))
        },
{
    let entries = menu_entries_with_sections(place, typed, relabel);
    let ghost items = sectioned(entries_view(entries@), typed@.len() > 1);
    let mut sections: Vec<MenuSection> = Vec::new();
    let mut last_section: u8 = 0;
    let mut k: usize = 0;
    while k < entries.len()
        invariant
            items == sectioned(entries_view(entries@), typed@.len() > 1),
            items.len() == entries@.len(),
            k <= entries@.len(),
            sections_view(sections@) == group_runs(items.take(k as int)),
            k > 0 ==> last_section == items[k - 1].2,
        decreases entries@.len() - k,
    {
        let (chord, label, section) = &entries[k];
        let section = if typed.len() > 1 { *section } else { 0 };
        let entry = MenuEntry { chord: *chord, label: label.clone() };
        assert(items[k as int] == (*chord, label@, section));
        let ghost before = sections_view(sections@);
        proof {
            assert(items.take(k as int + 1).drop_last() =~= items.take(k as int));
        }
        if k == 0 || last_section != section {
            let ghost shown = entry@;
            let section_entries = vec![entry];
            let fresh = MenuSection { entries: section_entries };
            assert(fresh@ =~= seq![shown]);
            sections.push(fresh);
            proof {
                assert(sections_view(sections@) =~= before.push(seq![(*chord, label@)]));
            }
        } else {
            proof {
                lemma_group_runs_nonempty(items.take(k as int));
            }
            let last = sections.len() - 1;
            let mut current = sections.pop().unwrap();
            let ghost old_current = current@;
            current.entries.push(entry);
            assert(current@ =~= old_current.push((*chord, label@)));
            sections.push(current);
            proof {
                assert(sections_view(sections@) =~= before.update(last as int, before[last as int].push((*chord, label@))));
            }
        }
        last_section = section;
        k = k + 1;
    }
    proof {
        assert(items.take(entries@.len() as int) =~= items);
    }
    sections
}

} // verus!

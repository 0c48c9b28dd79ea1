//! The persistent menu bar: its stable workflow menus, the comparison
//! endpoints at its right, one-level fly-outs, and the geometry that
//! drawing, the mouse and the keyboard share.

use vstd::prelude::*;

use crate::bindings::{
    binding_table, continues, continues_keys, first_keys, menu_spell, opt_keys, same_keys, sc, spec_first_keys, spelled,
    Action, Chord, Key, Where,
};
use crate::keys::{spec_from_event, KeyCode, KeyPress};
use crate::menu::{add_signed_clamped, clamp_add_signed, DiffMode};
use crate::picker::PickerKind;
use crate::text::{display_width, text_width};

verus! {

/// Below this width the bar shows only the application menu.
pub const FULL_LABEL_WIDTH: usize = 29;

/// Cells kept free before the comparison endpoints.
pub const TAIL_GAP: usize = 2;

/// The screen row a root menu opens on.
pub const MENU_TOP: usize = 1;

/// Rows the status line keeps at the foot.
pub const STATUS_ROWS: usize = 1;

/// Rows a menu's border takes.
pub const BORDER_ROWS: usize = 2;

/// A menu on the bar.
#[derive(Debug, Clone, Copy, PartialEq, Eq, Structural)]
pub enum Root {
    App,
    Layout,
    Go,
    Review,
    Diff,
}

/// The bar's menus, left to right.
pub open spec fn root_at(i: int) -> Root {
    if i <= 0 {
        Root::App
    } else if i == 1 {
        Root::Layout
    } else if i == 2 {
        Root::Go
    } else if i == 3 {
        Root::Review
    } else {
        Root::Diff
    }
}

/// What the bar shows for a menu.
pub open spec fn spec_root_label(root: Root) -> Seq<char> {
    match root {
        Root::App => "☰"@,
        Root::Layout => "Layout"@,
        Root::Go => "Go"@,
        Root::Review => "Review"@,
        Root::Diff => "Diff"@,
    }
}

/// The title over a menu when it is open.
pub open spec fn spec_root_title(root: Root) -> Seq<char> {
    match root {
        Root::App => "Fathomable"@,
        Root::Layout => "Layout"@,
        Root::Go => "Go"@,
        Root::Review => "Review"@,
        Root::Diff => "Diff"@,
    }
}

impl Root {
    /// The menu at position `i` on the bar.
    pub fn at(i: usize) -> (root: Root)
        requires
            i < 5,
        ensures
            root == root_at(i as int),
    {
        if i == 0 {
            Root::App
        } else if i == 1 {
            Root::Layout
        } else if i == 2 {
            Root::Go
        } else if i == 3 {
            Root::Review
        } else {
            Root::Diff
        }
    }

    /// What the bar shows for the menu.
    pub fn label(self) -> (label: &'static str)
        ensures
            label@ == spec_root_label(self),
    {
        match self {
            Root::App => "☰",
            Root::Layout => "Layout",
            Root::Go => "Go",
            Root::Review => "Review",
            Root::Diff => "Diff",
        }
    }

    /// The title over the menu when it is open.
    pub fn title(self) -> (title: &'static str)
        ensures
            title@ == spec_root_title(self),
    {
        match self {
            Root::App => "Fathomable",
            Root::Layout => "Layout",
            Root::Go => "Go",
            Root::Review => "Review",
            Root::Diff => "Diff",
        }
    }
}

/// A fly-out menu.
#[derive(Debug, Clone, Copy, PartialEq, Eq, Structural)]
pub enum Submenu {
    Layout,
    Help,
    Go,
    Review,
    Diff,
}

/// The title over a fly-out.
pub open spec fn spec_submenu_title(submenu: Submenu) -> Seq<char> {
    match submenu {
        Submenu::Layout => "Layout"@,
        Submenu::Help => "Help"@,
        Submenu::Go => "Go"@,
        Submenu::Review => "Review"@,
        Submenu::Diff => "Diff"@,
    }
}

impl Submenu {
    /// The title over the fly-out.
    pub fn title(self) -> (title: &'static str)
        ensures
            title@ == spec_submenu_title(self),
    {
        match self {
            Submenu::Layout => "Layout",
            Submenu::Help => "Help",
            Submenu::Go => "Go",
            Submenu::Review => "Review",
            Submenu::Diff => "Diff",
        }
    }
}

/// What a menu row runs.
#[derive(Debug, Clone, Copy, PartialEq, Eq, Structural)]
pub enum Target {
    Action(Action),
    ReviewResolved,
    ReviewFile,
    GettingStarted,
    Doctor,
    Licenses,
    Status,
    About,
    Quit,
    Submenu(Submenu),
}

/// `:` and then each character of `word`, all bare: the colon command
/// that runs `word`.
pub open spec fn colon_keys(word: Seq<char>) -> Seq<Chord> {
    seq![sc(':')] + word.map_values(|ch: char| sc(ch))
}

/// The keys of the colon command `word`.
pub fn colon(word: &str) -> (keys: Vec<Chord>)
    ensures
        keys@ == colon_keys(word@),
{
    let n = word.unicode_len();
    let mut keys: Vec<Chord> = Vec::new();
    keys.push(Chord { key: Key::Char(':'), ctrl: false, alt: false, shift: false });
    let mut i: usize = 0;
    while i < n
        invariant
            n == word@.len(),
            i <= n,
            keys@ == seq![sc(':')] + word@.take(i as int).map_values(|ch: char| sc(ch)),
        decreases n - i,
    {
        let ch = word.get_char(i);
        keys.push(Chord { key: Key::Char(ch), ctrl: false, alt: false, shift: false });
        assert(word@.take(i as int + 1).map_values(|ch: char| sc(ch)) =~= word@.take(i as int).map_values(|ch: char| sc(ch)).push(sc(ch)));
        i = i + 1;
    }
    assert(word@.take(n as int) =~= word@);
    keys
}

/// The keys a menu row shows and its shortcut types: the bar's own short
/// forms for the two file pickers (Space f for a file, Space F i for one
/// among the ignored too), else an action's first sequence in the view, a
/// fixed key for the review commands, the colon command for the
/// application's commands, none for a fly-out.
pub open spec fn spec_target_keys(target: Target) -> Option<Seq<Chord>> {
    match target {
        Target::Action(Action::PickFile) => Some(seq![sc(' '), sc('f')]),
        Target::Action(Action::PickAnyFile) => Some(seq![sc(' '), sc('F'), sc('i')]),
        Target::Action(action) => spec_first_keys(binding_table(), Where::View, action),
        Target::ReviewResolved => Some(seq![sc('x')]),
        Target::ReviewFile => Some(seq![sc('s')]),
        Target::GettingStarted => Some(colon_keys("help"@)),
        Target::Doctor => Some(colon_keys("doctor"@)),
        Target::Licenses => Some(colon_keys("licenses"@)),
        Target::Status => Some(colon_keys("status"@)),
        Target::About => Some(colon_keys("about"@)),
        Target::Quit => Some(colon_keys("q"@)),
        Target::Submenu(_) => None,
    }
}

/// The keys a menu row shows.
pub fn target_keys(target: Target) -> (keys: Option<Vec<Chord>>)
    ensures
        opt_keys(keys) == spec_target_keys(target),
{
    match target {
        Target::Action(Action::PickFile) => {
            let mut keys: Vec<Chord> = Vec::new();
            keys.push(Chord { key: Key::Char(' '), ctrl: false, alt: false, shift: false });
            keys.push(Chord { key: Key::Char('f'), ctrl: false, alt: false, shift: false });
            assert(keys@ =~= seq![sc(' '), sc('f')]);
            Some(keys)
        },
        Target::Action(Action::PickAnyFile) => {
            let mut keys: Vec<Chord> = Vec::new();
            keys.push(Chord { key: Key::Char(' '), ctrl: false, alt: false, shift: false });
            keys.push(Chord { key: Key::Char('F'), ctrl: false, alt: false, shift: false });
            keys.push(Chord { key: Key::Char('i'), ctrl: false, alt: false, shift: false });
            assert(keys@ =~= seq![sc(' '), sc('F'), sc('i')]);
            Some(keys)
        },
        Target::Action(action) => first_keys(Where::View, action),
        Target::ReviewResolved => {
            let mut keys: Vec<Chord> = Vec::new();
            keys.push(Chord { key: Key::Char('x'), ctrl: false, alt: false, shift: false });
            assert(keys@ =~= seq![sc('x')]);
            Some(keys)
        },
        Target::ReviewFile => {
            let mut keys: Vec<Chord> = Vec::new();
            keys.push(Chord { key: Key::Char('s'), ctrl: false, alt: false, shift: false });
            assert(keys@ =~= seq![sc('s')]);
            Some(keys)
        },
        Target::GettingStarted => Some(colon("help")),
        Target::Doctor => Some(colon("doctor")),
        Target::Licenses => Some(colon("licenses")),
        Target::Status => Some(colon("status")),
        Target::About => Some(colon("about")),
        Target::Quit => Some(colon("q")),
        Target::Submenu(_) => None,
    }
}

/// The shortcut column of a row: its keys, spelled compactly, or nothing.
pub open spec fn spec_hint(target: Target) -> Seq<char> {
    match spec_target_keys(target) {
        Some(keys) => spelled(keys, "Sp"@),
        None => Seq::empty(),
    }
}

/// The shortcut column of a row.
fn hint_for(target: Target) -> (hint: String)
    ensures
        hint@ == spec_hint(target),
{
    match target_keys(target) {
        Some(keys) => menu_spell(keys.as_slice()),
        None => String::new(),
    }
}

/// One row of a menu that runs something.
pub struct Item {
    pub label: String,
    pub hint: String,
    pub enabled: bool,
    pub checked: bool,
    /// This row is the selected member of a mutually exclusive choice.
    pub active: bool,
    pub target: Target,
}

/// A menu row as the contracts see it.
pub struct ItemView {
    pub label: Seq<char>,
    pub hint: Seq<char>,
    pub enabled: bool,
    pub checked: bool,
    pub active: bool,
    pub target: Target,
}

impl View for Item {
    type V = ItemView;

    open spec fn view(&self) -> ItemView {
        ItemView {
            label: self.label@,
            hint: self.hint@,
            enabled: self.enabled,
            checked: self.checked,
            active: self.active,
            target: self.target,
        }
    }
}

impl Item {
    /// A row that runs `action`, available and checked as the viewer says.
    pub fn action(action: Action, label: &str, enabled: bool, checked: bool) -> (item: Item)
        ensures
            item@ == (ItemView {
                label: label@,
                hint: spec_hint(Target::Action(action)),
                enabled,
                checked,
                active: false,
                target: Target::Action(action),
            }),
    {
        let target = Target::Action(action);
        Item { label: label.to_owned(), hint: hint_for(target), enabled, checked, active: false, target }
    }

    /// A row that runs an application command; always available.
    pub fn command(label: &str, target: Target) -> (item: Item)
        ensures
            item@ == (ItemView { label: label@, hint: spec_hint(target), enabled: true, checked: false, active: false, target }),
    {
        Item { label: label.to_owned(), hint: hint_for(target), enabled: true, checked: false, active: false, target }
    }

    /// A row that opens a fly-out.
    pub fn submenu(label: &str, submenu: Submenu) -> (item: Item)
        ensures
            item@ == (ItemView {
                label: label@,
                hint: spec_hint(Target::Submenu(submenu)),
                enabled: true,
                checked: false,
                active: false,
                target: Target::Submenu(submenu),
            }),
    {
        Item::command(label, Target::Submenu(submenu))
    }

    /// A member of a mutually exclusive choice: marked when selected,
    /// never checked.
    pub fn choice(action: Action, label: &str, enabled: bool, active: bool) -> (item: Item)
        ensures
            item@ == (ItemView {
                label: label@,
                hint: spec_hint(Target::Action(action)),
                enabled,
                checked: false,
                active,
                target: Target::Action(action),
            }),
    {
        let item = Item::action(action, label, enabled, false);
        Item { active, checked: false, ..item }
    }
}

/// A menu row.
pub enum Row {
    Item(Item),
    Separator,
}

/// A menu row as the contracts see it.
pub enum RowView {
    Item(ItemView),
    Separator,
}

impl View for Row {
    type V = RowView;

    open spec fn view(&self) -> RowView {
        match self {
            Row::Item(item) => RowView::Item(item@),
            Row::Separator => RowView::Separator,
        }
    }
}

/// Rows by their views.
pub open spec fn rows_view(rows: Seq<Row>) -> Seq<RowView> {
    rows.map_values(|r: Row| r@)
}

/// A row is an item that can run.
pub open spec fn row_enabled(rows: Seq<RowView>, i: int) -> bool {
    0 <= i < rows.len() && match rows[i] {
        RowView::Item(item) => item.enabled,
        RowView::Separator => false,
    }
}

impl Row {
    /// The item on this row, unless it is a separator.
    pub fn item(&self) -> (item: Option<&Item>)
        ensures
            match self@ {
                RowView::Item(v) => item is Some && item->0@ == v,
                RowView::Separator => item is None,
            },
    {
        match self {
            Row::Item(item) => Some(item),
            Row::Separator => None,
        }
    }
}

/// What the keyboard is on in an open menu.
#[derive(Debug, Clone, Copy, PartialEq, Eq, Structural)]
pub enum Focused {
    /// The menu's label on the bar.
    Label,
    /// A row of the root menu.
    Root(usize),
    /// A row of the open fly-out.
    Child(usize),
}

/// An open menu: which one, where the keyboard is, the fly-out and the
/// row it hangs from, both scroll offsets, and the chords typed so far.
pub struct Open {
    pub root: Root,
    pub focused: Focused,
    pub submenu: Option<(Submenu, usize)>,
    pub root_scroll: usize,
    pub child_scroll: usize,
    typed: Vec<Chord>,
}

/// An open menu as the contracts see it.
pub struct OpenView {
    pub root: Root,
    pub focused: Focused,
    pub submenu: Option<(Submenu, usize)>,
    pub root_scroll: int,
    pub child_scroll: int,
    pub typed: Seq<Chord>,
}

impl View for Open {
    type V = OpenView;

    closed spec fn view(&self) -> OpenView {
        OpenView {
            root: self.root,
            focused: self.focused,
            submenu: self.submenu,
            root_scroll: self.root_scroll as int,
            child_scroll: self.child_scroll as int,
            typed: self.typed@,
        }
    }
}

impl Open {
    /// The chords typed so far in the open menu.
    pub fn typed(&self) -> (typed: &[Chord])
        ensures
            typed@ == self@.typed,
    {
        self.typed.as_slice()
    }
}

/// The menu bar: whether it is shown, and the menu open on it.
pub struct MenuBar {
    shown: bool,
    open: Option<Open>,
}

/// The menu bar as the contracts see it.
pub struct MenuBarView {
    pub shown: bool,
    pub open: Option<OpenView>,
}

impl View for MenuBar {
    type V = MenuBarView;

    closed spec fn view(&self) -> MenuBarView {
        MenuBarView {
            shown: self.shown,
            open: match self.open {
                Some(o) => Some(o@),
                None => None,
            },
        }
    }
}

/// A menu just opened from its label: the keyboard on the label, no
/// fly-out, nothing scrolled or typed.
pub open spec fn freshly_open(root: Root) -> OpenView {
    OpenView {
        root,
        focused: Focused::Label,
        submenu: None,
        root_scroll: 0,
        child_scroll: 0,
        typed: Seq::empty(),
    }
}

impl MenuBar {
    /// A bar, shown or hidden, with no menu open.
    pub fn new(shown: bool) -> (bar: MenuBar)
        ensures
            bar@ == (MenuBarView { shown, open: None }),
    {
        MenuBar { shown, open: None }
    }

    /// Whether the bar is shown.
    pub fn shown(&self) -> (shown: bool)
        ensures
            shown == self@.shown,
    {
        self.shown
    }

    /// Shows a hidden bar or hides a shown one; hiding closes its menu.
    pub fn toggle(&mut self)
        ensures
            final(self)@.shown == !old(self)@.shown,
            final(self)@.open == if final(self)@.shown { old(self)@.open } else { None },
    {
        self.shown = !self.shown;
        if !self.shown {
            self.open = None;
        }
    }

    /// The open menu.
    pub fn open(&self) -> (open: Option<&Open>)
        ensures
            match self@.open {
                Some(v) => open is Some && open->0@ == v,
                None => open is None,
            },
    {
        match &self.open {
            Some(o) => Some(o),
            None => None,
        }
    }

    /// The open menu, to change.
    pub fn open_mut(&mut self) -> (open: Option<&mut Open>)
        ensures
            old(self)@.open is None ==> open is None && final(self)@ == old(self)@,
            old(self)@.open is Some ==> open is Some && (*open->0)@ == old(self)@.open->0
                && final(self)@ == (MenuBarView { shown: old(self)@.shown, open: Some((*final(open->0))@) }),
    {
        match &mut self.open {
            Some(o) => Some(o),
            None => None,
        }
    }

    /// Opens `root` from its label.
    pub fn show(&mut self, root: Root)
        ensures
            final(self)@ == (MenuBarView { shown: old(self)@.shown, open: Some(freshly_open(root)) }),
    {
        self.open = Some(Open {
            root,
            focused: Focused::Label,
            submenu: None,
            root_scroll: 0,
            child_scroll: 0,
            typed: Vec::new(),
        });
    }

    /// Closes the open menu.
    pub fn close(&mut self)
        ensures
            final(self)@ == (MenuBarView { shown: old(self)@.shown, open: None }),
    {
        self.open = None;
    }
}

/// Whether a row can run.
fn enabled_at(rows: &[Row], index: usize) -> (enabled: bool)
    ensures
        enabled == row_enabled(rows_view(rows@), index as int),
{
    if index >= rows.len() {
        return false;
    }
    match &rows[index] {
        Row::Item(item) => item.enabled,
        Row::Separator => false,
    }
}

/// The last row in `from..to` that can run.
pub open spec fn last_enabled(rows: Seq<RowView>, from: int, to: int) -> Option<usize>
    decreases to - from,
{
    if to <= from {
        None
    } else if row_enabled(rows, to - 1) {
        Some((to - 1) as usize)
    } else {
        last_enabled(rows, from, to - 1)
    }
}

/// The row the keyboard moves to from `from`: forward, the first row
/// after it that can run (from the top with none); backward, the last
/// one before it (from the bottom with none).
pub open spec fn spec_next_item(rows: Seq<RowView>, from: Option<usize>, delta: isize) -> Option<usize> {
    if delta >= 0 {
        let start: int = match from {
            Some(i) => if i < usize::MAX { i + 1 } else { usize::MAX as int },
            None => 0,
        };
        first_enabled(rows, start, rows.len() as int)
    } else {
        let end: int = match from {
            Some(i) => i as int,
            None => rows.len() as int,
        };
        last_enabled(rows, 0, end)
    }
}

/// The row the keyboard moves to from `from`: forward, the first row that
/// can run after it (from the top with none); backward, the last one
/// before it (from the bottom with none); `None` when there is no such row.
pub fn next_item(rows: &[Row], from: Option<usize>, delta: isize) -> (next: Option<usize>)
    ensures
        next == spec_next_item(rows_view(rows@), from, delta),
        ({
            let rv = rows_view(rows@);
            if delta >= 0 {
                let start: int = match from {
                    Some(i) => if i < usize::MAX { i + 1 } else { usize::MAX as int },
                    None => 0,
                };
                match next {
                    Some(i) => start <= i && row_enabled(rv, i as int)
                        && forall|j: int| start <= j < i ==> !row_enabled(rv, j),
                    None => forall|j: int| start <= j < rv.len() ==> !row_enabled(rv, j),
                }
            } else {
                let end: int = match from {
                    Some(i) => i as int,
                    None => rv.len() as int,
                };
                match next {
                    Some(i) => i < end && row_enabled(rv, i as int)
                        && forall|j: int| i < j < end ==> !row_enabled(rv, j),
                    None => forall|j: int| 0 <= j < end ==> !row_enabled(rv, j),
                }
            }
        }),
{
    let ghost rv = rows_view(rows@);
    if delta >= 0 {
        let start = match from {
            Some(i) => i.saturating_add(1),
            None => 0,
        };
        let mut i = start;
        while i < rows.len()
            invariant
                rv == rows_view(rows@),
                delta >= 0,
                start as int == match from {
                    Some(f) => if f < usize::MAX { f + 1 } else { usize::MAX as int },
                    None => 0,
                },
                start <= i,
                forall|j: int| start <= j < i ==> !row_enabled(rv, j),
                first_enabled(rv, start as int, rv.len() as int) == first_enabled(rv, i as int, rv.len() as int),
            decreases rows@.len() - i,
        {
            if enabled_at(rows, i) {
                return Some(i);
            }
            i = i + 1;
        }
        None
    } else {
        let end = match from {
            Some(i) => i,
            None => rows.len(),
        };
        let mut i = end;
        while i > 0
            invariant
                rv == rows_view(rows@),
                delta < 0,
                end as int == match from {
                    Some(f) => f as int,
                    None => rv.len() as int,
                },
                i <= end,
                forall|j: int| i <= j < end ==> !row_enabled(rv, j),
                last_enabled(rv, 0, end as int) == last_enabled(rv, 0, i as int),
            decreases i,
        {
            if enabled_at(rows, i - 1) {
                return Some(i - 1);
            }
            i = i - 1;
        }
        None
    }
}

/// `a - b`, or zero when `b` exceeds `a`.
pub open spec fn sat_sub(a: int, b: int) -> int {
    if a > b { a - b } else { 0 }
}

/// `x`, held to `usize::MAX`.
pub open spec fn sat(x: int) -> int {
    if x > usize::MAX { usize::MAX as int } else { x }
}

/// The smaller of two integers.
pub open spec fn min(a: int, b: int) -> int {
    if a <= b { a } else { b }
}

/// The larger of two integers.
pub open spec fn max(a: int, b: int) -> int {
    if a >= b { a } else { b }
}

/// The scroll offset that keeps row `selected` in a window of `visible`
/// rows over `total`: moved up to it, or down so it is the last visible
/// row, then held to the last full window.
pub open spec fn spec_keep_visible(scroll: int, selected: int, visible: int, total: int) -> int {
    let moved = if selected < scroll {
        selected
    } else if selected >= sat(scroll + visible) {
        sat_sub(selected, sat_sub(visible, 1))
    } else {
        scroll
    };
    min(moved, sat_sub(total, visible))
}

/// Moves `scroll` so that row `selected` shows in a window of `visible`
/// rows over `total`.
pub fn keep_visible(scroll: &mut usize, selected: usize, visible: usize, total: usize)
    ensures
        *final(scroll) == spec_keep_visible(*old(scroll) as int, selected as int, visible as int, total as int),
{
    if selected < *scroll {
        *scroll = selected;
    } else if selected >= (*scroll).saturating_add(visible) {
        *scroll = selected.saturating_sub(visible.saturating_sub(1));
    }
    let last = total.saturating_sub(visible);
    if *scroll > last {
        *scroll = last;
    }
}

/// Keeping a row visible shows it: after the move, a row that exists
/// stands inside the window of `visible` rows from the new offset.
pub proof fn lemma_keep_visible_shows_the_row(scroll: usize, selected: usize, visible: usize, total: usize)
    requires
        selected < total,
        visible >= 1,
    ensures
        spec_keep_visible(scroll as int, selected as int, visible as int, total as int) <= selected
            < spec_keep_visible(scroll as int, selected as int, visible as int, total as int) + visible,
{
}

/// A menu's label on the bar: the menu, where it starts, how wide it is.
#[derive(Debug, Clone, Copy, PartialEq, Eq, Structural)]
pub struct Label {
    pub root: Root,
    pub x: usize,
    pub width: usize,
}

/// The cells a menu's label takes: its text and a cell each side.
pub open spec fn label_width(root: Root) -> int {
    sat(text_width(spec_root_label(root)) + 2int)
}

/// Where the `i`th label starts: after the labels before it.
pub open spec fn label_x(i: int) -> int
    decreases i,
{
    if i <= 0 { 0 } else { sat(label_x(i - 1) + label_width(root_at(i - 1))) }
}

/// How many menus the bar shows at `width`: all of them, or only the
/// application menu on a narrow bar.
pub open spec fn shown_roots(width: int) -> int {
    if width < FULL_LABEL_WIDTH { 1 } else { 5 }
}

/// The labels on a bar `width` cells wide, left to right.
pub open spec fn spec_labels(width: int) -> Seq<Label> {
    Seq::new(shown_roots(width) as nat, |i: int| Label {
        root: root_at(i),
        x: label_x(i) as usize,
        width: label_width(root_at(i)) as usize,
    })
}

proof fn lemma_label_x_bounded(i: int)
    ensures
        0 <= label_x(i) <= usize::MAX,
    decreases i,
{
    if i > 0 {
        lemma_label_x_bounded(i - 1);
    }
}

/// The labels on a bar `width` cells wide, left to right.
pub fn labels(width: usize) -> (labels: Vec<Label>)
    ensures
        labels@ == spec_labels(width as int),
{
    let count: usize = if width < FULL_LABEL_WIDTH { 1 } else { 5 };
    let mut labels: Vec<Label> = Vec::new();
    let mut x: usize = 0;
    let mut i: usize = 0;
    while i < count
        invariant
            count == shown_roots(width as int),
            i <= count,
            x == label_x(i as int),
            labels@ == spec_labels(width as int).take(i as int),
        decreases count - i,
    {
        let root = Root::at(i);
        let w = display_width(root.label()).saturating_add(2);
        proof {
            lemma_label_x_bounded(i as int);
        }
        labels.push(Label { root, x, width: w });
        assert(labels@ =~= spec_labels(width as int).take(i as int + 1));
        x = x.saturating_add(w);
        i = i + 1;
    }
    assert(spec_labels(width as int).take(count as int) =~= spec_labels(width as int));
    labels
}

/// A label holds a column.
pub open spec fn label_holds(label: Label, column: int) -> bool {
    label.x <= column < label.x + label.width
}

/// The menu of the first label from `i` on, left to right, that holds
/// `column`.
pub open spec fn first_label(ls: Seq<Label>, column: int, i: int) -> Option<Root>
    decreases ls.len() - i,
{
    if i < 0 || i >= ls.len() {
        None
    } else if label_holds(ls[i], column) {
        Some(ls[i].root)
    } else {
        first_label(ls, column, i + 1)
    }
}

/// The menu whose label holds `column` on a bar `width` cells wide.
pub open spec fn spec_label_at(width: int, column: int) -> Option<Root> {
    first_label(spec_labels(width), column, 0)
}

/// The menu whose label holds `column` on a bar `width` cells wide: the
/// first label, left to right, that holds it.
pub fn label_at(width: usize, column: usize) -> (root: Option<Root>)
    ensures
        root == spec_label_at(width as int, column as int),
        ({
            let ls = spec_labels(width as int);
            match root {
                Some(r) => exists|i: int| 0 <= i < ls.len() && label_holds(#[trigger] ls[i], column as int)
                    && ls[i].root == r && forall|j: int| 0 <= j < i ==> !label_holds(#[trigger] ls[j], column as int),
                None => forall|i: int| 0 <= i < ls.len() ==> !label_holds(#[trigger] ls[i], column as int),
            }
        }),
{
    let labels = labels(width);
    let mut i: usize = 0;
    while i < labels.len()
        invariant
            labels@ == spec_labels(width as int),
            i <= labels@.len(),
            forall|j: int| 0 <= j < i ==> !label_holds(#[trigger] labels@[j], column as int),
            spec_label_at(width as int, column as int) == first_label(labels@, column as int, i as int),
        decreases labels@.len() - i,
    {
        let label = labels[i];
        if column >= label.x && column - label.x < label.width {
            assert(label_holds(labels@[i as int], column as int));
            return Some(label.root);
        }
        i = i + 1;
    }
    None
}

/// A comparison endpoint on the bar: its text, where it starts, how wide
/// it is, and the picker a click opens.
pub struct BarLabel {
    pub text: String,
    pub x: usize,
    pub width: usize,
    pub picker: PickerKind,
}

/// An endpoint label as the contracts see it.
pub struct BarLabelView {
    pub text: Seq<char>,
    pub x: int,
    pub width: int,
    pub picker: PickerKind,
}

impl View for BarLabel {
    type V = BarLabelView;

    open spec fn view(&self) -> BarLabelView {
        BarLabelView { text: self.text@, x: self.x as int, width: self.width as int, picker: self.picker }
    }
}

/// An optional endpoint label by its view.
pub open spec fn opt_label_view(label: Option<BarLabel>) -> Option<BarLabelView> {
    match label {
        Some(l) => Some(l@),
        None => None,
    }
}

/// An endpoint label holds a column.
pub open spec fn bar_label_holds(label: BarLabelView, column: int) -> bool {
    label.x <= column < label.x + label.width
}

impl BarLabel {
    /// Whether the label holds `column`.
    pub fn contains(&self, column: usize) -> (inside: bool)
        ensures
            inside == bar_label_holds(self@, column as int),
    {
        column >= self.x && column - self.x < self.width
    }
}

/// The right end of the bar: the blank before the endpoints, then the
/// base and the target, when they fit.
pub struct BarTail {
    pub padding: usize,
    pub base: Option<BarLabel>,
    pub target: Option<BarLabel>,
}

/// The bar's right end as the contracts see it.
pub struct BarTailView {
    pub padding: int,
    pub base: Option<BarLabelView>,
    pub target: Option<BarLabelView>,
}

impl View for BarTail {
    type V = BarTailView;

    open spec fn view(&self) -> BarTailView {
        BarTailView { padding: self.padding as int, base: opt_label_view(self.base), target: opt_label_view(self.target) }
    }
}

/// The picker a click at `column` on the bar's right end opens: the base's,
/// else the target's, when it holds the column.
pub open spec fn spec_tail_picker_at(tail: BarTailView, column: int) -> Option<PickerKind> {
    if tail.base is Some && bar_label_holds(tail.base->0, column) {
        Some(tail.base->0.picker)
    } else if tail.target is Some && bar_label_holds(tail.target->0, column) {
        Some(tail.target->0.picker)
    } else {
        None
    }
}

impl BarTail {
    /// The picker a click at `column` opens.
    pub fn picker_at(&self, column: usize) -> (picker: Option<PickerKind>)
        ensures
            picker == spec_tail_picker_at(self@, column as int),
    {
        if let Some(base) = &self.base {
            if base.contains(column) {
                return Some(base.picker);
            }
        }
        if let Some(target) = &self.target {
            if target.contains(column) {
                return Some(target.picker);
            }
        }
        None
    }

    /// Whether the endpoints fit on the bar.
    pub fn endpoints_rendered(&self) -> (rendered: bool)
        ensures
            rendered == self@.target is Some,
    {
        self.target.is_some()
    }
}

/// Where the labels end on a bar `width` cells wide.
pub open spec fn labels_end(width: int) -> int {
    let n = shown_roots(width);
    sat(label_x(n - 1) + label_width(root_at(n - 1)))
}

/// The bar's right end: the endpoints, base then target four cells apart
/// (only the target when diff mode is off), pushed to the right edge when
/// they fit after the labels with two cells to spare; the blank before
/// them, or the whole rest of the bar when they do not fit.
pub open spec fn spec_bar_tail(width: int, base: Seq<char>, target: Seq<char>, off: bool) -> BarTailView {
    let used = labels_end(width);
    let available = sat_sub(width, used);
    let base_width = text_width(base) as int;
    let target_width = text_width(target) as int;
    let tail_width = if off { target_width } else { sat(sat(base_width + 4) + target_width) };
    let show = sat(tail_width + TAIL_GAP) <= available;
    let padding = sat_sub(available, if show { tail_width } else { 0 });
    let tail_x = sat(used + padding);
    BarTailView {
        padding,
        base: if show && !off {
            Some(BarLabelView { text: base, x: tail_x, width: base_width, picker: PickerKind::ComparisonBase })
        } else {
            None
        },
        target: if show {
            Some(BarLabelView {
                text: target,
                x: if off { tail_x } else { sat(sat(tail_x + base_width) + 4) },
                width: target_width,
                picker: PickerKind::ComparisonTarget,
            })
        } else {
            None
        },
    }
}

/// The bar's right end for the comparison `base`..`target` on a bar
/// `width` cells wide, `off` when diff mode is off.
pub fn bar_tail(width: usize, base: String, target: String, off: bool) -> (tail: BarTail)
    ensures
        tail@ == spec_bar_tail(width as int, base@, target@, off),
{
    let labels = labels(width);
    let last = labels[labels.len() - 1];
    let used = last.x.saturating_add(last.width);
    proof {
        let n = shown_roots(width as int);
        lemma_label_x_bounded(n - 1);
        assert(last == spec_labels(width as int)[n - 1]);
        assert(used == labels_end(width as int));
    }
    let available = width.saturating_sub(used);
    let base_width = display_width(base.as_str());
    let target_width = display_width(target.as_str());
    let tail_width = if off { target_width } else { base_width.saturating_add(4).saturating_add(target_width) };
    let show = tail_width.saturating_add(TAIL_GAP) <= available;
    let padding = available.saturating_sub(if show { tail_width } else { 0 });
    let tail_x = used.saturating_add(padding);
    let target_x = if off { tail_x } else { tail_x.saturating_add(base_width).saturating_add(4) };
    let base_label = if show && !off {
        Some(BarLabel { text: base, x: tail_x, width: base_width, picker: PickerKind::ComparisonBase })
    } else {
        None
    };
    let target_label = if show {
        Some(BarLabel { text: target, x: target_x, width: target_width, picker: PickerKind::ComparisonTarget })
    } else {
        None
    };
    BarTail { padding, base: base_label, target: target_label }
}

/// The repository and worktree centred on the bar, and the picker a click
/// on them opens.
pub struct BarIdentity {
    pub repo: String,
    pub x: usize,
    pub width: usize,
    pub picker: Option<PickerKind>,
}

impl BarIdentity {
    /// Whether the repository's text holds `column`.
    pub fn repo_contains(&self, column: usize) -> (inside: bool)
        ensures
            inside == (self.x <= column < self.x + text_width(self.repo@)),
    {
        column >= self.x && column - self.x < display_width(self.repo.as_str())
    }

    /// The picker a click at `column` opens: the identity's, when its text
    /// holds the column.
    pub fn picker_at(&self, column: usize) -> (picker: Option<PickerKind>)
        ensures
            picker == if self.x <= column < self.x + text_width(self.repo@) { self.picker } else { None },
    {
        if self.repo_contains(column) {
            self.picker
        } else {
            None
        }
    }
}

/// Where an open menu stands on screen: its box, the first row shown, and
/// how many rows show.
#[derive(Debug, Clone, Copy, PartialEq, Eq, Structural)]
pub struct MenuLayout {
    pub x: usize,
    pub y: usize,
    pub width: usize,
    pub height: usize,
    pub scroll: usize,
    pub visible_rows: usize,
}

/// Row `index` of a menu is an item.
pub open spec fn row_is_item(rows: Seq<RowView>, index: int) -> bool {
    0 <= index < rows.len() && rows[index] is Item
}

/// The item row under the screen cell `column`, `row`: inside the box's
/// border, the row at that line from the scroll offset, when it is an
/// item.
pub open spec fn spec_row_at(l: MenuLayout, column: int, row: int, rows: Seq<RowView>) -> Option<usize> {
    if column <= l.x || column + 1 >= l.x + l.width || row <= l.y || row + 1 >= l.y + l.height {
        None
    } else {
        let index = l.scroll + row - l.y - 1;
        if row_is_item(rows, index) { Some(index as usize) } else { None }
    }
}

/// The box holds the screen cell `column`, `row`.
pub open spec fn spec_layout_holds(l: MenuLayout, column: int, row: int) -> bool {
    l.x <= column < l.x + l.width && l.y <= row < l.y + l.height
}

impl MenuLayout {
    /// The item row under the screen cell `column`, `row`.
    pub fn row_at(self, column: usize, row: usize, rows: &[Row]) -> (index: Option<usize>)
        ensures
            index == spec_row_at(self, column as int, row as int, rows_view(rows@)),
    {
        if column <= self.x || row <= self.y || self.width < 2 || self.height < 2 {
            return None;
        }
        let across = column - self.x;
        let down = row - self.y;
        if across >= self.width - 1 || down >= self.height - 1 {
            return None;
        }
        let offset = down - 1;
        if offset >= rows.len() || self.scroll >= rows.len() - offset {
            return None;
        }
        let index = self.scroll + offset;
        match &rows[index] {
            Row::Item(_) => Some(index),
            Row::Separator => None,
        }
    }

    /// Whether the box holds the screen cell `column`, `row`.
    pub fn contains(self, column: usize, row: usize) -> (inside: bool)
        ensures
            inside == spec_layout_holds(self, column as int, row as int),
    {
        column >= self.x && column - self.x < self.width && row >= self.y && row - self.y < self.height
    }
}

/// The cells an item row takes: two cells of border and marker, two of
/// padding, its label, a space, its shortcut, and an arrow for a fly-out.
pub open spec fn item_width(item: ItemView) -> int {
    sat(sat(sat(sat(4int + text_width(item.label)) + 1) + text_width(item.hint)) + if item.target is Submenu { 1int } else { 0int })
}

/// The widest item row among the first `n` rows.
pub open spec fn widest_item(rows: Seq<RowView>, n: int) -> int
    decreases n,
{
    if n <= 0 {
        0
    } else {
        let rest = widest_item(rows, n - 1);
        match rows[n - 1] {
            RowView::Item(item) => max(rest, item_width(item)),
            RowView::Separator => rest,
        }
    }
}

/// A menu's width: its widest row and its title with its border, at least
/// eight cells.
pub open spec fn spec_menu_width(rows: Seq<RowView>, title: Seq<char>) -> int {
    max(max(widest_item(rows, rows.len() as int), sat(text_width(title) + 4int)), 8)
}

/// A menu's width.
pub fn menu_width(rows: &[Row], title: &str) -> (width: usize)
    ensures
        width == spec_menu_width(rows_view(rows@), title@),
{
    let ghost rv = rows_view(rows@);
    let mut widest: usize = 0;
    let mut i: usize = 0;
    while i < rows.len()
        invariant
            rv == rows_view(rows@),
            i <= rows@.len(),
            widest == widest_item(rv, i as int),
        decreases rows@.len() - i,
    {
        match &rows[i] {
            Row::Item(item) => {
                let arrow: usize = match item.target {
                    Target::Submenu(_) => 1,
                    _ => 0,
                };
                let w = 4usize.saturating_add(display_width(item.label.as_str())).saturating_add(1).saturating_add(
                    display_width(item.hint.as_str()),
                ).saturating_add(arrow);
                if w > widest {
                    widest = w;
                }
            },
            Row::Separator => {},
        }
        i = i + 1;
    }
    let title_width = display_width(title).saturating_add(4);
    if title_width > widest {
        widest = title_width;
    }
    if widest < 8 {
        widest = 8;
    }
    widest
}

/// A menu's box with its top-left corner wanted at `x`, `y`: its width
/// held to the screen, moved left to fit, as many rows as fit above the
/// status line inside the border, and the scroll held to the last full
/// window.
pub open spec fn spec_layout_at(rows: Seq<RowView>, title: Seq<char>, x: int, y: int, scroll: int, screen_width: int, screen_height: int) -> MenuLayout {
    let width = min(spec_menu_width(rows, title), screen_width);
    let available = sat_sub(sat_sub(screen_height, STATUS_ROWS as int), y);
    let visible_rows = min(rows.len() as int, sat_sub(available, BORDER_ROWS as int));
    let max_scroll = sat_sub(rows.len() as int, visible_rows);
    MenuLayout {
        x: min(x, sat_sub(screen_width, width)) as usize,
        y: y as usize,
        width: width as usize,
        height: min(visible_rows + BORDER_ROWS, available) as usize,
        scroll: min(scroll, max_scroll) as usize,
        visible_rows: visible_rows as usize,
    }
}

/// A menu's box with its top-left corner wanted at `x`, `y`.
pub fn layout_at(
    rows: &[Row],
    title: &str,
    x: usize,
    y: usize,
    scroll: usize,
    screen_width: usize,
    screen_height: usize,
) -> (layout: MenuLayout)
    ensures
        layout == spec_layout_at(rows_view(rows@), title@, x as int, y as int, scroll as int, screen_width as int, screen_height as int),
        layout.x + layout.width <= usize::MAX,
        layout.height <= screen_height,
        layout.scroll + layout.visible_rows <= rows@.len(),
        layout.scroll + layout.visible_rows <= usize::MAX,
        layout.visible_rows > 0 ==> layout.y + 1 + layout.visible_rows <= usize::MAX,
{
    let natural = menu_width(rows, title);
    let width = if natural <= screen_width { natural } else { screen_width };
    let room = screen_width.saturating_sub(width);
    let x = if x <= room { x } else { room };
    let available = screen_height.saturating_sub(STATUS_ROWS).saturating_sub(y);
    let spare = available.saturating_sub(BORDER_ROWS);
    let visible_rows = if rows.len() <= spare { rows.len() } else { spare };
    let max_scroll = rows.len().saturating_sub(visible_rows);
    let scroll = if scroll <= max_scroll { scroll } else { max_scroll };
    let tall = visible_rows + BORDER_ROWS;
    MenuLayout {
        x,
        y,
        width,
        height: if tall <= available { tall } else { available },
        scroll,
        visible_rows,
    }
}

/// Where a menu's label stands among the bar's menus.
pub open spec fn root_index(root: Root) -> int {
    match root {
        Root::App => 0,
        Root::Layout => 1,
        Root::Go => 2,
        Root::Review => 3,
        Root::Diff => 4,
    }
}

/// The open root menu's box: under its label, when the bar shows it.
pub open spec fn spec_root_layout(bar: MenuBarView, rows: Seq<RowView>, screen_width: int, screen_height: int) -> Option<MenuLayout> {
    match bar.open {
        None => None,
        Some(open) => if root_index(open.root) < shown_roots(screen_width) {
            Some(spec_layout_at(
                rows,
                spec_root_title(open.root),
                label_x(root_index(open.root)),
                MENU_TOP as int,
                open.root_scroll,
                screen_width,
                screen_height,
            ))
        } else {
            None
        },
    }
}

/// The open root menu's box.
pub fn root_layout(bar: &MenuBar, rows: &[Row], screen_width: usize, screen_height: usize) -> (layout: Option<MenuLayout>)
    ensures
        layout == spec_root_layout(bar@, rows_view(rows@), screen_width as int, screen_height as int),
        layout matches Some(l) ==> l.x + l.width <= usize::MAX && l.scroll + l.visible_rows <= usize::MAX
            && (l.visible_rows > 0 ==> l.y + 1 + l.visible_rows <= usize::MAX),
{
    let opened = bar.open();
    if opened.is_none() {
        return None;
    }
    let open = opened.unwrap();
    let labels = labels(screen_width);
    let mut i: usize = 0;
    while i < labels.len()
        invariant
            labels@ == spec_labels(screen_width as int),
            bar@.open == Some(open@),
            i <= labels@.len(),
            (i as int) <= root_index(open@.root),
        decreases labels@.len() - i,
    {
        let label = labels[i];
        assert(label.root == root_at(i as int));
        assert(root_index(root_at(i as int)) == i);
        if label.root == open.root {
            proof {
                lemma_label_x_bounded(i as int);
                assert(label.x == label_x(root_index(open@.root)));
            }
            return Some(layout_at(rows, open.root.title(), label.x, MENU_TOP, open.root_scroll, screen_width, screen_height));
        }
        i = i + 1;
    }
    None
}

/// The open fly-out's box: beside the row it hangs from when that row
/// shows, to the right of the root menu, or to its left when the screen
/// has no room on the right.
pub open spec fn spec_child_layout(bar: MenuBarView, root: MenuLayout, child_rows: Seq<RowView>, screen_width: int, screen_height: int) -> Option<MenuLayout> {
    match bar.open {
        None => None,
        Some(open) => match open.submenu {
            None => None,
            Some((submenu, parent)) => if parent < root.scroll || parent >= root.scroll + root.visible_rows {
                None
            } else {
                let y = root.y + 1 + parent - root.scroll;
                let wanted_x = root.x + root.width;
                let width = min(spec_menu_width(child_rows, spec_submenu_title(submenu)), screen_width);
                let x = if wanted_x + width <= screen_width { wanted_x } else { sat_sub(root.x as int, width) };
                Some(spec_layout_at(child_rows, spec_submenu_title(submenu), x, y, open.child_scroll, screen_width, screen_height))
            },
        },
    }
}

/// The open fly-out's box.
pub fn child_layout(bar: &MenuBar, root: MenuLayout, child_rows: &[Row], screen_width: usize, screen_height: usize) -> (layout: Option<MenuLayout>)
    requires
        root.x + root.width <= usize::MAX,
        root.scroll + root.visible_rows <= usize::MAX,
        root.visible_rows > 0 ==> root.y + 1 + root.visible_rows <= usize::MAX,
    ensures
        layout == spec_child_layout(bar@, root, rows_view(child_rows@), screen_width as int, screen_height as int),
{
    let opened = bar.open();
    if opened.is_none() {
        return None;
    }
    let open = opened.unwrap();
    let (submenu, parent) = match open.submenu {
        Some(pair) => pair,
        None => return None,
    };
    if parent < root.scroll || parent >= root.scroll + root.visible_rows {
        return None;
    }
    let y = root.y + 1 + (parent - root.scroll);
    let wanted_x = root.x + root.width;
    let natural = menu_width(child_rows, submenu.title());
    let width = if natural <= screen_width { natural } else { screen_width };
    let x = if width <= screen_width && wanted_x <= screen_width - width { wanted_x } else { root.x.saturating_sub(width) };
    Some(layout_at(child_rows, submenu.title(), x, y, open.child_scroll, screen_width, screen_height))
}

/// The open menu after the keyboard moves among the bar's menus: `delta`
/// labels from the open one (from the first when it is not shown), held
/// to the labels shown, opened afresh.
pub open spec fn spec_switch_root(bar: MenuBarView, delta: isize, screen_width: int) -> MenuBarView {
    match bar.open {
        None => bar,
        Some(open) => {
            let shown = shown_roots(screen_width);
            let at: usize = if root_index(open.root) < shown { root_index(open.root) as usize } else { 0 };
            let next = min(clamp_add_signed(at, delta), shown - 1);
            MenuBarView { shown: bar.shown, open: Some(freshly_open(root_at(next))) }
        },
    }
}

/// The open menu after the keyboard scrolls a fly-out open at row
/// `parent`: nothing scrolled in it, and the root menu scrolled so the
/// fly-out's first row stays above the status line.
pub open spec fn spec_open_submenu_at(bar: MenuBarView, submenu: Submenu, parent: int, screen_height: int) -> MenuBarView {
    match bar.open {
        None => bar,
        Some(open) => {
            let latest_start = sat_sub(screen_height, STATUS_ROWS + BORDER_ROWS + 1);
            let parent_y = MENU_TOP + 1 + sat_sub(parent, open.root_scroll);
            let root_scroll = if parent_y > latest_start { sat(open.root_scroll + (parent_y - latest_start)) } else { open.root_scroll };
            MenuBarView {
                shown: bar.shown,
                open: Some(OpenView { submenu: Some((submenu, parent as usize)), child_scroll: 0, root_scroll, ..open }),
            }
        },
    }
}

/// The fly-out an item row opens, if it is one.
pub open spec fn row_submenu(rows: Seq<RowView>, index: int) -> Option<Submenu> {
    if 0 <= index < rows.len() {
        match rows[index] {
            RowView::Item(item) => match item.target {
                Target::Submenu(submenu) => Some(submenu),
                _ => None,
            },
            RowView::Separator => None,
        }
    } else {
        None
    }
}

/// The open menu with the keyboard on root row `index`: nothing typed,
/// the row scrolled into view, any fly-out closed, and the row's fly-out
/// opened when asked and it has one.
pub open spec fn spec_focus_root_item(bar: MenuBarView, rows: Seq<RowView>, index: int, open_submenu: bool, screen_width: int, screen_height: int) -> MenuBarView {
    match bar.open {
        None => bar,
        Some(open) => {
            let layout = spec_layout_at(rows, spec_root_title(open.root), 0, MENU_TOP as int, open.root_scroll, screen_width, screen_height);
            let focused = OpenView {
                focused: Focused::Root(index as usize),
                typed: Seq::empty(),
                root_scroll: spec_keep_visible(open.root_scroll, index, layout.visible_rows as int, rows.len() as int),
                submenu: None,
                ..open
            };
            let moved = MenuBarView { shown: bar.shown, open: Some(focused) };
            match row_submenu(rows, index) {
                Some(submenu) => if open_submenu { spec_open_submenu_at(moved, submenu, index, screen_height) } else { moved },
                None => moved,
            }
        },
    }
}

/// The rows the open fly-out shows: its layout's, at least one, or one
/// when it has no layout.
pub open spec fn child_visible(bar: MenuBarView, root_rows: Seq<RowView>, child_rows: Seq<RowView>, screen_width: int, screen_height: int) -> int {
    match spec_root_layout(bar, root_rows, screen_width, screen_height) {
        None => 1,
        Some(root) => match spec_child_layout(bar, root, child_rows, screen_width, screen_height) {
            None => 1,
            Some(layout) => max(layout.visible_rows as int, 1),
        },
    }
}

/// The open menu with the keyboard on fly-out row `index`: nothing typed
/// and the row scrolled into view; nothing changes without a fly-out.
pub open spec fn spec_focus_child_item(bar: MenuBarView, index: int, root_rows: Seq<RowView>, child_rows: Seq<RowView>, screen_width: int, screen_height: int) -> MenuBarView {
    match bar.open {
        None => bar,
        Some(open) => if open.submenu is None {
            bar
        } else {
            let visible = child_visible(bar, root_rows, child_rows, screen_width, screen_height);
            MenuBarView {
                shown: bar.shown,
                open: Some(OpenView {
                    focused: Focused::Child(index as usize),
                    typed: Seq::empty(),
                    child_scroll: spec_keep_visible(open.child_scroll, index, visible, child_rows.len() as int),
                    ..open
                }),
            }
        },
    }
}

/// What a chord does in an open menu.
#[derive(Debug, Clone, Copy, PartialEq, Eq, Structural)]
pub enum Shortcut {
    /// The typed keys name this row's target: run it.
    Run(Target),
    /// The typed keys begin some row's keys: wait for more.
    Pending,
    /// Keys were typed and this chord matches nothing: the menu closed.
    Closed,
    /// The chord is no shortcut here.
    Unhandled,
}

/// The rows a shortcut can reach: each item that can run and has keys,
/// with its target and keys, in order.
pub open spec fn shortcut_candidates(rows: Seq<RowView>) -> Seq<(Target, Seq<Chord>)>
    decreases rows.len(),
{
    if rows.len() == 0 {
        Seq::empty()
    } else {
        let rest = shortcut_candidates(rows.drop_last());
        match rows.last() {
            RowView::Item(item) => if item.enabled && spec_target_keys(item.target) is Some {
                rest.push((item.target, spec_target_keys(item.target)->0))
            } else {
                rest
            },
            RowView::Separator => rest,
        }
    }
}

/// The candidates of an open menu: its root rows', then its fly-out
/// rows' when a fly-out is open.
pub open spec fn menu_candidates(open: OpenView, root_rows: Seq<RowView>, child_rows: Seq<RowView>) -> Seq<(Target, Seq<Chord>)> {
    shortcut_candidates(root_rows) + if open.submenu is Some { shortcut_candidates(child_rows) } else { Seq::empty() }
}

/// The target of the first candidate whose keys are exactly `typed`.
pub open spec fn first_exact(cands: Seq<(Target, Seq<Chord>)>, typed: Seq<Chord>) -> Option<Target>
    decreases cands.len(),
{
    if cands.len() == 0 {
        None
    } else if cands[0].1 == typed {
        Some(cands[0].0)
    } else {
        first_exact(cands.drop_first(), typed)
    }
}

/// What a chord does in an open menu, and the bar after it: the typed
/// keys with the chord run the first row, root rows then fly-out rows,
/// whose keys they are; they wait when some row's keys go on from them;
/// else the menu closes when keys were typed before, and the chord is no
/// shortcut when none were.
pub open spec fn spec_shortcut(bar: MenuBarView, root_rows: Seq<RowView>, child_rows: Seq<RowView>, chord: Chord) -> (MenuBarView, Shortcut) {
    match bar.open {
        None => (bar, Shortcut::Unhandled),
        Some(open) => {
            let typed = open.typed.push(chord);
            let cands = menu_candidates(open, root_rows, child_rows);
            match first_exact(cands, typed) {
                Some(target) => (bar, Shortcut::Run(target)),
                None => if exists|i: int| 0 <= i < cands.len() && continues(typed, #[trigger] cands[i].1) {
                    (MenuBarView { shown: bar.shown, open: Some(OpenView { typed, ..open }) }, Shortcut::Pending)
                } else if open.typed.len() > 0 {
                    (MenuBarView { shown: bar.shown, open: None }, Shortcut::Closed)
                } else {
                    (bar, Shortcut::Unhandled)
                },
            }
        },
    }
}

/// The candidates of `rows`, appended to `cands`.
fn push_candidates(cands: &mut Vec<(Target, Vec<Chord>)>, rows: &[Row])
    ensures
        cands_view(final(cands)@) == cands_view(old(cands)@) + shortcut_candidates(rows_view(rows@)),
{
    let ghost rv = rows_view(rows@);
    let ghost start = cands_view(cands@);
    let mut i: usize = 0;
    while i < rows.len()
        invariant
            rv == rows_view(rows@),
            i <= rows@.len(),
            cands_view(cands@) == start + shortcut_candidates(rv.take(i as int)),
        decreases rows@.len() - i,
    {
        assert(rv.take(i as int + 1).drop_last() =~= rv.take(i as int));
        assert(rv.take(i as int + 1).last() == rows@[i as int]@);
        match &rows[i] {
            Row::Item(item) => {
                if item.enabled {
                    match target_keys(item.target) {
                        Some(keys) => {
                            let ghost before = cands_view(cands@);
                            let ghost kv = keys@;
                            cands.push((item.target, keys));
                            assert(cands_view(cands@) =~= before.push((item.target, kv)));
                        },
                        None => {},
                    }
                }
            },
            Row::Separator => {},
        }
        i = i + 1;
    }
    assert(rv.take(rows@.len() as int) =~= rv);
}

/// Candidates by their views.
pub open spec fn cands_view(cands: Seq<(Target, Vec<Chord>)>) -> Seq<(Target, Seq<Chord>)> {
    cands.map_values(|c: (Target, Vec<Chord>)| (c.0, c.1@))
}

impl MenuBar {
    /// Moves the keyboard `delta` menus along the bar, opening the one it
    /// lands on afresh.
    pub fn switch_root(&mut self, delta: isize, screen_width: usize)
        ensures
            final(self)@ == spec_switch_root(old(self)@, delta, screen_width as int),
    {
        let root = match &self.open {
            Some(open) => open.root,
            None => return,
        };
        let labels = labels(screen_width);
        let mut at: usize = 0;
        let mut i: usize = 0;
        while i < labels.len()
            invariant
                labels@ == spec_labels(screen_width as int),
                i <= labels@.len(),
                at as int == if root_index(root) < i { root_index(root) } else { 0 },
            decreases labels@.len() - i,
        {
            assert(labels@[i as int].root == root_at(i as int));
            assert(root_index(root_at(i as int)) == i);
            if labels[i].root == root {
                at = i;
            }
            i = i + 1;
        }
        let moved = add_signed_clamped(at, delta);
        let last = labels.len() - 1;
        let next = if moved <= last { moved } else { last };
        self.show(labels[next].root);
    }

    /// Opens the fly-out `submenu` from root row `parent`.
    pub fn open_submenu_at(&mut self, submenu: Submenu, parent: usize, screen_height: usize)
        requires
            old(self)@.open is Some ==> sat_sub(parent as int, old(self)@.open->0.root_scroll) + MENU_TOP + 1 <= usize::MAX,
        ensures
            final(self)@ == spec_open_submenu_at(old(self)@, submenu, parent as int, screen_height as int),
    {
        let latest_start = screen_height.saturating_sub(STATUS_ROWS + BORDER_ROWS + 1);
        if let Some(open) = &mut self.open {
            open.submenu = Some((submenu, parent));
            open.child_scroll = 0;
            let parent_y = MENU_TOP + 1 + parent.saturating_sub(open.root_scroll);
            if parent_y > latest_start {
                open.root_scroll = open.root_scroll.saturating_add(parent_y - latest_start);
            }
        }
    }

    /// Puts the keyboard on root row `index` of `rows`, the open menu's
    /// rows, and opens its fly-out when asked.
    pub fn focus_root_item(&mut self, rows: &[Row], index: usize, open_submenu: bool, screen_width: usize, screen_height: usize)
        ensures
            final(self)@ == spec_focus_root_item(old(self)@, rows_view(rows@), index as int, open_submenu, screen_width as int, screen_height as int),
    {
        let target = if index < rows.len() {
            match &rows[index] {
                Row::Item(item) => Some(item.target),
                Row::Separator => None,
            }
        } else {
            None
        };
        if let Some(open) = &mut self.open {
            open.focused = Focused::Root(index);
            open.typed = Vec::new();
            let layout = layout_at(rows, open.root.title(), 0, MENU_TOP, open.root_scroll, screen_width, screen_height);
            keep_visible(&mut open.root_scroll, index, layout.visible_rows, rows.len());
            open.submenu = None;
        } else {
            return;
        }
        if open_submenu {
            if let Some(Target::Submenu(submenu)) = target {
                self.open_submenu_at(submenu, index, screen_height);
            }
        }
    }

    /// Puts the keyboard on fly-out row `index`, given the open menu's
    /// root rows and fly-out rows.
    pub fn focus_child_item(&mut self, index: usize, root_rows: &[Row], child_rows: &[Row], screen_width: usize, screen_height: usize)
        ensures
            final(self)@ == spec_focus_child_item(old(self)@, index as int, rows_view(root_rows@), rows_view(child_rows@), screen_width as int, screen_height as int),
    {
        let has_submenu = match &self.open {
            Some(open) => open.submenu.is_some(),
            None => false,
        };
        if !has_submenu {
            return;
        }
        let visible = match root_layout(self, root_rows, screen_width, screen_height) {
            None => 1,
            Some(root) => match child_layout(self, root, child_rows, screen_width, screen_height) {
                None => 1,
                Some(layout) => if layout.visible_rows >= 1 { layout.visible_rows } else { 1 },
            },
        };
        if let Some(open) = &mut self.open {
            open.focused = Focused::Child(index);
            open.typed = Vec::new();
            keep_visible(&mut open.child_scroll, index, visible, child_rows.len());
        }
    }

    /// What `chord` does in the open menu, given its root rows and its
    /// fly-out's rows.
    pub fn shortcut(&mut self, root_rows: &[Row], child_rows: &[Row], chord: Chord) -> (outcome: Shortcut)
        ensures
            (final(self)@, outcome) == spec_shortcut(old(self)@, rows_view(root_rows@), rows_view(child_rows@), chord),
    {
        let (mut typed, had_typed, has_submenu) = match &self.open {
            Some(open) => {
                let mut typed: Vec<Chord> = Vec::new();
                let mut i: usize = 0;
                while i < open.typed.len()
                    invariant
                        i <= open.typed@.len(),
                        typed@ == open.typed@.take(i as int),
                    decreases open.typed@.len() - i,
                {
                    typed.push(open.typed[i]);
                    assert(typed@ =~= open.typed@.take(i as int + 1));
                    i = i + 1;
                }
                assert(open.typed@.take(open.typed@.len() as int) =~= open.typed@);
                (typed, open.typed.len() > 0, open.submenu.is_some())
            },
            None => return Shortcut::Unhandled,
        };
        typed.push(chord);
        let mut cands: Vec<(Target, Vec<Chord>)> = Vec::new();
        push_candidates(&mut cands, root_rows);
        if has_submenu {
            push_candidates(&mut cands, child_rows);
        } else {
            assert(shortcut_candidates(Seq::<RowView>::empty()) =~= Seq::<(Target, Seq<Chord>)>::empty());
        }
        let ghost cv = cands_view(cands@);
        proof {
            let open = old(self)@.open->0;
            assert(cv =~= menu_candidates(open, rows_view(root_rows@), rows_view(child_rows@)));
            assert(typed@ =~= open.typed.push(chord));
        }
        assert(cv.skip(0) =~= cv);
        let mut prefix = false;
        let mut i: usize = 0;
        while i < cands.len()
            invariant
                cv == cands_view(cands@),
                self@ == old(self)@,
                old(self)@.open is Some,
                typed@ == old(self)@.open->0.typed.push(chord),
                had_typed == (old(self)@.open->0.typed.len() > 0),
                cv == menu_candidates(old(self)@.open->0, rows_view(root_rows@), rows_view(child_rows@)),
                i <= cands@.len(),
                first_exact(cv, typed@) == first_exact(cv.skip(i as int), typed@),
                prefix == exists|j: int| 0 <= j < i && continues(typed@, #[trigger] cv[j].1),
            decreases cands@.len() - i,
        {
            assert(cv.skip(i as int)[0] == cv[i as int]);
            if same_keys(cands[i].1.as_slice(), typed.as_slice()) {
                return Shortcut::Run(cands[i].0);
            }
            assert(cv.skip(i as int).drop_first() =~= cv.skip(i as int + 1));
            if continues_keys(typed.as_slice(), cands[i].1.as_slice()) {
                prefix = true;
            }
            i = i + 1;
        }
        assert(cv.skip(cands@.len() as int) =~= Seq::<(Target, Seq<Chord>)>::empty());
        if prefix {
            let ghost before = self@;
            if let Some(open) = &mut self.open {
                open.typed = typed;
            }
            proof {
                let open = before.open->0;
                assert(self@ == (MenuBarView { shown: before.shown, open: Some(OpenView { typed: open.typed.push(chord), ..open }) }));
                assert(first_exact(cv, open.typed.push(chord)) is None);
            }
            return Shortcut::Pending;
        }
        if had_typed {
            self.close();
            return Shortcut::Closed;
        }
        Shortcut::Unhandled
    }
}

/// What the menus read of the viewer: the facts that decide which rows
/// can run, which are checked, and which menus the bar shows.
#[derive(Debug, Clone, Copy, PartialEq, Eq, Structural)]
pub struct BarState {
    /// The bar's width in cells.
    pub width: usize,
    /// The jumplist can go back.
    pub can_back: bool,
    /// The jumplist can go forward.
    pub can_forward: bool,
    /// A document is open.
    pub has_document: bool,
    /// The open document is deleted.
    pub deleted: bool,
    /// The thread cursor is on a thread.
    pub on_thread: bool,
    /// That thread's lifecycle is resolved.
    pub thread_lifecycle_resolved: bool,
    /// That thread is archived.
    pub thread_archived: bool,
    /// That thread's status is resolved.
    pub thread_status_resolved: bool,
    /// Review points can be saved.
    pub review_points: bool,
    /// The comparison's diff mode.
    pub diff_mode: DiffMode,
    /// The source view can be shown.
    pub source_view_available: bool,
    /// Some thread in the store is resolved.
    pub any_resolved_thread: bool,
    /// The store holds some thread.
    pub any_thread: bool,
    /// The sidebar is shown.
    pub sidebar_shown: bool,
    /// The sidebar has a composition to restore.
    pub sidebar_has_restore: bool,
    /// The files pane is in the sidebar.
    pub tree: bool,
    /// The threads pane is in the sidebar.
    pub threads: bool,
    /// The comparison ignores whitespace.
    pub whitespace_ignored: bool,
    /// The review list is open.
    pub review_list_open: bool,
    /// The threads pane has focus.
    pub threads_pane_focused: bool,
    /// The review shows resolved threads.
    pub review_resolved: bool,
    /// The review shows only the current file.
    pub review_file_only: bool,
}

/// Only a resolved thread that is not archived yet can be archived, and
/// only an archived one restored: the Review menu greys out "Archive
/// thread" on an open thread.
pub proof fn lemma_archiving_needs_a_resolved_thread(s: BarState)
    ensures
        spec_action_available(s, Action::ArchiveThread) <==> (s.on_thread && s.thread_status_resolved && !s.thread_archived),
        !s.thread_status_resolved ==> !spec_action_available(s, Action::ArchiveThread),
{
}

/// The Review menu's thread rows need a thread under the cursor; a thread
/// can be archived or restored but never both; back and forward follow the
/// jumplist; whitespace and the changed-files filter need a diff; nothing
/// new can be written on a deleted file or with no document.
pub proof fn lemma_rows_follow_the_viewer(s: BarState)
    ensures
        !s.on_thread ==> !spec_action_available(s, Action::Reply)
            && !spec_action_available(s, Action::ToggleResolved)
            && !spec_action_available(s, Action::EditNewestOwn)
            && !spec_action_available(s, Action::ToggleAutoResolve)
            && !spec_action_available(s, Action::ArchiveThread)
            && !spec_action_available(s, Action::RestoreThread),
        !(spec_action_available(s, Action::ArchiveThread) && spec_action_available(s, Action::RestoreThread)),
        spec_action_available(s, Action::RestoreThread) ==> s.thread_archived,
        spec_action_available(s, Action::JumpBack) == s.can_back,
        spec_action_available(s, Action::JumpForward) == s.can_forward,
        s.diff_mode == DiffMode::Off ==> !spec_action_available(s, Action::ComparisonWhitespace)
            && !spec_action_available(s, Action::FilesChanged),
        (s.deleted || !s.has_document) ==> !spec_action_available(s, Action::NewThread)
            && !spec_action_available(s, Action::FileComment),
        spec_action_available(s, Action::ToggleAutoResolve) ==> !s.thread_lifecycle_resolved,
{
}

/// Whether a menu row for `action` can run in state `s`.
pub open spec fn spec_action_available(s: BarState, action: Action) -> bool {
    match action {
        Action::JumpBack => s.can_back,
        Action::JumpForward => s.can_forward,
        Action::NewThread | Action::FileComment => s.has_document && !s.deleted,
        Action::Reply | Action::ToggleResolved | Action::EditNewestOwn => s.on_thread,
        Action::ToggleAutoResolve => s.on_thread && !s.thread_lifecycle_resolved,
        Action::ComparisonSave => s.review_points,
        Action::ComparisonWhitespace | Action::FilesChanged => s.diff_mode != DiffMode::Off,
        Action::SourceView => s.source_view_available,
        Action::ArchiveThread => s.on_thread && !s.thread_archived && s.thread_status_resolved,
        Action::RestoreThread => s.on_thread && s.thread_archived,
        Action::ArchiveResolved => s.any_resolved_thread,
        Action::ClearBoard => s.any_thread,
        Action::SidebarToggle => s.sidebar_shown || s.sidebar_has_restore,
        _ => true,
    }
}

/// Whether a menu row for `action` can run in state `s`.
pub fn action_available(s: BarState, action: Action) -> (available: bool)
    ensures
        available == spec_action_available(s, action),
{
    match action {
        Action::JumpBack => s.can_back,
        Action::JumpForward => s.can_forward,
        Action::NewThread | Action::FileComment => s.has_document && !s.deleted,
        Action::Reply | Action::ToggleResolved | Action::EditNewestOwn => s.on_thread,
        Action::ToggleAutoResolve => s.on_thread && !s.thread_lifecycle_resolved,
        Action::ComparisonSave => s.review_points,
        Action::ComparisonWhitespace | Action::FilesChanged => s.diff_mode != DiffMode::Off,
        Action::SourceView => s.source_view_available,
        Action::ArchiveThread => s.on_thread && !s.thread_archived && s.thread_status_resolved,
        Action::RestoreThread => s.on_thread && s.thread_archived,
        Action::ArchiveResolved => s.any_resolved_thread,
        Action::ClearBoard => s.any_thread,
        Action::SidebarToggle => s.sidebar_shown || s.sidebar_has_restore,
        _ => true,
    }
}

/// Whether a menu row for `action` shows a check in state `s`.
pub open spec fn spec_action_checked(s: BarState, action: Action) -> bool {
    match action {
        Action::SidebarToggle => s.sidebar_shown,
        Action::TreeToggle => s.tree,
        Action::ThreadsPaneToggle => s.threads,
        Action::ComparisonWhitespace => s.whitespace_ignored,
        _ => false,
    }
}

/// Whether a menu row for `action` shows a check in state `s`.
pub fn action_checked(s: BarState, action: Action) -> (checked: bool)
    ensures
        checked == spec_action_checked(s, action),
{
    match action {
        Action::SidebarToggle => s.sidebar_shown,
        Action::TreeToggle => s.tree,
        Action::ThreadsPaneToggle => s.threads,
        Action::ComparisonWhitespace => s.whitespace_ignored,
        _ => false,
    }
}

/// A row that runs `action` in state `s`.
pub open spec fn action_row(s: BarState, action: Action, label: Seq<char>) -> RowView {
    RowView::Item(ItemView {
        label,
        hint: spec_hint(Target::Action(action)),
        enabled: spec_action_available(s, action),
        checked: spec_action_checked(s, action),
        active: false,
        target: Target::Action(action),
    })
}

/// A choice row for `action` in state `s`, marked when `active`.
pub open spec fn choice_row(s: BarState, action: Action, label: Seq<char>, active: bool) -> RowView {
    RowView::Item(ItemView {
        label,
        hint: spec_hint(Target::Action(action)),
        enabled: spec_action_available(s, action),
        checked: false,
        active,
        target: Target::Action(action),
    })
}

/// A row that runs an application command.
pub open spec fn command_row(label: Seq<char>, target: Target) -> RowView {
    RowView::Item(ItemView { label, hint: spec_hint(target), enabled: true, checked: false, active: false, target })
}

/// A row that opens a fly-out.
pub open spec fn submenu_row(label: Seq<char>, submenu: Submenu) -> RowView {
    command_row(label, Target::Submenu(submenu))
}

/// The rows of the Go menu.
pub open spec fn go_rows(s: BarState) -> Seq<RowView> {
    seq![
        action_row(s, Action::PickFile, "Open file…"@),
        action_row(s, Action::PickAnyFile, "Open w/ ignored…"@),
        action_row(s, Action::PickRecent, "Recent files…"@),
        RowView::Separator,
        action_row(s, Action::JumpBack, "Back"@),
        action_row(s, Action::JumpForward, "Forward"@),
    ]
}

/// The Review menu's views.
pub open spec fn review_view_rows(s: BarState) -> Seq<RowView> {
    seq![
        action_row(s, Action::Review, "Reviews"@),
        action_row(s, Action::ReviewRecentlyResolved, "Recently resolved"@),
        action_row(s, Action::ReviewArchived, "Archived threads"@),
        action_row(s, Action::ArchiveResolved, "Archive resolved threads"@),
        action_row(s, Action::ClearBoard, "Clear board…"@),
    ]
}

/// The Review menu's two filters, fixed-key toggles.
pub open spec fn review_filter_rows(s: BarState) -> Seq<RowView> {
    seq![
        RowView::Item(ItemView {
            label: "Show resolved"@,
            hint: "x"@,
            enabled: s.review_list_open || s.threads_pane_focused,
            checked: s.review_resolved,
            active: false,
            target: Target::ReviewResolved,
        }),
        RowView::Item(ItemView {
            label: "Only current file"@,
            hint: "s"@,
            enabled: s.review_list_open,
            checked: s.review_file_only,
            active: false,
            target: Target::ReviewFile,
        }),
    ]
}

/// The Review menu's thread actions, after a separator.
pub open spec fn thread_action_rows(s: BarState) -> Seq<RowView> {
    seq![
        RowView::Separator,
        action_row(s, Action::NewThread, "New thread"@),
        action_row(s, Action::FileComment, "File comment"@),
        action_row(s, Action::Reply, "Reply"@),
        action_row(s, Action::EditNewestOwn, "Edit newest message"@),
        action_row(s, Action::ToggleAutoResolve, "Toggle auto-resolve"@),
        action_row(s, Action::ToggleResolved, "Resolve / reopen"@),
        action_row(s, Action::ArchiveThread, "Archive thread"@),
        action_row(s, Action::RestoreThread, "Restore thread"@),
    ]
}

/// The rows of the Review menu: the review views, the two review
/// filters, and the thread actions.
pub open spec fn review_rows(s: BarState) -> Seq<RowView> {
    review_view_rows(s) + review_filter_rows(s) + thread_action_rows(s)
}

/// The rows of the Diff menu: the three modes as a choice, the endpoint
/// pickers, saving a review point, and ignoring whitespace.
pub open spec fn diff_rows(s: BarState) -> Seq<RowView> {
    seq![
        choice_row(s, Action::DiffStandard, "Standard diff"@, s.diff_mode == DiffMode::Normal),
        choice_row(s, Action::DiffUnified, "Unified diff"@, s.diff_mode == DiffMode::Unified),
        choice_row(s, Action::DiffOff, "Diff off"@, s.diff_mode == DiffMode::Off),
        RowView::Separator,
        action_row(s, Action::ComparisonBase, "Pick base…"@),
        action_row(s, Action::ComparisonTarget, "Pick target…"@),
        action_row(s, Action::ComparisonHeadWorkingTree, "Head to WorkingTree"@),
        RowView::Separator,
        action_row(s, Action::ComparisonSave, "Save review point"@),
        RowView::Separator,
        action_row(s, Action::ComparisonWhitespace, "Ignore whitespace"@),
    ]
}

/// The rows of the Layout fly-out: the main view as a choice, then the
/// panes.
pub open spec fn layout_rows(s: BarState) -> Seq<RowView> {
    seq![
        choice_row(s, Action::FileView, "File view"@, !s.review_list_open),
        choice_row(s, Action::Review, "Reviews view"@, s.review_list_open),
        RowView::Separator,
        action_row(s, Action::SidebarToggle, "Sidebar"@),
        action_row(s, Action::TreeToggle, "Files pane"@),
        action_row(s, Action::ThreadsPaneToggle, "Threads pane"@),
    ]
}

/// The rows of the Help fly-out.
pub open spec fn help_rows() -> Seq<RowView> {
    seq![
        command_row("Getting started"@, Target::GettingStarted),
        command_row("Doctor"@, Target::Doctor),
        command_row("View keymap"@, Target::Action(Action::Help)),
        command_row("Licenses"@, Target::Licenses),
    ]
}

/// The rows of the application menu: on a narrow bar the workflow menus
/// as fly-outs first, then Help, and the application's commands.
pub open spec fn app_rows(s: BarState) -> Seq<RowView> {
    let workflow = if shown_roots(s.width as int) == 1 {
        seq![
            submenu_row("Layout"@, Submenu::Layout),
            submenu_row("Go"@, Submenu::Go),
            submenu_row("Review"@, Submenu::Review),
            submenu_row("Diff"@, Submenu::Diff),
        ]
    } else {
        Seq::empty()
    };
    workflow + seq![
        submenu_row("Help"@, Submenu::Help),
        RowView::Separator,
        command_row("Status"@, Target::Status),
        command_row("About"@, Target::About),
        command_row("Quit"@, Target::Quit),
    ]
}

/// The rows of a bar menu in state `s`.
pub open spec fn spec_menu_rows(s: BarState, root: Root) -> Seq<RowView> {
    match root {
        Root::App => app_rows(s),
        Root::Layout => layout_rows(s),
        Root::Go => go_rows(s),
        Root::Review => review_rows(s),
        Root::Diff => diff_rows(s),
    }
}

/// The rows of a fly-out in state `s`.
pub open spec fn spec_submenu_rows(s: BarState, submenu: Submenu) -> Seq<RowView> {
    match submenu {
        Submenu::Layout => layout_rows(s),
        Submenu::Help => help_rows(),
        Submenu::Go => go_rows(s),
        Submenu::Review => review_rows(s),
        Submenu::Diff => diff_rows(s),
    }
}

/// Appends the row for `action` in state `s`.
fn push_action(rows: &mut Vec<Row>, s: BarState, action: Action, label: &str)
    ensures
        rows_view(final(rows)@) == rows_view(old(rows)@).push(action_row(s, action, label@)),
{
    let item = Item::action(action, label, action_available(s, action), action_checked(s, action));
    let ghost before = rows_view(rows@);
    rows.push(Row::Item(item));
    assert(rows_view(rows@) =~= before.push(action_row(s, action, label@)));
}

/// Appends the choice row for `action` in state `s`.
fn push_choice(rows: &mut Vec<Row>, s: BarState, action: Action, label: &str, active: bool)
    ensures
        rows_view(final(rows)@) == rows_view(old(rows)@).push(choice_row(s, action, label@, active)),
{
    let item = Item::choice(action, label, action_available(s, action), active);
    let ghost before = rows_view(rows@);
    rows.push(Row::Item(item));
    assert(rows_view(rows@) =~= before.push(choice_row(s, action, label@, active)));
}

/// Appends a command row.
fn push_command(rows: &mut Vec<Row>, label: &str, target: Target)
    ensures
        rows_view(final(rows)@) == rows_view(old(rows)@).push(command_row(label@, target)),
{
    let item = Item::command(label, target);
    let ghost before = rows_view(rows@);
    rows.push(Row::Item(item));
    assert(rows_view(rows@) =~= before.push(command_row(label@, target)));
}

/// Appends a separator.
fn push_separator(rows: &mut Vec<Row>)
    ensures
        rows_view(final(rows)@) == rows_view(old(rows)@).push(RowView::Separator),
{
    let ghost before = rows_view(rows@);
    rows.push(Row::Separator);
    assert(rows_view(rows@) =~= before.push(RowView::Separator));
}

/// The rows of the Go menu.
fn go_menu_rows(s: BarState) -> (rows: Vec<Row>)
    ensures
        rows@.len() == 6,
        rows_view(rows@) == go_rows(s),
{
    let mut rows: Vec<Row> = Vec::new();
    push_action(&mut rows, s, Action::PickFile, "Open file…");
    push_action(&mut rows, s, Action::PickAnyFile, "Open w/ ignored…");
    push_action(&mut rows, s, Action::PickRecent, "Recent files…");
    push_separator(&mut rows);
    push_action(&mut rows, s, Action::JumpBack, "Back");
    push_action(&mut rows, s, Action::JumpForward, "Forward");
    assert(rows_view(rows@) =~= go_rows(s));
    rows
}

/// Appends the Review menu's views.
fn push_review_views(rows: &mut Vec<Row>, s: BarState)
    ensures
        rows_view(final(rows)@) == rows_view(old(rows)@) + review_view_rows(s),
{
    let ghost start = rows_view(rows@);
    push_action(rows, s, Action::Review, "Reviews");
    push_action(rows, s, Action::ReviewRecentlyResolved, "Recently resolved");
    push_action(rows, s, Action::ReviewArchived, "Archived threads");
    push_action(rows, s, Action::ArchiveResolved, "Archive resolved threads");
    push_action(rows, s, Action::ClearBoard, "Clear board…");
    assert(rows_view(rows@) =~= start + review_view_rows(s));
}

/// Appends the Review menu's filters.
fn push_review_filters(rows: &mut Vec<Row>, s: BarState)
    ensures
        rows_view(final(rows)@) == rows_view(old(rows)@) + review_filter_rows(s),
{
    let ghost start = rows_view(rows@);
    rows.push(Row::Item(Item {
        label: "Show resolved".to_owned(),
        hint: "x".to_owned(),
        enabled: s.review_list_open || s.threads_pane_focused,
        checked: s.review_resolved,
        active: false,
        target: Target::ReviewResolved,
    }));
    rows.push(Row::Item(Item {
        label: "Only current file".to_owned(),
        hint: "s".to_owned(),
        enabled: s.review_list_open,
        checked: s.review_file_only,
        active: false,
        target: Target::ReviewFile,
    }));
    assert(rows_view(rows@) =~= start + review_filter_rows(s));
}

/// Appends the Review menu's thread actions.
fn push_thread_actions(rows: &mut Vec<Row>, s: BarState)
    ensures
        rows_view(final(rows)@) == rows_view(old(rows)@) + thread_action_rows(s),
{
    let ghost start = rows_view(rows@);
    push_separator(rows);
    push_action(rows, s, Action::NewThread, "New thread");
    push_action(rows, s, Action::FileComment, "File comment");
    push_action(rows, s, Action::Reply, "Reply");
    push_action(rows, s, Action::EditNewestOwn, "Edit newest message");
    push_action(rows, s, Action::ToggleAutoResolve, "Toggle auto-resolve");
    push_action(rows, s, Action::ToggleResolved, "Resolve / reopen");
    push_action(rows, s, Action::ArchiveThread, "Archive thread");
    push_action(rows, s, Action::RestoreThread, "Restore thread");
    assert(rows_view(rows@) =~= start + thread_action_rows(s));
}

/// The rows of the Review menu.
fn review_menu_rows(s: BarState) -> (rows: Vec<Row>)
    ensures
        rows@.len() == 16,
        rows_view(rows@) == review_rows(s),
{
    let mut rows: Vec<Row> = Vec::new();
    push_review_views(&mut rows, s);
    push_review_filters(&mut rows, s);
    push_thread_actions(&mut rows, s);
    assert(rows_view(rows@) =~= review_rows(s));
    rows
}

/// The rows of the Diff menu.
fn diff_menu_rows(s: BarState) -> (rows: Vec<Row>)
    ensures
        rows@.len() == 11,
        rows_view(rows@) == diff_rows(s),
{
    let mut rows: Vec<Row> = Vec::new();
    push_choice(&mut rows, s, Action::DiffStandard, "Standard diff", s.diff_mode == DiffMode::Normal);
    push_choice(&mut rows, s, Action::DiffUnified, "Unified diff", s.diff_mode == DiffMode::Unified);
    push_choice(&mut rows, s, Action::DiffOff, "Diff off", s.diff_mode == DiffMode::Off);
    push_separator(&mut rows);
    push_action(&mut rows, s, Action::ComparisonBase, "Pick base…");
    push_action(&mut rows, s, Action::ComparisonTarget, "Pick target…");
    push_action(&mut rows, s, Action::ComparisonHeadWorkingTree, "Head to WorkingTree");
    push_separator(&mut rows);
    push_action(&mut rows, s, Action::ComparisonSave, "Save review point");
    push_separator(&mut rows);
    push_action(&mut rows, s, Action::ComparisonWhitespace, "Ignore whitespace");
    assert(rows_view(rows@) =~= diff_rows(s));
    rows
}

/// The rows of the Layout fly-out.
fn layout_menu_rows(s: BarState) -> (rows: Vec<Row>)
    ensures
        rows@.len() == 6,
        rows_view(rows@) == layout_rows(s),
{
    let mut rows: Vec<Row> = Vec::new();
    push_choice(&mut rows, s, Action::FileView, "File view", !s.review_list_open);
    push_choice(&mut rows, s, Action::Review, "Reviews view", s.review_list_open);
    push_separator(&mut rows);
    push_action(&mut rows, s, Action::SidebarToggle, "Sidebar");
    push_action(&mut rows, s, Action::TreeToggle, "Files pane");
    push_action(&mut rows, s, Action::ThreadsPaneToggle, "Threads pane");
    assert(rows_view(rows@) =~= layout_rows(s));
    rows
}

/// The rows of a bar menu in state `s`.
pub fn menu_rows(s: BarState, root: Root) -> (rows: Vec<Row>)
    ensures
        rows@.len() <= 16,
        rows_view(rows@) == spec_menu_rows(s, root),
{
    match root {
        Root::App => {
            let mut rows: Vec<Row> = Vec::new();
            if s.width < FULL_LABEL_WIDTH {
                push_command(&mut rows, "Layout", Target::Submenu(Submenu::Layout));
                push_command(&mut rows, "Go", Target::Submenu(Submenu::Go));
                push_command(&mut rows, "Review", Target::Submenu(Submenu::Review));
                push_command(&mut rows, "Diff", Target::Submenu(Submenu::Diff));
            }
            push_command(&mut rows, "Help", Target::Submenu(Submenu::Help));
            push_separator(&mut rows);
            push_command(&mut rows, "Status", Target::Status);
            push_command(&mut rows, "About", Target::About);
            push_command(&mut rows, "Quit", Target::Quit);
            assert(rows_view(rows@) =~= app_rows(s));
            rows
        },
        Root::Layout => layout_menu_rows(s),
        Root::Go => go_menu_rows(s),
        Root::Review => review_menu_rows(s),
        Root::Diff => diff_menu_rows(s),
    }
}

/// The rows of a fly-out in state `s`.
pub fn submenu_rows(s: BarState, submenu: Submenu) -> (rows: Vec<Row>)
    ensures
        rows@.len() <= 16,
        rows_view(rows@) == spec_submenu_rows(s, submenu),
{
    match submenu {
        Submenu::Layout => layout_menu_rows(s),
        Submenu::Help => {
            let mut rows: Vec<Row> = Vec::new();
            push_command(&mut rows, "Getting started", Target::GettingStarted);
            push_command(&mut rows, "Doctor", Target::Doctor);
            push_command(&mut rows, "View keymap", Target::Action(Action::Help));
            push_command(&mut rows, "Licenses", Target::Licenses);
            assert(rows_view(rows@) =~= help_rows());
            rows
        },
        Submenu::Go => go_menu_rows(s),
        Submenu::Review => review_menu_rows(s),
        Submenu::Diff => diff_menu_rows(s),
    }
}

/// The target of row `index` when it is an item that can run.
pub open spec fn enabled_target(rows: Seq<RowView>, index: int) -> Option<Target> {
    if 0 <= index < rows.len() {
        match rows[index] {
            RowView::Item(item) => if item.enabled { Some(item.target) } else { None },
            RowView::Separator => None,
        }
    } else {
        None
    }
}

/// What the keyboard stands on in the open menu, when it can run: a root
/// row, or a row of the open fly-out.
pub open spec fn spec_selected_target(bar: MenuBarView, s: BarState) -> Option<Target> {
    match bar.open {
        None => None,
        Some(open) => match open.focused {
            Focused::Label => None,
            Focused::Root(index) => enabled_target(spec_menu_rows(s, open.root), index as int),
            Focused::Child(index) => match open.submenu {
                None => None,
                Some((submenu, _)) => enabled_target(spec_submenu_rows(s, submenu), index as int),
            },
        },
    }
}

/// The target of row `index` when it is an item that can run.
fn enabled_target_at(rows: &Vec<Row>, index: usize) -> (target: Option<Target>)
    ensures
        target == enabled_target(rows_view(rows@), index as int),
{
    if index >= rows.len() {
        return None;
    }
    match &rows[index] {
        Row::Item(item) => if item.enabled { Some(item.target) } else { None },
        Row::Separator => None,
    }
}

/// The first row in `from..to` that can run.
pub open spec fn first_enabled(rows: Seq<RowView>, from: int, to: int) -> Option<usize>
    decreases to - from,
{
    if from >= to {
        None
    } else if row_enabled(rows, from) {
        Some(from as usize)
    } else {
        first_enabled(rows, from + 1, to)
    }
}

/// The first row in `from..to` that can run.
fn first_enabled_in(rows: &Vec<Row>, from: usize, to: usize) -> (found: Option<usize>)
    ensures
        found == first_enabled(rows_view(rows@), from as int, to as int),
{
    let mut i = from;
    while i < to
        invariant
            from <= i,
            i <= to || from >= to,
            first_enabled(rows_view(rows@), from as int, to as int) == first_enabled(rows_view(rows@), i as int, to as int),
        decreases to - i,
    {
        if enabled_at(rows.as_slice(), i) {
            return Some(i);
        }
        i = i + 1;
    }
    None
}

/// The open menu after scrolling `delta` rows: a fly-out's rows when
/// `child`, else the root's (which closes the fly-out); the keyboard
/// stays on its row when it still shows (a fly-out row only when it can
/// run), else moves to the first shown row that can run, else back to
/// the fly-out's parent row or to the label.
pub open spec fn spec_scroll_menu(bar: MenuBarView, s: BarState, child: bool, delta: isize, screen_width: int, screen_height: int) -> MenuBarView {
    match bar.open {
        None => bar,
        Some(open) => {
            let root_rows = spec_menu_rows(s, open.root);
            match spec_root_layout(bar, root_rows, screen_width, screen_height) {
                None => bar,
                Some(root) => if child {
                    match open.submenu {
                        None => bar,
                        Some((submenu, parent)) => {
                            let rows = spec_submenu_rows(s, submenu);
                            let visible = match spec_child_layout(bar, root, rows, screen_width, screen_height) {
                                Some(l) => l.visible_rows as int,
                                None => 0,
                            };
                            let window = max(visible, 1);
                            let scroll = min(clamp_add_signed(open.child_scroll as usize, delta), sat_sub(rows.len() as int, window));
                            let end = min(scroll + window, rows.len() as int);
                            let selected = match open.focused {
                                Focused::Child(index) => if scroll <= index < end && row_enabled(rows, index as int) {
                                    Some(index)
                                } else {
                                    first_enabled(rows, scroll, end)
                                },
                                _ => first_enabled(rows, scroll, end),
                            };
                            let moved = OpenView { child_scroll: scroll, ..open };
                            let after = match selected {
                                Some(index) => OpenView { focused: Focused::Child(index), ..moved },
                                None => OpenView { focused: Focused::Root(parent), submenu: None, ..moved },
                            };
                            MenuBarView { shown: bar.shown, open: Some(after) }
                        },
                    }
                } else {
                    let window = max(root.visible_rows as int, 1);
                    let scroll = min(clamp_add_signed(open.root_scroll as usize, delta), sat_sub(root_rows.len() as int, window));
                    let end = min(scroll + window, root_rows.len() as int);
                    let selected = match open.focused {
                        Focused::Root(index) => if scroll <= index < end { Some(index) } else { first_enabled(root_rows, scroll, end) },
                        _ => first_enabled(root_rows, scroll, end),
                    };
                    let focused = match selected {
                        Some(index) => Focused::Root(index),
                        None => Focused::Label,
                    };
                    MenuBarView {
                        shown: bar.shown,
                        open: Some(OpenView { root_scroll: scroll, submenu: None, child_scroll: 0, focused, ..open }),
                    }
                },
            }
        },
    }
}

impl MenuBar {
    /// What the keyboard stands on in the open menu, when it can run.
    pub fn selected_target(&self, s: BarState) -> (target: Option<Target>)
        ensures
            target == spec_selected_target(self@, s),
    {
        let open = match &self.open {
            Some(open) => open,
            None => return None,
        };
        match open.focused {
            Focused::Label => None,
            Focused::Root(index) => {
                let rows = menu_rows(s, open.root);
                enabled_target_at(&rows, index)
            },
            Focused::Child(index) => match open.submenu {
                None => None,
                Some((submenu, _)) => {
                    let rows = submenu_rows(s, submenu);
                    enabled_target_at(&rows, index)
                },
            },
        }
    }

    /// Scrolls the open menu `delta` rows: its fly-out when `child`, else
    /// its root.
    pub fn scroll_menu(&mut self, s: BarState, child: bool, delta: isize, screen_width: usize, screen_height: usize)
        ensures
            final(self)@ == spec_scroll_menu(old(self)@, s, child, delta, screen_width as int, screen_height as int),
    {
        let (root_kind, submenu) = match &self.open {
            Some(open) => (open.root, open.submenu),
            None => return,
        };
        let root_rows = menu_rows(s, root_kind);
        let root = match root_layout(self, root_rows.as_slice(), screen_width, screen_height) {
            Some(root) => root,
            None => return,
        };
        if child {
            let (sub, parent) = match submenu {
                Some(pair) => pair,
                None => return,
            };
            let rows = submenu_rows(s, sub);
            let visible = match child_layout(self, root, rows.as_slice(), screen_width, screen_height) {
                Some(l) => l.visible_rows,
                None => 0,
            };
            let window = if visible >= 1 { visible } else { 1 };
            if let Some(open) = &mut self.open {
                let moved = add_signed_clamped(open.child_scroll, delta);
                let last = rows.len().saturating_sub(window);
                let scroll = if moved <= last { moved } else { last };
                open.child_scroll = scroll;
                let end = if scroll + window <= rows.len() { scroll + window } else { rows.len() };
                let selected = match open.focused {
                    Focused::Child(index) => if index >= scroll && index < end && enabled_at(rows.as_slice(), index) {
                        Some(index)
                    } else {
                        first_enabled_in(&rows, scroll, end)
                    },
                    _ => first_enabled_in(&rows, scroll, end),
                };
                match selected {
                    Some(index) => {
                        open.focused = Focused::Child(index);
                    },
                    None => {
                        open.focused = Focused::Root(parent);
                        open.submenu = None;
                    },
                }
            }
            return;
        }
        let window = if root.visible_rows >= 1 { root.visible_rows } else { 1 };
        if let Some(open) = &mut self.open {
            let moved = add_signed_clamped(open.root_scroll, delta);
            let last = root_rows.len().saturating_sub(window);
            let scroll = if moved <= last { moved } else { last };
            open.root_scroll = scroll;
            open.submenu = None;
            open.child_scroll = 0;
            let end = if scroll + window <= root_rows.len() { scroll + window } else { root_rows.len() };
            let selected = match open.focused {
                Focused::Root(index) => if index >= scroll && index < end {
                    Some(index)
                } else {
                    first_enabled_in(&root_rows, scroll, end)
                },
                _ => first_enabled_in(&root_rows, scroll, end),
            };
            open.focused = match selected {
                Some(index) => Focused::Root(index),
                None => Focused::Label,
            };
        }
    }
}

/// The bar with its menu closed.
pub open spec fn closed_bar(bar: MenuBarView) -> MenuBarView {
    MenuBarView { shown: bar.shown, open: None }
}

/// The target of row `index` when it is an item, whether or not it can
/// run.
pub open spec fn row_target(rows: Seq<RowView>, index: int) -> Option<Target> {
    if 0 <= index < rows.len() {
        match rows[index] {
            RowView::Item(item) => Some(item.target),
            RowView::Separator => None,
        }
    } else {
        None
    }
}

/// The rows of the open menu's fly-out, or none without one.
pub open spec fn open_child_rows(open: OpenView, s: BarState) -> Seq<RowView> {
    match open.submenu {
        Some((submenu, _)) => spec_submenu_rows(s, submenu),
        None => Seq::empty(),
    }
}

/// The bar after the fly-out `submenu` opens from root row `parent` with
/// the keyboard on its first row that can run; unchanged when no row can.
pub open spec fn spec_enter_submenu(bar: MenuBarView, s: BarState, submenu: Submenu, parent: int, screen_width: int, screen_height: int) -> MenuBarView {
    let child = spec_submenu_rows(s, submenu);
    match spec_next_item(child, None, 1) {
        Some(first) => {
            let opened = spec_open_submenu_at(bar, submenu, parent, screen_height);
            let root_rows = spec_menu_rows(s, opened.open->0.root);
            spec_focus_child_item(opened, first as int, root_rows, child, screen_width, screen_height)
        },
        None => bar,
    }
}

/// The bar after the keyboard moves `delta` rows in the open menu: from
/// the label into the root's first row (only downward), along the root's
/// rows (upward past the first back to the label), or along the fly-out's.
pub open spec fn spec_key_move(bar: MenuBarView, s: BarState, delta: isize, screen_width: int, screen_height: int) -> MenuBarView {
    let open = bar.open->0;
    let root_rows = spec_menu_rows(s, open.root);
    match open.focused {
        Focused::Label => if delta >= 0 {
            match spec_next_item(root_rows, None, 1) {
                Some(first) => spec_focus_root_item(bar, root_rows, first as int, false, screen_width, screen_height),
                None => bar,
            }
        } else {
            bar
        },
        Focused::Root(index) => match spec_next_item(root_rows, Some(index), delta) {
            Some(next) => spec_focus_root_item(bar, root_rows, next as int, false, screen_width, screen_height),
            None => if delta >= 0 {
                bar
            } else {
                MenuBarView { shown: bar.shown, open: Some(OpenView { focused: Focused::Label, submenu: None, ..open }) }
            },
        },
        Focused::Child(index) => match open.submenu {
            Some((submenu, _)) => {
                let child = spec_submenu_rows(s, submenu);
                match spec_next_item(child, Some(index), delta) {
                    Some(next) => spec_focus_child_item(bar, next as int, root_rows, child, screen_width, screen_height),
                    None => bar,
                }
            },
            None => bar,
        },
    }
}

/// The bar after Left: the previous menu from the label, back to the
/// parent row from a fly-out.
pub open spec fn spec_key_left(bar: MenuBarView, screen_width: int) -> MenuBarView {
    let open = bar.open->0;
    match open.focused {
        Focused::Label => spec_switch_root(bar, -1isize, screen_width),
        Focused::Child(_) => match open.submenu {
            Some((_, parent)) => MenuBarView {
                shown: bar.shown,
                open: Some(OpenView { submenu: None, focused: Focused::Root(parent), child_scroll: 0, ..open }),
            },
            None => bar,
        },
        Focused::Root(_) => bar,
    }
}

/// The bar after Right: the next menu from the label, into a fly-out
/// from its row.
pub open spec fn spec_key_right(bar: MenuBarView, s: BarState, screen_width: int, screen_height: int) -> MenuBarView {
    let open = bar.open->0;
    match open.focused {
        Focused::Label => spec_switch_root(bar, 1, screen_width),
        Focused::Root(index) => match row_target(spec_menu_rows(s, open.root), index as int) {
            Some(Target::Submenu(submenu)) => spec_enter_submenu(bar, s, submenu, index as int, screen_width, screen_height),
            _ => bar,
        },
        Focused::Child(_) => bar,
    }
}

/// The bar after Enter, and what runs: the selected row's target (which
/// closes the menu), or its fly-out opened from a root row.
pub open spec fn spec_key_enter(bar: MenuBarView, s: BarState, screen_width: int, screen_height: int) -> (MenuBarView, Option<Target>) {
    let open = bar.open->0;
    match spec_selected_target(bar, s) {
        None => (bar, None),
        Some(Target::Submenu(submenu)) => match open.focused {
            Focused::Root(parent) => (spec_enter_submenu(bar, s, submenu, parent as int, screen_width, screen_height), None),
            _ => (bar, None),
        },
        Some(target) => (closed_bar(bar), Some(target)),
    }
}

/// The bar after a typed chord's shortcut, and what runs: a run closes
/// the menu; a chord that is no shortcut closes it too when `close_on_miss`.
pub open spec fn shortcut_result(bar: MenuBarView, after: (MenuBarView, Shortcut), close_on_miss: bool) -> (MenuBarView, Option<Target>) {
    match after.1 {
        Shortcut::Run(target) => (closed_bar(after.0), Some(target)),
        Shortcut::Pending | Shortcut::Closed => (after.0, None),
        Shortcut::Unhandled => if close_on_miss { (closed_bar(bar), None) } else { (bar, None) },
    }
}

/// A key while a bar menu is open, and the target it runs: with keys
/// already typed a chord goes to the shortcuts first; Escape closes;
/// Left/`h`, Right/`l`, Down/`j` and Up/`k` (without Ctrl or Alt) move;
/// Enter runs or opens the selected row; any other key is a shortcut, or
/// closes the menu.
pub open spec fn spec_bar_key(bar: MenuBarView, event: KeyPress, s: BarState, screen_width: int, screen_height: int) -> (MenuBarView, Option<Target>) {
    match bar.open {
        None => (bar, None),
        Some(open) => {
            let plain = !event.ctrl && !event.alt && !event.extra;
            let code = event.code;
            let root_rows = spec_menu_rows(s, open.root);
            let child_rows = open_child_rows(open, s);
            let chord = spec_from_event(event);
            let early = if open.typed.len() > 0 && chord is Some {
                spec_shortcut(bar, root_rows, child_rows, chord->0)
            } else {
                (bar, Shortcut::Unhandled)
            };
            if early.1 != Shortcut::Unhandled {
                shortcut_result(bar, early, false)
            } else if code == KeyCode::Esc {
                (closed_bar(bar), None)
            } else if (code == KeyCode::Left || code == KeyCode::Char('h')) && plain {
                (spec_key_left(bar, screen_width), None)
            } else if (code == KeyCode::Right || code == KeyCode::Char('l')) && plain {
                (spec_key_right(bar, s, screen_width, screen_height), None)
            } else if (code == KeyCode::Down || code == KeyCode::Char('j')) && plain {
                (spec_key_move(bar, s, 1, screen_width, screen_height), None)
            } else if (code == KeyCode::Up || code == KeyCode::Char('k')) && plain {
                (spec_key_move(bar, s, -1isize, screen_width, screen_height), None)
            } else if code == KeyCode::Enter {
                spec_key_enter(bar, s, screen_width, screen_height)
            } else {
                match chord {
                    None => (bar, None),
                    Some(ch) => shortcut_result(bar, spec_shortcut(bar, root_rows, child_rows, ch), true),
                }
            }
        },
    }
}

impl MenuBar {
    /// Opens the fly-out `submenu` from root row `parent` with the keyboard
    /// on its first row that can run.
    fn enter_submenu(&mut self, s: BarState, submenu: Submenu, parent: usize, screen_width: usize, screen_height: usize)
        requires
            old(self)@.open is Some,
            parent < 16,
        ensures
            final(self)@ == spec_enter_submenu(old(self)@, s, submenu, parent as int, screen_width as int, screen_height as int),
    {
        let child = submenu_rows(s, submenu);
        match next_item(child.as_slice(), None, 1) {
            Some(first) => {
                self.open_submenu_at(submenu, parent, screen_height);
                let root = match &self.open {
                    Some(open) => open.root,
                    None => return,
                };
                let root_rows = menu_rows(s, root);
                self.focus_child_item(first, root_rows.as_slice(), child.as_slice(), screen_width, screen_height);
            },
            None => {},
        }
    }

    /// Moves the keyboard `delta` rows in the open menu.
    fn key_move(&mut self, s: BarState, delta: isize, screen_width: usize, screen_height: usize)
        requires
            old(self)@.open is Some,
        ensures
            final(self)@ == spec_key_move(old(self)@, s, delta, screen_width as int, screen_height as int),
    {
        let (root, focused, submenu) = match &self.open {
            Some(open) => (open.root, open.focused, open.submenu),
            None => return,
        };
        let root_rows = menu_rows(s, root);
        match focused {
            Focused::Label => {
                if delta >= 0 {
                    if let Some(first) = next_item(root_rows.as_slice(), None, 1) {
                        self.focus_root_item(root_rows.as_slice(), first, false, screen_width, screen_height);
                    }
                }
            },
            Focused::Root(index) => {
                match next_item(root_rows.as_slice(), Some(index), delta) {
                    Some(next) => self.focus_root_item(root_rows.as_slice(), next, false, screen_width, screen_height),
                    None => {
                        if delta < 0 {
                            if let Some(open) = &mut self.open {
                                open.focused = Focused::Label;
                                open.submenu = None;
                            }
                        }
                    },
                }
            },
            Focused::Child(index) => {
                if let Some((sub, _)) = submenu {
                    let child = submenu_rows(s, sub);
                    if let Some(next) = next_item(child.as_slice(), Some(index), delta) {
                        self.focus_child_item(next, root_rows.as_slice(), child.as_slice(), screen_width, screen_height);
                    }
                }
            },
        }
    }

    /// Left in the open menu.
    fn key_left(&mut self, screen_width: usize)
        requires
            old(self)@.open is Some,
        ensures
            final(self)@ == spec_key_left(old(self)@, screen_width as int),
    {
        let focused = match &self.open {
            Some(open) => open.focused,
            None => return,
        };
        match focused {
            Focused::Label => self.switch_root(-1, screen_width),
            Focused::Child(_) => {
                if let Some(open) = &mut self.open {
                    if let Some((_, parent)) = open.submenu {
                        open.submenu = None;
                        open.focused = Focused::Root(parent);
                        open.child_scroll = 0;
                    }
                }
            },
            Focused::Root(_) => {},
        }
    }

    /// Right in the open menu.
    fn key_right(&mut self, s: BarState, screen_width: usize, screen_height: usize)
        requires
            old(self)@.open is Some,
        ensures
            final(self)@ == spec_key_right(old(self)@, s, screen_width as int, screen_height as int),
    {
        let (root, focused) = match &self.open {
            Some(open) => (open.root, open.focused),
            None => return,
        };
        match focused {
            Focused::Label => self.switch_root(1, screen_width),
            Focused::Root(index) => {
                let root_rows = menu_rows(s, root);
                let target = if index < root_rows.len() {
                    match &root_rows[index] {
                        Row::Item(item) => Some(item.target),
                        Row::Separator => None,
                    }
                } else {
                    None
                };
                if let Some(Target::Submenu(submenu)) = target {
                    self.enter_submenu(s, submenu, index, screen_width, screen_height);
                }
            },
            Focused::Child(_) => {},
        }
    }

    /// Enter in the open menu, and the target it runs.
    fn key_enter(&mut self, s: BarState, screen_width: usize, screen_height: usize) -> (run: Option<Target>)
        requires
            old(self)@.open is Some,
        ensures
            (final(self)@, run) == spec_key_enter(old(self)@, s, screen_width as int, screen_height as int),
    {
        let (root, focused) = match &self.open {
            Some(open) => (open.root, open.focused),
            None => return None,
        };
        match self.selected_target(s) {
            None => None,
            Some(Target::Submenu(submenu)) => {
                match focused {
                    Focused::Root(parent) => {
                        let rows = menu_rows(s, root);
                        assert(spec_selected_target(self@, s) == enabled_target(rows_view(rows@), parent as int));
                        self.enter_submenu(s, submenu, parent, screen_width, screen_height);
                    },
                    _ => {},
                }
                None
            },
            Some(target) => {
                self.close();
                Some(target)
            },
        }
    }

    /// A key while a bar menu is open, and the target it runs, if any.
    pub fn key(&mut self, event: KeyPress, s: BarState, screen_width: usize, screen_height: usize) -> (run: Option<Target>)
        ensures
            (final(self)@, run) == spec_bar_key(old(self)@, event, s, screen_width as int, screen_height as int),
    {
        let (root, submenu, has_typed) = match &self.open {
            Some(open) => (open.root, open.submenu, open.typed.len() > 0),
            None => return None,
        };
        let plain = !event.ctrl && !event.alt && !event.extra;
        let root_rows = menu_rows(s, root);
        let child_rows = match submenu {
            Some((sub, _)) => submenu_rows(s, sub),
            None => Vec::new(),
        };
        proof {
            assert(rows_view(child_rows@) =~= open_child_rows(old(self)@.open->0, s));
        }
        let chord = Chord::from_event(event);
        if has_typed {
            if let Some(ch) = chord {
                match self.shortcut(root_rows.as_slice(), child_rows.as_slice(), ch) {
                    Shortcut::Run(target) => {
                        self.close();
                        return Some(target);
                    },
                    Shortcut::Pending | Shortcut::Closed => {
                        return None;
                    },
                    Shortcut::Unhandled => {},
                }
            }
        }
        let code = event.code;
        if code == KeyCode::Esc {
            self.close();
            return None;
        }
        if (code == KeyCode::Left || code == KeyCode::Char('h')) && plain {
            self.key_left(screen_width);
            return None;
        }
        if (code == KeyCode::Right || code == KeyCode::Char('l')) && plain {
            self.key_right(s, screen_width, screen_height);
            return None;
        }
        if (code == KeyCode::Down || code == KeyCode::Char('j')) && plain {
            self.key_move(s, 1, screen_width, screen_height);
            return None;
        }
        if (code == KeyCode::Up || code == KeyCode::Char('k')) && plain {
            self.key_move(s, -1, screen_width, screen_height);
            return None;
        }
        if code == KeyCode::Enter {
            return self.key_enter(s, screen_width, screen_height);
        }
        match chord {
            None => None,
            Some(ch) => match self.shortcut(root_rows.as_slice(), child_rows.as_slice(), ch) {
                Shortcut::Run(target) => {
                    self.close();
                    Some(target)
                },
                Shortcut::Pending | Shortcut::Closed => None,
                Shortcut::Unhandled => {
                    self.close();
                    None
                },
            },
        }
    }
}


/// What the pointer did.
#[derive(Debug, Clone, Copy, PartialEq, Eq, Structural)]
pub enum MouseKind {
    Moved,
    LeftDown,
    RightDown,
    /// Another button went down.
    OtherDown,
    ScrollDown,
    ScrollUp,
    /// The pointer moved with the left button held.
    LeftDrag,
    /// The left button came up.
    LeftUp,
    /// Another drag or release.
    Other,
}

/// What a mouse event on the bar or its open menu asks of the viewer.
#[derive(Debug, Clone, Copy, PartialEq, Eq, Structural)]
pub enum BarMouse {
    /// Not the bar's: the event goes on to the panes.
    Pass,
    /// Taken, with nothing more to do.
    Handled,
    /// The menu of this label opened.
    Opened(Root),
    /// The menu closed; this picker opens.
    Picker(PickerKind),
    /// The menu closed; the worktree picker opens.
    Worktree,
    /// The menu closed; this runs.
    Run(Target),
}

/// The picker a click at `column` on the bar's identity opens.
pub open spec fn identity_picker_at(identity: Option<BarIdentity>, column: int) -> Option<PickerKind> {
    match identity {
        Some(i) => if i.x <= column < i.x + text_width(i.repo@) { i.picker } else { None },
        None => None,
    }
}

/// A mouse event on the bar's own row at `column`: over a label, moving
/// onto another menu's label opens it and a left click opens it or, when
/// it is the open one, closes it; a left click on a comparison endpoint
/// opens its picker, on the identity the worktree picker, elsewhere it
/// closes the menu.
pub open spec fn spec_bar_row_mouse(
    bar: MenuBarView,
    kind: MouseKind,
    column: int,
    width: int,
    tail: BarTailView,
    identity: Option<BarIdentity>,
) -> (MenuBarView, BarMouse) {
    let left = kind == MouseKind::LeftDown;
    match spec_label_at(width, column) {
        Some(root) => {
            let opened = MenuBarView { shown: bar.shown, open: Some(freshly_open(root)) };
            let open_here = bar.open matches Some(o) && o.root == root;
            if kind == MouseKind::Moved && bar.open is Some && !open_here {
                (opened, BarMouse::Opened(root))
            } else if left && open_here {
                (closed_bar(bar), BarMouse::Handled)
            } else if left {
                (opened, BarMouse::Opened(root))
            } else {
                (bar, BarMouse::Handled)
            }
        },
        None => if !left {
            (bar, BarMouse::Handled)
        } else {
            match spec_tail_picker_at(tail, column) {
                Some(picker) => (closed_bar(bar), BarMouse::Picker(picker)),
                None => if identity_picker_at(identity, column) is Some {
                    (closed_bar(bar), BarMouse::Worktree)
                } else {
                    (closed_bar(bar), BarMouse::Handled)
                },
            }
        },
    }
}

/// A mouse event below the bar while a menu may be open: the wheel
/// scrolls the fly-out or the root menu under it; over an item the
/// keyboard moves there (a root row opens its fly-out) and a left click
/// runs it when it can run, closing the menu (a fly-out's row only opens);
/// anywhere else in a box it is taken; outside, a left click closes the
/// menu and a right click closes it and goes on to the panes.
pub open spec fn spec_menu_mouse(
    bar: MenuBarView,
    kind: MouseKind,
    column: int,
    row: int,
    s: BarState,
    screen_width: int,
    screen_height: int,
) -> (MenuBarView, BarMouse) {
    match bar.open {
        None => (bar, BarMouse::Pass),
        Some(open) => {
            let root_rows = spec_menu_rows(s, open.root);
            match spec_root_layout(bar, root_rows, screen_width, screen_height) {
                None => (bar, BarMouse::Pass),
                Some(root) => {
                    let child_rows = open_child_rows(open, s);
                    let child = spec_child_layout(bar, root, child_rows, screen_width, screen_height);
                    let in_child = child matches Some(l) && spec_layout_holds(l, column, row);
                    let in_root = spec_layout_holds(root, column, row);
                    let left = kind == MouseKind::LeftDown;
                    if kind == MouseKind::ScrollDown || kind == MouseKind::ScrollUp {
                        let delta: isize = if kind == MouseKind::ScrollDown { 1isize } else { -1isize };
                        if in_child {
                            (spec_scroll_menu(bar, s, true, delta, screen_width, screen_height), BarMouse::Handled)
                        } else if in_root {
                            (spec_scroll_menu(bar, s, false, delta, screen_width, screen_height), BarMouse::Handled)
                        } else {
                            (bar, BarMouse::Handled)
                        }
                    } else {
                        let child_hit = match child {
                            Some(l) => spec_row_at(l, column, row, child_rows),
                            None => None,
                        };
                        match child_hit {
                            Some(index) => {
                                let focused = spec_focus_child_item(bar, index as int, root_rows, child_rows, screen_width, screen_height);
                                match enabled_target(child_rows, index as int) {
                                    Some(target) if left => (closed_bar(focused), BarMouse::Run(target)),
                                    _ => (focused, BarMouse::Handled),
                                }
                            },
                            None => if in_child {
                                (bar, BarMouse::Handled)
                            } else {
                                match spec_row_at(root, column, row, root_rows) {
                                    Some(index) => {
                                        let focused = spec_focus_root_item(bar, root_rows, index as int, true, screen_width, screen_height);
                                        match enabled_target(root_rows, index as int) {
                                            Some(Target::Submenu(_)) => (focused, BarMouse::Handled),
                                            Some(target) if left => (closed_bar(focused), BarMouse::Run(target)),
                                            _ => (focused, BarMouse::Handled),
                                        }
                                    },
                                    None => if kind == MouseKind::Moved && in_root {
                                        (bar, BarMouse::Handled)
                                    } else if left {
                                        (closed_bar(bar), BarMouse::Handled)
                                    } else if kind == MouseKind::RightDown {
                                        (closed_bar(bar), BarMouse::Pass)
                                    } else {
                                        (bar, BarMouse::Handled)
                                    },
                                }
                            },
                        }
                    }
                },
            }
        },
    }
}

/// A mouse event at screen cell `column`, `row` on a shown bar: its own
/// row, or the open menu below it; a hidden bar takes nothing.
pub open spec fn spec_bar_mouse(
    bar: MenuBarView,
    kind: MouseKind,
    column: int,
    row: int,
    s: BarState,
    tail: BarTailView,
    identity: Option<BarIdentity>,
    screen_width: int,
    screen_height: int,
) -> (MenuBarView, BarMouse) {
    if !bar.shown {
        (bar, BarMouse::Pass)
    } else if row == 0 {
        spec_bar_row_mouse(bar, kind, column, s.width as int, tail, identity)
    } else {
        spec_menu_mouse(bar, kind, column, row, s, screen_width, screen_height)
    }
}

/// The picker a click at `column` on the identity opens.
fn identity_picker(identity: &Option<BarIdentity>, column: usize) -> (picker: Option<PickerKind>)
    ensures
        picker == identity_picker_at(*identity, column as int),
{
    match identity {
        Some(i) => i.picker_at(column),
        None => None,
    }
}

impl MenuBar {
    /// A mouse event on the bar's own row at `column`.
    fn bar_row_mouse(&mut self, kind: MouseKind, column: usize, width: usize, tail: &BarTail, identity: &Option<BarIdentity>) -> (outcome: BarMouse)
        ensures
            (final(self)@, outcome) == spec_bar_row_mouse(old(self)@, kind, column as int, width as int, tail@, *identity),
    {
        let left = kind == MouseKind::LeftDown;
        match label_at(width, column) {
            Some(root) => {
                let (is_open, open_here) = match &self.open {
                    Some(open) => (true, open.root == root),
                    None => (false, false),
                };
                if kind == MouseKind::Moved && is_open && !open_here {
                    self.show(root);
                    BarMouse::Opened(root)
                } else if left && open_here {
                    self.close();
                    BarMouse::Handled
                } else if left {
                    self.show(root);
                    BarMouse::Opened(root)
                } else {
                    BarMouse::Handled
                }
            },
            None => {
                if !left {
                    return BarMouse::Handled;
                }
                self.close();
                match tail.picker_at(column) {
                    Some(picker) => BarMouse::Picker(picker),
                    None => if identity_picker(identity, column).is_some() {
                        BarMouse::Worktree
                    } else {
                        BarMouse::Handled
                    },
                }
            },
        }
    }

    /// A mouse event below the bar.
    #[verifier::rlimit(40)]
    fn menu_mouse(&mut self, kind: MouseKind, column: usize, row: usize, s: BarState, screen_width: usize, screen_height: usize) -> (outcome: BarMouse)
        ensures
            (final(self)@, outcome) == spec_menu_mouse(old(self)@, kind, column as int, row as int, s, screen_width as int, screen_height as int),
    {
        let (root_kind, submenu) = match &self.open {
            Some(open) => (open.root, open.submenu),
            None => return BarMouse::Pass,
        };
        let root_rows = menu_rows(s, root_kind);
        let root = match root_layout(self, root_rows.as_slice(), screen_width, screen_height) {
            Some(layout) => layout,
            None => return BarMouse::Pass,
        };
        let child_rows = match submenu {
            Some((sub, _)) => submenu_rows(s, sub),
            None => Vec::new(),
        };
        proof {
            assert(rows_view(child_rows@) =~= open_child_rows(old(self)@.open->0, s));
        }
        let child = child_layout(self, root, child_rows.as_slice(), screen_width, screen_height);
        let in_child = match child {
            Some(l) => l.contains(column, row),
            None => false,
        };
        let in_root = root.contains(column, row);
        let left = kind == MouseKind::LeftDown;
        if kind == MouseKind::ScrollDown || kind == MouseKind::ScrollUp {
            let delta: isize = if kind == MouseKind::ScrollDown { 1 } else { -1 };
            if in_child {
                self.scroll_menu(s, true, delta, screen_width, screen_height);
            } else if in_root {
                self.scroll_menu(s, false, delta, screen_width, screen_height);
            }
            return BarMouse::Handled;
        }
        let child_hit = match child {
            Some(l) => l.row_at(column, row, child_rows.as_slice()),
            None => None,
        };
        if let Some(index) = child_hit {
            self.focus_child_item(index, root_rows.as_slice(), child_rows.as_slice(), screen_width, screen_height);
            return match enabled_target_at(&child_rows, index) {
                Some(target) => if left {
                    self.close();
                    BarMouse::Run(target)
                } else {
                    BarMouse::Handled
                },
                None => BarMouse::Handled,
            };
        }
        if in_child {
            return BarMouse::Handled;
        }
        match root.row_at(column, row, root_rows.as_slice()) {
            Some(index) => {
                self.focus_root_item(root_rows.as_slice(), index, true, screen_width, screen_height);
                match enabled_target_at(&root_rows, index) {
                    Some(Target::Submenu(_)) => BarMouse::Handled,
                    Some(target) => if left {
                        self.close();
                        BarMouse::Run(target)
                    } else {
                        BarMouse::Handled
                    },
                    None => BarMouse::Handled,
                }
            },
            None => if kind == MouseKind::Moved && in_root {
                BarMouse::Handled
            } else if left {
                self.close();
                BarMouse::Handled
            } else if kind == MouseKind::RightDown {
                self.close();
                BarMouse::Pass
            } else {
                BarMouse::Handled
            },
        }
    }

    /// A mouse event at screen cell `column`, `row`, given the viewer's
    /// state, the bar's comparison endpoints and its identity, and what
    /// the viewer must do about it.
    pub fn mouse(
        &mut self,
        kind: MouseKind,
        column: usize,
        row: usize,
        s: BarState,
        tail: &BarTail,
        identity: &Option<BarIdentity>,
        screen_width: usize,
        screen_height: usize,
    ) -> (outcome: BarMouse)
        ensures
            (final(self)@, outcome) == spec_bar_mouse(old(self)@, kind, column as int, row as int, s, tail@, *identity, screen_width as int, screen_height as int),
    {
        if !self.shown {
            return BarMouse::Pass;
        }
        if row == 0 {
            return self.bar_row_mouse(kind, column, s.width, tail, identity);
        }
        self.menu_mouse(kind, column, row, s, screen_width, screen_height)
    }
}

} // verus!

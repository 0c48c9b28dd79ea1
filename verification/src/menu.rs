//! Context and pane-settings menus: the actions that apply under the
//! pointer or to the Files pane, each showing the key the binding table
//! gives it, and the grids that the drawn menus and the mouse share so a
//! click lands on the drawn entry.

use vstd::prelude::*;

use crate::bindings::{
    continues, continues_keys, first_keys, menu_spell, same_keys, spec_first_keys,
    spelled, binding_table, Action, Chord, Match, Where,
};
use crate::keys::{KeyCode, KeyPress};
use crate::text::{display_width, text_width};

verus! {

/// One row of a context menu.
pub struct Entry {
    /// The key as the table spells it, shown beside the label.
    key: String,
    /// The chords that key is, matched against what is typed.
    keys: Vec<Chord>,
    label: String,
    /// What the entry runs. The key shown may belong to a sibling action:
    /// `dd` arms a delete, the entry deletes at once.
    action: Option<Action>,
    /// `Some` for a persistent toggle row, active or inactive.
    checked: Option<bool>,
    enabled: bool,
    active: bool,
}

/// An entry as the contracts see it.
pub struct EntryView {
    pub key: Seq<char>,
    pub keys: Seq<Chord>,
    pub label: Seq<char>,
    pub action: Option<Action>,
    pub checked: Option<bool>,
    pub enabled: bool,
    pub active: bool,
}

impl View for Entry {
    type V = EntryView;

    closed spec fn view(&self) -> EntryView {
        EntryView {
            key: self.key@,
            keys: self.keys@,
            label: self.label@,
            action: self.action,
            checked: self.checked,
            enabled: self.enabled,
            active: self.active,
        }
    }
}

impl Entry {
    /// The key as the table spells it.
    pub fn key(&self) -> (key: &str)
        ensures
            key@ == self@.key,
    {
        self.key.as_str()
    }

    /// What the entry says it does.
    pub fn label(&self) -> (label: &str)
        ensures
            label@ == self@.label,
    {
        self.label.as_str()
    }

    /// What the entry runs; `None` for a separator.
    pub fn action(&self) -> (action: Option<Action>)
        ensures
            action == self@.action,
    {
        self.action
    }

    /// Whether the row is a separator rather than an entry.
    pub fn is_separator(&self) -> (separator: bool)
        ensures
            separator == self@.action is None,
    {
        self.action.is_none()
    }

    /// The state of a persistent toggle row.
    pub fn checked(&self) -> (checked: Option<bool>)
        ensures
            checked == self@.checked,
    {
        self.checked
    }

    /// Whether the entry can be chosen.
    pub fn enabled(&self) -> (enabled: bool)
        ensures
            enabled == self@.enabled,
    {
        self.enabled
    }

    /// Whether the entry is the chosen member of a choice.
    pub fn active(&self) -> (active: bool)
        ensures
            active == self@.active,
    {
        self.active
    }
}

/// A context menu: what it acts on, its entries, and the cell it opened
/// at.
pub struct Menu {
    title: String,
    place: Where,
    entries: Vec<Entry>,
    column: usize,
    row: usize,
    right_aligned: bool,
}

/// A menu as the contracts see it.
pub struct MenuView {
    pub title: Seq<char>,
    pub place: Where,
    pub entries: Seq<EntryView>,
    pub column: usize,
    pub row: usize,
    pub right_aligned: bool,
}

/// Entries by their views.
pub open spec fn entries_view(entries: Seq<Entry>) -> Seq<EntryView> {
    entries.map_values(|e: Entry| e@)
}

impl View for Menu {
    type V = MenuView;

    closed spec fn view(&self) -> MenuView {
        MenuView {
            title: self.title@,
            place: self.place,
            entries: entries_view(self.entries@),
            column: self.column,
            row: self.row,
            right_aligned: self.right_aligned,
        }
    }
}

/// The entry a menu adds for an action shown with `keys`, running `run`.
pub open spec fn added_entry(
    keys: Seq<Chord>,
    run: Action,
    label: Seq<char>,
    checked: Option<bool>,
    active: bool,
) -> EntryView {
    EntryView {
        key: spelled(keys, "Sp"@),
        keys,
        label,
        action: Some(run),
        checked,
        enabled: true,
        active,
    }
}

/// The entries after adding one that shows `shown`'s key on `place`: none
/// when the table does not bind `shown` there, so no entry is keyless.
pub open spec fn with_entry(
    entries: Seq<EntryView>,
    place: Where,
    shown: Action,
    run: Action,
    label: Seq<char>,
    checked: Option<bool>,
    active: bool,
) -> Seq<EntryView> {
    match spec_first_keys(binding_table(), place, shown) {
        Some(keys) => entries.push(added_entry(keys, run, label, checked, active)),
        None => entries,
    }
}

impl Menu {
    /// An empty menu titled `title` for `place`, opening at the cell.
    pub fn new(title: &str, place: Where, column: usize, row: usize) -> (menu: Self)
        ensures
            menu@ == (MenuView {
                title: title@,
                place,
                entries: Seq::empty(),
                column,
                row,
                right_aligned: false,
            }),
    {
        let menu = Menu {
            title: title.to_owned(),
            place,
            entries: Vec::new(),
            column,
            row,
            right_aligned: false,
        };
        assert(menu@.entries =~= Seq::<EntryView>::empty());
        menu
    }

    /// A pane-title menu whose top border sits immediately below its
    /// header.
    pub fn below_header(title: &str, place: Where, column: usize, row: usize) -> (menu: Self)
        ensures
            menu@ == (MenuView {
                title: title@,
                place,
                entries: Seq::empty(),
                column,
                row: if row < usize::MAX { (row + 1) as usize } else { row },
                right_aligned: false,
            }),
    {
        Self::new(title, place, column, row.saturating_add(1))
    }

    /// A menu whose right edge sits at column `right`, below `row`.
    pub fn under_right_edge(title: &str, place: Where, right: usize, row: usize) -> (menu: Self)
        ensures
            menu@ == (MenuView {
                title: title@,
                place,
                entries: Seq::empty(),
                column: right,
                row: if row < usize::MAX { (row + 1) as usize } else { row },
                right_aligned: true,
            }),
    {
        let mut menu = Self::new(title, place, right, row.saturating_add(1));
        menu.right_aligned = true;
        menu
    }

    /// Add an entry showing `shown`'s key and running `run`; an action the
    /// table does not bind on this place adds nothing, so no entry is ever
    /// keyless.
    pub fn push(&mut self, shown: Action, run: Action, label: &str)
        ensures
            final(self)@ == (MenuView {
                entries: with_entry(old(self)@.entries, old(self)@.place, shown, run, label@, None, false),
                ..old(self)@
            }),
    {
        self.push_entry(shown, run, label, None);
    }

    /// Add a persistent toggle entry carrying its current checked state.
    pub fn push_toggle(&mut self, shown: Action, run: Action, label: &str, active: bool)
        ensures
            final(self)@ == (MenuView {
                entries: with_entry(old(self)@.entries, old(self)@.place, shown, run, label@, Some(active), false),
                ..old(self)@
            }),
    {
        self.push_entry(shown, run, label, Some(active));
    }

    /// Add a persistent toggle entry that can be chosen only when
    /// `enabled`.
    pub fn push_toggle_enabled(&mut self, shown: Action, run: Action, label: &str, active: bool, enabled: bool)
        ensures
            ({
                let added = with_entry(old(self)@.entries, old(self)@.place, shown, run, label@, Some(active), false);
                final(self)@ == (MenuView {
                    entries: if added.len() > old(self)@.entries.len() {
                        added.update(added.len() - 1, EntryView { enabled, ..added.last() })
                    } else {
                        added
                    },
                    ..old(self)@
                })
            }),
    {
        let before = self.entries.len();
        self.push_toggle(shown, run, label, active);
        if self.entries.len() > before {
            let ghost pushed = self@.entries;
            let mut last = self.entries.pop().unwrap();
            last.enabled = enabled;
            self.entries.push(last);
            assert(self@.entries =~= pushed.update(pushed.len() - 1, EntryView { enabled, ..pushed.last() }));
        }
    }

    /// Add an entry showing `shown`'s key and running `run`.
    pub fn push_entry(&mut self, shown: Action, run: Action, label: &str, checked: Option<bool>)
        ensures
            final(self)@ == (MenuView {
                entries: with_entry(old(self)@.entries, old(self)@.place, shown, run, label@, checked, false),
                ..old(self)@
            }),
    {
        match first_keys(self.place, shown) {
            Some(keys) => {
                let key = menu_spell(keys.as_slice());
                let ghost before = self@.entries;
                let entry = Entry {
                    key,
                    keys,
                    label: label.to_owned(),
                    action: Some(run),
                    checked,
                    enabled: true,
                    active: false,
                };
                self.entries.push(entry);
                assert(self@.entries =~= before.push(added_entry(spec_first_keys(binding_table(), self.place, shown)->0, run, label@, checked, false)));
            },
            None => {},
        }
    }

    /// Add an entry showing `shown`'s key and running `run`, which can be
    /// chosen only when `enabled`.
    pub(crate) fn push_entry_enabled(&mut self, shown: Action, run: Action, label: &str, checked: Option<bool>, enabled: bool)
        ensures
            final(self)@ == (MenuView {
                entries: match spec_first_keys(binding_table(), old(self)@.place, shown) {
                    Some(keys) => old(self)@.entries.push(EntryView { enabled, ..added_entry(keys, run, label@, checked, false) }),
                    None => old(self)@.entries,
                },
                ..old(self)@
            }),
    {
        match first_keys(self.place, shown) {
            Some(keys) => {
                let key = menu_spell(keys.as_slice());
                let ghost before = self@.entries;
                let entry = Entry {
                    key,
                    keys,
                    label: label.to_owned(),
                    action: Some(run),
                    checked,
                    enabled,
                    active: false,
                };
                self.entries.push(entry);
                assert(self@.entries =~= before.push(EntryView {
                    enabled,
                    ..added_entry(spec_first_keys(binding_table(), self.place, shown)->0, run, label@, checked, false)
                }));
            },
            None => {},
        }
    }

    /// Add one member of a mutually exclusive choice, `active` when it is
    /// the chosen one.
    pub fn push_choice(&mut self, action: Action, label: &str, active: bool)
        ensures
            final(self)@ == (MenuView {
                entries: with_entry(old(self)@.entries, old(self)@.place, action, action, label@, None, active),
                ..old(self)@
            }),
    {
        match first_keys(self.place, action) {
            Some(keys) => {
                let key = menu_spell(keys.as_slice());
                let ghost before = self@.entries;
                let entry = Entry {
                    key,
                    keys,
                    label: label.to_owned(),
                    action: Some(action),
                    checked: None,
                    enabled: true,
                    active,
                };
                self.entries.push(entry);
                assert(self@.entries =~= before.push(added_entry(spec_first_keys(binding_table(), self.place, action)->0, action, label@, None, active)));
            },
            None => {},
        }
    }

    /// Add a visual grouping rule that cannot be selected or invoked.
    pub fn separator(&mut self)
        ensures
            final(self)@ == (MenuView {
                entries: old(self)@.entries.push(EntryView {
                    key: Seq::empty(),
                    keys: Seq::empty(),
                    label: Seq::empty(),
                    action: None,
                    checked: None,
                    enabled: false,
                    active: false,
                }),
                ..old(self)@
            }),
    {
        let ghost before = self@.entries;
        let entry = Entry {
            key: String::new(),
            keys: Vec::new(),
            label: String::new(),
            action: None,
            checked: None,
            enabled: false,
            active: false,
        };
        self.entries.push(entry);
        assert(self@.entries =~= before.push(entry@));
    }

    /// The row in the pill colour naming what the menu acts on.
    pub fn title(&self) -> (title: &str)
        ensures
            title@ == self@.title,
    {
        self.title.as_str()
    }

    /// The menu's rows, in order.
    pub fn entries(&self) -> (entries: &[Entry])
        ensures
            entries_view(entries@) == self@.entries,
    {
        self.entries.as_slice()
    }
}

/// Entry `k` is the first enabled entry typed with exactly `typed`.
pub open spec fn first_typed(entries: Seq<EntryView>, typed: Seq<Chord>, k: int) -> bool {
    &&& 0 <= k < entries.len()
    &&& entries[k].enabled && entries[k].keys == typed
    &&& forall|m: int| 0 <= m < k ==> !(#[trigger] entries[m].enabled && entries[m].keys == typed)
}

/// What `typed` means in a menu: the first enabled entry with that whole
/// key fires its action, the start of any entry's key waits, anything else
/// is a miss.
pub open spec fn spec_menu_typed(entries: Seq<EntryView>, typed: Seq<Chord>) -> Match {
    if exists|k: int| first_typed(entries, typed, k)
        && entries[choose|k: int| first_typed(entries, typed, k)].action is Some {
        Match::Exact(entries[choose|k: int| first_typed(entries, typed, k)].action->0)
    } else if exists|k: int| 0 <= k < entries.len() && continues(typed, #[trigger] entries[k].keys) {
        Match::Prefix
    } else {
        Match::Miss
    }
}

/// Whether some entry's key is longer than `typed` and starts with it.
fn any_continues(entries: &Vec<Entry>, typed: &[Chord]) -> (found: bool)
    ensures
        found == exists|k: int| 0 <= k < entries@.len() && continues(typed@, #[trigger] entries_view(entries@)[k].keys),
{
    let ghost es = entries_view(entries@);
    let mut m: usize = 0;
    while m < entries.len()
        invariant
            es == entries_view(entries@),
            m <= entries@.len(),
            forall|q: int| 0 <= q < m ==> !continues(typed@, #[trigger] es[q].keys),
        decreases entries@.len() - m,
    {
        assert(es[m as int] == entries@[m as int]@);
        if continues_keys(typed, entries[m].keys.as_slice()) {
            assert(continues(typed@, entries_view(entries@)[m as int].keys));
            return true;
        }
        m = m + 1;
    }
    false
}

impl Menu {
    /// What `typed` means here: an entry's whole key fires it, the start of
    /// one waits, anything else is a miss that closes the menu.
    pub fn typed(&self, typed: &[Chord]) -> (m: Match)
        ensures
            m == spec_menu_typed(self@.entries, typed@),
    {
        let ghost es = self@.entries;
        let mut k: usize = 0;
        while k < self.entries.len()
            invariant
                es == entries_view(self.entries@),
                k <= self.entries@.len(),
                forall|m: int| 0 <= m < k ==> !(#[trigger] es[m].enabled && es[m].keys == typed@),
            decreases self.entries@.len() - k,
        {
            let entry = &self.entries[k];
            assert(es[k as int] == entry@);
            if entry.enabled && same_keys(entry.keys.as_slice(), typed) {
                proof {
                    assert(first_typed(es, typed@, k as int));
                    assert forall|x: int| first_typed(es, typed@, x) implies x == k by {
                        if x < k { assert(!(es[x].enabled && es[x].keys == typed@)); }
                        if x > k { assert(!(es[k as int].enabled && es[k as int].keys == typed@)); }
                    }
                }
                match entry.action {
                    Some(action) => return Match::Exact(action),
                    None => {
                        return if any_continues(&self.entries, typed) { Match::Prefix } else { Match::Miss };
                    },
                }
            }
            k = k + 1;
        }
        proof {
            assert forall|x: int| !first_typed(es, typed@, x) by {
                if 0 <= x < es.len() { assert(!(es[x].enabled && es[x].keys == typed@)); }
            }
        }
        if any_continues(&self.entries, typed) { Match::Prefix } else { Match::Miss }
    }
}

/// The widest key among `entries`, and at least one column.
pub open spec fn widest_key(entries: Seq<EntryView>) -> nat
    decreases entries.len(),
{
    if entries.len() == 0 {
        1
    } else {
        let rest = widest_key(entries.drop_last());
        let w = text_width(entries.last().key);
        if w > rest { w } else { rest }
    }
}

/// The widest label among `entries`, and at least one column.
pub open spec fn widest_label(entries: Seq<EntryView>) -> nat
    decreases entries.len(),
{
    if entries.len() == 0 {
        1
    } else {
        let rest = widest_label(entries.drop_last());
        let w = text_width(entries.last().label);
        if w > rest { w } else { rest }
    }
}

/// The widest key and the widest label among `entries`.
fn measure(entries: &Vec<Entry>) -> (widths: (usize, usize))
    ensures
        widths.0 == widest_key(entries_view(entries@)),
        widths.1 == widest_label(entries_view(entries@)),
{
    let ghost es = entries_view(entries@);
    let mut key: usize = 1;
    let mut label: usize = 1;
    let mut k: usize = 0;
    while k < entries.len()
        invariant
            es == entries_view(entries@),
            k <= entries@.len(),
            key == widest_key(es.take(k as int)),
            label == widest_label(es.take(k as int)),
        decreases entries@.len() - k,
    {
        assert(es.take(k as int + 1).drop_last() =~= es.take(k as int));
        assert(es[k as int] == entries@[k as int]@);
        let kw = display_width(entries[k].key.as_str());
        let lw = display_width(entries[k].label.as_str());
        if kw > key {
            key = kw;
        }
        if lw > label {
            label = lw;
        }
        k = k + 1;
    }
    assert(es.take(entries@.len() as int) =~= es);
    (key, label)
}

/// Where a key menu's rows sit inside a rounded titled border. The drawing
/// lays the entries out by it and the mouse reads it back.
#[derive(Debug, Clone, Copy, PartialEq, Eq, Structural)]
pub struct Grid {
    pub x: usize,
    pub y: usize,
    pub width: usize,
    pub height: usize,
    pub rows: usize,
    pub columns: usize,
    pub key_width: usize,
    pub label_width: usize,
    pub count: usize,
}

/// The cells one column of entries takes.
pub open spec fn spec_column_width(key_width: int, label_width: int) -> int {
    key_width + 2 + label_width + 3
}

/// `a - b`, or zero when `b` exceeds `a`.
pub open spec fn sat_sub(a: int, b: int) -> int {
    if a > b { a - b } else { 0 }
}

/// The smaller of two integers.
pub open spec fn min(a: int, b: int) -> int {
    if a <= b { a } else { b }
}

/// The larger of two integers.
pub open spec fn max(a: int, b: int) -> int {
    if a >= b { a } else { b }
}

/// `x`, held to `usize::MAX`.
pub open spec fn sat(x: int) -> int {
    if x > usize::MAX { usize::MAX as int } else { x }
}

/// Where menu `m` sits on a `width`-column screen inside the `height` rows
/// from `top`: as wide as its widest row (a two-cell marker column when any
/// entry is a toggle or a choice) or its title, as tall as its entries, its
/// corner at the cell it opened at (or its right edge there) and shifted
/// left or up to stay inside.
pub open spec fn spec_grid(m: MenuView, width: usize, top: usize, height: usize) -> Grid {
    let key_width = widest_key(m.entries);
    let label_width = widest_label(m.entries);
    let marker_width: int = if exists|k: int| 0 <= k < m.entries.len()
        && ((#[trigger] m.entries[k]).checked is Some || m.entries[k].active) { 2 } else { 0 };
    let action_width = sat(sat(sat(marker_width + label_width) + 1) + key_width);
    let box_width = min(max(sat(action_width + 2), sat(text_width(m.title) + 4int)), width as int);
    let box_height = min(sat(m.entries.len() + 2int), height as int);
    Grid {
        x: (if m.right_aligned {
            min(sat_sub(m.column as int, box_width), sat_sub(width as int, box_width))
        } else {
            min(m.column as int, sat_sub(width as int, box_width))
        }) as usize,
        y: min(max(m.row as int, top as int), top + sat_sub(height as int, box_height)) as usize,
        width: box_width as usize,
        height: box_height as usize,
        rows: m.entries.len() as usize,
        columns: 1,
        key_width: key_width as usize,
        label_width: label_width as usize,
        count: m.entries.len() as usize,
    }
}

impl Menu {
    /// Where the menu sits on a `width` by `height` screen: its top-left
    /// corner at the pointer, shifted left or up to stay inside.
    pub fn grid(&self, width: usize, height: usize) -> (grid: Grid)
        ensures
            grid == spec_grid(self@, width, 0, height),
            grid_fits(grid),
    {
        self.grid_in(width, 0, height)
    }

    /// Place the menu inside a vertical area beginning at `top`.
    pub fn grid_in(&self, width: usize, top: usize, height: usize) -> (grid: Grid)
        requires
            top + height <= usize::MAX,
        ensures
            grid == spec_grid(self@, width, top, height),
            grid_fits(grid),
    {
        let ghost es = self@.entries;
        let (key_width, label_width) = measure(&self.entries);
        let mut marked = false;
        let mut k: usize = 0;
        while k < self.entries.len()
            invariant
                es == entries_view(self.entries@),
                k <= self.entries@.len(),
                marked == exists|m: int| 0 <= m < k && ((#[trigger] es[m]).checked is Some || es[m].active),
            decreases self.entries@.len() - k,
        {
            assert(es[k as int] == self.entries@[k as int]@);
            if self.entries[k].checked.is_some() || self.entries[k].active {
                marked = true;
            }
            k = k + 1;
        }
        let marker_width: usize = if marked { 2 } else { 0 };
        let action_width = marker_width.saturating_add(label_width).saturating_add(1).saturating_add(key_width);
        let framed = action_width.saturating_add(2);
        let title_width = display_width(self.title.as_str()).saturating_add(4);
        let wanted = if framed >= title_width { framed } else { title_width };
        let box_width = if wanted <= width { wanted } else { width };
        let tall = self.entries.len().saturating_add(2);
        let box_height = if tall <= height { tall } else { height };
        let x = if self.right_aligned {
            let a = self.column.saturating_sub(box_width);
            let b = width.saturating_sub(box_width);
            if a <= b { a } else { b }
        } else {
            let b = width.saturating_sub(box_width);
            if self.column <= b { self.column } else { b }
        };
        let low = if self.row >= top { self.row } else { top };
        let high = top + height.saturating_sub(box_height);
        let y = if low <= high { low } else { high };
        Grid {
            x,
            y,
            width: box_width,
            height: box_height,
            rows: self.entries.len(),
            columns: 1,
            key_width,
            label_width,
            count: self.entries.len(),
        }
    }
}

/// A grid's extents fit the machine's integers (a column's width only
/// matters when there are several).
pub open spec fn grid_fits(g: Grid) -> bool {
    &&& g.x + g.width <= usize::MAX
    &&& g.y + g.height <= usize::MAX
    &&& g.columns != 1 ==> spec_column_width(g.key_width as int, g.label_width as int) <= usize::MAX
    &&& g.columns * g.rows <= usize::MAX
}

/// The cell lies inside the box, border included.
pub open spec fn spec_grid_contains(g: Grid, column: usize, row: usize) -> bool {
    column >= g.x && column < g.x + g.width && row >= g.y && row < g.y + g.height
}

/// The entry drawn at a cell: none on the border or outside, else the one
/// in that column (entries fill each column top to bottom) and row, if
/// there is one.
pub open spec fn spec_grid_entry_at(g: Grid, column: usize, row: usize) -> Option<int> {
    if !spec_grid_contains(g, column, row) || row == g.y || row + 1 == g.y + g.height || column == g.x
        || column + 1 == g.x + g.width {
        None
    } else {
        let r = row - g.y - 1;
        let c = if g.columns == 1 {
            0
        } else {
            (column - (g.x + 1)) / spec_column_width(g.key_width as int, g.label_width as int)
        };
        if r >= g.rows || c >= g.columns {
            None
        } else if c * g.rows + r < g.count {
            Some(c * g.rows + r)
        } else {
            None
        }
    }
}

impl Grid {
    /// The cells one column of entries takes.
    pub fn column_width(key_width: usize, label_width: usize) -> (width: usize)
        requires
            spec_column_width(key_width as int, label_width as int) <= usize::MAX,
        ensures
            width == spec_column_width(key_width as int, label_width as int),
    {
        key_width + 2 + label_width + 3
    }

    /// Whether the cell is inside the box, border included.
    pub fn contains(&self, column: usize, row: usize) -> (inside: bool)
        requires
            grid_fits(*self),
        ensures
            inside == spec_grid_contains(*self, column, row),
    {
        column >= self.x && column < self.x + self.width && row >= self.y && row < self.y + self.height
    }

    /// The entry drawn at the cell, if any.
    pub fn entry_at(&self, column: usize, row: usize) -> (entry: Option<usize>)
        requires
            grid_fits(*self),
        ensures
            match entry {
                Some(i) => spec_grid_entry_at(*self, column, row) == Some(i as int),
                None => spec_grid_entry_at(*self, column, row) is None,
            },
    {
        if !self.contains(column, row) || row == self.y || row + 1 == self.y + self.height
            || column == self.x || column + 1 == self.x + self.width {
            return None;
        }
        let r = row - self.y - 1;
        let c = if self.columns == 1 {
            0
        } else {
            (column - (self.x + 1)) / Self::column_width(self.key_width, self.label_width)
        };
        if r >= self.rows || c >= self.columns {
            return None;
        }
        proof {
            assert(c * self.rows + r <= self.columns * self.rows) by (nonlinear_arith)
                requires
                    c < self.columns,
                    r < self.rows,
            ;
        }
        let index = c * self.rows + r;
        if index < self.count {
            Some(index)
        } else {
            None
        }
    }
}

/// Which comparison the text shows.
#[derive(Debug, Clone, Copy, PartialEq, Eq, Structural)]
pub enum DiffMode {
    Normal,
    Unified,
    Off,
}

/// The mode a diff toggle returns to: unified stays unified, and the
/// standard diff stands in for off.
pub open spec fn spec_last_active_diff_mode(mode: DiffMode) -> DiffMode {
    match mode {
        DiffMode::Unified => DiffMode::Unified,
        _ => DiffMode::Normal,
    }
}

/// The mode a diff toggle returns to, for the mode the viewer starts in.
pub fn last_active_diff_mode(mode: DiffMode) -> (last: DiffMode)
    ensures
        last == spec_last_active_diff_mode(mode),
{
    match mode {
        DiffMode::Unified => DiffMode::Unified,
        _ => DiffMode::Normal,
    }
}

/// The compact mode chooser anchored to a File or Reviews header control.
pub struct ModeMenu {
    menu: Menu,
    selected: usize,
}

/// The chooser's rows for the diff modes, with `mode` the active one.
pub open spec fn mode_entries(mode: DiffMode) -> Seq<EntryView> {
    let normal = with_entry(Seq::empty(), Where::Any, Action::DiffStandard, Action::DiffStandard, "Normal diff"@, None, mode == DiffMode::Normal);
    let unified = with_entry(normal, Where::Any, Action::DiffUnified, Action::DiffUnified, "Unified diff"@, None, mode == DiffMode::Unified);
    with_entry(unified, Where::Any, Action::DiffOff, Action::DiffOff, "Diff off"@, None, mode == DiffMode::Off)
}

impl ModeMenu {
    /// The chooser's menu and the row the reader stands on.
    pub closed spec fn spec_state(&self) -> (MenuView, usize) {
        (self.menu@, self.selected)
    }

    /// The chooser for the current `mode`, its right edge at column `right`
    /// below header row `row`, standing on the current mode.
    pub fn new(mode: DiffMode, right: usize, row: usize) -> (chooser: Self)
        ensures
            chooser.spec_state().0 == (MenuView {
                title: "Diff"@,
                place: Where::Any,
                entries: mode_entries(mode),
                column: right,
                row: if row < usize::MAX { (row + 1) as usize } else { row },
                right_aligned: true,
            }),
            chooser.spec_state().1 == match mode {
                DiffMode::Normal => 0usize,
                DiffMode::Unified => 1usize,
                DiffMode::Off => 2usize,
            },
    {
        let mut menu = Menu::under_right_edge("Diff", Where::Any, right, row);
        menu.push_choice(Action::DiffStandard, "Normal diff", mode == DiffMode::Normal);
        menu.push_choice(Action::DiffUnified, "Unified diff", mode == DiffMode::Unified);
        menu.push_choice(Action::DiffOff, "Diff off", mode == DiffMode::Off);
        let selected = match mode {
            DiffMode::Normal => 0,
            DiffMode::Unified => 1,
            DiffMode::Off => 2,
        };
        ModeMenu { menu, selected }
    }

    /// The chooser's menu.
    pub fn menu(&self) -> (menu: &Menu)
        ensures
            menu@ == self.spec_state().0,
    {
        &self.menu
    }

    /// The row the reader stands on.
    pub fn selected(&self) -> (selected: usize)
        ensures
            selected == self.spec_state().1,
    {
        self.selected
    }

    /// Move the selection by `delta` rows, stopping at the first and the
    /// last row.
    pub fn move_by(&mut self, delta: isize)
        ensures
            final(self).spec_state().0 == old(self).spec_state().0,
            final(self).spec_state().1 == min(
                clamp_add_signed(old(self).spec_state().1, delta),
                sat_sub(old(self).spec_state().0.entries.len() as int, 1),
            ),
    {
        let moved = add_signed_clamped(self.selected, delta);
        let last = self.menu.entries.len().saturating_sub(1);
        assert(self.menu@.entries.len() == self.menu.entries@.len());
        self.selected = if moved <= last { moved } else { last };
    }

    /// The action of the row the reader stands on, if it has one.
    pub fn selected_action(&self) -> (action: Option<Action>)
        ensures
            action == if self.spec_state().1 < self.spec_state().0.entries.len() {
                self.spec_state().0.entries[self.spec_state().1 as int].action
            } else {
                None
            },
    {
        if self.selected < self.menu.entries.len() {
            assert(self.menu@.entries[self.selected as int] == self.menu.entries@[self.selected as int]@);
            self.menu.entries[self.selected].action
        } else {
            None
        }
    }
}

/// What a key does to the mode chooser.
#[derive(Debug, Clone, Copy, PartialEq, Eq, Structural)]
pub enum ModeKey {
    /// The chooser closes.
    Close,
    /// The chooser closes and the chosen mode's action runs.
    Run(Action),
    /// The chooser stays.
    Stay,
}

/// The action of row `index`, if there is one and it has one.
pub open spec fn entry_action(entries: Seq<EntryView>, index: int) -> Option<Action> {
    if 0 <= index < entries.len() { entries[index].action } else { None }
}

/// The row the reader stands on after `event` in a chooser on row
/// `selected` of `entries`, and what the chooser does: Escape closes it,
/// Down/`j` and Up/`k` (without Ctrl or Alt) move, Enter closes it and
/// runs the row's action if it has one; other keys do nothing.
pub open spec fn spec_mode_key(entries: Seq<EntryView>, selected: usize, event: KeyPress) -> (usize, ModeKey) {
    let plain = !event.ctrl && !event.alt && !event.extra;
    let last = sat_sub(entries.len() as int, 1);
    if event.code == KeyCode::Esc {
        (selected, ModeKey::Close)
    } else if plain && (event.code == KeyCode::Down || event.code == KeyCode::Char('j')) {
        (min(clamp_add_signed(selected, 1isize), last) as usize, ModeKey::Stay)
    } else if plain && (event.code == KeyCode::Up || event.code == KeyCode::Char('k')) {
        (min(clamp_add_signed(selected, -1isize), last) as usize, ModeKey::Stay)
    } else if event.code == KeyCode::Enter {
        match entry_action(entries, selected as int) {
            Some(action) => (selected, ModeKey::Run(action)),
            None => (selected, ModeKey::Close),
        }
    } else {
        (selected, ModeKey::Stay)
    }
}

impl ModeMenu {
    /// What `event` does to the chooser.
    pub fn key(&mut self, event: KeyPress) -> (outcome: ModeKey)
        ensures
            final(self).spec_state().0 == old(self).spec_state().0,
            (final(self).spec_state().1, outcome) == spec_mode_key(old(self).spec_state().0.entries, old(self).spec_state().1, event),
    {
        let plain = !event.ctrl && !event.alt && !event.extra;
        if event.code == KeyCode::Esc {
            ModeKey::Close
        } else if plain && (event.code == KeyCode::Down || event.code == KeyCode::Char('j')) {
            self.move_by(1);
            ModeKey::Stay
        } else if plain && (event.code == KeyCode::Up || event.code == KeyCode::Char('k')) {
            self.move_by(-1);
            ModeKey::Stay
        } else if event.code == KeyCode::Enter {
            match self.selected_action() {
                Some(action) => ModeKey::Run(action),
                None => ModeKey::Close,
            }
        } else {
            ModeKey::Stay
        }
    }

    /// The action a click on row `index` runs as the chooser closes.
    pub fn click(&self, index: usize) -> (action: Option<Action>)
        ensures
            action == entry_action(self.spec_state().0.entries, index as int),
    {
        if index < self.menu.entries.len() {
            assert(self.menu@.entries[index as int] == self.menu.entries@[index as int]@);
            self.menu.entries[index].action
        } else {
            None
        }
    }
}

/// What a typed chord does to an open context menu.
#[derive(Debug, Clone, Copy, PartialEq, Eq, Structural)]
pub enum MenuTyped {
    /// The menu closes and the entry's action runs.
    Run(Action),
    /// The chords so far start an entry's key: the menu waits for more.
    Wait,
    /// The menu closes; the chord is swallowed.
    Close,
}

/// What `chord`, typed after `prefix`, does to a menu with `entries`: an
/// entry's whole key runs it, the start of one waits, anything else
/// closes the menu.
pub open spec fn spec_menu_key(entries: Seq<EntryView>, prefix: Seq<Chord>, chord: Chord) -> MenuTyped {
    match spec_menu_typed(entries, prefix.push(chord)) {
        Match::Exact(action) => MenuTyped::Run(action),
        Match::Prefix => MenuTyped::Wait,
        Match::Miss => MenuTyped::Close,
    }
}

/// The action a click on entry `index` runs, when it is an entry that
/// can run.
pub open spec fn spec_menu_click(entries: Seq<EntryView>, index: int) -> Option<Action> {
    if 0 <= index < entries.len() && entries[index].enabled { entries[index].action } else { None }
}

impl Menu {
    /// What `chord`, typed after `prefix`, does to the menu.
    pub fn key(&self, prefix: &[Chord], chord: Chord) -> (outcome: MenuTyped)
        ensures
            outcome == spec_menu_key(self@.entries, prefix@, chord),
    {
        let mut typed: Vec<Chord> = Vec::new();
        let mut i: usize = 0;
        while i < prefix.len()
            invariant
                i <= prefix@.len(),
                typed@ == prefix@.take(i as int),
            decreases prefix@.len() - i,
        {
            typed.push(prefix[i]);
            assert(prefix@.take(i + 1) =~= prefix@.take(i as int).push(prefix@[i as int]));
            i = i + 1;
        }
        assert(prefix@.take(prefix@.len() as int) =~= prefix@);
        typed.push(chord);
        match self.typed(typed.as_slice()) {
            Match::Exact(action) => MenuTyped::Run(action),
            Match::Prefix => MenuTyped::Wait,
            Match::Miss => MenuTyped::Close,
        }
    }

    /// The action a click on entry `index` runs, when it can run; a click
    /// on a rule or on an entry that cannot run does nothing.
    pub fn click(&self, index: usize) -> (action: Option<Action>)
        ensures
            action == spec_menu_click(self@.entries, index as int),
    {
        if index < self.entries.len() {
            assert(self@.entries[index as int] == self.entries@[index as int]@);
            if self.entries[index].enabled {
                self.entries[index].action
            } else {
                None
            }
        } else {
            None
        }
    }
}

/// `a + delta`, held to the range of `usize`.
pub open spec fn clamp_add_signed(a: usize, delta: isize) -> int {
    let sum = a + delta;
    if sum < 0 { 0 } else if sum > usize::MAX { usize::MAX as int } else { sum }
}

/// `a + delta`, held to the range of `usize` (`usize::saturating_add_signed`).
pub fn add_signed_clamped(a: usize, delta: isize) -> (sum: usize)
    ensures
        sum == clamp_add_signed(a, delta),
{
    if delta >= 0 {
        a.saturating_add(delta as usize)
    } else {
        let magnitude = (-(delta + 1)) as usize + 1;
        a.saturating_sub(magnitude)
    }
}

} // verus!

//! The jumplist: the positions far moves leave behind, walked back with
//! `Alt-Left` and forward with `Alt-Right`.
//!
//! A far move — opening another file, a search jump, `gg`/`G`, `:N`, a
//! thread or hunk step — records the position it left. Going back the
//! first time records where the reader stands, so forward returns there;
//! a far move after going back drops the forward part, as an editor's undo
//! drops its redo. Neighbouring duplicates collapse and the list is capped,
//! so a repeated jump costs nothing and the oldest fall off.

use vstd::prelude::*;

verus! {

/// A place in the workspace: a file and a source line.
#[derive(Debug, PartialEq, Eq)]
pub struct Position {
    pub path: String,
    pub line: usize,
}

/// A position by its path's characters and its line.
pub type PositionView = (Seq<char>, usize);

impl View for Position {
    type V = PositionView;

    open spec fn view(&self) -> PositionView {
        (self.path@, self.line)
    }
}

impl Position {
    /// The same position, owned anew.
    pub fn copy(&self) -> (p: Position)
        ensures
            p@ == self@,
    {
        Position { path: self.path.clone(), line: self.line }
    }

    /// Whether `self` and `other` are the same place.
    pub fn same(&self, other: &Position) -> (same: bool)
        ensures
            same == (self@ == other@),
    {
        self.line == other.line && self.path == other.path
    }
}

/// Positions kept at most.
pub const CAP: usize = 100;

/// The positions far moves left, oldest first, and where the reader stands
/// among them.
#[derive(Debug)]
pub struct Jumplist {
    entries: Vec<Position>,
    /// The entry the reader stands on after going back; `None` at the tip,
    /// where every far move lands.
    index: Option<usize>,
}

/// A jumplist as the contracts see it.
pub struct JumplistView {
    pub entries: Seq<PositionView>,
    pub index: Option<int>,
}

/// The entries by their views.
pub open spec fn positions_view(entries: Seq<Position>) -> Seq<PositionView> {
    entries.map_values(|p: Position| p@)
}

/// A jumplist keeps at most `CAP` entries, no two neighbours equal, and the
/// entry the reader stands on, if any, is one of them.
pub open spec fn well_formed(s: JumplistView) -> bool {
    &&& s.entries.len() <= CAP
    &&& forall|k: int| 0 <= k < s.entries.len() - 1 ==> #[trigger] s.entries[k] != s.entries[k + 1]
    &&& s.index matches Some(i) ==> 0 <= i < s.entries.len()
}

/// `entries` after keeping `p` at the newest end: nothing new when the
/// newest already is `p`; the oldest falls off past `CAP`.
pub open spec fn spec_push(entries: Seq<PositionView>, p: PositionView) -> Seq<PositionView> {
    let kept = if entries.len() > 0 && entries.last() == p { entries } else { entries.push(p) };
    if kept.len() > CAP { kept.drop_first() } else { kept }
}

/// A far move left `p`: the forward part goes, `p` is kept, and the reader
/// is at the tip.
pub open spec fn spec_record(s: JumplistView, p: PositionView) -> JumplistView {
    let entries = match s.index {
        Some(i) => s.entries.take(i + 1),
        None => s.entries,
    };
    JumplistView { entries: spec_push(entries, p), index: None }
}

/// `Alt-Left` from `here`: the jumplist after it and the position it goes
/// to. The first step back from the tip keeps `here` so forward returns to
/// it; at the oldest entry there is nowhere to go.
pub open spec fn spec_back(s: JumplistView, here: PositionView) -> (JumplistView, Option<PositionView>) {
    let entries = match s.index {
        Some(i) => s.entries,
        None => spec_push(s.entries, here),
    };
    let index = match s.index {
        Some(i) => i,
        None => entries.len() - 1,
    };
    if index == 0 {
        (JumplistView { entries, index: Some(0) }, None)
    } else {
        (JumplistView { entries, index: Some(index - 1) }, Some(entries[index - 1]))
    }
}

/// `Alt-Right`: the jumplist after it and the position it goes to, or
/// nothing at the newest entry or at the tip.
pub open spec fn spec_forward(s: JumplistView) -> (JumplistView, Option<PositionView>) {
    match s.index {
        None => (s, None),
        Some(i) => if i + 1 >= s.entries.len() {
            (s, None)
        } else {
            (JumplistView { entries: s.entries, index: Some(i + 1) }, Some(s.entries[i + 1]))
        },
    }
}

impl View for Jumplist {
    type V = JumplistView;

    closed spec fn view(&self) -> JumplistView {
        JumplistView {
            entries: positions_view(self.entries@),
            index: match self.index {
                Some(i) => Some(i as int),
                None => None,
            },
        }
    }
}

/// An optional position by its view.
pub open spec fn opt_position(p: Option<&Position>) -> Option<PositionView> {
    match p {
        Some(p) => Some(p@),
        None => None,
    }
}

proof fn lemma_push_well_formed(entries: Seq<PositionView>, p: PositionView)
    requires
        entries.len() <= CAP,
        forall|k: int| 0 <= k < entries.len() - 1 ==> #[trigger] entries[k] != entries[k + 1],
    ensures
        spec_push(entries, p).len() <= CAP,
        spec_push(entries, p).len() >= 1,
        spec_push(entries, p).last() == p,
        forall|k: int| 0 <= k < spec_push(entries, p).len() - 1 ==> #[trigger] spec_push(entries, p)[k] != spec_push(entries, p)[k + 1],
{
    let kept = if entries.len() > 0 && entries.last() == p { entries } else { entries.push(p) };
    assert forall|k: int| 0 <= k < kept.len() - 1 implies #[trigger] kept[k] != kept[k + 1] by {
        if !(entries.len() > 0 && entries.last() == p) && k == entries.len() - 1 {
            assert(kept[k] == entries.last());
        } else {
            assert(kept[k] == entries[k]);
            assert(kept[k + 1] == entries[k + 1]);
        }
    }
    if kept.len() > CAP {
        let dropped = kept.drop_first();
        assert forall|k: int| 0 <= k < dropped.len() - 1 implies #[trigger] dropped[k] != dropped[k + 1] by {
            assert(dropped[k] == kept[k + 1]);
            assert(dropped[k + 1] == kept[k + 2]);
        }
    }
}

impl Jumplist {
    /// The well-formedness every jumplist keeps.
    pub open spec fn wf(&self) -> bool {
        well_formed(self@)
    }

    /// An empty jumplist, at the tip.
    pub fn new() -> (jumps: Jumplist)
        ensures
            jumps@.entries == Seq::<PositionView>::empty(),
            jumps@.index is None,
            jumps.wf(),
    {
        let jumps = Jumplist { entries: Vec::new(), index: None };
        assert(jumps@.entries =~= Seq::<PositionView>::empty());
        jumps
    }

    /// A far move left `position`: keep it, dropping any forward part.
    pub fn record(&mut self, position: Position)
        requires
            old(self).wf(),
        ensures
            final(self)@ == spec_record(old(self)@, position@),
            final(self).wf(),
    {
        let ghost before = self@;
        if let Some(index) = self.index {
            self.entries.truncate(index + 1);
            assert(positions_view(self.entries@) =~= before.entries.take(index + 1));
        }
        self.index = None;
        proof {
            assert forall|k: int| 0 <= k < self@.entries.len() - 1 implies #[trigger] self@.entries[k] != self@.entries[k + 1] by {
                assert(self@.entries[k] == before.entries[k]);
                assert(self@.entries[k + 1] == before.entries[k + 1]);
            }
        }
        self.push(position);
    }

    /// `Alt-Left` from `here`: the previous position, or `None` at the
    /// oldest. The first step back keeps `here` so forward returns to it.
    pub fn back(&mut self, here: Position) -> (went: Option<&Position>)
        requires
            old(self).wf(),
        ensures
            (final(self)@, opt_position(went)) == spec_back(old(self)@, here@),
            final(self).wf(),
    {
        let ghost before = self@;
        let index = match self.index {
            Some(index) => index,
            None => {
                self.push(here);
                self.entries.len() - 1
            },
        };
        assert(self@.entries == match before.index { Some(i) => before.entries, None => spec_push(before.entries, here@) });
        if index == 0 {
            self.index = Some(0);
            return None;
        }
        self.index = Some(index - 1);
        Some(&self.entries[index - 1])
    }

    /// `Alt-Right`: the next position, or `None` at the newest.
    pub fn forward(&mut self) -> (went: Option<&Position>)
        requires
            old(self).wf(),
        ensures
            (final(self)@, opt_position(went)) == spec_forward(old(self)@),
            final(self).wf(),
    {
        let index = match self.index {
            Some(index) => index,
            None => return None,
        };
        if index + 1 >= self.entries.len() {
            return None;
        }
        let next = index + 1;
        self.index = Some(next);
        Some(&self.entries[next])
    }

    /// How many positions are kept.
    pub fn len(&self) -> (n: usize)
        ensures
            n == self@.entries.len(),
    {
        self.entries.len()
    }

    fn push(&mut self, position: Position)
        requires
            old(self).wf(),
            old(self)@.index is None,
        ensures
            final(self)@ == (JumplistView { entries: spec_push(old(self)@.entries, position@), index: None }),
            final(self).wf(),
    {
        let ghost before = self@.entries;
        proof {
            lemma_push_well_formed(before, position@);
        }
        let len = self.entries.len();
        let duplicate = len > 0 && self.entries[len - 1].same(&position);
        if !duplicate {
            self.entries.push(position);
            assert(positions_view(self.entries@) =~= before.push(position@));
        }
        if self.entries.len() > CAP {
            self.entries.remove(0);
            assert(positions_view(self.entries@) =~= (if duplicate { before } else { before.push(position@) }).drop_first());
        }
    }
}

impl Default for Jumplist {
    fn default() -> (jumps: Jumplist)
        ensures
            jumps@.entries == Seq::<PositionView>::empty(),
            jumps@.index is None,
            jumps.wf(),
    {
        Jumplist::new()
    }
}

/// Forward undoes back: from a position off the tip with somewhere to go
/// back to, going back and then forward returns to the same place and the
/// same jumplist.
pub proof fn lemma_forward_undoes_back(s: JumplistView, here: PositionView)
    requires
        well_formed(s),
        s.index matches Some(i) && i > 0,
    ensures
        spec_forward(spec_back(s, here).0) == (s, Some(s.entries[s.index->0])),
{
    let i = s.index->0;
    let b = spec_back(s, here).0;
    assert(b.index == Some(i - 1));
    assert(spec_forward(b).0 == s);
}

/// The first step back keeps where the reader stood: from the tip, when
/// going back goes somewhere, going forward again returns to `here`.
pub proof fn lemma_first_back_keeps_here(s: JumplistView, here: PositionView)
    requires
        well_formed(s),
        s.index is None,
        spec_back(s, here).1 is Some,
    ensures
        spec_forward(spec_back(s, here).0).1 == Some(here),
{
    lemma_push_well_formed(s.entries, here);
}

/// A far move drops the forward part: after recording, the reader is at the
/// tip, forward goes nowhere, and the newest entry is what was recorded.
pub proof fn lemma_record_drops_forward(s: JumplistView, p: PositionView)
    requires
        well_formed(s),
    ensures
        spec_forward(spec_record(s, p)).1 is None,
        spec_record(s, p).entries.last() == p,
        well_formed(spec_record(s, p)),
{
    let entries = match s.index {
        Some(i) => s.entries.take(i + 1),
        None => s.entries,
    };
    assert forall|k: int| 0 <= k < entries.len() - 1 implies #[trigger] entries[k] != entries[k + 1] by {
        assert(entries[k] == s.entries[k]);
        assert(entries[k + 1] == s.entries[k + 1]);
    }
    lemma_push_well_formed(entries, p);
}

/// Recording keeps the past: from the entry the reader stands on, the
/// entries up to and including it stay as they were, in front, and the
/// recorded position comes after them; only what lay ahead goes (short of
/// the cap, where the oldest falls off).
pub proof fn lemma_record_keeps_the_past(s: JumplistView, p: PositionView)
    requires
        well_formed(s),
        s.index matches Some(i) && i + 1 < CAP,
    ensures
        ({
            let i = s.index->0;
            let r = spec_record(s, p).entries;
            &&& i + 1 <= r.len() <= i + 2
            &&& r.take(i + 1) == s.entries.take(i + 1)
            &&& r.last() == p
        }),
{
    let i = s.index->0;
    let kept = s.entries.take(i + 1);
    let r = spec_record(s, p).entries;
    if kept.last() == p {
        assert(r == kept);
        assert(r.take(i + 1) =~= kept);
    } else {
        assert(r == kept.push(p));
        assert(r.take(i + 1) =~= kept);
    }
}

/// Recording the newest position again changes nothing: a repeated jump
/// costs nothing.
pub proof fn lemma_repeated_record_is_free(s: JumplistView, p: PositionView)
    requires
        well_formed(s),
    ensures
        spec_record(spec_record(s, p), p) == spec_record(s, p),
{
    lemma_record_drops_forward(s, p);
    let r = spec_record(s, p);
    assert(spec_push(r.entries, p) == r.entries);
}

/// Every operation keeps a jumplist well formed: never more than `CAP`
/// entries, no two neighbours equal, the reader on one of them.
pub proof fn lemma_operations_keep_well_formed(s: JumplistView, p: PositionView)
    requires
        well_formed(s),
    ensures
        well_formed(spec_record(s, p)),
        well_formed(spec_back(s, p).0),
        well_formed(spec_forward(s).0),
{
    lemma_record_drops_forward(s, p);
    lemma_push_well_formed(s.entries, p);
}

} // verus!

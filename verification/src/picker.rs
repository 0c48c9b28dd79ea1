//! The kinds of picker the viewer opens, the comparison side a nested
//! picker replaces, the picker's list height, the window its list scrolls
//! in, the commit-id search its input starts, and the banner a deleted
//! file shows.

use vstd::prelude::*;

use crate::menu::{add_signed_clamped, clamp_add_signed, min, sat_sub};
use crate::text::{strip_prefix, trim, trimmed};

verus! {

/// Which side a nested comparison picker will replace.
#[derive(Debug, Clone, Copy, PartialEq, Eq, Structural)]
pub enum ComparisonSide {
    Base,
    Target,
}

/// What a picker lists.
#[derive(Debug, Clone, Copy, PartialEq, Eq, Structural)]
pub enum PickerKind {
    /// Workspace files, ignore-filtered.
    Files,
    /// Workspace files including ignored ones.
    AllFiles,
    /// Documents opened this session, most recent first.
    Recent,
    /// The base endpoint of the viewer-wide comparison.
    ComparisonBase,
    /// The target endpoint of the viewer-wide comparison.
    ComparisonTarget,
    /// Tags offered for one comparison side.
    ComparisonTags(ComparisonSide),
    /// Local and remote-tracking branches offered for one comparison side.
    ComparisonBranches(ComparisonSide),
    /// Commits reachable from one selected branch.
    ComparisonBranchCommits(ComparisonSide),
    /// Saved review points offered as comparison bases.
    ComparisonReviewPoints,
    /// Uncommon endpoint choices for one comparison side.
    ComparisonAdvanced(ComparisonSide),
    /// Optional name for a new workspace review point.
    ReviewPointName,
    /// The worktrees of the workspace, the active one marked.
    Worktree,
}

impl ComparisonSide {
    /// The endpoint picker for this side.
    pub fn picker_kind(self) -> (kind: PickerKind)
        ensures
            kind == (match self {
                ComparisonSide::Base => PickerKind::ComparisonBase,
                ComparisonSide::Target => PickerKind::ComparisonTarget,
            }),
    {
        match self {
            ComparisonSide::Base => PickerKind::ComparisonBase,
            ComparisonSide::Target => PickerKind::ComparisonTarget,
        }
    }

    /// How the side is named.
    pub fn label(self) -> (label: &'static str)
        ensures
            label@ == (match self {
                ComparisonSide::Base => "base"@,
                ComparisonSide::Target => "target"@,
            }),
    {
        match self {
            ComparisonSide::Base => "base",
            ComparisonSide::Target => "target",
        }
    }
}

/// The list rows inside the picker popup for a pane `pane_rows` tall: the
/// popup leaves two pane rows outside, is 3 to 20 rows tall, and has a
/// border row above and below its list.
pub open spec fn spec_picker_list_rows(pane_rows: int) -> int {
    let outside = if pane_rows > 2 { pane_rows - 2 } else { 0 };
    let tall = if outside < 3 { 3 } else if outside > 20 { 20 } else { outside };
    tall - 2
}

/// The list rows inside the picker popup for a pane `pane_rows` tall.
pub fn picker_list_rows(pane_rows: usize) -> (rows: usize)
    ensures
        rows == spec_picker_list_rows(pane_rows as int),
        1 <= rows <= 18,
{
    let outside = pane_rows.saturating_sub(2);
    let tall = if outside < 3 { 3 } else if outside > 20 { 20 } else { outside };
    tall - 2
}

/// Which retained source a deleted file shows.
#[derive(Debug, Clone, Copy, PartialEq, Eq, Structural)]
pub enum Deleted {
    /// The file vanished while open, so its last loaded content remains.
    Loaded,
    /// The worktree file is absent; the index blob is shown.
    Index,
    /// The deletion is staged; the `HEAD` blob is shown.
    Head,
    /// The selected comparison target has no path; its base is shown.
    ComparisonBase,
}

/// The banner over a deleted file.
pub open spec fn spec_banner(deleted: Deleted) -> Seq<char> {
    match deleted {
        Deleted::Loaded => "deleted from worktree · showing last loaded"@,
        Deleted::Index => "deleted from worktree · showing INDEX"@,
        Deleted::Head => "staged deletion · showing HEAD"@,
        Deleted::ComparisonBase => "deleted in comparison · showing base"@,
    }
}

impl Deleted {
    /// The banner over a deleted file.
    pub fn banner(self) -> (banner: &'static str)
        ensures
            banner@ == spec_banner(self),
    {
        match self {
            Deleted::Loaded => "deleted from worktree · showing last loaded",
            Deleted::Index => "deleted from worktree · showing INDEX",
            Deleted::Head => "staged deletion · showing HEAD",
            Deleted::ComparisonBase => "deleted in comparison · showing base",
        }
    }
}


/// Rows kept between the selection and the window's edge, where the
/// window has room for them.
pub const PICKER_SCROLLOFF: usize = 3;

/// `x`, held to `usize::MAX`.
pub open spec fn sat(x: int) -> int {
    if x > usize::MAX { usize::MAX as int } else { x }
}

/// The first match shown in a window of `rows` rows over `matched`
/// matches, the selection on match `selected` and the window last at
/// `scroll`: the window moves the least that keeps the selection
/// `PICKER_SCROLLOFF` rows (at most half the window) from its edges, and
/// never starts past the last full window.
pub open spec fn spec_first_visible(selected: usize, scroll: usize, matched: usize, rows: usize) -> usize {
    if rows == 0 {
        0
    } else {
        let margin = min(PICKER_SCROLLOFF as int, (rows - 1) / 2);
        let last_first = sat_sub(matched as int, rows as int);
        let first = min(scroll as int, last_first);
        let moved = if selected < sat(first + margin) {
            sat_sub(selected as int, margin)
        } else if selected > sat_sub(sat(first + rows), margin + 1) {
            sat_sub(sat(selected + margin + 1), rows as int)
        } else {
            first
        };
        min(moved, last_first) as usize
    }
}

/// The selection and the window over a picker's matches.
#[derive(Debug, Clone, Copy, PartialEq, Eq, Structural)]
pub struct PickerWindow {
    /// The match the reader stands on.
    pub selected: usize,
    /// The first match the window showed.
    pub scroll: usize,
}

impl PickerWindow {
    /// The first match shown in a window of `rows` rows over `matched`
    /// matches.
    pub fn first_visible(&self, matched: usize, rows: usize) -> (first: usize)
        ensures
            first == spec_first_visible(self.selected, self.scroll, matched, rows),
    {
        if rows == 0 {
            return 0;
        }
        let half = (rows - 1) / 2;
        let margin = if PICKER_SCROLLOFF <= half { PICKER_SCROLLOFF } else { half };
        let last_first = matched.saturating_sub(rows);
        let mut first = if self.scroll <= last_first { self.scroll } else { last_first };
        if self.selected < first.saturating_add(margin) {
            first = self.selected.saturating_sub(margin);
        } else if self.selected > first.saturating_add(rows).saturating_sub(margin + 1) {
            first = self.selected.saturating_add(margin + 1).saturating_sub(rows);
        }
        if first <= last_first { first } else { last_first }
    }

    /// Moves the selection `delta` matches, held to the matches, and the
    /// window after it; with no matches nothing moves.
    pub fn move_by(&mut self, delta: isize, matched: usize, rows: usize)
        ensures
            matched == 0 ==> *final(self) == *old(self),
            matched > 0 ==> ({
                let scroll = spec_first_visible(old(self).selected, old(self).scroll, matched, rows);
                let selected = min(clamp_add_signed(old(self).selected, delta), matched - 1) as usize;
                *final(self) == (PickerWindow { selected, scroll: spec_first_visible(selected, scroll, matched, rows) })
            }),
    {
        if matched == 0 {
            return;
        }
        self.scroll = self.first_visible(matched, rows);
        let moved = add_signed_clamped(self.selected, delta);
        self.selected = if moved <= matched - 1 { moved } else { matched - 1 };
        self.scroll = self.first_visible(matched, rows);
    }
}

/// The window always shows the selected match and never starts past the
/// last full window.
pub proof fn lemma_selection_stays_in_view(selected: usize, scroll: usize, matched: usize, rows: usize)
    requires
        rows > 0,
        selected < matched,
    ensures
        spec_first_visible(selected, scroll, matched, rows) <= selected,
        selected < spec_first_visible(selected, scroll, matched, rows) + rows,
        spec_first_visible(selected, scroll, matched, rows) <= sat_sub(matched as int, rows as int),
{
}

/// Moving the selection keeps it on a match and in view.
pub proof fn lemma_moves_stay_in_view(window: PickerWindow, delta: isize, matched: usize, rows: usize)
    requires
        rows > 0,
        matched > 0,
    ensures
        ({
            let scroll = spec_first_visible(window.selected, window.scroll, matched, rows);
            let selected = min(clamp_add_signed(window.selected, delta), matched - 1) as usize;
            let first = spec_first_visible(selected, scroll, matched, rows);
            selected < matched && first <= selected && selected < first + rows
        }),
{
    let scroll = spec_first_visible(window.selected, window.scroll, matched, rows);
    let selected = min(clamp_add_signed(window.selected, delta), matched - 1) as usize;
    lemma_selection_stays_in_view(selected, scroll, matched, rows);
}

/// A hexadecimal digit, either case.
pub open spec fn is_hex(c: char) -> bool {
    ('0' <= c && c <= '9') || ('a' <= c && c <= 'f') || ('A' <= c && c <= 'F')
}

/// A hexadecimal digit in lower case.
pub open spec fn hex_lower(c: char) -> char {
    if c == 'A' { 'a' }
    else if c == 'B' { 'b' }
    else if c == 'C' { 'c' }
    else if c == 'D' { 'd' }
    else if c == 'E' { 'e' }
    else if c == 'F' { 'f' }
    else { c }
}

/// The commit-id prefix a picker's input asks for: the input without
/// surrounding white space, in lower case, when it is at least four
/// hexadecimal digits.
pub open spec fn spec_commit_prefix(input: Seq<char>) -> Option<Seq<char>> {
    let t = trimmed(input);
    if t.len() >= 4 && forall|i: int| 0 <= i < t.len() ==> is_hex(#[trigger] t[i]) {
        Some(t.map_values(|c: char| hex_lower(c)))
    } else {
        None
    }
}

/// The commit-id prefix a picker's input asks for, if any.
pub fn commit_prefix(input: &str) -> (prefix: Option<String>)
    ensures
        match prefix {
            Some(p) => spec_commit_prefix(input@) == Some(p@),
            None => spec_commit_prefix(input@) is None,
        },
{
    let t = trim(input);
    let n = t.unicode_len();
    if n < 4 {
        return None;
    }
    let mut out = String::new();
    let mut i: usize = 0;
    while i < n
        invariant
            n == t@.len(),
            t@ == trimmed(input@),
            i <= n,
            forall|j: int| 0 <= j < i ==> is_hex(#[trigger] t@[j]),
            out@ == t@.take(i as int).map_values(|c: char| hex_lower(c)),
        decreases n - i,
    {
        let c = t.get_char(i);
        if !(('0' <= c && c <= '9') || ('a' <= c && c <= 'f') || ('A' <= c && c <= 'F')) {
            assert(!is_hex(t@[i as int]));
            return None;
        }
        let lower = if c == 'A' { 'a' }
            else if c == 'B' { 'b' }
            else if c == 'C' { 'c' }
            else if c == 'D' { 'd' }
            else if c == 'E' { 'e' }
            else if c == 'F' { 'f' }
            else { c };
        let ghost before = out@;
        crate::text::push_char(&mut out, lower);
        assert(t@.take(i + 1).map_values(|c: char| hex_lower(c))
            =~= t@.take(i as int).map_values(|c: char| hex_lower(c)).push(hex_lower(c)));
        i = i + 1;
    }
    assert(t@.take(n as int) =~= t@);
    Some(out)
}

/// What typing in a comparison picker asks for next.
#[derive(Debug, PartialEq, Eq)]
pub enum CommitSearch {
    /// Not a commit picker: the list is matched against the input again.
    Requery,
    /// The input is no commit-id prefix: the search is dropped and the
    /// list is the picker's own again.
    Reset,
    /// The prefix extends the last search's: its rows are narrowed to it.
    Narrow(String),
    /// A new search for commits with `prefix`, from `revision` when the
    /// picker lists one branch's commits.
    Search { revision: Option<String>, prefix: String },
}

/// What typing in a picker asks for, as the contracts see it.
pub enum CommitSearchView {
    Requery,
    Reset,
    Narrow(Seq<char>),
    Search { revision: Option<Seq<char>>, prefix: Seq<char> },
}

impl View for CommitSearch {
    type V = CommitSearchView;

    open spec fn view(&self) -> CommitSearchView {
        match self {
            CommitSearch::Requery => CommitSearchView::Requery,
            CommitSearch::Reset => CommitSearchView::Reset,
            CommitSearch::Narrow(p) => CommitSearchView::Narrow(p@),
            CommitSearch::Search { revision, prefix } => CommitSearchView::Search {
                revision: match revision { Some(r) => Some(r@), None => None },
                prefix: prefix@,
            },
        }
    }
}

/// What the input `input` in a picker of `kind` asks for: only the
/// endpoint pickers (from anywhere) and a branch's commits (from that
/// branch, `scope`) search commits; an input that is no prefix resets the
/// list; one that extends `last`, the last search's prefix, narrows its
/// rows; else a new search starts.
pub open spec fn spec_commit_search(kind: PickerKind, scope: Option<Seq<char>>, input: Seq<char>, last: Option<Seq<char>>) -> CommitSearchView {
    let searches = match kind {
        PickerKind::ComparisonBase | PickerKind::ComparisonTarget | PickerKind::ComparisonBranchCommits(_) => true,
        _ => false,
    };
    let revision = match kind {
        PickerKind::ComparisonBranchCommits(_) => scope,
        _ => None,
    };
    if !searches {
        CommitSearchView::Requery
    } else {
        match spec_commit_prefix(input) {
            None => CommitSearchView::Reset,
            Some(prefix) => match last {
                Some(p) if p.len() <= prefix.len() && prefix.take(p.len() as int) == p => CommitSearchView::Narrow(prefix),
                _ => CommitSearchView::Search { revision, prefix },
            },
        }
    }
}

/// What the input in a picker of `kind` asks for.
pub fn commit_search(kind: PickerKind, scope: Option<&str>, input: &str, last: Option<&str>) -> (step: CommitSearch)
    ensures
        step@ == spec_commit_search(kind, match scope { Some(s) => Some(s@), None => None }, input@, match last { Some(l) => Some(l@), None => None }),
{
    let revision: Option<String> = match kind {
        PickerKind::ComparisonBase | PickerKind::ComparisonTarget => None,
        PickerKind::ComparisonBranchCommits(_) => match scope {
            Some(s) => Some(s.to_owned()),
            None => None,
        },
        _ => return CommitSearch::Requery,
    };
    let prefix = match commit_prefix(input) {
        Some(p) => p,
        None => return CommitSearch::Reset,
    };
    if let Some(p) = last {
        if strip_prefix(prefix.as_str(), p).is_some() {
            return CommitSearch::Narrow(prefix);
        }
    }
    CommitSearch::Search { revision, prefix }
}

} // verus!

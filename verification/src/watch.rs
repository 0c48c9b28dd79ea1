//! File-watcher events as the viewer sees them: a rename across the edge
//! of the workspace is, on this side, the file appearing or going.

use vstd::prelude::*;

use crate::paths::{parent, path_parent, path_relative, path_starts_with, starts_with, strip_base};
use crate::text::str_eq;

verus! {

/// What the file watcher reports, by absolute path.
pub enum WatchEvent {
    /// A file's contents changed.
    Change(String),
    Created(String),
    Removed(String),
    Renamed { from: String, to: String },
    /// Events were lost; everything must be looked at again.
    Rescan,
}

/// A watcher event as the contracts see it.
pub enum WatchEventView {
    Change(Seq<char>),
    Created(Seq<char>),
    Removed(Seq<char>),
    Renamed { from: Seq<char>, to: Seq<char> },
    Rescan,
}

impl View for WatchEvent {
    type V = WatchEventView;

    open spec fn view(&self) -> WatchEventView {
        match self {
            WatchEvent::Change(p) => WatchEventView::Change(p@),
            WatchEvent::Created(p) => WatchEventView::Created(p@),
            WatchEvent::Removed(p) => WatchEventView::Removed(p@),
            WatchEvent::Renamed { from, to } => WatchEventView::Renamed { from: from@, to: to@ },
            WatchEvent::Rescan => WatchEventView::Rescan,
        }
    }
}

/// An optional event by its view.
pub open spec fn opt_event_view(event: Option<WatchEvent>) -> Option<WatchEventView> {
    match event {
        Some(e) => Some(e@),
        None => None,
    }
}

/// `event` as seen from inside `root`: a rename within the root stays, one
/// out of it is the old path removed, one into it the new path created,
/// one wholly outside is nothing; other events pass unchanged.
pub open spec fn spec_on_this_side(event: WatchEventView, root: Seq<char>) -> Option<WatchEventView> {
    match event {
        WatchEventView::Renamed { from, to } => {
            let from_inside = path_starts_with(from, root);
            let to_inside = path_starts_with(to, root);
            if from_inside && to_inside {
                Some(event)
            } else if from_inside {
                Some(WatchEventView::Removed(from))
            } else if to_inside {
                Some(WatchEventView::Created(to))
            } else {
                None
            }
        },
        _ => Some(event),
    }
}

/// `event` as seen from inside `root`.
pub fn on_this_side(event: WatchEvent, root: &str) -> (seen: Option<WatchEvent>)
    ensures
        opt_event_view(seen) == spec_on_this_side(event@, root@),
{
    match event {
        WatchEvent::Renamed { from, to } => {
            let from_inside = starts_with(from.as_str(), root);
            let to_inside = starts_with(to.as_str(), root);
            if from_inside && to_inside {
                Some(WatchEvent::Renamed { from, to })
            } else if from_inside {
                Some(WatchEvent::Removed(from))
            } else if to_inside {
                Some(WatchEvent::Created(to))
            } else {
                None
            }
        },
        other => Some(other),
    }
}

/// What the viewer knows of one event's path that the event does not say.
#[derive(Debug, Clone, Copy, PartialEq, Eq, Structural)]
pub struct EventFacts {
    /// The path is another worktree's `HEAD`, ref or registry.
    pub other_worktree: bool,
    /// Under `.git`, the path is repository metadata that moves `HEAD`,
    /// the index or the refs.
    pub git_metadata: bool,
    /// The files tree lists the path.
    pub listed: bool,
    /// The git status has the path deleted.
    pub status_deleted: bool,
    /// The ignore rules keep the path (for a rename, its new path).
    pub kept: bool,
    /// For a rename, the ignore rules keep its old path.
    pub from_kept: bool,
}

/// What a batch does to one file, root-relative.
pub enum FileOp {
    /// The file's contents changed, or it appeared.
    Changed(String),
    Removed(String),
    Renamed { from: String, to: String },
}

pub enum FileOpView {
    Changed(Seq<char>),
    Removed(Seq<char>),
    Renamed { from: Seq<char>, to: Seq<char> },
}

impl View for FileOp {
    type V = FileOpView;

    open spec fn view(&self) -> FileOpView {
        match self {
            FileOp::Changed(p) => FileOpView::Changed(p@),
            FileOp::Removed(p) => FileOpView::Removed(p@),
            FileOp::Renamed { from, to } => FileOpView::Renamed { from: from@, to: to@ },
        }
    }
}

/// Strings by their characters.
pub open spec fn texts(v: Seq<String>) -> Seq<Seq<char>> {
    v.map_values(|s: String| s@)
}

pub open spec fn ops_view(v: Seq<FileOp>) -> Seq<FileOpView> {
    v.map_values(|o: FileOp| o@)
}

/// What a batch of watcher events asks of the viewer.
pub struct EventPlan {
    /// Events were lost: the whole workspace is read again, and nothing
    /// else in the batch is looked at.
    pub rescan: bool,
    /// `HEAD`, the index, the refs or another worktree moved.
    pub git_changed: bool,
    /// The root-relative paths the batch named, for the dirty set.
    pub changed: Vec<String>,
    /// The directories whose listings are read again, each once, in the
    /// order first named.
    pub dirs: Vec<String>,
    /// What happens to each file, in order.
    pub ops: Vec<FileOp>,
}

pub struct EventPlanView {
    pub rescan: bool,
    pub git_changed: bool,
    pub changed: Seq<Seq<char>>,
    pub dirs: Seq<Seq<char>>,
    pub ops: Seq<FileOpView>,
}

impl View for EventPlan {
    type V = EventPlanView;

    open spec fn view(&self) -> EventPlanView {
        EventPlanView {
            rescan: self.rescan,
            git_changed: self.git_changed,
            changed: texts(self.changed@),
            dirs: texts(self.dirs@),
            ops: ops_view(self.ops@),
        }
    }
}

/// The walk through a batch so far; `observed` holds the paths whose
/// change was already taken.
pub struct Walk {
    pub git: bool,
    pub changed: Seq<Seq<char>>,
    pub dirs: Seq<Seq<char>>,
    pub ops: Seq<FileOpView>,
    pub observed: Seq<Seq<char>>,
}

/// The directory a path's listing lives in: its parent, the root for a
/// top-level path.
pub open spec fn dir_of(path: Seq<char>) -> Seq<char> {
    match path_parent(path) {
        Some(d) => d,
        None => Seq::empty(),
    }
}

/// `dirs` with the listing of `path` noted: nothing for a path the
/// ignore rules drop, and each directory once.
pub open spec fn note_dir(dirs: Seq<Seq<char>>, path: Seq<char>, kept: bool) -> Seq<Seq<char>> {
    if !kept || dirs.contains(dir_of(path)) {
        dirs
    } else {
        dirs.push(dir_of(path))
    }
}

/// The path an event names: the new one for a rename.
pub open spec fn event_path(e: WatchEventView) -> Option<Seq<char>> {
    match e {
        WatchEventView::Change(p) => Some(p),
        WatchEventView::Created(p) => Some(p),
        WatchEventView::Removed(p) => Some(p),
        WatchEventView::Renamed { to, .. } => Some(to),
        WatchEventView::Rescan => None,
    }
}

/// One event's share of the walk. An event outside the root, or whose
/// path is not under it, changes nothing; another worktree's metadata and
/// git metadata under `.git` (its worktrees and refs included) mark git as
/// changed; any other path is named as changed (a rename's old path
/// first), and: a change or creation is taken once per path, noting its
/// directory when the tree does not list it, it was created, or git has
/// it deleted; a removal notes its directory; a rename notes both.
pub open spec fn walk_event(w: Walk, event: WatchEventView, f: EventFacts, root: Seq<char>) -> Walk {
    match spec_on_this_side(event, root) {
        None => w,
        Some(e) => match event_path(e) {
            None => w,
            Some(path) => if f.other_worktree {
                Walk { git: true, ..w }
            } else {
                match path_relative(path, root) {
                    None => w,
                    Some(rel) => if path_starts_with(rel, ".git"@) {
                        Walk {
                            git: w.git || f.git_metadata || path_starts_with(rel, ".git/worktrees"@)
                                || path_starts_with(rel, ".git/refs"@),
                            ..w
                        }
                    } else {
                        let from_rel = match e {
                            WatchEventView::Renamed { from, .. } => path_relative(from, root),
                            _ => None,
                        };
                        let changed = match from_rel {
                            Some(fr) => w.changed.push(fr).push(rel),
                            None => w.changed.push(rel),
                        };
                        match e {
                            WatchEventView::Removed(_) => Walk {
                                changed,
                                dirs: note_dir(w.dirs, rel, f.kept),
                                ops: w.ops.push(FileOpView::Removed(rel)),
                                ..w
                            },
                            WatchEventView::Renamed { .. } => match from_rel {
                                None => Walk { changed, ..w },
                                Some(fr) => Walk {
                                    changed,
                                    dirs: note_dir(note_dir(w.dirs, fr, f.from_kept), rel, f.kept),
                                    ops: w.ops.push(FileOpView::Renamed { from: fr, to: rel }),
                                    ..w
                                },
                            },
                            _ => if w.observed.contains(rel) {
                                Walk { changed, ..w }
                            } else {
                                let created = e is Created;
                                Walk {
                                    git: w.git,
                                    changed,
                                    dirs: if !f.listed || created || f.status_deleted {
                                        note_dir(w.dirs, rel, f.kept)
                                    } else {
                                        w.dirs
                                    },
                                    ops: w.ops.push(FileOpView::Changed(rel)),
                                    observed: w.observed.push(rel),
                                }
                            },
                        }
                    },
                }
            },
        },
    }
}

/// The walk through the first `n` events.
pub open spec fn walk(events: Seq<WatchEventView>, facts: Seq<EventFacts>, root: Seq<char>, n: nat) -> Walk
    decreases n,
{
    if n == 0 {
        Walk { git: false, changed: Seq::empty(), dirs: Seq::empty(), ops: Seq::empty(), observed: Seq::empty() }
    } else {
        walk_event(walk(events, facts, root, (n - 1) as nat), events[n - 1], facts[n - 1], root)
    }
}

pub open spec fn events_view(events: Seq<WatchEvent>) -> Seq<WatchEventView> {
    events.map_values(|e: WatchEvent| e@)
}

/// What a batch asks of the viewer: a rescan when any event is one, else
/// the walk through every event.
pub open spec fn spec_plan_events(events: Seq<WatchEventView>, root: Seq<char>, facts: Seq<EventFacts>) -> EventPlanView {
    if exists|i: int| 0 <= i < events.len() && #[trigger] events[i] is Rescan {
        EventPlanView { rescan: true, git_changed: false, changed: Seq::empty(), dirs: Seq::empty(), ops: Seq::empty() }
    } else {
        let w = walk(events, facts, root, events.len());
        EventPlanView { rescan: false, git_changed: w.git, changed: w.changed, dirs: w.dirs, ops: w.ops }
    }
}

/// Whether `paths` holds `path`.
fn holds(paths: &Vec<String>, path: &str) -> (found: bool)
    ensures
        found == texts(paths@).contains(path@),
{
    let mut i: usize = 0;
    while i < paths.len()
        invariant
            0 <= i <= paths.len(),
            forall|j: int| 0 <= j < i ==> texts(paths@)[j] != path@,
        decreases paths.len() - i,
    {
        if str_eq(paths[i].as_str(), path) {
            assert(texts(paths@)[i as int] == path@);
            return true;
        }
        i = i + 1;
    }
    false
}

/// Note the listing of `path` in `dirs`.
fn note(dirs: &mut Vec<String>, path: &str, kept: bool)
    ensures
        texts(final(dirs)@) == note_dir(texts(old(dirs)@), path@, kept),
{
    if !kept {
        return;
    }
    let dir = match parent(path) {
        Some(d) => d,
        None => String::new(),
    };
    assert(dir@ == dir_of(path@));
    if !holds(dirs, dir.as_str()) {
        dirs.push(dir);
        assert(texts(dirs@) =~= texts(old(dirs)@).push(dir_of(path@)));
    }
}

/// A copy of an event.
fn copy_event(event: &WatchEvent) -> (copy: WatchEvent)
    ensures
        copy@ == event@,
{
    match event {
        WatchEvent::Change(p) => WatchEvent::Change(p.clone()),
        WatchEvent::Created(p) => WatchEvent::Created(p.clone()),
        WatchEvent::Removed(p) => WatchEvent::Removed(p.clone()),
        WatchEvent::Renamed { from, to } => WatchEvent::Renamed { from: from.clone(), to: to.clone() },
        WatchEvent::Rescan => WatchEvent::Rescan,
    }
}

/// The walk's state as the code keeps it.
pub open spec fn walk_of(git: bool, changed: Seq<String>, dirs: Seq<String>, ops: Seq<FileOp>, observed: Seq<String>) -> Walk {
    Walk { git, changed: texts(changed), dirs: texts(dirs), ops: ops_view(ops), observed: texts(observed) }
}

/// Take one event's share of the walk.
#[verifier::rlimit(40)]
fn step_event(
    event: &WatchEvent,
    f: EventFacts,
    root: &str,
    git: &mut bool,
    changed: &mut Vec<String>,
    dirs: &mut Vec<String>,
    ops: &mut Vec<FileOp>,
    observed: &mut Vec<String>,
)
    ensures
        walk_of(*final(git), final(changed)@, final(dirs)@, final(ops)@, final(observed)@)
            == walk_event(walk_of(*old(git), old(changed)@, old(dirs)@, old(ops)@, old(observed)@), event@, f, root@),
{
    let ghost w0 = walk_of(*git, changed@, dirs@, ops@, observed@);
    let e = match on_this_side(copy_event(event), root) {
        None => return,
        Some(e) => e,
    };
    let path: &str = match &e {
        WatchEvent::Change(p) => p.as_str(),
        WatchEvent::Created(p) => p.as_str(),
        WatchEvent::Removed(p) => p.as_str(),
        WatchEvent::Renamed { to, .. } => to.as_str(),
        WatchEvent::Rescan => return,
    };
    if f.other_worktree {
        *git = true;
        return;
    }
    let rel = match strip_base(path, root) {
        None => return,
        Some(r) => r,
    };
    if starts_with(rel.as_str(), ".git") {
        let moved = f.git_metadata || starts_with(rel.as_str(), ".git/worktrees") || starts_with(rel.as_str(), ".git/refs");
        *git = *git || moved;
        return;
    }
    let from_rel: Option<String> = match &e {
        WatchEvent::Renamed { from, .. } => strip_base(from.as_str(), root),
        _ => None,
    };
    match &from_rel {
        Some(fr) => changed.push(fr.clone()),
        None => {},
    }
    changed.push(rel.clone());
    proof {
        let c = match &from_rel {
            Some(fr) => w0.changed.push(fr@).push(rel@),
            None => w0.changed.push(rel@),
        };
        assert(texts(changed@) =~= c);
    }
    match &e {
        WatchEvent::Removed(_) => {
            note(dirs, rel.as_str(), f.kept);
            ops.push(FileOp::Removed(rel));
            assert(ops_view(ops@) =~= w0.ops.push(FileOpView::Removed(rel@)));
        },
        WatchEvent::Renamed { .. } => {
            match from_rel {
                None => {},
                Some(fr) => {
                    note(dirs, fr.as_str(), f.from_kept);
                    note(dirs, rel.as_str(), f.kept);
                    let ghost frv = fr@;
                    ops.push(FileOp::Renamed { from: fr, to: rel });
                    assert(ops_view(ops@) =~= w0.ops.push(FileOpView::Renamed { from: frv, to: rel@ }));
                },
            }
        },
        _ => {
            if !holds(observed, rel.as_str()) {
                let created = match &e {
                    WatchEvent::Created(_) => true,
                    _ => false,
                };
                if !f.listed || created || f.status_deleted {
                    note(dirs, rel.as_str(), f.kept);
                }
                observed.push(rel.clone());
                assert(texts(observed@) =~= w0.observed.push(rel@));
                let ghost relv = rel@;
                ops.push(FileOp::Changed(rel));
                assert(ops_view(ops@) =~= w0.ops.push(FileOpView::Changed(relv)));
            }
        },
    }
}

/// The listing a path lives in: its parent, the root for a top-level path.
pub open spec fn listing_of(path: Seq<char>) -> Seq<char> {
    match path_parent(path) {
        Some(d) => d,
        None => Seq::empty(),
    }
}

proof fn lemma_note_dir_grows(dirs: Seq<Seq<char>>, path: Seq<char>, kept: bool)
    ensures
        forall|d: Seq<char>| dirs.contains(d) ==> #[trigger] note_dir(dirs, path, kept).contains(d),
        kept ==> note_dir(dirs, path, kept).contains(listing_of(path)),
{
    if kept && !dirs.contains(dir_of(path)) {
        assert(dirs.push(dir_of(path))[dirs.len() as int] == dir_of(path));
        assert forall|d: Seq<char>| dirs.contains(d) implies #[trigger] dirs.push(dir_of(path)).contains(d) by {
            let k = choose|k: int| 0 <= k < dirs.len() && dirs[k] == d;
            assert(dirs.push(dir_of(path))[k] == d);
        }
    }
}

proof fn lemma_walk_event_grows(w: Walk, event: WatchEventView, f: EventFacts, root: Seq<char>)
    ensures
        forall|d: Seq<char>| w.dirs.contains(d) ==> #[trigger] walk_event(w, event, f, root).dirs.contains(d),
        forall|o: FileOpView| w.ops.contains(o) ==> #[trigger] walk_event(w, event, f, root).ops.contains(o),
        forall|c: Seq<char>| w.changed.contains(c) ==> #[trigger] walk_event(w, event, f, root).changed.contains(c),
        (forall|o: Seq<char>| w.observed.contains(o) ==> #[trigger] w.ops.contains(FileOpView::Changed(o)))
            ==> (forall|o: Seq<char>| walk_event(w, event, f, root).observed.contains(o)
                ==> #[trigger] walk_event(w, event, f, root).ops.contains(FileOpView::Changed(o))),
{
    match spec_on_this_side(event, root) {
        None => {},
        Some(e) => match event_path(e) {
            None => {},
            Some(path) => match path_relative(path, root) {
                None => {},
                Some(rel) => {
                    lemma_note_dir_grows(w.dirs, rel, f.kept);
                    match e {
                        WatchEventView::Renamed { from, .. } => match path_relative(from, root) {
                            Some(fr) => {
                                lemma_note_dir_grows(w.dirs, fr, f.from_kept);
                                lemma_note_dir_grows(note_dir(w.dirs, fr, f.from_kept), rel, f.kept);
                            },
                            None => {},
                        },
                        _ => {},
                    }
                    assert forall|o: FileOpView| w.ops.contains(o) implies #[trigger] walk_event(w, event, f, root).ops.contains(o) by {
                        let k = choose|k: int| 0 <= k < w.ops.len() && w.ops[k] == o;
                        let after = walk_event(w, event, f, root).ops;
                        if after != w.ops {
                            assert(after[k] == o);
                        }
                    }
                    assert forall|c: Seq<char>| w.changed.contains(c) implies #[trigger] walk_event(w, event, f, root).changed.contains(c) by {
                        let k = choose|k: int| 0 <= k < w.changed.len() && w.changed[k] == c;
                        let after = walk_event(w, event, f, root).changed;
                        if after != w.changed {
                            assert(after[k] == c);
                        }
                    }
                    let after = walk_event(w, event, f, root);
                    if forall|o: Seq<char>| w.observed.contains(o) ==> #[trigger] w.ops.contains(FileOpView::Changed(o)) {
                        assert forall|o: Seq<char>| after.observed.contains(o) implies #[trigger] after.ops.contains(FileOpView::Changed(o)) by {
                            if after.observed != w.observed {
                                if o == rel {
                                    assert(after.ops[w.ops.len() as int] == FileOpView::Changed(rel));
                                } else {
                                    let k = choose|k: int| 0 <= k < after.observed.len() && after.observed[k] == o;
                                    assert(w.observed[k] == o);
                                }
                            }
                        }
                    }
                },
            },
        },
    }
}

proof fn lemma_walk_grows(events: Seq<WatchEventView>, facts: Seq<EventFacts>, root: Seq<char>, n: nat, m: nat)
    requires
        n <= m,
    ensures
        forall|d: Seq<char>| walk(events, facts, root, n).dirs.contains(d) ==> #[trigger] walk(events, facts, root, m).dirs.contains(d),
        forall|o: FileOpView| walk(events, facts, root, n).ops.contains(o) ==> #[trigger] walk(events, facts, root, m).ops.contains(o),
        forall|c: Seq<char>| walk(events, facts, root, n).changed.contains(c) ==> #[trigger] walk(events, facts, root, m).changed.contains(c),
    decreases m - n,
{
    if n < m {
        lemma_walk_grows(events, facts, root, n, (m - 1) as nat);
        lemma_walk_event_grows(walk(events, facts, root, (m - 1) as nat), events[m - 1], facts[m - 1], root);
    }
}

proof fn lemma_observed_were_changed(events: Seq<WatchEventView>, facts: Seq<EventFacts>, root: Seq<char>, n: nat)
    ensures
        forall|o: Seq<char>| walk(events, facts, root, n).observed.contains(o)
            ==> #[trigger] walk(events, facts, root, n).ops.contains(FileOpView::Changed(o)),
    decreases n,
{
    if n > 0 {
        lemma_observed_were_changed(events, facts, root, (n - 1) as nat);
        lemma_walk_event_grows(walk(events, facts, root, (n - 1) as nat), events[n - 1], facts[n - 1], root);
    }
}

/// A rename inside the root re-reads both listings: the directory the file
/// left (when the ignore rules keep its old path) and the one it entered
/// (when they keep the new), and the batch renames the file from its old
/// root-relative path to its new one.
pub proof fn lemma_rename_rereads_both_listings(
    events: Seq<WatchEventView>,
    root: Seq<char>,
    facts: Seq<EventFacts>,
    i: int,
    from: Seq<char>,
    to: Seq<char>,
    old_rel: Seq<char>,
    new_rel: Seq<char>,
)
    requires
        facts.len() == events.len(),
        forall|j: int| 0 <= j < events.len() ==> !(#[trigger] events[j] is Rescan),
        0 <= i < events.len(),
        events[i] == (WatchEventView::Renamed { from, to }),
        path_starts_with(from, root),
        path_starts_with(to, root),
        !facts[i].other_worktree,
        path_relative(from, root) == Some(old_rel),
        path_relative(to, root) == Some(new_rel),
        !path_starts_with(new_rel, ".git"@),
    ensures
        facts[i].from_kept ==> spec_plan_events(events, root, facts).dirs.contains(listing_of(old_rel)),
        facts[i].kept ==> spec_plan_events(events, root, facts).dirs.contains(listing_of(new_rel)),
        spec_plan_events(events, root, facts).ops.contains(FileOpView::Renamed { from: old_rel, to: new_rel }),
{
    let before = walk(events, facts, root, i as nat);
    let after = walk(events, facts, root, (i + 1) as nat);
    assert(after == walk_event(before, events[i], facts[i], root));
    let f = facts[i];
    lemma_note_dir_grows(before.dirs, old_rel, f.from_kept);
    lemma_note_dir_grows(note_dir(before.dirs, old_rel, f.from_kept), new_rel, f.kept);
    assert(after.dirs == note_dir(note_dir(before.dirs, old_rel, f.from_kept), new_rel, f.kept));
    assert(after.ops == before.ops.push(FileOpView::Renamed { from: old_rel, to: new_rel }));
    assert(after.ops[before.ops.len() as int] == FileOpView::Renamed { from: old_rel, to: new_rel });
    lemma_walk_grows(events, facts, root, (i + 1) as nat, events.len());
    assert(!(exists|j: int| 0 <= j < events.len() && #[trigger] events[j] is Rescan));
}

/// A removal inside the root removes the file and re-reads its listing
/// when the ignore rules keep it; a creation or change has the file taken
/// as changed; every such path is named as changed.
pub proof fn lemma_files_come_and_go_with_their_listings(
    events: Seq<WatchEventView>,
    root: Seq<char>,
    facts: Seq<EventFacts>,
    i: int,
    path: Seq<char>,
    rel: Seq<char>,
)
    requires
        facts.len() == events.len(),
        forall|j: int| 0 <= j < events.len() ==> !(#[trigger] events[j] is Rescan),
        0 <= i < events.len(),
        events[i] == WatchEventView::Removed(path) || events[i] == WatchEventView::Created(path)
            || events[i] == WatchEventView::Change(path),
        !facts[i].other_worktree,
        path_relative(path, root) == Some(rel),
        !path_starts_with(rel, ".git"@),
    ensures
        ({
            let plan = spec_plan_events(events, root, facts);
            &&& plan.changed.contains(rel)
            &&& events[i] is Removed ==> plan.ops.contains(FileOpView::Removed(rel))
            &&& events[i] is Removed && facts[i].kept ==> plan.dirs.contains(listing_of(rel))
            &&& !(events[i] is Removed) ==> plan.ops.contains(FileOpView::Changed(rel))
            &&& !plan.rescan
        }),
{
    let before = walk(events, facts, root, i as nat);
    let after = walk(events, facts, root, (i + 1) as nat);
    assert(after == walk_event(before, events[i], facts[i], root));
    let f = facts[i];
    assert(after.changed == before.changed.push(rel));
    assert(after.changed[before.changed.len() as int] == rel);
    lemma_observed_were_changed(events, facts, root, i as nat);
    lemma_walk_event_grows(before, events[i], f, root);
    if events[i] is Removed {
        lemma_note_dir_grows(before.dirs, rel, f.kept);
        assert(after.ops[before.ops.len() as int] == FileOpView::Removed(rel));
    } else if before.observed.contains(rel) {
        assert(before.ops.contains(FileOpView::Changed(rel)));
    } else {
        assert(after.ops[before.ops.len() as int] == FileOpView::Changed(rel));
    }
    lemma_walk_grows(events, facts, root, (i + 1) as nat, events.len());
    assert(!(exists|j: int| 0 <= j < events.len() && #[trigger] events[j] is Rescan));
}

/// A lost event makes the whole batch a rescan: nothing else in it is
/// looked at.
pub proof fn lemma_a_lost_event_rescans(events: Seq<WatchEventView>, root: Seq<char>, facts: Seq<EventFacts>, i: int)
    requires
        0 <= i < events.len(),
        events[i] is Rescan,
    ensures
        spec_plan_events(events, root, facts).rescan,
        spec_plan_events(events, root, facts).changed.len() == 0,
        spec_plan_events(events, root, facts).ops.len() == 0,
        spec_plan_events(events, root, facts).dirs.len() == 0,
{
}

/// What a batch of watcher events asks of the viewer, given what the
/// viewer knows of each event's path.
pub fn plan_events(events: &[WatchEvent], root: &str, facts: &[EventFacts]) -> (plan: EventPlan)
    requires
        facts.len() == events.len(),
    ensures
        plan@ == spec_plan_events(events_view(events@), root@, facts@),
{
    let ghost ev = events_view(events@);
    let mut k: usize = 0;
    while k < events.len()
        invariant
            0 <= k <= events.len(),
            ev == events_view(events@),
            forall|j: int| 0 <= j < k ==> !(#[trigger] ev[j] is Rescan),
        decreases events.len() - k,
    {
        match &events[k] {
            WatchEvent::Rescan => {
                assert(ev[k as int] is Rescan);
                let plan = EventPlan { rescan: true, git_changed: false, changed: Vec::new(), dirs: Vec::new(), ops: Vec::new() };
                assert(texts(plan.changed@) =~= Seq::empty());
                assert(texts(plan.dirs@) =~= Seq::empty());
                assert(ops_view(plan.ops@) =~= Seq::empty());
                return plan;
            },
            _ => {},
        }
        k = k + 1;
    }
    let mut git = false;
    let mut changed: Vec<String> = Vec::new();
    let mut dirs: Vec<String> = Vec::new();
    let mut ops: Vec<FileOp> = Vec::new();
    let mut observed: Vec<String> = Vec::new();
    proof {
        assert(texts(changed@) =~= Seq::empty());
        assert(texts(dirs@) =~= Seq::empty());
        assert(ops_view(ops@) =~= Seq::empty());
        assert(texts(observed@) =~= Seq::empty());
    }
    let mut i: usize = 0;
    while i < events.len()
        invariant
            0 <= i <= events.len(),
            facts.len() == events.len(),
            ev == events_view(events@),
            ev.len() == events.len(),
            forall|j: int| 0 <= j < events.len() ==> !(#[trigger] ev[j] is Rescan),
            walk_of(git, changed@, dirs@, ops@, observed@) == walk(ev, facts@, root@, i as nat),
        decreases events.len() - i,
    {
        step_event(&events[i], facts[i], root, &mut git, &mut changed, &mut dirs, &mut ops, &mut observed);
        i = i + 1;
    }
    EventPlan { rescan: false, git_changed: git, changed, dirs, ops }
}

/// How the status, the indexes and the comparison follow a batch.
#[derive(Debug, Clone, Copy, PartialEq, Eq, Structural)]
pub enum StatusRefresh {
    /// The whole status is read again.
    All,
    /// Only the named paths are.
    Paths,
    Nothing,
}

/// What follows a batch's walk.
#[derive(Debug, Clone, Copy, PartialEq, Eq, Structural)]
pub struct Refreshes {
    /// The file indexes are walked again: the ignore rules changed.
    pub clear_indexes: bool,
    pub status: StatusRefresh,
    pub comparison: bool,
}

/// What follows a batch: changed ignore rules clear the file indexes; git
/// or the rules moving read the whole status again, named paths only
/// theirs; any of these refreshes the comparison.
pub open spec fn spec_after_events(git_changed: bool, rules_changed: bool, named: bool) -> Refreshes {
    Refreshes {
        clear_indexes: rules_changed,
        status: if git_changed || rules_changed { StatusRefresh::All } else if named { StatusRefresh::Paths } else { StatusRefresh::Nothing },
        comparison: git_changed || rules_changed || named,
    }
}

/// What follows a batch, given whether git moved, whether the ignore
/// rules changed, and whether the batch named any path.
pub fn after_events(git_changed: bool, rules_changed: bool, named: bool) -> (r: Refreshes)
    ensures
        r == spec_after_events(git_changed, rules_changed, named),
{
    Refreshes {
        clear_indexes: rules_changed,
        status: if git_changed || rules_changed { StatusRefresh::All } else if named { StatusRefresh::Paths } else { StatusRefresh::Nothing },
        comparison: git_changed || rules_changed || named,
    }
}

} // verus!

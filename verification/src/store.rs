//! Keeping the thread board in step with its backing file: what a reload
//! does with what the file system showed, and how the store's trouble and
//! the watcher's combine into the one "thread updates" status.

use vstd::prelude::*;

use crate::text::str_eq;

verus! {

/// What is known of the store's backing file.
#[derive(Debug, Clone, Copy, PartialEq, Eq, Structural)]
pub enum StoreBacking {
    /// No file existed when the board was first loaded.
    InitiallyAbsent,
    /// The file has been seen.
    Observed,
    /// The file was seen and is gone now.
    Missing,
}

/// What inspecting the backing file's path showed.
#[derive(Debug, Clone, Copy, PartialEq, Eq, Structural)]
pub enum Inspected {
    /// A file is there, with its device and inode.
    Present { dev: u64, ino: u64 },
    NotFound,
    /// The path could not be inspected.
    Failed,
}

/// Why the loaded board is kept instead of the file's.
#[derive(Debug, Clone, Copy, PartialEq, Eq, Structural)]
pub enum StoreTrouble {
    /// The file disappeared.
    Disappeared,
    /// Inspecting the path failed.
    CannotInspect,
    /// The file was replaced while it was read.
    ChangedWhileLoading,
    /// Reading the file failed.
    CannotReload,
}

/// How a reload ends.
#[derive(Debug, Clone, Copy, PartialEq, Eq, Structural)]
pub struct StoreSettle {
    pub backing: StoreBacking,
    /// The store's trouble from now on; `None` clears it.
    pub trouble: Option<StoreTrouble>,
    /// The file and the board agree.
    pub healthy: bool,
    /// The freshly read store replaces the board.
    pub replace: bool,
    /// The board's threads changed, so marks and open threads follow.
    pub refresh: bool,
}

/// The first step of a reload, once the path has been inspected.
#[derive(Debug, Clone, Copy, PartialEq, Eq, Structural)]
pub enum StoreStep {
    /// Read the file again, then take [`store_loaded`]'s step.
    Load { backing: StoreBacking },
    /// Done without reading.
    Settle(StoreSettle),
}

/// A fresh read of the store, as the reload judges it.
#[derive(Debug, Clone, Copy, PartialEq, Eq, Structural)]
pub struct Reloaded {
    /// The file read is the file inspected before (see [`stable_reload`]).
    pub stable: bool,
    /// A board was loaded and holds the same threads and archive.
    pub unchanged: bool,
    /// The fresh store has seen its backing file.
    pub observed: bool,
}

/// The backing once a loaded store has seen its file: an initially
/// absent file that the store now sees is observed.
pub open spec fn spec_observe(backing: StoreBacking, loaded: bool, loaded_observed: bool) -> StoreBacking {
    if backing == StoreBacking::InitiallyAbsent && loaded && loaded_observed {
        StoreBacking::Observed
    } else {
        backing
    }
}

pub open spec fn settle(backing: StoreBacking, trouble: Option<StoreTrouble>, healthy: bool) -> StoreSettle {
    StoreSettle { backing, trouble, healthy, replace: false, refresh: false }
}

/// The first step of a reload: a vanished file that had been seen is
/// missing and the board is kept; a file that never existed leaves a
/// loaded board healthy and an unloaded one to be read; an inspection that
/// failed keeps the board; a present file is read.
pub open spec fn spec_inspect_store(backing: StoreBacking, loaded: bool, loaded_observed: bool, inspected: Inspected) -> StoreStep {
    let b = spec_observe(backing, loaded, loaded_observed);
    match inspected {
        Inspected::Present { .. } => StoreStep::Load { backing: b },
        Inspected::NotFound => if b != StoreBacking::InitiallyAbsent {
            StoreStep::Settle(settle(StoreBacking::Missing, Some(StoreTrouble::Disappeared), false))
        } else if loaded {
            StoreStep::Settle(settle(b, None, true))
        } else {
            StoreStep::Load { backing: b }
        },
        Inspected::Failed => StoreStep::Settle(settle(b, Some(StoreTrouble::CannotInspect), false)),
    }
}

/// The first step of a reload, given the backing known so far, whether a
/// board is loaded and has seen its file, and what inspecting the path
/// showed.
pub fn inspect_store(backing: StoreBacking, loaded: bool, loaded_observed: bool, inspected: Inspected) -> (step: StoreStep)
    ensures
        step == spec_inspect_store(backing, loaded, loaded_observed, inspected),
{
    let b = if backing == StoreBacking::InitiallyAbsent && loaded && loaded_observed {
        StoreBacking::Observed
    } else {
        backing
    };
    let keep = |backing: StoreBacking, trouble: Option<StoreTrouble>, healthy: bool| -> (s: StoreSettle)
        ensures
            s == settle(backing, trouble, healthy),
    { StoreSettle { backing, trouble, healthy, replace: false, refresh: false } };
    match inspected {
        Inspected::Present { .. } => StoreStep::Load { backing: b },
        Inspected::NotFound => if b != StoreBacking::InitiallyAbsent {
            StoreStep::Settle(keep(StoreBacking::Missing, Some(StoreTrouble::Disappeared), false))
        } else if loaded {
            StoreStep::Settle(keep(b, None, true))
        } else {
            StoreStep::Load { backing: b }
        },
        Inspected::Failed => StoreStep::Settle(keep(b, Some(StoreTrouble::CannotInspect), false)),
    }
}

/// Whether the file read is the one inspected before the read: the same
/// device and inode before and after, when the store saw a file; or no
/// file before, none seen, and none after.
pub open spec fn spec_stable_reload(before: Inspected, observed: bool, after: Inspected) -> bool {
    match (before, after) {
        (Inspected::Present { dev: d1, ino: i1 }, Inspected::Present { dev: d2, ino: i2 }) => observed && d1 == d2 && i1 == i2,
        (Inspected::NotFound, Inspected::NotFound) => !observed,
        _ => false,
    }
}

/// Whether the file read is the one inspected before the read.
pub fn stable_reload(before: Inspected, observed: bool, after: Inspected) -> (stable: bool)
    ensures
        stable == spec_stable_reload(before, observed, after),
{
    match (before, after) {
        (Inspected::Present { dev: d1, ino: i1 }, Inspected::Present { dev: d2, ino: i2 }) => observed && d1 == d2 && i1 == i2,
        (Inspected::NotFound, Inspected::NotFound) => !observed,
        _ => false,
    }
}

/// The end of a reload that read the file (`None` when reading failed):
/// a failed or unstable read keeps the board; otherwise the fresh store
/// replaces it, its trouble clears, its backing is what it saw, and the
/// marks follow when its threads changed.
pub open spec fn spec_store_loaded(backing: StoreBacking, reloaded: Option<Reloaded>) -> StoreSettle {
    match reloaded {
        None => settle(backing, Some(StoreTrouble::CannotReload), false),
        Some(r) => if !r.stable {
            settle(backing, Some(StoreTrouble::ChangedWhileLoading), false)
        } else {
            StoreSettle {
                backing: if r.observed { StoreBacking::Observed } else { StoreBacking::InitiallyAbsent },
                trouble: None,
                healthy: true,
                replace: true,
                refresh: !r.unchanged,
            }
        },
    }
}

/// The end of a reload that read the file.
pub fn store_loaded(backing: StoreBacking, reloaded: Option<Reloaded>) -> (settled: StoreSettle)
    ensures
        settled == spec_store_loaded(backing, reloaded),
{
    match reloaded {
        None => StoreSettle { backing, trouble: Some(StoreTrouble::CannotReload), healthy: false, replace: false, refresh: false },
        Some(r) => if !r.stable {
            StoreSettle { backing, trouble: Some(StoreTrouble::ChangedWhileLoading), healthy: false, replace: false, refresh: false }
        } else {
            StoreSettle {
                backing: if r.observed { StoreBacking::Observed } else { StoreBacking::InitiallyAbsent },
                trouble: None,
                healthy: true,
                replace: true,
                refresh: !r.unchanged,
            }
        },
    }
}

/// A reload replaces the board only with a stable read, and exactly then
/// is healthy with its trouble cleared; a failed or unstable read keeps
/// the board and reports why; the marks follow only a board that was
/// replaced with changed threads.
pub proof fn lemma_only_a_stable_read_replaces_the_board(backing: StoreBacking, reloaded: Option<Reloaded>)
    ensures
        spec_store_loaded(backing, reloaded).replace <==> (reloaded matches Some(r) && r.stable),
        spec_store_loaded(backing, reloaded).healthy == spec_store_loaded(backing, reloaded).replace,
        spec_store_loaded(backing, reloaded).trouble is None <==> spec_store_loaded(backing, reloaded).replace,
        reloaded is None ==> spec_store_loaded(backing, reloaded).trouble == Some(StoreTrouble::CannotReload),
        reloaded matches Some(r) && !r.stable ==> spec_store_loaded(backing, reloaded).trouble == Some(StoreTrouble::ChangedWhileLoading),
        spec_store_loaded(backing, reloaded).refresh ==> spec_store_loaded(backing, reloaded).replace
            && (reloaded matches Some(r) && !r.unchanged),
{
}

/// Inspecting the path never replaces the board: a file seen before and
/// gone now is missing and kept; a failed inspection keeps the board and
/// is never healthy; a file that is there is always read.
pub proof fn lemma_inspection_keeps_or_reads(backing: StoreBacking, loaded: bool, loaded_observed: bool, inspected: Inspected)
    ensures
        spec_inspect_store(backing, loaded, loaded_observed, inspected) matches StoreStep::Settle(s) ==> !s.replace && !s.refresh,
        inspected is Present ==> spec_inspect_store(backing, loaded, loaded_observed, inspected) is Load,
        inspected is Failed ==> spec_inspect_store(backing, loaded, loaded_observed, inspected)
            == StoreStep::Settle(StoreSettle {
                backing: spec_observe(backing, loaded, loaded_observed),
                trouble: Some(StoreTrouble::CannotInspect),
                healthy: false,
                replace: false,
                refresh: false,
            }),
        inspected is NotFound && backing == StoreBacking::Observed ==> spec_inspect_store(backing, loaded, loaded_observed, inspected)
            == StoreStep::Settle(StoreSettle {
                backing: StoreBacking::Missing,
                trouble: Some(StoreTrouble::Disappeared),
                healthy: false,
                replace: false,
                refresh: false,
            }),
{
}

/// A read is stable only when the file inspected before is the file seen
/// after: the same device and inode, or no file at all and none seen.
pub proof fn lemma_stable_means_the_same_file(before: Inspected, observed: bool, after: Inspected)
    ensures
        spec_stable_reload(before, observed, after) ==> before == after,
        spec_stable_reload(before, observed, after) ==> (observed <==> before is Present),
        before is Failed || after is Failed ==> !spec_stable_reload(before, observed, after),
{
}

/// The reason shown while the watcher cannot cover the store.
pub const THREAD_WATCH_DEGRADED: &'static str =
    "cannot watch or reconcile the thread store; keeping the last loaded board";

/// What a change of the "thread updates" status reports.
#[derive(Debug, Clone, Copy, PartialEq, Eq, Structural)]
pub enum UpdatesReport {
    /// Nothing to say: the status did not change, or changed from one
    /// healthy state to another.
    Silent,
    /// An error: "thread updates degraded: {reason}; retrying".
    Degraded,
    /// A notice: "thread updates restored".
    Restored,
}

/// The combined reason: the store's own, else the watcher's.
pub open spec fn spec_combined_reason(store_reason: Option<Seq<char>>, watch_degraded: bool) -> Option<Seq<char>> {
    match store_reason {
        Some(r) => Some(r),
        None => if watch_degraded { Some(THREAD_WATCH_DEGRADED@) } else { None },
    }
}

pub open spec fn opt_view(o: Option<String>) -> Option<Seq<char>> {
    match o {
        Some(s) => Some(s@),
        None => None,
    }
}

/// Whether the status changes, and what it reports: a new reason is an
/// error, going from a reason to none is a notice.
pub open spec fn spec_updates_change(current: Option<Seq<char>>, combined: Option<Seq<char>>) -> (bool, UpdatesReport) {
    if current == combined {
        (false, UpdatesReport::Silent)
    } else if combined is Some {
        (true, UpdatesReport::Degraded)
    } else if current is Some {
        (true, UpdatesReport::Restored)
    } else {
        (true, UpdatesReport::Silent)
    }
}

/// The "thread updates" status after the store's reason or the watcher's
/// coverage changed: `current` becomes the combined reason, and the result
/// says whether it changed and what to report.
pub fn update_status(current: &mut Option<String>, store_reason: &Option<String>, watch_degraded: bool) -> (outcome: (bool, UpdatesReport))
    ensures
        opt_view(*final(current)) == spec_combined_reason(opt_view(*store_reason), watch_degraded),
        outcome == spec_updates_change(opt_view(*old(current)), spec_combined_reason(opt_view(*store_reason), watch_degraded)),
{
    let combined: Option<String> = match store_reason {
        Some(r) => Some(r.clone()),
        None => if watch_degraded {
            Some(THREAD_WATCH_DEGRADED.to_owned())
        } else {
            None
        },
    };
    let same = match (&*current, &combined) {
        (Some(a), Some(b)) => str_eq(a.as_str(), b.as_str()),
        (None, None) => true,
        _ => false,
    };
    if same {
        return (false, UpdatesReport::Silent);
    }
    let had = current.is_some();
    let report = if combined.is_some() {
        UpdatesReport::Degraded
    } else if had {
        UpdatesReport::Restored
    } else {
        UpdatesReport::Silent
    };
    *current = combined;
    (true, report)
}

} // verus!

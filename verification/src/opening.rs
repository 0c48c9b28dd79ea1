//! Opening a file: which content a path shows and why it is marked
//! deleted, what happens when the content cannot be had, and the order of
//! the recently opened files.

use vstd::prelude::*;

use crate::picker::Deleted;

verus! {

/// What the git status says of a path, as far as opening reads it.
#[derive(Debug, Clone, Copy, PartialEq, Eq, Structural)]
pub struct EntrySides {
    /// The index records the path as deleted.
    pub staged_deleted: bool,
    /// The worktree has deleted the path.
    pub unstaged_deleted: bool,
    /// The worktree has no change to the path.
    pub unstaged_clean: bool,
}

/// Where a deleted worktree file's content comes from: the index when the
/// worktree deleted it, `HEAD` when only the index did.
pub open spec fn spec_deleted_source(entry: Option<EntrySides>) -> Option<Deleted> {
    match entry {
        None => None,
        Some(e) => if e.unstaged_deleted {
            Some(Deleted::Index)
        } else if e.staged_deleted && e.unstaged_clean {
            Some(Deleted::Head)
        } else {
            None
        },
    }
}

/// Where a deleted worktree file's content comes from.
pub fn deleted_source(entry: Option<EntrySides>) -> (source: Option<Deleted>)
    ensures
        source == spec_deleted_source(entry),
{
    match entry {
        None => None,
        Some(e) => if e.unstaged_deleted {
            Some(Deleted::Index)
        } else if e.staged_deleted && e.unstaged_clean {
            Some(Deleted::Head)
        } else {
            None
        },
    }
}

/// What opening a path reads of the viewer.
#[derive(Debug, Clone, Copy, PartialEq, Eq, Structural)]
pub struct OpenFacts {
    /// The open document with this path, if one is open.
    pub loaded: Option<usize>,
    /// The diff mode is off.
    pub diff_off: bool,
    /// The comparison's target is the working tree.
    pub target_is_working_tree: bool,
    /// The current comparison changes this path and its target lacks it.
    pub target_lacks_path: bool,
    /// The file is known not to exist on disk.
    pub missing_on_disk: bool,
    /// The git status of the path.
    pub status: Option<EntrySides>,
}

/// Which content a new document is read from.
#[derive(Debug, Clone, Copy, PartialEq, Eq, Structural)]
pub enum Source {
    /// With the diff off, the document of the chosen target.
    OffTarget,
    /// The comparison's text for the path: a target other than the
    /// working tree, or one that lacks the path.
    Comparison,
    /// The index's blob of a file the worktree deleted.
    Index,
    /// The `HEAD` blob of a staged deletion.
    Head,
    /// The file on disk.
    Disk,
}

/// What opening a path does first.
#[derive(Debug, Clone, Copy, PartialEq, Eq, Structural)]
pub enum OpenPlan {
    /// The path is open already: switch to that document.
    Switch(usize),
    /// Read a new document from `source`, marked with `deleted`.
    Load { source: Source, deleted: Option<Deleted> },
}

/// Why a new document is marked deleted: never with the diff off; as the
/// comparison's base when the target lacks the path; else, when the
/// target is the working tree and the file is gone, by its git status.
pub open spec fn spec_open_deleted(f: OpenFacts) -> Option<Deleted> {
    if f.diff_off {
        None
    } else if f.target_lacks_path {
        Some(Deleted::ComparisonBase)
    } else if f.target_is_working_tree && f.missing_on_disk {
        spec_deleted_source(f.status)
    } else {
        None
    }
}

/// What opening a path does first.
pub open spec fn spec_open_plan(f: OpenFacts) -> OpenPlan {
    match f.loaded {
        Some(index) => OpenPlan::Switch(index),
        None => {
            let deleted = spec_open_deleted(f);
            let source = if f.diff_off {
                Source::OffTarget
            } else if !f.target_is_working_tree || f.target_lacks_path {
                Source::Comparison
            } else {
                match deleted {
                    Some(Deleted::Index) => Source::Index,
                    Some(Deleted::Head) => Source::Head,
                    _ => Source::Disk,
                }
            };
            OpenPlan::Load { source, deleted }
        },
    }
}

/// Opening never reloads an open path; with the diff off nothing is marked
/// deleted and the off target is read; a file marked deleted from the
/// index or `HEAD` is read from there; a target other than the working
/// tree is read from the comparison.
pub proof fn lemma_open_reads_the_right_content(f: OpenFacts)
    ensures
        f.loaded matches Some(i) ==> spec_open_plan(f) == OpenPlan::Switch(i),
        f.loaded is None && f.diff_off ==> spec_open_plan(f) == (OpenPlan::Load { source: Source::OffTarget, deleted: None }),
        spec_open_plan(f) matches OpenPlan::Load { source, deleted } ==> {
            &&& deleted == Some(Deleted::Index) ==> source == Source::Index
            &&& deleted == Some(Deleted::Head) ==> source == Source::Head
            &&& deleted is Some ==> !f.diff_off
            &&& (!f.diff_off && !f.target_is_working_tree) ==> source == Source::Comparison
            &&& source == Source::Disk ==> !f.diff_off && f.target_is_working_tree && !f.target_lacks_path
        },
        f.loaded is None && !f.diff_off && f.target_lacks_path ==> spec_open_plan(f) is Load
            && spec_open_plan(f)->deleted == Some(Deleted::ComparisonBase),
{
}

/// What opening a path does first.
pub fn open_plan(f: OpenFacts) -> (plan: OpenPlan)
    ensures
        plan == spec_open_plan(f),
{
    if let Some(index) = f.loaded {
        return OpenPlan::Switch(index);
    }
    let deleted = if f.diff_off {
        None
    } else if f.target_lacks_path {
        Some(Deleted::ComparisonBase)
    } else if f.target_is_working_tree && f.missing_on_disk {
        deleted_source(f.status)
    } else {
        None
    };
    let source = if f.diff_off {
        Source::OffTarget
    } else if !f.target_is_working_tree || f.target_lacks_path {
        Source::Comparison
    } else {
        match deleted {
            Some(Deleted::Index) => Source::Index,
            Some(Deleted::Head) => Source::Head,
            _ => Source::Disk,
        }
    };
    OpenPlan::Load { source, deleted }
}

/// A notice a new document carries.
#[derive(Debug, Clone, Copy, PartialEq, Eq, Structural)]
pub enum OpenNotice {
    /// "not present in Target": with the diff off, the target lacks it.
    NotInTarget,
    /// "content unavailable in selected comparison: {error}".
    Unavailable,
}

/// How opening ends once the content was read.
#[derive(Debug, Clone, Copy, PartialEq, Eq, Structural)]
pub enum OpenEnd {
    /// Add the document (an empty one when `empty`), show it, and make it
    /// the most recent file.
    Add {
        empty: bool,
        /// The view marks the worktree file as missing.
        worktree_missing: bool,
        /// The view marks the index entry as deleted.
        index_missing: bool,
        notice: Option<OpenNotice>,
    },
    /// Nothing opens: the error is shown as a notice, and the layout is
    /// redone when a directory was being shown.
    Fail { relayout: bool },
}

/// How opening ends: content that could not be read opens as an empty
/// document with a notice when the diff is on and the comparison knows the
/// path, and fails otherwise; content read opens, marked missing when it
/// is deleted or the target lacks it.
pub open spec fn spec_open_end(
    f: OpenFacts,
    deleted: Option<Deleted>,
    read: bool,
    target_absent: bool,
    in_comparison: bool,
    had_directory: bool,
) -> OpenEnd {
    let index_missing = match f.status {
        Some(e) => e.staged_deleted,
        None => false,
    };
    if read {
        OpenEnd::Add {
            empty: false,
            worktree_missing: deleted is Some || target_absent,
            index_missing,
            notice: if target_absent { Some(OpenNotice::NotInTarget) } else { None },
        }
    } else if !f.diff_off && in_comparison {
        OpenEnd::Add {
            empty: true,
            worktree_missing: deleted is Some || target_absent,
            index_missing,
            notice: Some(OpenNotice::Unavailable),
        }
    } else {
        OpenEnd::Fail { relayout: had_directory }
    }
}

/// How opening ends, given whether the content was read, whether the off
/// target lacks the path, whether the comparison's status knows it, and
/// whether a directory was shown.
pub fn open_end(
    f: OpenFacts,
    deleted: Option<Deleted>,
    read: bool,
    target_absent: bool,
    in_comparison: bool,
    had_directory: bool,
) -> (end: OpenEnd)
    ensures
        end == spec_open_end(f, deleted, read, target_absent, in_comparison, had_directory),
{
    let index_missing = match f.status {
        Some(e) => e.staged_deleted,
        None => false,
    };
    let worktree_missing = deleted.is_some() || target_absent;
    if read {
        OpenEnd::Add {
            empty: false,
            worktree_missing,
            index_missing,
            notice: if target_absent { Some(OpenNotice::NotInTarget) } else { None },
        }
    } else if !f.diff_off && in_comparison {
        OpenEnd::Add { empty: true, worktree_missing, index_missing, notice: Some(OpenNotice::Unavailable) }
    } else {
        OpenEnd::Fail { relayout: had_directory }
    }
}

/// Make `index` the most recent file: it moves to the front and appears
/// once.
pub fn touch_recent(recent: &mut Vec<usize>, index: usize)
    ensures
        final(recent)@ == seq![index] + old(recent)@.filter(|r: usize| r != index),
{
    let ghost before = recent@;
    let mut kept: Vec<usize> = Vec::new();
    kept.push(index);
    let mut i: usize = 0;
    while i < recent.len()
        invariant
            recent@ == before,
            0 <= i <= before.len(),
            kept@ == seq![index] + before.take(i as int).filter(|r: usize| r != index),
        decreases before.len() - i,
    {
        let r = recent[i];
        let ghost prev = before.take(i as int).filter(|r: usize| r != index);
        if r != index {
            kept.push(r);
            assert(kept@ =~= seq![index] + prev.push(r));
        }
        assert(before.take(i as int + 1).filter(|r: usize| r != index) == if r != index { prev.push(r) } else { prev }) by {
            reveal(Seq::filter);
            assert(before.take(i as int + 1).drop_last() =~= before.take(i as int));
            assert(before.take(i as int + 1).last() == before[i as int]);
        }
        i = i + 1;
    }
    proof {
        assert(before.take(before.len() as int) =~= before);
    }
    *recent = kept;
}

} // verus!

//! The two words that describe a thread.
//!
//! A [`MarkKind`] ranks one colour for the gutter, and placement wins
//! there: a detached thread is red whatever its state. The thread pane and
//! the file-threads pane say more: the *placement* word (`detached`,
//! `edited`) when the lines moved or went, then the *state* word
//! (`waiting`, `open`, `resolved`, `auto-resolved`) always, so a reply or a
//! resolution on a detached thread is never hidden behind its colour.

use vstd::prelude::*;

verus! {

/// What a thread's gutter mark says about it.
#[derive(Debug, Clone, Copy, PartialEq, Eq, Structural)]
pub enum MarkKind {
    /// The lines the comment was written on are gone.
    Detached,
    /// The lines were edited since the comment was written.
    Edited,
    /// The thread waits for the reader's answer.
    Waiting,
    Open,
    Resolved,
    AutoResolved,
}

/// A thread's lifecycle state in the store.
#[derive(Debug, Clone, Copy, PartialEq, Eq, Structural)]
pub enum Status {
    Open,
    Resolved,
    AutoResolved,
}

/// What the words read of a thread: whether it waits for the reader, and
/// its state.
#[derive(Debug, Clone, Copy, PartialEq, Eq, Structural)]
pub struct Thread {
    pub awaits_user: bool,
    pub status: Status,
}

/// The placement word, when the lines are not where the comment was
/// written, and the state word.
#[derive(Debug, Clone, Copy, PartialEq, Eq, Structural)]
pub struct Words {
    placement: Option<MarkKind>,
    state: MarkKind,
}

/// The placement word a gutter kind gives: only `detached` and `edited`.
pub open spec fn spec_placement(kind: Option<MarkKind>) -> Option<MarkKind> {
    match kind {
        Some(MarkKind::Detached) => Some(MarkKind::Detached),
        Some(MarkKind::Edited) => Some(MarkKind::Edited),
        _ => None,
    }
}

/// The state word of a thread: waiting when it awaits the reader, else its
/// status.
pub open spec fn spec_state(thread: Thread) -> MarkKind {
    if thread.awaits_user {
        MarkKind::Waiting
    } else {
        match thread.status {
            Status::Open => MarkKind::Open,
            Status::Resolved => MarkKind::Resolved,
            Status::AutoResolved => MarkKind::AutoResolved,
        }
    }
}

impl Words {
    /// The placement word, then the state word.
    pub closed spec fn spec_words(self) -> (Option<MarkKind>, MarkKind) {
        (self.placement, self.state)
    }

    /// Words for `thread` shown with `kind`, its gutter kind when the file
    /// is open.
    pub fn of(kind: Option<MarkKind>, thread: &Thread) -> (words: Self)
        ensures
            words.spec_words() == (spec_placement(kind), spec_state(*thread)),
    {
        let placement = match kind {
            Some(MarkKind::Detached) => Some(MarkKind::Detached),
            Some(MarkKind::Edited) => Some(MarkKind::Edited),
            _ => None,
        };
        let state = if thread.awaits_user {
            MarkKind::Waiting
        } else {
            match thread.status {
                Status::Open => MarkKind::Open,
                Status::Resolved => MarkKind::Resolved,
                Status::AutoResolved => MarkKind::AutoResolved,
            }
        };
        Words { placement, state }
    }

    /// `detached` or `edited`, when the lines are not where they were.
    pub fn placement(self) -> (placement: Option<MarkKind>)
        ensures
            placement == self.spec_words().0,
    {
        self.placement
    }

    /// The state word's kind: waiting, open, resolved, or auto-resolved.
    pub fn state(self) -> (state: MarkKind)
        ensures
            state == self.spec_words().1,
    {
        self.state
    }

    /// Whether the thread is resolved, however it is placed.
    pub fn is_resolved(self) -> (resolved: bool)
        ensures
            resolved == (self.spec_words().1 is Resolved || self.spec_words().1 is AutoResolved),
    {
        matches!(self.state, MarkKind::Resolved | MarkKind::AutoResolved)
    }
}

/// The status word for a kind.
pub open spec fn spec_label(kind: MarkKind) -> Seq<char> {
    match kind {
        MarkKind::Detached => "detached"@,
        MarkKind::Edited => "edited"@,
        MarkKind::Waiting => "waiting"@,
        MarkKind::Open => "open"@,
        MarkKind::Resolved => "resolved"@,
        MarkKind::AutoResolved => "auto-resolved"@,
    }
}

/// The status word for a kind.
pub fn label(kind: MarkKind) -> (word: &'static str)
    ensures
        word@ == spec_label(kind),
{
    match kind {
        MarkKind::Detached => "detached",
        MarkKind::Edited => "edited",
        MarkKind::Waiting => "waiting",
        MarkKind::Open => "open",
        MarkKind::Resolved => "resolved",
        MarkKind::AutoResolved => "auto-resolved",
    }
}

/// The placement word never hides the state: a thread's words always carry
/// its state, and its placement word is one only when the lines moved or
/// went, whatever the thread's state.
pub proof fn lemma_placement_never_hides_state(kind: Option<MarkKind>, thread: Thread)
    ensures
        spec_placement(kind) is None || spec_placement(kind) == Some(MarkKind::Detached)
            || spec_placement(kind) == Some(MarkKind::Edited),
        spec_state(thread) != MarkKind::Detached && spec_state(thread) != MarkKind::Edited,
        thread.awaits_user ==> spec_state(thread) == MarkKind::Waiting,
{
}

} // verus!

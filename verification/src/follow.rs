//! Lazy follow: auto-jump moves to a change once the queue has been quiet
//! and the reader idle, and switches itself off the moment the reader goes
//! somewhere else; looking around inside the landed file is not leaving.
//! Times are in nanoseconds.

use vstd::prelude::*;

verus! {

/// Reader activity newer than this holds auto-jump back: three seconds.
pub const RECENT_ACTIVITY_NANOS: u128 = 3_000_000_000;

/// The shortest wait auto-jump reports: fifty milliseconds.
pub const MIN_WAIT_NANOS: u128 = 50_000_000;

/// Something the reader is doing besides reading the document.
#[derive(Debug, Clone, Copy, PartialEq, Eq, Structural)]
pub enum Aside {
    Compose,
    List,
    Diff,
    Selecting,
}

/// Where the reader is, coarsely: the open document and what they are
/// doing beside it; enough to tell going elsewhere from looking around.
#[derive(Debug, Clone, Copy, PartialEq, Eq, Structural)]
pub struct Place {
    pub doc: Option<usize>,
    pub aside: Option<Aside>,
}

/// What the reader is doing beside the document: composing, the review
/// list, the diff view, or selecting, in that precedence.
pub open spec fn spec_aside(composing: bool, list_open: bool, diff_view: bool, selecting: bool) -> Option<Aside> {
    if composing {
        Some(Aside::Compose)
    } else if list_open {
        Some(Aside::List)
    } else if diff_view {
        Some(Aside::Diff)
    } else if selecting {
        Some(Aside::Selecting)
    } else {
        None
    }
}

impl Place {
    /// The reader's place: the open document and what they are doing
    /// beside it.
    pub fn of(doc: Option<usize>, composing: bool, list_open: bool, diff_view: bool, selecting: bool) -> (place: Place)
        ensures
            place == (Place { doc, aside: spec_aside(composing, list_open, diff_view, selecting) }),
    {
        let aside = if composing {
            Some(Aside::Compose)
        } else if list_open {
            Some(Aside::List)
        } else if diff_view {
            Some(Aside::Diff)
        } else if selecting {
            Some(Aside::Selecting)
        } else {
            None
        };
        Place { doc, aside }
    }
}

/// Moving from `before` to `after` goes elsewhere: another document, or a
/// new thing done beside it.
pub open spec fn spec_left(before: Place, after: Place) -> bool {
    after.doc != before.doc || (after.aside is Some && after.aside != before.aside)
}

/// Whether moving from `before` to `after` goes elsewhere rather than
/// looking around.
pub fn left(before: Place, after: Place) -> (elsewhere: bool)
    ensures
        elsewhere == spec_left(before, after),
{
    after.doc != before.doc || (after.aside.is_some() && after.aside != before.aside)
}

/// Looking around is not leaving: staying in the same document, doing
/// the same thing or nothing beside it, never switches auto-jump off.
pub proof fn lemma_looking_around_is_not_leaving(before: Place, after: Place)
    requires
        after.doc == before.doc,
        after.aside is None || after.aside == before.aside,
    ensures
        !spec_left(before, after),
{
}

/// What auto-jump reads of the open document's view.
#[derive(Debug, Clone, Copy, PartialEq, Eq, Structural)]
pub struct ViewState {
    /// Something is selected.
    pub selecting: bool,
    /// The view is in its normal mode.
    pub normal: bool,
    /// The diff view is on.
    pub diff_view: bool,
    /// How long the reader has left the view alone.
    pub idle_nanos: u128,
}

/// Auto-jump may move now: no popup or review list, and the open view, if
/// any, has nothing selected, is in normal mode without the diff view,
/// and has been idle for the recent-activity span.
pub open spec fn spec_auto_jump_allowed(popup_open: bool, list_open: bool, view: Option<ViewState>) -> bool {
    if popup_open || list_open {
        false
    } else {
        match view {
            None => true,
            Some(v) => !v.selecting && v.normal && !v.diff_view && v.idle_nanos >= RECENT_ACTIVITY_NANOS,
        }
    }
}

/// Whether auto-jump may move now.
pub fn auto_jump_allowed(popup_open: bool, list_open: bool, view: Option<ViewState>) -> (allowed: bool)
    ensures
        allowed == spec_auto_jump_allowed(popup_open, list_open, view),
{
    if popup_open || list_open {
        return false;
    }
    match view {
        None => true,
        Some(v) => !v.selecting && v.normal && !v.diff_view && v.idle_nanos >= RECENT_ACTIVITY_NANOS,
    }
}

/// `a - b`, or zero when `b` exceeds `a`.
pub open spec fn sat_sub(a: int, b: int) -> int {
    if a > b { a - b } else { 0 }
}

/// How long until the next auto-jump could go: none when auto-jump is
/// off, nothing waits, a popup or the review list is open, or the view is
/// busy; else the longest of the debounce left since the last change, the
/// recent-activity span left since the reader last touched the view, and
/// fifty milliseconds.
pub open spec fn spec_auto_jump_in(
    auto: bool,
    queue_empty: bool,
    popup_open: bool,
    list_open: bool,
    view: Option<ViewState>,
    since_change_nanos: Option<u128>,
    debounce_nanos: u128,
) -> Option<int> {
    if !auto || queue_empty || popup_open || list_open {
        None
    } else if view is Some && (view->0.selecting || !view->0.normal || view->0.diff_view) {
        None
    } else {
        let since: int = match since_change_nanos {
            Some(s) => s as int,
            None => 0,
        };
        let wait = sat_sub(debounce_nanos as int, since);
        let activity = match view {
            Some(v) => sat_sub(RECENT_ACTIVITY_NANOS as int, v.idle_nanos as int),
            None => 0,
        };
        let longer = if wait >= activity { wait } else { activity };
        Some(if longer >= MIN_WAIT_NANOS { longer } else { MIN_WAIT_NANOS as int })
    }
}

/// How long until the next auto-jump could go, `None` when none is
/// pending.
pub fn auto_jump_in(
    auto: bool,
    queue_empty: bool,
    popup_open: bool,
    list_open: bool,
    view: Option<ViewState>,
    since_change_nanos: Option<u128>,
    debounce_nanos: u128,
) -> (wait: Option<u128>)
    ensures
        match spec_auto_jump_in(auto, queue_empty, popup_open, list_open, view, since_change_nanos, debounce_nanos) {
            Some(w) => wait is Some && wait->0 == w,
            None => wait is None,
        },
{
    if !auto || queue_empty {
        return None;
    }
    if popup_open || list_open {
        return None;
    }
    if let Some(v) = view {
        if v.selecting || !v.normal || v.diff_view {
            return None;
        }
    }
    let since: u128 = match since_change_nanos {
        Some(s) => s,
        None => 0,
    };
    let wait = debounce_nanos.saturating_sub(since);
    let activity: u128 = match view {
        Some(v) => RECENT_ACTIVITY_NANOS.saturating_sub(v.idle_nanos),
        None => 0,
    };
    let longer = if wait >= activity { wait } else { activity };
    Some(if longer >= MIN_WAIT_NANOS { longer } else { MIN_WAIT_NANOS })
}


/// Whether a reader event switches auto-jump off: it was on and the
/// reader went elsewhere.
pub fn switches_off(auto: bool, before: Place, after: Place) -> (off: bool)
    ensures
        off == (auto && spec_left(before, after)),
{
    auto && left(before, after)
}

/// Where the change auto-jump would take next stands for the reader.
#[derive(Debug, Clone, Copy, PartialEq, Eq, Structural)]
pub struct TargetSeen {
    /// The change is in the file the reader has open.
    pub in_open_file: bool,
    /// Its line is on screen.
    pub on_screen: bool,
}

/// What auto-jump does on a tick.
#[derive(Debug, Clone, Copy, PartialEq, Eq, Structural)]
pub enum TickStep {
    /// Nothing yet.
    Wait,
    /// The reader already sees the change: it leaves the queue, the view
    /// stays.
    Settle,
    /// The view jumps to the change.
    Jump,
}

/// What auto-jump does on a tick: nothing unless it is on, the queue has
/// been quiet for the debounce since the last change, the guards allow a
/// move, and a change waits; a change already on screen in the open file
/// settles; any other is jumped to.
pub open spec fn spec_auto_jump_step(
    auto: bool,
    since_change_nanos: Option<u128>,
    debounce_nanos: u128,
    allowed: bool,
    newest: Option<TargetSeen>,
) -> TickStep {
    let quiet = since_change_nanos matches Some(s) && s >= debounce_nanos;
    if !(auto && quiet && allowed) {
        TickStep::Wait
    } else {
        match newest {
            None => TickStep::Wait,
            Some(t) => if t.in_open_file && t.on_screen { TickStep::Settle } else { TickStep::Jump },
        }
    }
}

/// What auto-jump does on a tick.
pub fn auto_jump_step(
    auto: bool,
    since_change_nanos: Option<u128>,
    debounce_nanos: u128,
    allowed: bool,
    newest: Option<TargetSeen>,
) -> (step: TickStep)
    ensures
        step == spec_auto_jump_step(auto, since_change_nanos, debounce_nanos, allowed, newest),
{
    let quiet = match since_change_nanos {
        Some(s) => s >= debounce_nanos,
        None => false,
    };
    if !(auto && quiet && allowed) {
        return TickStep::Wait;
    }
    match newest {
        None => TickStep::Wait,
        Some(t) => if t.in_open_file && t.on_screen { TickStep::Settle } else { TickStep::Jump },
    }
}

} // verus!

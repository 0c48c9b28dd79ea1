//! Transient notices: the toasts that report a change on disk, at most a
//! few at once and each for the same while, and the one status-line
//! message, which may expire. Moments are milliseconds on a clock the
//! caller keeps.

use vstd::prelude::*;

use crate::text::{decimal, push_decimal};

verus! {

/// Toasts visible at once.
pub const MAX_TOASTS: usize = 3;

/// How long a startup warning stays: long enough to read, short of
/// becoming steady status.
pub const STARTUP_WARNING_MILLIS: u64 = 8000;

/// What a toast reports.
pub enum ToastKind {
    Plain,
    /// A file changed on disk, with the lines it gained and lost.
    FileEdit { path: String, added: usize, removed: usize },
}

/// What a toast reports, as the contracts see it.
pub enum ToastKindView {
    Plain,
    FileEdit { path: Seq<char>, added: usize, removed: usize },
}

impl View for ToastKind {
    type V = ToastKindView;

    open spec fn view(&self) -> ToastKindView {
        match self {
            ToastKind::Plain => ToastKindView::Plain,
            ToastKind::FileEdit { path, added, removed } => ToastKindView::FileEdit {
                path: path@,
                added: *added,
                removed: *removed,
            },
        }
    }
}

/// A one-line notice about a change, shown until the moment `until`.
pub struct Toast {
    text: String,
    kind: ToastKind,
    until: u64,
}

/// A toast as the contracts see it.
pub struct ToastView {
    pub text: Seq<char>,
    pub kind: ToastKindView,
    pub until: u64,
}

impl View for Toast {
    type V = ToastView;

    closed spec fn view(&self) -> ToastView {
        ToastView { text: self.text@, kind: self.kind@, until: self.until }
    }
}

impl Toast {
    /// The toast's line.
    pub fn text(&self) -> (text: &str)
        ensures
            text@ == self@.text,
    {
        self.text.as_str()
    }

    /// What the toast reports.
    pub fn kind(&self) -> (kind: &ToastKind)
        ensures
            kind@ == self@.kind,
    {
        &self.kind
    }

    /// The moment the toast goes.
    pub fn until(&self) -> (until: u64)
        ensures
            until == self@.until,
    {
        self.until
    }
}

/// How a status-line message draws.
#[derive(Debug, Clone, Copy, PartialEq, Eq, Structural)]
pub enum NoticeTone {
    Info,
    Warning,
    Error,
}

/// The status-line message: its text, its tone, and the moment it goes,
/// if it goes by itself.
pub struct Notice {
    text: String,
    tone: NoticeTone,
    until: Option<u64>,
}

/// A message as the contracts see it.
pub struct NoticeView {
    pub text: Seq<char>,
    pub tone: NoticeTone,
    pub until: Option<u64>,
}

impl View for Notice {
    type V = NoticeView;

    closed spec fn view(&self) -> NoticeView {
        NoticeView { text: self.text@, tone: self.tone, until: self.until }
    }
}

impl Notice {
    /// The message's line.
    pub fn text(&self) -> (text: &str)
        ensures
            text@ == self@.text,
    {
        self.text.as_str()
    }

    /// How the message draws.
    pub fn tone(&self) -> (tone: NoticeTone)
        ensures
            tone == self@.tone,
    {
        self.tone
    }

    /// The moment the message goes by itself, if it does.
    pub fn until(&self) -> (until: Option<u64>)
        ensures
            until == self@.until,
    {
        self.until
    }
}

/// The live toasts, oldest first, how long each lives, and the
/// status-line message.
pub struct Notices {
    toasts: Vec<Toast>,
    toast_duration: u64,
    message: Option<Notice>,
}

/// The notices as the contracts see them.
pub struct NoticesView {
    pub toasts: Seq<ToastView>,
    pub toast_duration: u64,
    pub message: Option<NoticeView>,
}

/// Toasts by their views.
pub open spec fn toasts_view(toasts: Seq<Toast>) -> Seq<ToastView> {
    toasts.map_values(|t: Toast| t@)
}

/// An optional message by its view.
pub open spec fn opt_notice_view(message: Option<Notice>) -> Option<NoticeView> {
    match message {
        Some(n) => Some(n@),
        None => None,
    }
}

impl View for Notices {
    type V = NoticesView;

    closed spec fn view(&self) -> NoticesView {
        NoticesView {
            toasts: toasts_view(self.toasts@),
            toast_duration: self.toast_duration,
            message: opt_notice_view(self.message),
        }
    }
}

/// The notices after raising toast `t`: nothing when toasts live for no
/// time; else `t` comes last and, past the cap, the oldest goes.
pub open spec fn spec_raised(n: NoticesView, t: ToastView) -> NoticesView {
    if n.toast_duration == 0 {
        n
    } else {
        let all = n.toasts.push(t);
        NoticesView { toasts: if all.len() > MAX_TOASTS { all.drop_first() } else { all }, ..n }
    }
}

/// The line of a file-edit toast: the path, then the lines gained and
/// lost, each only when there are some.
pub open spec fn file_edit_text(path: Seq<char>, added: nat, removed: nat) -> Seq<char> {
    if added == 0 && removed == 0 {
        path
    } else if added == 0 {
        path + "  -"@ + decimal(removed)
    } else if removed == 0 {
        path + "  +"@ + decimal(added)
    } else {
        path + "  +"@ + decimal(added) + "  -"@ + decimal(removed)
    }
}

/// The toasts still shown at moment `now`: those that go after it, in
/// order.
pub open spec fn alive(toasts: Seq<ToastView>, now: u64) -> Seq<ToastView>
    decreases toasts.len(),
{
    if toasts.len() == 0 {
        Seq::empty()
    } else {
        let rest = alive(toasts.drop_last(), now);
        if toasts.last().until > now { rest.push(toasts.last()) } else { rest }
    }
}

/// The message still shown at moment `now`: one whose moment has come
/// goes.
pub open spec fn message_at(message: Option<NoticeView>, now: u64) -> Option<NoticeView> {
    match message {
        Some(n) => match n.until {
            Some(until) => if until <= now { None } else { message },
            None => message,
        },
        None => None,
    }
}

/// The time from `now` to `until`, none once it has come.
pub open spec fn remaining(until: u64, now: u64) -> u64 {
    if until > now { (until - now) as u64 } else { 0 }
}

/// The sooner of two optional waits.
pub open spec fn sooner(a: Option<u64>, b: Option<u64>) -> Option<u64> {
    match (a, b) {
        (Some(x), Some(y)) => Some(if x <= y { x } else { y }),
        (Some(x), None) => Some(x),
        (None, _) => b,
    }
}

/// How long from `now` until a tick has something to do: the oldest
/// toast's going or the message's, whichever is sooner; `None` when
/// nothing is pending.
pub open spec fn spec_tick_in(n: NoticesView, now: u64) -> Option<u64> {
    let toast = if n.toasts.len() > 0 { Some(remaining(n.toasts[0].until, now)) } else { None };
    let message = match n.message {
        Some(m) => match m.until {
            Some(until) => Some(remaining(until, now)),
            None => None,
        },
        None => None,
    };
    sooner(toast, message)
}

/// A tick at moment `now` takes away exactly the toasts whose moment has
/// come: every toast it keeps goes later, and every toast that goes later
/// is kept.
pub proof fn lemma_tick_keeps_exactly_the_live(toasts: Seq<ToastView>, now: u64)
    ensures
        forall|i: int| 0 <= i < alive(toasts, now).len() ==> #[trigger] alive(toasts, now)[i].until > now,
        forall|j: int| 0 <= j < toasts.len() && #[trigger] toasts[j].until > now ==> alive(toasts, now).contains(toasts[j]),
        alive(toasts, now).len() <= toasts.len(),
    decreases toasts.len(),
{
    if toasts.len() > 0 {
        let rest = toasts.drop_last();
        lemma_tick_keeps_exactly_the_live(rest, now);
        assert forall|j: int| 0 <= j < toasts.len() && #[trigger] toasts[j].until > now implies alive(toasts, now).contains(toasts[j]) by {
            if j < toasts.len() - 1 {
                assert(rest[j] == toasts[j]);
                let k = choose|k: int| 0 <= k < alive(rest, now).len() && alive(rest, now)[k] == rest[j];
                assert(alive(toasts, now)[k] == toasts[j]);
            } else {
                assert(alive(toasts, now).last() == toasts[j]);
            }
        }
    }
}

impl Notices {
    /// No toasts and no message; each toast raised lives `toast_duration`.
    pub fn new(toast_duration: u64) -> (n: Notices)
        ensures
            n@ == (NoticesView { toasts: Seq::empty(), toast_duration, message: None }),
    {
        let n = Notices { toasts: Vec::new(), toast_duration, message: None };
        assert(n@.toasts =~= Seq::<ToastView>::empty());
        n
    }

    /// The live toasts, oldest first.
    pub fn toasts(&self) -> (toasts: &[Toast])
        ensures
            toasts_view(toasts@) == self@.toasts,
    {
        self.toasts.as_slice()
    }

    /// The status-line message, if any.
    pub fn message(&self) -> (message: Option<&Notice>)
        ensures
            match message {
                Some(m) => self@.message == Some(m@),
                None => self@.message is None,
            },
    {
        match &self.message {
            Some(m) => Some(m),
            None => None,
        }
    }

    /// Raises a toast with `kind` and line `text` at moment `now`, dropping
    /// the oldest past the cap.
    fn raise(&mut self, text: String, kind: ToastKind, now: u64)
        requires
            now + old(self)@.toast_duration <= u64::MAX,
            old(self)@.toasts.len() <= MAX_TOASTS,
        ensures
            final(self)@ == spec_raised(
                old(self)@,
                ToastView { text: text@, kind: kind@, until: (now + old(self)@.toast_duration) as u64 },
            ),
            final(self)@.toasts.len() <= MAX_TOASTS,
    {
        if self.toast_duration == 0 {
            return;
        }
        let ghost before = self@.toasts;
        let toast = Toast { text, kind, until: now + self.toast_duration };
        self.toasts.push(toast);
        assert(self@.toasts =~= before.push(toast@));
        if self.toasts.len() > MAX_TOASTS {
            let ghost all = self@.toasts;
            self.toasts.remove(0);
            assert(self@.toasts =~= all.drop_first());
        }
    }

    /// Raises a plain toast with line `text` at moment `now`.
    pub fn push_toast(&mut self, text: String, now: u64)
        requires
            now + old(self)@.toast_duration <= u64::MAX,
            old(self)@.toasts.len() <= MAX_TOASTS,
        ensures
            final(self)@ == spec_raised(
                old(self)@,
                ToastView { text: text@, kind: ToastKindView::Plain, until: (now + old(self)@.toast_duration) as u64 },
            ),
            final(self)@.toasts.len() <= MAX_TOASTS,
    {
        self.raise(text, ToastKind::Plain, now);
    }

    /// Raises the toast for a file that gained `added` lines and lost
    /// `removed` at moment `now`.
    pub fn push_file_edit_toast(&mut self, path: String, added: usize, removed: usize, now: u64)
        requires
            now + old(self)@.toast_duration <= u64::MAX,
            old(self)@.toasts.len() <= MAX_TOASTS,
        ensures
            final(self)@ == spec_raised(
                old(self)@,
                ToastView {
                    text: file_edit_text(path@, added as nat, removed as nat),
                    kind: ToastKindView::FileEdit { path: path@, added, removed },
                    until: (now + old(self)@.toast_duration) as u64,
                },
            ),
            final(self)@.toasts.len() <= MAX_TOASTS,
    {
        let mut text = path.as_str().to_owned();
        assert(text@ == path@);
        if added == 0 && removed == 0 {
        } else if added == 0 {
            text.append("  -");
            push_decimal(&mut text, removed);
        } else if removed == 0 {
            text.append("  +");
            push_decimal(&mut text, added);
        } else {
            text.append("  +");
            push_decimal(&mut text, added);
            text.append("  -");
            push_decimal(&mut text, removed);
        }
        proof {
            reveal_strlit("  -");
            reveal_strlit("  +");
        }
        self.raise(text, ToastKind::FileEdit { path, added, removed }, now);
    }

    /// Shows `text` as information until something replaces it.
    pub fn notice(&mut self, text: String)
        ensures
            final(self)@ == (NoticesView {
                message: Some(NoticeView { text: text@, tone: NoticeTone::Info, until: None }),
                ..old(self)@
            }),
    {
        self.message = Some(Notice { text, tone: NoticeTone::Info, until: None });
    }

    /// Shows `text` as a warning that goes by itself a while after `now`.
    pub fn startup_warning(&mut self, text: String, now: u64)
        requires
            now + STARTUP_WARNING_MILLIS <= u64::MAX,
        ensures
            final(self)@ == (NoticesView {
                message: Some(NoticeView {
                    text: text@,
                    tone: NoticeTone::Warning,
                    until: Some((now + STARTUP_WARNING_MILLIS) as u64),
                }),
                ..old(self)@
            }),
    {
        self.message = Some(Notice { text, tone: NoticeTone::Warning, until: Some(now + STARTUP_WARNING_MILLIS) });
    }

    /// Shows `text` as an error until something replaces it.
    pub fn error(&mut self, text: String)
        ensures
            final(self)@ == (NoticesView {
                message: Some(NoticeView { text: text@, tone: NoticeTone::Error, until: None }),
                ..old(self)@
            }),
    {
        self.message = Some(Notice { text, tone: NoticeTone::Error, until: None });
    }

    /// Removes the status-line message.
    pub fn clear_message(&mut self)
        ensures
            final(self)@ == (NoticesView { message: None, ..old(self)@ }),
    {
        self.message = None;
    }

    /// Expires, at moment `now`, the toasts whose moment has come, and the
    /// message if its has.
    pub fn tick(&mut self, now: u64)
        requires
            old(self)@.toasts.len() <= MAX_TOASTS,
        ensures
            final(self)@ == (NoticesView {
                toasts: alive(old(self)@.toasts, now),
                message: message_at(old(self)@.message, now),
                ..old(self)@
            }),
            final(self)@.toasts.len() <= MAX_TOASTS,
    {
        let ghost all = self@.toasts;
        let mut pending: Vec<Toast> = Vec::new();
        std::mem::swap(&mut pending, &mut self.toasts);
        let mut kept: Vec<Toast> = Vec::new();
        let ghost mut done: int = 0;
        assert(toasts_view(kept@) =~= alive(all.take(0), now));
        while pending.len() > 0
            invariant
                0 <= done <= all.len(),
                toasts_view(pending@) =~= all.skip(done),
                toasts_view(kept@) == alive(all.take(done), now),
                kept@.len() <= done,
                all.len() <= MAX_TOASTS,
            decreases pending.len(),
        {
            let ghost rest = pending@;
            assert(toasts_view(rest).len() == rest.len());
            assert(done < all.len());
            assert(toasts_view(rest)[0] == rest[0]@);
            assert(all.skip(done)[0] == all[done]);
            let toast = pending.remove(0);
            assert(toast@ == all[done]);
            assert(pending@ =~= rest.drop_first());
            assert(toasts_view(pending@) =~= all.skip(done + 1)) by {
                assert forall|i: int| 0 <= i < pending@.len() implies toasts_view(pending@)[i] == all.skip(done + 1)[i] by {
                    assert(toasts_view(rest)[i + 1] == rest[i + 1]@);
                    assert(all.skip(done)[i + 1] == all[done + 1 + i]);
                }
            }
            assert(all.take(done + 1).drop_last() =~= all.take(done));
            if toast.until > now {
                let ghost before = kept@;
                kept.push(toast);
                assert(toasts_view(kept@) =~= toasts_view(before).push(toast@));
            }
            proof {
                done = done + 1;
            }
        }
        assert(all.take(done) =~= all);
        self.toasts = kept;
        let expired = match &self.message {
            Some(m) => match m.until {
                Some(until) => until <= now,
                None => false,
            },
            None => false,
        };
        if expired {
            self.message = None;
        }
    }

    /// How long from `now` until [`Notices::tick`] has something to do,
    /// `None` when nothing is pending.
    pub fn tick_in(&self, now: u64) -> (wait: Option<u64>)
        ensures
            wait == spec_tick_in(self@, now),
    {
        let toast = if self.toasts.len() > 0 {
            Some(self.toasts[0].until.saturating_sub(now))
        } else {
            None
        };
        let message = match &self.message {
            Some(m) => match m.until {
                Some(until) => Some(until.saturating_sub(now)),
                None => None,
            },
            None => None,
        };
        match (toast, message) {
            (Some(x), Some(y)) => Some(if x <= y { x } else { y }),
            (Some(x), None) => Some(x),
            (None, _) => message,
        }
    }
}


/// The toast that counts the files a "mark all seen" snapshotted.
pub open spec fn spec_seen_summary(stored: nat) -> Seq<char> {
    if stored == 0 {
        "seen: nothing new"@
    } else if stored == 1 {
        "seen: 1 file"@
    } else {
        "seen: "@ + decimal(stored) + " files"@
    }
}

/// The toast that counts the files a "mark all seen" snapshotted.
pub fn seen_summary(stored: usize) -> (text: String)
    ensures
        text@ == spec_seen_summary(stored as nat),
{
    if stored == 0 {
        "seen: nothing new".to_owned()
    } else if stored == 1 {
        "seen: 1 file".to_owned()
    } else {
        let mut text = "seen: ".to_owned();
        push_decimal(&mut text, stored);
        text.append(" files");
        text
    }
}

/// The startup warning about state directories that others in the group
/// can write: the count, "ancestor" in the plural past one, and where to
/// read more.
pub open spec fn spec_shared_state_warning(count: nat) -> Seq<char> {
    decimal(count) + " group-writable state ancestor"@ + (if count == 1 { ""@ } else { "s"@ })
        + "; run :doctor for details"@
}

/// The startup warning about group-writable state directories.
pub fn shared_state_warning(count: usize) -> (text: String)
    ensures
        text@ == spec_shared_state_warning(count as nat),
{
    let mut text = String::new();
    push_decimal(&mut text, count);
    text.append(" group-writable state ancestor");
    if count != 1 {
        text.append("s");
    }
    text.append("; run :doctor for details");
    proof {
        reveal_strlit("");
    }
    text
}

} // verus!

//! The menus a right-click or a pane title opens: what the text, a
//! thread, a file row or a tree row offers, and the pane settings. Each
//! is read from a few facts about the viewer; every entry shows the key
//! the binding table gives its action there, and an action the table
//! does not bind there is left out.

use vstd::prelude::*;

use crate::bindings::{binding_table, spec_first_keys, Action, Where};
use crate::menu::{added_entry, EntryView, Menu, MenuView};
use crate::paths::{file_name, path_file_name};
use crate::text::{decimal, push_decimal};

verus! {

/// A row a menu asks for: an entry showing `shown`'s key and running
/// `run`, or a rule between groups.
pub enum Want {
    Entry { shown: Action, run: Action, label: &'static str, checked: Option<bool>, enabled: bool },
    Rule,
}

/// A wanted row as the contracts see it.
pub enum WantView {
    Entry { shown: Action, run: Action, label: Seq<char>, checked: Option<bool>, enabled: bool },
    Rule,
}

impl View for Want {
    type V = WantView;

    open spec fn view(&self) -> WantView {
        match self {
            Want::Entry { shown, run, label, checked, enabled } => WantView::Entry {
                shown: *shown,
                run: *run,
                label: label@,
                checked: *checked,
                enabled: *enabled,
            },
            Want::Rule => WantView::Rule,
        }
    }
}

/// Wanted rows by their views.
pub open spec fn wants_view(wants: Seq<Want>) -> Seq<WantView> {
    wants.map_values(|w: Want| w@)
}

/// A plain entry that can run.
pub open spec fn entry(shown: Action, run: Action, label: Seq<char>) -> WantView {
    WantView::Entry { shown, run, label, checked: None, enabled: true }
}

/// A toggle entry, checked when `on`.
pub open spec fn toggle(action: Action, label: Seq<char>, on: bool) -> WantView {
    WantView::Entry { shown: action, run: action, label, checked: Some(on), enabled: true }
}

/// The row a rule draws as.
pub open spec fn rule_entry() -> EntryView {
    EntryView {
        key: Seq::empty(),
        keys: Seq::empty(),
        label: Seq::empty(),
        action: None,
        checked: None,
        enabled: false,
        active: false,
    }
}

/// The entries a menu on `place` holds for the wanted rows: each rule,
/// and each wanted entry whose action the table binds there, in order.
pub open spec fn built(place: Where, wants: Seq<WantView>) -> Seq<EntryView>
    decreases wants.len(),
{
    if wants.len() == 0 {
        Seq::empty()
    } else {
        let rest = built(place, wants.drop_last());
        match wants.last() {
            WantView::Rule => rest.push(rule_entry()),
            WantView::Entry { shown, run, label, checked, enabled } => match spec_first_keys(binding_table(), place, shown) {
                Some(keys) => rest.push(EntryView { enabled, ..added_entry(keys, run, label, checked, false) }),
                None => rest,
            },
        }
    }
}

/// Adds the wanted rows to an empty menu.
fn fill(menu: &mut Menu, wants: &Vec<Want>)
    requires
        old(menu)@.entries.len() == 0,
    ensures
        final(menu)@ == (MenuView { entries: built(old(menu)@.place, wants_view(wants@)), ..old(menu)@ }),
{
    let ghost place = menu@.place;
    assert(wants_view(wants@).take(0) =~= Seq::<WantView>::empty());
    assert(menu@.entries =~= built(place, wants_view(wants@).take(0)));
    let mut i: usize = 0;
    while i < wants.len()
        invariant
            i <= wants.len(),
            menu@ == (MenuView { entries: built(place, wants_view(wants@).take(i as int)), ..old(menu)@ }),
            place == old(menu)@.place,
        decreases wants.len() - i,
    {
        let ghost w = wants_view(wants@);
        assert(w.take(i + 1).drop_last() =~= w.take(i as int));
        assert(w.take(i + 1).last() == wants@[i as int]@);
        match &wants[i] {
            Want::Rule => menu.separator(),
            Want::Entry { shown, run, label, checked, enabled } => {
                menu.push_entry_enabled(*shown, *run, label, *checked, *enabled);
            },
        }
        i = i + 1;
    }
    assert(wants_view(wants@).take(wants@.len() as int) =~= wants_view(wants@));
}

/// A plain entry that can run.
fn want(shown: Action, run: Action, label: &'static str) -> (w: Want)
    ensures
        w@ == entry(shown, run, label@),
{
    Want::Entry { shown, run, label, checked: None, enabled: true }
}

/// A toggle entry, checked when `on`.
fn want_toggle(action: Action, label: &'static str, on: bool) -> (w: Want)
    ensures
        w@ == toggle(action, label@, on),
{
    Want::Entry { shown: action, run: action, label, checked: Some(on), enabled: true }
}

/// What the text's menu reads of the viewer.
#[derive(Debug, Clone, Copy)]
pub struct ViewFacts {
    /// Select mode with a selection.
    pub selecting: bool,
    /// The source line under the cursor, when it is on one.
    pub cursor_line: Option<usize>,
    /// A thread is anchored at the cursor.
    pub on_thread: bool,
    /// The cursor is on that thread's own row.
    pub on_thread_row: bool,
    /// The cursor is on an expanded thread's message.
    pub on_expanded: bool,
    /// That thread is resolved.
    pub resolved: bool,
    /// That thread resolves itself.
    pub auto_resolve: bool,
    /// The message under the cursor can be edited.
    pub message_editable: bool,
    /// A link or file reference is under the cursor.
    pub reference_here: bool,
}

/// The rows that act on a thread: auto-resolve only while it is open,
/// archiving only once it is resolved.
pub open spec fn resolve_wants(resolved: bool, auto_resolve: bool) -> Seq<WantView> {
    (if !resolved {
        seq![entry(
            Action::ToggleAutoResolve,
            Action::ToggleAutoResolve,
            if auto_resolve { "disable auto-resolve"@ } else { "enable auto-resolve"@ },
        )]
    } else {
        Seq::empty()
    }) + seq![entry(
        Action::ToggleResolved,
        Action::ToggleResolved,
        if resolved { "reopen thread"@ } else { "resolve thread"@ },
    )] + (if resolved {
        seq![entry(Action::ArchiveThread, Action::ArchiveThread, "archive thread"@)]
    } else {
        Seq::empty()
    })
}

/// The text menu's title: the selection, the thread, or the line.
pub open spec fn view_title(f: ViewFacts) -> Seq<char> {
    if f.selecting {
        "selection"@
    } else if f.on_thread {
        "thread"@
    } else {
        match f.cursor_line {
            Some(line) => "line "@ + decimal(line as nat),
            None => "line"@,
        }
    }
}

/// The rows of the thread at the cursor: folding, replying (on its own
/// row, by commenting), the resolve rows, editing, and deleting.
pub open spec fn cursor_thread_wants(f: ViewFacts) -> Seq<WantView> {
    seq![
        entry(Action::Fold, Action::Fold, if f.on_expanded { "fold thread"@ } else { "expand thread"@ }),
        if f.on_thread_row {
            entry(Action::Comment, Action::Comment, "reply"@)
        } else {
            entry(Action::Reply, Action::Reply, "reply"@)
        },
    ] + resolve_wants(f.resolved, f.auto_resolve) + (if f.message_editable {
        seq![entry(Action::EditMessage, Action::EditMessage, "edit message"@)]
    } else {
        Seq::empty()
    }) + seq![entry(Action::Delete, Action::DeleteThread, "delete thread"@)]
}

/// The text menu's rows: on a selection, what acts on it; else the
/// thread's rows when one is at the cursor, the link, then the line's.
pub open spec fn view_wants(f: ViewFacts) -> Seq<WantView> {
    if f.selecting {
        seq![
            entry(Action::Comment, Action::Comment, "comment on selection"@),
            entry(Action::NewThread, Action::NewThread, "new thread on selection"@),
            entry(Action::Yank, Action::Yank, "copy selection"@),
            entry(Action::Escape, Action::Escape, "clear selection"@),
        ]
    } else {
        (if f.on_thread { cursor_thread_wants(f) } else { Seq::empty() }) + (if f.reference_here {
            seq![entry(Action::GotoFile, Action::GotoFile, "open linked file/URL"@)]
        } else {
            Seq::empty()
        }) + seq![
            entry(Action::Comment, Action::Comment, "comment on line"@),
            entry(Action::ExtendLine, Action::ExtendLine, "select line"@),
            entry(Action::Yank, Action::Yank, "copy line"@),
        ]
    }
}

/// Adds the thread-acting rows.
fn push_resolve_wants(wants: &mut Vec<Want>, resolved: bool, auto_resolve: bool)
    ensures
        wants_view(final(wants)@) == wants_view(old(wants)@) + resolve_wants(resolved, auto_resolve),
{
    let ghost before = wants_view(wants@);
    if !resolved {
        wants.push(want(
            Action::ToggleAutoResolve,
            Action::ToggleAutoResolve,
            if auto_resolve { "disable auto-resolve" } else { "enable auto-resolve" },
        ));
    }
    wants.push(want(
        Action::ToggleResolved,
        Action::ToggleResolved,
        if resolved { "reopen thread" } else { "resolve thread" },
    ));
    if resolved {
        wants.push(want(Action::ArchiveThread, Action::ArchiveThread, "archive thread"));
    }
    assert(wants_view(wants@) =~= before + resolve_wants(resolved, auto_resolve));
}

/// The menu a right-click in the text opens at the cell.
pub fn view_menu(f: ViewFacts, column: usize, row: usize) -> (menu: Menu)
    ensures
        menu@ == (MenuView {
            title: view_title(f),
            place: Where::View,
            entries: built(Where::View, view_wants(f)),
            column,
            row,
            right_aligned: false,
        }),
{
    let mut wants: Vec<Want> = Vec::new();
    if f.selecting {
        wants.push(want(Action::Comment, Action::Comment, "comment on selection"));
        wants.push(want(Action::NewThread, Action::NewThread, "new thread on selection"));
        wants.push(want(Action::Yank, Action::Yank, "copy selection"));
        wants.push(want(Action::Escape, Action::Escape, "clear selection"));
        assert(wants_view(wants@) =~= view_wants(f));
        let mut menu = Menu::new("selection", Where::View, column, row);
        fill(&mut menu, &wants);
        return menu;
    }
    if f.on_thread {
        wants.push(want(Action::Fold, Action::Fold, if f.on_expanded { "fold thread" } else { "expand thread" }));
        if f.on_thread_row {
            wants.push(want(Action::Comment, Action::Comment, "reply"));
        } else {
            wants.push(want(Action::Reply, Action::Reply, "reply"));
        }
        let ghost opening = wants_view(wants@);
        push_resolve_wants(&mut wants, f.resolved, f.auto_resolve);
        let ghost resolving = wants_view(wants@);
        if f.message_editable {
            wants.push(want(Action::EditMessage, Action::EditMessage, "edit message"));
        }
        let ghost editing = wants_view(wants@);
        wants.push(want(Action::Delete, Action::DeleteThread, "delete thread"));
        proof {
            let fold = entry(Action::Fold, Action::Fold, if f.on_expanded { "fold thread"@ } else { "expand thread"@ });
            let reply = if f.on_thread_row {
                entry(Action::Comment, Action::Comment, "reply"@)
            } else {
                entry(Action::Reply, Action::Reply, "reply"@)
            };
            let edit: Seq<WantView> = if f.message_editable {
                seq![entry(Action::EditMessage, Action::EditMessage, "edit message"@)]
            } else {
                Seq::empty()
            };
            assert(opening =~= seq![fold, reply]);
            assert(resolving == seq![fold, reply] + resolve_wants(f.resolved, f.auto_resolve));
            assert(editing =~= resolving + edit);
            assert(wants_view(wants@) =~= cursor_thread_wants(f));
        }
    }
    let ghost thread_part = wants_view(wants@);
    assert(thread_part =~= if f.on_thread { cursor_thread_wants(f) } else { Seq::empty() });
    if f.reference_here {
        wants.push(want(Action::GotoFile, Action::GotoFile, "open linked file/URL"));
    }
    let ghost linked = wants_view(wants@);
    assert(linked =~= thread_part + if f.reference_here {
        seq![entry(Action::GotoFile, Action::GotoFile, "open linked file/URL"@)]
    } else {
        Seq::empty()
    });
    wants.push(want(Action::Comment, Action::Comment, "comment on line"));
    wants.push(want(Action::ExtendLine, Action::ExtendLine, "select line"));
    wants.push(want(Action::Yank, Action::Yank, "copy line"));
    assert(wants_view(wants@) =~= view_wants(f));
    let mut title = String::new();
    if f.on_thread {
        title.append("thread");
    } else {
        title.append("line");
        match f.cursor_line {
            Some(line) => {
                title.append(" ");
                push_decimal(&mut title, line);
            },
            None => {},
        }
    }
    proof {
        reveal_strlit("line");
        reveal_strlit(" ");
        reveal_strlit("line ");
        reveal_strlit("thread");
        assert(Seq::<char>::empty() + "thread"@ =~= "thread"@);
        assert(Seq::<char>::empty() + "line"@ =~= "line"@);
        assert(Seq::<char>::empty() + "line"@ + " "@ =~= "line "@);
    }
    let mut menu = Menu::new(title.as_str(), Where::View, column, row);
    fill(&mut menu, &wants);
    menu
}

/// What a thread row's menu reads of the viewer.
#[derive(Debug, Clone, Copy)]
pub struct ThreadFacts {
    /// The list shows the thread folded.
    pub collapsed: bool,
    pub archived: bool,
    pub resolved: bool,
    /// The thread resolves itself.
    pub auto_resolve: bool,
    /// The message under the cursor can be edited.
    pub message_editable: bool,
    /// The threads pane lists the whole workspace, not one file.
    pub workspace_scope: bool,
}

/// Whether a thread row's menu on `place` folds its file: only in the
/// threads pane, listing the workspace.
pub open spec fn folds_files(place: Where, workspace_scope: bool) -> bool {
    place == Where::ThreadsPane && workspace_scope
}

/// The rows for a thread that is not archived on `place`: replying,
/// the resolve rows, editing (the message in the review list, else the
/// newest own one), deleting, and folding the file.
pub open spec fn live_thread_wants(place: Where, f: ThreadFacts) -> Seq<WantView> {
    seq![entry(Action::Reply, Action::Reply, "reply"@)] + resolve_wants(f.resolved, f.auto_resolve) + (if place == Where::Review {
        if f.message_editable {
            seq![entry(Action::EditMessage, Action::EditMessage, "edit message"@)]
        } else {
            Seq::empty()
        }
    } else {
        seq![entry(Action::EditNewestOwn, Action::EditNewestOwn, "edit your newest message"@)]
    }) + seq![entry(Action::Delete, Action::DeleteThread, "delete thread"@)] + (if folds_files(place, f.workspace_scope) {
        seq![entry(Action::Fold, Action::Fold, "fold file"@)]
    } else {
        Seq::empty()
    })
}

/// A thread row's rows on `place`: folding in the review list, going to
/// it, then an archived thread's restore alone, or the live thread's rows.
pub open spec fn thread_wants(place: Where, f: ThreadFacts) -> Seq<WantView> {
    (if place == Where::Review {
        seq![entry(Action::Fold, Action::Fold, if f.collapsed { "expand thread"@ } else { "collapse thread"@ })]
    } else {
        Seq::empty()
    }) + seq![entry(Action::Confirm, Action::Confirm, "go to"@)] + if f.archived {
        seq![entry(Action::RestoreThread, Action::RestoreThread, "restore thread"@)]
    } else {
        live_thread_wants(place, f)
    }
}

/// The menu for the thread under the thread cursor on `place`.
pub fn thread_menu(place: Where, f: ThreadFacts, column: usize, row: usize) -> (menu: Menu)
    ensures
        menu@ == (MenuView {
            title: "thread"@,
            place,
            entries: built(place, thread_wants(place, f)),
            column,
            row,
            right_aligned: false,
        }),
{
    let mut wants: Vec<Want> = Vec::new();
    let review = place == Where::Review;
    if review {
        wants.push(want(Action::Fold, Action::Fold, if f.collapsed { "expand thread" } else { "collapse thread" }));
    }
    wants.push(want(Action::Confirm, Action::Confirm, "go to"));
    let ghost head = wants_view(wants@);
    assert(head =~= (if place == Where::Review {
        seq![entry(Action::Fold, Action::Fold, if f.collapsed { "expand thread"@ } else { "collapse thread"@ })]
    } else {
        Seq::empty()
    }) + seq![entry(Action::Confirm, Action::Confirm, "go to"@)]);
    if f.archived {
        wants.push(want(Action::RestoreThread, Action::RestoreThread, "restore thread"));
    } else {
        wants.push(want(Action::Reply, Action::Reply, "reply"));
        let ghost replying = wants_view(wants@);
        push_resolve_wants(&mut wants, f.resolved, f.auto_resolve);
        let ghost resolving = wants_view(wants@);
        if review {
            if f.message_editable {
                wants.push(want(Action::EditMessage, Action::EditMessage, "edit message"));
            }
        } else {
            wants.push(want(Action::EditNewestOwn, Action::EditNewestOwn, "edit your newest message"));
        }
        let ghost editing = wants_view(wants@);
        wants.push(want(Action::Delete, Action::DeleteThread, "delete thread"));
        let ghost deleting = wants_view(wants@);
        if place == Where::ThreadsPane && f.workspace_scope {
            wants.push(want(Action::Fold, Action::Fold, "fold file"));
        }
        proof {
            let edit: Seq<WantView> = if place == Where::Review {
                if f.message_editable {
                    seq![entry(Action::EditMessage, Action::EditMessage, "edit message"@)]
                } else {
                    Seq::empty()
                }
            } else {
                seq![entry(Action::EditNewestOwn, Action::EditNewestOwn, "edit your newest message"@)]
            };
            let fold: Seq<WantView> = if folds_files(place, f.workspace_scope) {
                seq![entry(Action::Fold, Action::Fold, "fold file"@)]
            } else {
                Seq::empty()
            };
            let reply = seq![entry(Action::Reply, Action::Reply, "reply"@)];
            assert(replying =~= head + reply);
            assert(resolving == head + reply + resolve_wants(f.resolved, f.auto_resolve));
            assert(editing =~= resolving + edit);
            assert(deleting =~= editing + seq![entry(Action::Delete, Action::DeleteThread, "delete thread"@)]);
            assert(wants_view(wants@) =~= deleting + fold);
            assert(wants_view(wants@) =~= head + live_thread_wants(place, f));
        }
    }
    assert(wants_view(wants@) =~= thread_wants(place, f));
    let mut menu = Menu::new("thread", place, column, row);
    fill(&mut menu, &wants);
    menu
}

/// A file row's title: its final component, else the whole path.
pub open spec fn file_title(path: Seq<char>) -> Seq<char> {
    match path_file_name(path) {
        Some(name) => name,
        None => path,
    }
}

/// A file row's rows on `place`: folding it (shown folded only on the
/// review list and the threads pane), in the pane folding every file,
/// opening it, and in the list showing or hiding resolved threads.
pub open spec fn file_wants(place: Where, collapsed: bool, any_folded: bool, review_resolved: bool) -> Seq<WantView> {
    let folded = (place == Where::Review || place == Where::ThreadsPane) && collapsed;
    seq![entry(Action::Fold, Action::Fold, if folded { "unfold"@ } else { "fold"@ })] + (if place == Where::ThreadsPane {
        seq![entry(Action::FoldAll, Action::FoldAll, if any_folded { "unfold all"@ } else { "fold all"@ })]
    } else {
        Seq::empty()
    }) + seq![entry(Action::Confirm, Action::Confirm, "open file"@)] + (if place == Where::Review {
        seq![entry(Action::ReviewResolved, Action::ReviewResolved, if review_resolved { "hide resolved"@ } else { "show resolved"@ })]
    } else {
        Seq::empty()
    })
}

/// The menu for the file row of `path` on `place`: `collapsed` when the
/// row is folded, `any_folded` when some file row of the pane is.
pub fn file_menu(
    place: Where,
    path: &str,
    collapsed: bool,
    any_folded: bool,
    review_resolved: bool,
    column: usize,
    row: usize,
) -> (menu: Menu)
    ensures
        menu@ == (MenuView {
            title: file_title(path@),
            place,
            entries: built(place, file_wants(place, collapsed, any_folded, review_resolved)),
            column,
            row,
            right_aligned: false,
        }),
{
    let mut wants: Vec<Want> = Vec::new();
    let folded = (place == Where::Review || place == Where::ThreadsPane) && collapsed;
    wants.push(want(Action::Fold, Action::Fold, if folded { "unfold" } else { "fold" }));
    if place == Where::ThreadsPane {
        wants.push(want(Action::FoldAll, Action::FoldAll, if any_folded { "unfold all" } else { "fold all" }));
    }
    wants.push(want(Action::Confirm, Action::Confirm, "open file"));
    if place == Where::Review {
        wants.push(want(Action::ReviewResolved, Action::ReviewResolved, if review_resolved { "hide resolved" } else { "show resolved" }));
    }
    assert(wants_view(wants@) =~= file_wants(place, collapsed, any_folded, review_resolved));
    let name = file_name(path);
    let mut menu = match &name {
        Some(n) => Menu::new(n.as_str(), place, column, row),
        None => Menu::new(path, place, column, row),
    };
    fill(&mut menu, &wants);
    menu
}

/// The row below a header at `row`.
pub open spec fn below(row: usize) -> usize {
    if row < usize::MAX { (row + 1) as usize } else { row }
}

/// The threads pane's settings: the scope and resolved threads.
pub open spec fn threads_settings_wants(file_scope: bool, resolved: bool) -> Seq<WantView> {
    seq![
        toggle(Action::PaneScope, "only current file"@, file_scope),
        toggle(Action::ReviewResolved, "show resolved"@, resolved),
    ]
}

/// The menu the Threads title opens below its header at `row`.
pub fn threads_settings_menu(row: usize, file_scope: bool, resolved: bool) -> (menu: Menu)
    ensures
        menu@ == (MenuView {
            title: "Threads"@,
            place: Where::ThreadsPane,
            entries: built(Where::ThreadsPane, threads_settings_wants(file_scope, resolved)),
            column: 0,
            row: below(row),
            right_aligned: false,
        }),
{
    let mut wants: Vec<Want> = Vec::new();
    wants.push(want_toggle(Action::PaneScope, "only current file", file_scope));
    wants.push(want_toggle(Action::ReviewResolved, "show resolved", resolved));
    assert(wants_view(wants@) =~= threads_settings_wants(file_scope, resolved));
    let mut menu = Menu::below_header("Threads", Where::ThreadsPane, 0, row);
    fill(&mut menu, &wants);
    menu
}

/// The review list's settings: opening the file, then the scope and
/// resolved threads.
pub open spec fn reviews_settings_wants(file_only: bool, resolved: bool) -> Seq<WantView> {
    seq![
        entry(Action::FileView, Action::FileView, "open file"@),
        WantView::Rule,
        toggle(Action::FileOnly, "only current file"@, file_only),
        toggle(Action::ReviewResolved, "show resolved"@, resolved),
    ]
}

/// The menu the Reviews title opens below its header at `row`, from
/// column `left`.
pub fn reviews_settings_menu(left: usize, row: usize, file_only: bool, resolved: bool) -> (menu: Menu)
    ensures
        menu@ == (MenuView {
            title: "Reviews"@,
            place: Where::Review,
            entries: built(Where::Review, reviews_settings_wants(file_only, resolved)),
            column: left,
            row: below(row),
            right_aligned: false,
        }),
{
    let mut wants: Vec<Want> = Vec::new();
    wants.push(want(Action::FileView, Action::FileView, "open file"));
    wants.push(Want::Rule);
    wants.push(want_toggle(Action::FileOnly, "only current file", file_only));
    wants.push(want_toggle(Action::ReviewResolved, "show resolved", resolved));
    assert(wants_view(wants@) =~= reviews_settings_wants(file_only, resolved));
    let mut menu = Menu::below_header("Reviews", Where::Review, left, row);
    fill(&mut menu, &wants);
    menu
}

/// The File title's settings: opening the reviews, then the rendered
/// view (only when the source view can show), inline threads, and
/// resolved ones among them.
pub open spec fn file_settings_wants(rendered: bool, source_view_available: bool, stubs: bool, stubs_resolved: bool) -> Seq<WantView> {
    seq![
        entry(Action::Review, Action::Review, "open reviews"@),
        WantView::Rule,
        WantView::Entry {
            shown: Action::SourceView,
            run: Action::SourceView,
            label: "rendered view"@,
            checked: Some(rendered),
            enabled: source_view_available,
        },
        toggle(Action::StubsToggle, "show inline threads"@, stubs),
        toggle(Action::StubResolvedToggle, "show resolved threads"@, stubs_resolved),
    ]
}

/// The menu the File title opens below its header at `row`, from column
/// `left`; `rendered` when neither the source nor the diff shows.
pub fn file_settings_menu(
    left: usize,
    row: usize,
    rendered: bool,
    source_view_available: bool,
    stubs: bool,
    stubs_resolved: bool,
) -> (menu: Menu)
    ensures
        menu@ == (MenuView {
            title: "File"@,
            place: Where::View,
            entries: built(Where::View, file_settings_wants(rendered, source_view_available, stubs, stubs_resolved)),
            column: left,
            row: below(row),
            right_aligned: false,
        }),
{
    let mut wants: Vec<Want> = Vec::new();
    wants.push(want(Action::Review, Action::Review, "open reviews"));
    wants.push(Want::Rule);
    wants.push(Want::Entry {
        shown: Action::SourceView,
        run: Action::SourceView,
        label: "rendered view",
        checked: Some(rendered),
        enabled: source_view_available,
    });
    wants.push(want_toggle(Action::StubsToggle, "show inline threads", stubs));
    wants.push(want_toggle(Action::StubResolvedToggle, "show resolved threads", stubs_resolved));
    assert(wants_view(wants@) =~= file_settings_wants(rendered, source_view_available, stubs, stubs_resolved));
    let mut menu = Menu::below_header("File", Where::View, left, row);
    fill(&mut menu, &wants);
    menu
}

/// A tree row's rows: a directory folds or unfolds, a file opens or takes
/// a file comment; either copies its path.
pub open spec fn tree_wants(is_dir: bool, expanded: bool) -> Seq<WantView> {
    (if is_dir {
        seq![entry(Action::Confirm, Action::Confirm, if expanded { "collapse"@ } else { "expand"@ })]
    } else {
        seq![
            entry(Action::Confirm, Action::Confirm, "open"@),
            entry(Action::FileComment, Action::FileComment, "file comment"@),
        ]
    }) + seq![
        entry(Action::CopyPath, Action::CopyPath, "copy path"@),
        entry(Action::CopyFullPath, Action::CopyFullPath, "copy full path"@),
    ]
}

/// The menu for the tree row named `name` at the cell.
pub fn tree_menu(name: &str, is_dir: bool, expanded: bool, column: usize, row: usize) -> (menu: Menu)
    ensures
        menu@ == (MenuView {
            title: name@,
            place: Where::Tree,
            entries: built(Where::Tree, tree_wants(is_dir, expanded)),
            column,
            row,
            right_aligned: false,
        }),
{
    let mut wants: Vec<Want> = Vec::new();
    if is_dir {
        wants.push(want(Action::Confirm, Action::Confirm, if expanded { "collapse" } else { "expand" }));
    } else {
        wants.push(want(Action::Confirm, Action::Confirm, "open"));
        wants.push(want(Action::FileComment, Action::FileComment, "file comment"));
    }
    wants.push(want(Action::CopyPath, Action::CopyPath, "copy path"));
    wants.push(want(Action::CopyFullPath, Action::CopyFullPath, "copy full path"));
    assert(wants_view(wants@) =~= tree_wants(is_dir, expanded));
    let mut menu = Menu::new(name, Where::Tree, column, row);
    fill(&mut menu, &wants);
    menu
}

} // verus!

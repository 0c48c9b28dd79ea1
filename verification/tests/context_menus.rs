use fathomable::bindings::{Action, Where};
use fathomable::context_menus::{
    file_menu, file_settings_menu, reviews_settings_menu, thread_menu, threads_settings_menu,
    tree_menu, view_menu, ThreadFacts, ViewFacts,
};
use fathomable::menu::Menu;

fn labels(menu: &Menu) -> Vec<String> {
    menu.entries().iter().map(|e| e.label().to_owned()).collect()
}

fn settings(menu: &Menu) -> Vec<(String, Option<bool>)> {
    menu.entries().iter().map(|e| (e.label().to_owned(), e.checked())).collect()
}

fn key_of(menu: &Menu, label: &str) -> Option<String> {
    menu.entries().iter().find(|e| e.label() == label).map(|e| e.key().to_owned())
}

fn on_a_line(line: Option<usize>) -> ViewFacts {
    ViewFacts {
        selecting: false,
        cursor_line: line,
        on_thread: false,
        on_thread_row: false,
        on_expanded: false,
        resolved: false,
        auto_resolve: false,
        message_editable: false,
        reference_here: false,
    }
}

fn open_thread() -> ThreadFacts {
    ThreadFacts {
        collapsed: false,
        archived: false,
        resolved: false,
        auto_resolve: false,
        message_editable: true,
        workspace_scope: false,
    }
}

#[test]
fn the_thread_menu_replies_and_deletes_at_once() {
    let facts = ViewFacts { on_thread: true, message_editable: true, ..on_a_line(Some(3)) };
    let menu = view_menu(facts, 10, 4);
    assert_eq!(menu.title(), "thread");
    assert_eq!(
        labels(&menu),
        [
            "expand thread",
            "reply",
            "enable auto-resolve",
            "resolve thread",
            "edit message",
            "delete thread",
            "comment on line",
            "select line",
            "copy line",
        ]
    );
    assert_eq!(key_of(&menu, "delete thread").as_deref(), Some("dd"));
    let delete = menu.entries().iter().find(|e| e.label() == "delete thread").expect("delete");
    assert_eq!(delete.action(), Some(Action::DeleteThread));
}

#[test]
fn the_line_menu_is_titled_by_the_source_line() {
    let menu = view_menu(on_a_line(Some(42)), 0, 0);
    assert_eq!(menu.title(), "line 42");
    assert_eq!(labels(&menu), ["comment on line", "select line", "copy line"]);
    assert_eq!(view_menu(on_a_line(None), 0, 0).title(), "line");
    let linked = view_menu(ViewFacts { reference_here: true, ..on_a_line(Some(1)) }, 0, 0);
    assert_eq!(labels(&linked)[0], "open linked file/URL");
}

#[test]
fn a_selection_menu_acts_on_the_selection() {
    let menu = view_menu(ViewFacts { selecting: true, on_thread: true, ..on_a_line(Some(1)) }, 3, 5);
    assert_eq!(menu.title(), "selection");
    assert_eq!(
        labels(&menu),
        ["comment on selection", "new thread on selection", "copy selection", "clear selection"]
    );
}

#[test]
fn a_resolved_thread_offers_reopening_and_archiving() {
    let facts = ViewFacts { on_thread: true, on_thread_row: true, on_expanded: true, resolved: true, ..on_a_line(Some(1)) };
    let menu = view_menu(facts, 0, 0);
    assert_eq!(
        labels(&menu),
        [
            "fold thread",
            "reply",
            "reopen thread",
            "archive thread",
            "delete thread",
            "comment on line",
            "select line",
            "copy line",
        ]
    );
    let reply = menu.entries().iter().find(|e| e.label() == "reply").expect("reply");
    assert_eq!(reply.action(), Some(Action::Comment));
    assert_eq!(reply.key(), "c");
    let elsewhere = view_menu(ViewFacts { on_thread_row: false, ..facts }, 0, 0);
    assert_eq!(key_of(&elsewhere, "reply").as_deref(), Some("Sp t r"));
}

#[test]
fn a_thread_row_menu_differs_between_the_list_and_the_pane() {
    let review = thread_menu(Where::Review, open_thread(), 0, 0);
    assert_eq!(review.title(), "thread");
    assert_eq!(
        labels(&review),
        [
            "collapse thread",
            "go to",
            "reply",
            "enable auto-resolve",
            "resolve thread",
            "edit message",
            "delete thread",
        ]
    );
    let pane = thread_menu(Where::ThreadsPane, ThreadFacts { workspace_scope: true, auto_resolve: true, ..open_thread() }, 0, 0);
    assert_eq!(
        labels(&pane),
        [
            "go to",
            "reply",
            "disable auto-resolve",
            "resolve thread",
            "edit your newest message",
            "delete thread",
            "fold file",
        ]
    );
    let archived = thread_menu(Where::Review, ThreadFacts { archived: true, collapsed: true, ..open_thread() }, 0, 0);
    assert_eq!(labels(&archived), ["expand thread", "go to", "restore thread"]);
}

#[test]
fn file_rows_and_the_files_pane_open_their_menus() {
    let pane = file_menu(Where::ThreadsPane, "README.md", false, false, false, 2, 5);
    assert_eq!(pane.title(), "README.md");
    assert_eq!(labels(&pane), ["fold", "fold all", "open file"]);
    let folded = file_menu(Where::ThreadsPane, "README.md", true, true, false, 2, 5);
    assert_eq!(labels(&folded)[..2], ["unfold", "unfold all"]);
    let list = file_menu(Where::Review, "docs/guide.md", false, false, true, 2, 5);
    assert_eq!(list.title(), "guide.md");
    assert_eq!(labels(&list), ["fold", "open file", "hide resolved"]);

    let file = tree_menu("README.md", false, false, 2, 3);
    assert_eq!(labels(&file), ["open", "file comment", "copy path", "copy full path"]);
    let dir = tree_menu("docs", true, false, 2, 4);
    assert_eq!(dir.title(), "docs");
    assert_eq!(labels(&dir), ["expand", "copy path", "copy full path"]);
    assert_eq!(labels(&tree_menu("docs", true, true, 2, 4))[0], "collapse");
}

#[test]
fn the_threads_title_opens_checked_settings_below_the_header() {
    let menu = threads_settings_menu(7, true, false);
    assert_eq!(menu.title(), "Threads");
    assert_eq!(
        settings(&menu),
        [("only current file".to_owned(), Some(true)), ("show resolved".to_owned(), Some(false))]
    );
    let grid = menu.grid_in(100, 0, 40);
    assert_eq!(grid.x, 0);
    assert_eq!(grid.y, 8);
}

#[test]
fn the_reviews_title_opens_checked_settings_below_the_header() {
    let menu = reviews_settings_menu(30, 1, false, false);
    assert_eq!(menu.title(), "Reviews");
    assert_eq!(
        settings(&menu),
        [
            ("open file".to_owned(), None),
            (String::new(), None),
            ("only current file".to_owned(), Some(false)),
            ("show resolved".to_owned(), Some(false)),
        ]
    );
    let grid = menu.grid_in(100, 1, 40);
    assert_eq!(grid.x, 30);
    assert_eq!(grid.y, 2);
}

#[test]
fn the_file_title_opens_navigation_and_display_settings() {
    let menu = file_settings_menu(30, 1, true, true, true, false);
    assert_eq!(menu.title(), "File");
    assert_eq!(
        settings(&menu),
        [
            ("open reviews".to_owned(), None),
            (String::new(), None),
            ("rendered view".to_owned(), Some(true)),
            ("show inline threads".to_owned(), Some(true)),
            ("show resolved threads".to_owned(), Some(false)),
        ]
    );
    let grid = menu.grid_in(100, 1, 40);
    assert_eq!(grid.x, 30);
    assert_eq!(grid.y, 2);
    let dormant = file_settings_menu(30, 1, false, false, true, false);
    assert!(!dormant.entries()[2].enabled());
    assert!(dormant.entries()[3].enabled());
}

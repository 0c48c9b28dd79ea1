//! The binding table as data: every surface, key sequence, action and
//! the words the help popup and the menus show for it.

use vstd::prelude::*;

use crate::bindings::{
    alt, alts1, alts2, bind, bind_in, c, ctrl, k, one, salt, sc, sctrl, shift, sk, sshift, three,
    two, Action, BindingView, Binding, Chord, Key, Where,
};

verus! {

/// How many rows the table has.
pub const BINDING_COUNT: usize = 169;

/// Row `i` of the table, first to last: the order help keeps within each
/// group and the order the which-key menus list entries in.
pub open spec fn binding_spec(i: int) -> BindingView {
    if i < 13 {
        rows_0(i)
    } else if i < 26 {
        rows_1(i)
    } else if i < 39 {
        rows_2(i)
    } else if i < 52 {
        rows_3(i)
    } else if i < 65 {
        rows_4(i)
    } else if i < 78 {
        rows_5(i)
    } else if i < 91 {
        rows_6(i)
    } else if i < 104 {
        rows_7(i)
    } else if i < 117 {
        rows_8(i)
    } else if i < 130 {
        rows_9(i)
    } else if i < 143 {
        rows_10(i)
    } else if i < 156 {
        rows_11(i)
    } else {
        rows_12(i)
    }
}

/// Row `i` of the table.
pub fn binding(i: usize) -> (b: Binding)
    requires
        i < BINDING_COUNT,
    ensures
        b@ == binding_spec(i as int),
{
    if i < 13 {
        binding_rows_0(i)
    } else if i < 26 {
        binding_rows_1(i)
    } else if i < 39 {
        binding_rows_2(i)
    } else if i < 52 {
        binding_rows_3(i)
    } else if i < 65 {
        binding_rows_4(i)
    } else if i < 78 {
        binding_rows_5(i)
    } else if i < 91 {
        binding_rows_6(i)
    } else if i < 104 {
        binding_rows_7(i)
    } else if i < 117 {
        binding_rows_8(i)
    } else if i < 130 {
        binding_rows_9(i)
    } else if i < 143 {
        binding_rows_10(i)
    } else if i < 156 {
        binding_rows_11(i)
    } else {
        binding_rows_12(i)
    }
}

/// Rows 0 to 12 of the table.
pub open spec fn rows_0(i: int) -> BindingView {
    if i == 0 {
        BindingView { keys: seq![seq![sc('j')], seq![sk(Key::Down)]], place: Where::View, action: Action::MoveDown, group: "Move"@, label: "down"@, menu_section: 0 }
    } else if i == 1 {
        BindingView { keys: seq![seq![sc('k')], seq![sk(Key::Up)]], place: Where::View, action: Action::MoveUp, group: "Move"@, label: "up"@, menu_section: 0 }
    } else if i == 2 {
        BindingView { keys: seq![seq![sc('h')], seq![sk(Key::Left)]], place: Where::View, action: Action::MoveLeft, group: "Move"@, label: "left, wraps to row above"@, menu_section: 0 }
    } else if i == 3 {
        BindingView { keys: seq![seq![sc('l')], seq![sk(Key::Right)]], place: Where::View, action: Action::MoveRight, group: "Move"@, label: "right, wraps to row below"@, menu_section: 0 }
    } else if i == 4 {
        BindingView { keys: seq![seq![sc('0')], seq![sk(Key::Home)]], place: Where::View, action: Action::LineStart, group: "Move"@, label: "line start"@, menu_section: 0 }
    } else if i == 5 {
        BindingView { keys: seq![seq![sc('$')], seq![sk(Key::End)]], place: Where::View, action: Action::LineEnd, group: "Move"@, label: "line end"@, menu_section: 0 }
    } else if i == 6 {
        BindingView { keys: seq![seq![sc('g'), sc('g')]], place: Where::View, action: Action::Top, group: "Move"@, label: "goto top"@, menu_section: 0 }
    } else if i == 7 {
        BindingView { keys: seq![seq![sc('g'), sc('e')], seq![sc('G')]], place: Where::View, action: Action::Bottom, group: "Move"@, label: "goto bottom"@, menu_section: 0 }
    } else if i == 8 {
        BindingView { keys: seq![seq![sc('g'), sc('l')]], place: Where::View, action: Action::GotoLineEnd, group: "Move"@, label: "goto line end"@, menu_section: 0 }
    } else if i == 9 {
        BindingView { keys: seq![seq![sc('g'), sc('h')]], place: Where::View, action: Action::GotoLineStart, group: "Move"@, label: "goto line start"@, menu_section: 0 }
    } else if i == 10 {
        BindingView { keys: seq![seq![sctrl('d')]], place: Where::View, action: Action::HalfPageDown, group: "Move"@, label: "half page down"@, menu_section: 0 }
    } else if i == 11 {
        BindingView { keys: seq![seq![sctrl('u')]], place: Where::View, action: Action::HalfPageUp, group: "Move"@, label: "half page up"@, menu_section: 0 }
    } else {
        BindingView { keys: seq![seq![sc('/')]], place: Where::View, action: Action::SearchForward, group: "Search"@, label: "search forward"@, menu_section: 0 }
    }
}

fn binding_rows_0(i: usize) -> (b: Binding)
    requires
        0 <= i < 13,
    ensures
        b@ == rows_0(i as int),
{
    match i {
        0 => bind(Where::View, alts2(one(c('j')), one(k(Key::Down))), Action::MoveDown, "Move", "down"),
        1 => bind(Where::View, alts2(one(c('k')), one(k(Key::Up))), Action::MoveUp, "Move", "up"),
        2 => bind(Where::View, alts2(one(c('h')), one(k(Key::Left))), Action::MoveLeft, "Move", "left, wraps to row above"),
        3 => bind(Where::View, alts2(one(c('l')), one(k(Key::Right))), Action::MoveRight, "Move", "right, wraps to row below"),
        4 => bind(Where::View, alts2(one(c('0')), one(k(Key::Home))), Action::LineStart, "Move", "line start"),
        5 => bind(Where::View, alts2(one(c('$')), one(k(Key::End))), Action::LineEnd, "Move", "line end"),
        6 => bind(Where::View, alts1(two(c('g'), c('g'))), Action::Top, "Move", "goto top"),
        7 => bind(Where::View, alts2(two(c('g'), c('e')), one(c('G'))), Action::Bottom, "Move", "goto bottom"),
        8 => bind(Where::View, alts1(two(c('g'), c('l'))), Action::GotoLineEnd, "Move", "goto line end"),
        9 => bind(Where::View, alts1(two(c('g'), c('h'))), Action::GotoLineStart, "Move", "goto line start"),
        10 => bind(Where::View, alts1(one(ctrl('d'))), Action::HalfPageDown, "Move", "half page down"),
        11 => bind(Where::View, alts1(one(ctrl('u'))), Action::HalfPageUp, "Move", "half page up"),
        _ => bind(Where::View, alts1(one(c('/'))), Action::SearchForward, "Search", "search forward"),
    }
}

/// Rows 13 to 25 of the table.
pub open spec fn rows_1(i: int) -> BindingView {
    if i == 13 {
        BindingView { keys: seq![seq![sc('?')]], place: Where::View, action: Action::SearchBackward, group: "Search"@, label: "search backward"@, menu_section: 0 }
    } else if i == 14 {
        BindingView { keys: seq![seq![sc('n')]], place: Where::View, action: Action::SearchNext, group: "Search"@, label: "next match"@, menu_section: 0 }
    } else if i == 15 {
        BindingView { keys: seq![seq![sc('N')]], place: Where::View, action: Action::SearchPrev, group: "Search"@, label: "previous match"@, menu_section: 0 }
    } else if i == 16 {
        BindingView { keys: seq![seq![sc('v')]], place: Where::View, action: Action::SelectChars, group: "Select"@, label: "select text"@, menu_section: 0 }
    } else if i == 17 {
        BindingView { keys: seq![seq![sc('V')]], place: Where::View, action: Action::SelectLines, group: "Select"@, label: "select lines"@, menu_section: 0 }
    } else if i == 18 {
        BindingView { keys: seq![seq![sc('x')]], place: Where::View, action: Action::ExtendLine, group: "Select"@, label: "select the line; again, one more below"@, menu_section: 0 }
    } else if i == 19 {
        BindingView { keys: seq![seq![sc('y')]], place: Where::View, action: Action::Yank, group: "Select"@, label: "copy the selection, or the line"@, menu_section: 0 }
    } else if i == 20 {
        BindingView { keys: seq![seq![sc('g'), sc('f')]], place: Where::View, action: Action::GotoFile, group: "Links"@, label: "open linked file/URL"@, menu_section: 0 }
    } else if i == 21 {
        BindingView { keys: seq![seq![sc('c')]], place: Where::View, action: Action::Comment, group: "Threads"@, label: "comment"@, menu_section: 0 }
    } else if i == 22 {
        BindingView { keys: seq![seq![sk(Key::Enter)]], place: Where::View, action: Action::Confirm, group: "Threads"@, label: "fold or expand thread header"@, menu_section: 0 }
    } else if i == 23 {
        BindingView { keys: seq![seq![sc('z')]], place: Where::View, action: Action::Fold, group: "Threads"@, label: "expand or fold thread"@, menu_section: 0 }
    } else if i == 24 {
        BindingView { keys: seq![seq![sc('Z')]], place: Where::View, action: Action::FoldAll, group: "Threads"@, label: "expand or fold all"@, menu_section: 0 }
    } else {
        BindingView { keys: seq![seq![sc('e')]], place: Where::View, action: Action::EditMessage, group: "Threads"@, label: "edit your message"@, menu_section: 0 }
    }
}

fn binding_rows_1(i: usize) -> (b: Binding)
    requires
        13 <= i < 26,
    ensures
        b@ == rows_1(i as int),
{
    match i {
        13 => bind(Where::View, alts1(one(c('?'))), Action::SearchBackward, "Search", "search backward"),
        14 => bind(Where::View, alts1(one(c('n'))), Action::SearchNext, "Search", "next match"),
        15 => bind(Where::View, alts1(one(c('N'))), Action::SearchPrev, "Search", "previous match"),
        16 => bind(Where::View, alts1(one(c('v'))), Action::SelectChars, "Select", "select text"),
        17 => bind(Where::View, alts1(one(c('V'))), Action::SelectLines, "Select", "select lines"),
        18 => bind(Where::View, alts1(one(c('x'))), Action::ExtendLine, "Select", "select the line; again, one more below"),
        19 => bind(Where::View, alts1(one(c('y'))), Action::Yank, "Select", "copy the selection, or the line"),
        20 => bind(Where::View, alts1(two(c('g'), c('f'))), Action::GotoFile, "Links", "open linked file/URL"),
        21 => bind(Where::View, alts1(one(c('c'))), Action::Comment, "Threads", "comment"),
        22 => bind(Where::View, alts1(one(k(Key::Enter))), Action::Confirm, "Threads", "fold or expand thread header"),
        23 => bind(Where::View, alts1(one(c('z'))), Action::Fold, "Threads", "expand or fold thread"),
        24 => bind(Where::View, alts1(one(c('Z'))), Action::FoldAll, "Threads", "expand or fold all"),
        _ => bind(Where::View, alts1(one(c('e'))), Action::EditMessage, "Threads", "edit your message"),
    }
}

/// Rows 26 to 38 of the table.
pub open spec fn rows_2(i: int) -> BindingView {
    if i == 26 {
        BindingView { keys: seq![seq![sc('r')]], place: Where::View, action: Action::ToggleResolved, group: "Threads"@, label: "resolve or reopen"@, menu_section: 0 }
    } else if i == 27 {
        BindingView { keys: seq![seq![sc('R')]], place: Where::View, action: Action::ToggleAutoResolve, group: "Threads"@, label: "toggle auto-resolve"@, menu_section: 0 }
    } else if i == 28 {
        BindingView { keys: seq![seq![sc('a')]], place: Where::View, action: Action::ArchiveThread, group: "Threads"@, label: "archive thread"@, menu_section: 0 }
    } else if i == 29 {
        BindingView { keys: seq![seq![sc('d'), sc('d')]], place: Where::View, action: Action::Delete, group: "Threads"@, label: "delete thread"@, menu_section: 0 }
    } else if i == 30 {
        BindingView { keys: seq![seq![sk(Key::Tab)]], place: Where::Any, action: Action::OpenThreadNext, group: "Navigation"@, label: "next open review thread"@, menu_section: 0 }
    } else if i == 31 {
        BindingView { keys: seq![seq![sk(Key::BackTab)]], place: Where::Any, action: Action::OpenThreadPrev, group: "Navigation"@, label: "previous open review thread"@, menu_section: 0 }
    } else if i == 32 {
        BindingView { keys: seq![seq![sc('w')]], place: Where::Any, action: Action::WindowNext, group: "Focus"@, label: "next pane"@, menu_section: 0 }
    } else if i == 33 {
        BindingView { keys: seq![seq![sc('W')]], place: Where::Any, action: Action::WindowPrev, group: "Focus"@, label: "previous pane"@, menu_section: 0 }
    } else if i == 34 {
        BindingView { keys: seq![seq![sc('F')]], place: Where::Any, action: Action::WindowFiles, group: "Focus"@, label: "File list"@, menu_section: 0 }
    } else if i == 35 {
        BindingView { keys: seq![seq![sc('T')]], place: Where::Any, action: Action::WindowThreads, group: "Focus"@, label: "Thread list"@, menu_section: 0 }
    } else if i == 36 {
        BindingView { keys: seq![seq![salt(Key::Char(' '))]], place: Where::Any, action: Action::ApplicationMenu, group: "Focus"@, label: "application menu"@, menu_section: 0 }
    } else if i == 37 {
        BindingView { keys: seq![seq![sc('J')], seq![sshift(Key::Down)]], place: Where::Any, action: Action::ChangeNext, group: "Navigation"@, label: "next comparison change"@, menu_section: 0 }
    } else {
        BindingView { keys: seq![seq![sc('K')], seq![sshift(Key::Up)]], place: Where::Any, action: Action::ChangePrev, group: "Navigation"@, label: "previous comparison change"@, menu_section: 0 }
    }
}

fn binding_rows_2(i: usize) -> (b: Binding)
    requires
        26 <= i < 39,
    ensures
        b@ == rows_2(i as int),
{
    match i {
        26 => bind(Where::View, alts1(one(c('r'))), Action::ToggleResolved, "Threads", "resolve or reopen"),
        27 => bind(Where::View, alts1(one(c('R'))), Action::ToggleAutoResolve, "Threads", "toggle auto-resolve"),
        28 => bind(Where::View, alts1(one(c('a'))), Action::ArchiveThread, "Threads", "archive thread"),
        29 => bind(Where::View, alts1(two(c('d'), c('d'))), Action::Delete, "Threads", "delete thread"),
        30 => bind(Where::Any, alts1(one(k(Key::Tab))), Action::OpenThreadNext, "Navigation", "next open review thread"),
        31 => bind(Where::Any, alts1(one(k(Key::BackTab))), Action::OpenThreadPrev, "Navigation", "previous open review thread"),
        32 => bind(Where::Any, alts1(one(c('w'))), Action::WindowNext, "Focus", "next pane"),
        33 => bind(Where::Any, alts1(one(c('W'))), Action::WindowPrev, "Focus", "previous pane"),
        34 => bind(Where::Any, alts1(one(c('F'))), Action::WindowFiles, "Focus", "File list"),
        35 => bind(Where::Any, alts1(one(c('T'))), Action::WindowThreads, "Focus", "Thread list"),
        36 => bind(Where::Any, alts1(one(alt(Key::Char(' ')))), Action::ApplicationMenu, "Focus", "application menu"),
        37 => bind(Where::Any, alts2(one(c('J')), one(shift(Key::Down))), Action::ChangeNext, "Navigation", "next comparison change"),
        _ => bind(Where::Any, alts2(one(c('K')), one(shift(Key::Up))), Action::ChangePrev, "Navigation", "previous comparison change"),
    }
}

/// Rows 39 to 51 of the table.
pub open spec fn rows_3(i: int) -> BindingView {
    if i == 39 {
        BindingView { keys: seq![seq![sc('L')], seq![sshift(Key::Right)]], place: Where::Any, action: Action::ChangeFileNext, group: "Navigation"@, label: "next changed file"@, menu_section: 0 }
    } else if i == 40 {
        BindingView { keys: seq![seq![sc('H')], seq![sshift(Key::Left)]], place: Where::Any, action: Action::ChangeFilePrev, group: "Navigation"@, label: "previous changed file"@, menu_section: 0 }
    } else if i == 41 {
        BindingView { keys: seq![seq![salt(Key::Left)]], place: Where::Any, action: Action::JumpBack, group: "Jumplist"@, label: "back to the position the last far move left"@, menu_section: 0 }
    } else if i == 42 {
        BindingView { keys: seq![seq![salt(Key::Right)]], place: Where::Any, action: Action::JumpForward, group: "Jumplist"@, label: "forward again"@, menu_section: 0 }
    } else if i == 43 {
        BindingView { keys: seq![seq![sc('q')]], place: Where::Any, action: Action::ConfirmQuit, group: "Commands"@, label: "quit with confirmation"@, menu_section: 0 }
    } else if i == 44 {
        BindingView { keys: seq![seq![sk(Key::Esc)]], place: Where::View, action: Action::Escape, group: "Commands"@, label: "clear the input, prefix, selection, or highlight"@, menu_section: 0 }
    } else if i == 45 {
        BindingView { keys: seq![seq![sc(':')]], place: Where::Any, action: Action::CommandLine, group: "Commands"@, label: "command line"@, menu_section: 0 }
    } else if i == 46 {
        BindingView { keys: seq![seq![sc(' '), sc('f'), sc('f')]], place: Where::Any, action: Action::PickFile, group: "Space menu"@, label: "open files: open file"@, menu_section: 0 }
    } else if i == 47 {
        BindingView { keys: seq![seq![sc(' '), sc('f'), sc('i')]], place: Where::Any, action: Action::PickAnyFile, group: "Space menu"@, label: "open files: open file incl. ignored"@, menu_section: 0 }
    } else if i == 48 {
        BindingView { keys: seq![seq![sc(' '), sc('f'), sc('r')]], place: Where::Any, action: Action::PickRecent, group: "Space menu"@, label: "open files: recent files"@, menu_section: 0 }
    } else if i == 49 {
        BindingView { keys: seq![seq![sc(' '), sc('F'), sc('c')]], place: Where::Any, action: Action::FilesChanged, group: "Space menu"@, label: "files: only changed"@, menu_section: 0 }
    } else if i == 50 {
        BindingView { keys: seq![seq![sc(' '), sc('F'), sc('o')]], place: Where::Any, action: Action::FilesReviews, group: "Space menu"@, label: "files: only reviews"@, menu_section: 0 }
    } else {
        BindingView { keys: seq![seq![sc(' '), sc('F'), sc('u')]], place: Where::Any, action: Action::FilesUntracked, group: "Space menu"@, label: "files: hide untracked"@, menu_section: 0 }
    }
}

fn binding_rows_3(i: usize) -> (b: Binding)
    requires
        39 <= i < 52,
    ensures
        b@ == rows_3(i as int),
{
    match i {
        39 => bind(Where::Any, alts2(one(c('L')), one(shift(Key::Right))), Action::ChangeFileNext, "Navigation", "next changed file"),
        40 => bind(Where::Any, alts2(one(c('H')), one(shift(Key::Left))), Action::ChangeFilePrev, "Navigation", "previous changed file"),
        41 => bind(Where::Any, alts1(one(alt(Key::Left))), Action::JumpBack, "Jumplist", "back to the position the last far move left"),
        42 => bind(Where::Any, alts1(one(alt(Key::Right))), Action::JumpForward, "Jumplist", "forward again"),
        43 => bind(Where::Any, alts1(one(c('q'))), Action::ConfirmQuit, "Commands", "quit with confirmation"),
        44 => bind(Where::View, alts1(one(k(Key::Esc))), Action::Escape, "Commands", "clear the input, prefix, selection, or highlight"),
        45 => bind(Where::Any, alts1(one(c(':'))), Action::CommandLine, "Commands", "command line"),
        46 => bind(Where::Any, alts1(three(c(' '), c('f'), c('f'))), Action::PickFile, "Space menu", "open files: open file"),
        47 => bind(Where::Any, alts1(three(c(' '), c('f'), c('i'))), Action::PickAnyFile, "Space menu", "open files: open file incl. ignored"),
        48 => bind(Where::Any, alts1(three(c(' '), c('f'), c('r'))), Action::PickRecent, "Space menu", "open files: recent files"),
        49 => bind(Where::Any, alts1(three(c(' '), c('F'), c('c'))), Action::FilesChanged, "Space menu", "files: only changed"),
        50 => bind(Where::Any, alts1(three(c(' '), c('F'), c('o'))), Action::FilesReviews, "Space menu", "files: only reviews"),
        _ => bind(Where::Any, alts1(three(c(' '), c('F'), c('u'))), Action::FilesUntracked, "Space menu", "files: hide untracked"),
    }
}

/// Rows 52 to 64 of the table.
pub open spec fn rows_4(i: int) -> BindingView {
    if i == 52 {
        BindingView { keys: seq![seq![sc(' '), sc('F'), sc('i')]], place: Where::Any, action: Action::FilesIgnored, group: "Space menu"@, label: "files: show ignored"@, menu_section: 0 }
    } else if i == 53 {
        BindingView { keys: seq![seq![sc('f')]], place: Where::Any, action: Action::FileView, group: "Views"@, label: "open File"@, menu_section: 0 }
    } else if i == 54 {
        BindingView { keys: seq![seq![sc('t')]], place: Where::Any, action: Action::Review, group: "Threads"@, label: "open Threads"@, menu_section: 0 }
    } else if i == 55 {
        BindingView { keys: seq![seq![sc(' '), sc('t'), sc('R')]], place: Where::Any, action: Action::ReviewRecentlyResolved, group: "Space menu"@, label: "threads: recently resolved"@, menu_section: 0 }
    } else if i == 56 {
        BindingView { keys: seq![seq![sc(' '), sc('t'), sc('h')]], place: Where::Any, action: Action::ReviewArchived, group: "Space menu"@, label: "threads: archived threads"@, menu_section: 0 }
    } else if i == 57 {
        BindingView { keys: seq![seq![sc(' '), sc('t'), sc('a')]], place: Where::Any, action: Action::ArchiveResolved, group: "Space menu"@, label: "threads: archive resolved"@, menu_section: 0 }
    } else if i == 58 {
        BindingView { keys: seq![seq![sc(' '), sc('t'), sc('A')]], place: Where::Any, action: Action::ClearBoard, group: "Space menu"@, label: "threads: clear board"@, menu_section: 0 }
    } else if i == 59 {
        BindingView { keys: seq![seq![sc(' '), sc('p'), sc('f')]], place: Where::Any, action: Action::TreeToggle, group: "Space menu"@, label: "panes: toggle File list"@, menu_section: 0 }
    } else if i == 60 {
        BindingView { keys: seq![seq![sc(' '), sc('p'), sc('s')]], place: Where::Any, action: Action::SidebarToggle, group: "Space menu"@, label: "panes: toggle sidebar"@, menu_section: 0 }
    } else if i == 61 {
        BindingView { keys: seq![seq![sc(' '), sc('p'), sc('m')]], place: Where::Any, action: Action::MenuBarToggle, group: "Space menu"@, label: "panes: toggle menu bar"@, menu_section: 0 }
    } else if i == 62 {
        BindingView { keys: seq![seq![sc(' '), sc('p'), sc('t')]], place: Where::Any, action: Action::ThreadsPaneToggle, group: "Space menu"@, label: "panes: toggle Thread list"@, menu_section: 0 }
    } else if i == 63 {
        BindingView { keys: seq![seq![sc(' '), sc('t'), sc('c')]], place: Where::Any, action: Action::NewThread, group: "Space menu"@, label: "threads: new thread"@, menu_section: 1 }
    } else {
        BindingView { keys: seq![seq![sc(' '), sc('t'), sc('r')]], place: Where::Any, action: Action::Reply, group: "Space menu"@, label: "threads: reply"@, menu_section: 1 }
    }
}

fn binding_rows_4(i: usize) -> (b: Binding)
    requires
        52 <= i < 65,
    ensures
        b@ == rows_4(i as int),
{
    match i {
        52 => bind(Where::Any, alts1(three(c(' '), c('F'), c('i'))), Action::FilesIgnored, "Space menu", "files: show ignored"),
        53 => bind(Where::Any, alts1(one(c('f'))), Action::FileView, "Views", "open File"),
        54 => bind(Where::Any, alts1(one(c('t'))), Action::Review, "Threads", "open Threads"),
        55 => bind(Where::Any, alts1(three(c(' '), c('t'), c('R'))), Action::ReviewRecentlyResolved, "Space menu", "threads: recently resolved"),
        56 => bind(Where::Any, alts1(three(c(' '), c('t'), c('h'))), Action::ReviewArchived, "Space menu", "threads: archived threads"),
        57 => bind(Where::Any, alts1(three(c(' '), c('t'), c('a'))), Action::ArchiveResolved, "Space menu", "threads: archive resolved"),
        58 => bind(Where::Any, alts1(three(c(' '), c('t'), c('A'))), Action::ClearBoard, "Space menu", "threads: clear board"),
        59 => bind(Where::Any, alts1(three(c(' '), c('p'), c('f'))), Action::TreeToggle, "Space menu", "panes: toggle File list"),
        60 => bind(Where::Any, alts1(three(c(' '), c('p'), c('s'))), Action::SidebarToggle, "Space menu", "panes: toggle sidebar"),
        61 => bind(Where::Any, alts1(three(c(' '), c('p'), c('m'))), Action::MenuBarToggle, "Space menu", "panes: toggle menu bar"),
        62 => bind(Where::Any, alts1(three(c(' '), c('p'), c('t'))), Action::ThreadsPaneToggle, "Space menu", "panes: toggle Thread list"),
        63 => bind_in(Where::Any, alts1(three(c(' '), c('t'), c('c'))), Action::NewThread, "Space menu", "threads: new thread", 1),
        _ => bind_in(Where::Any, alts1(three(c(' '), c('t'), c('r'))), Action::Reply, "Space menu", "threads: reply", 1),
    }
}

/// Rows 65 to 77 of the table.
pub open spec fn rows_5(i: int) -> BindingView {
    if i == 65 {
        BindingView { keys: seq![seq![sc(' '), sc('t'), sc('e')]], place: Where::Any, action: Action::EditNewestOwn, group: "Space menu"@, label: "threads: edit message"@, menu_section: 1 }
    } else if i == 66 {
        BindingView { keys: seq![seq![sc(' '), sc('t'), sc('d')]], place: Where::Any, action: Action::DeleteThread, group: "Space menu"@, label: "threads: delete thread"@, menu_section: 1 }
    } else if i == 67 {
        BindingView { keys: seq![seq![sc(' '), sc('t'), sc('f')]], place: Where::Any, action: Action::FileComment, group: "Space menu"@, label: "threads: file comment"@, menu_section: 1 }
    } else if i == 68 {
        BindingView { keys: seq![seq![sc(' '), sc('v'), sc('s')]], place: Where::Any, action: Action::SourceView, group: "Space menu"@, label: "view: source view"@, menu_section: 0 }
    } else if i == 69 {
        BindingView { keys: seq![seq![sc(' '), sc('v'), sc('t')]], place: Where::Any, action: Action::StubsToggle, group: "Space menu"@, label: "view: toggle thread stubs"@, menu_section: 1 }
    } else if i == 70 {
        BindingView { keys: seq![seq![sc(' '), sc('v'), sc('r')]], place: Where::Any, action: Action::StubResolvedToggle, group: "Space menu"@, label: "view: toggle resolved stubs"@, menu_section: 1 }
    } else if i == 71 {
        BindingView { keys: seq![seq![sc(' '), sc('d'), sc('s')]], place: Where::Any, action: Action::DiffStandard, group: "Space menu"@, label: "diff: standard"@, menu_section: 0 }
    } else if i == 72 {
        BindingView { keys: seq![seq![sc(' '), sc('d'), sc('u')]], place: Where::Any, action: Action::DiffUnified, group: "Space menu"@, label: "diff: unified"@, menu_section: 0 }
    } else if i == 73 {
        BindingView { keys: seq![seq![sc(' '), sc('d'), sc('o')]], place: Where::Any, action: Action::DiffOff, group: "Space menu"@, label: "diff: off"@, menu_section: 0 }
    } else if i == 74 {
        BindingView { keys: seq![seq![sc(' '), sc('d'), sc('b')]], place: Where::Any, action: Action::ComparisonBase, group: "Space menu"@, label: "diff: pick base…"@, menu_section: 1 }
    } else if i == 75 {
        BindingView { keys: seq![seq![sc(' '), sc('d'), sc('t')]], place: Where::Any, action: Action::ComparisonTarget, group: "Space menu"@, label: "diff: pick target…"@, menu_section: 1 }
    } else if i == 76 {
        BindingView { keys: seq![seq![sc(' '), sc('d'), sc('d')]], place: Where::Any, action: Action::ComparisonHeadWorkingTree, group: "Space menu"@, label: "diff: HEAD to Working tree"@, menu_section: 1 }
    } else {
        BindingView { keys: seq![seq![sc(' '), sc('d'), sc('l')]], place: Where::Any, action: Action::ComparisonHeadParent, group: "Space menu"@, label: "diff: HEAD~1 to HEAD"@, menu_section: 1 }
    }
}

fn binding_rows_5(i: usize) -> (b: Binding)
    requires
        65 <= i < 78,
    ensures
        b@ == rows_5(i as int),
{
    match i {
        65 => bind_in(Where::Any, alts1(three(c(' '), c('t'), c('e'))), Action::EditNewestOwn, "Space menu", "threads: edit message", 1),
        66 => bind_in(Where::Any, alts1(three(c(' '), c('t'), c('d'))), Action::DeleteThread, "Space menu", "threads: delete thread", 1),
        67 => bind_in(Where::Any, alts1(three(c(' '), c('t'), c('f'))), Action::FileComment, "Space menu", "threads: file comment", 1),
        68 => bind(Where::Any, alts1(three(c(' '), c('v'), c('s'))), Action::SourceView, "Space menu", "view: source view"),
        69 => bind_in(Where::Any, alts1(three(c(' '), c('v'), c('t'))), Action::StubsToggle, "Space menu", "view: toggle thread stubs", 1),
        70 => bind_in(Where::Any, alts1(three(c(' '), c('v'), c('r'))), Action::StubResolvedToggle, "Space menu", "view: toggle resolved stubs", 1),
        71 => bind(Where::Any, alts1(three(c(' '), c('d'), c('s'))), Action::DiffStandard, "Space menu", "diff: standard"),
        72 => bind(Where::Any, alts1(three(c(' '), c('d'), c('u'))), Action::DiffUnified, "Space menu", "diff: unified"),
        73 => bind(Where::Any, alts1(three(c(' '), c('d'), c('o'))), Action::DiffOff, "Space menu", "diff: off"),
        74 => bind_in(Where::Any, alts1(three(c(' '), c('d'), c('b'))), Action::ComparisonBase, "Space menu", "diff: pick base…", 1),
        75 => bind_in(Where::Any, alts1(three(c(' '), c('d'), c('t'))), Action::ComparisonTarget, "Space menu", "diff: pick target…", 1),
        76 => bind_in(Where::Any, alts1(three(c(' '), c('d'), c('d'))), Action::ComparisonHeadWorkingTree, "Space menu", "diff: HEAD to Working tree", 1),
        _ => bind_in(Where::Any, alts1(three(c(' '), c('d'), c('l'))), Action::ComparisonHeadParent, "Space menu", "diff: HEAD~1 to HEAD", 1),
    }
}

/// Rows 78 to 90 of the table.
pub open spec fn rows_6(i: int) -> BindingView {
    if i == 78 {
        BindingView { keys: seq![seq![sc(' '), sc('d'), sc('c')]], place: Where::Any, action: Action::ComparisonCommitParent, group: "Space menu"@, label: "diff: Commit~1 to Commit…"@, menu_section: 1 }
    } else if i == 79 {
        BindingView { keys: seq![seq![sc(' '), sc('d'), sc('p')]], place: Where::Any, action: Action::ComparisonSave, group: "Space menu"@, label: "diff: save review point"@, menu_section: 2 }
    } else if i == 80 {
        BindingView { keys: seq![seq![sc(' '), sc('d'), sc('r')]], place: Where::Any, action: Action::ComparisonManage, group: "Space menu"@, label: "diff: manage review points…"@, menu_section: 2 }
    } else if i == 81 {
        BindingView { keys: seq![seq![sc(' '), sc('d'), sc('w')]], place: Where::Any, action: Action::ComparisonWhitespace, group: "Space menu"@, label: "diff: whitespace"@, menu_section: 3 }
    } else if i == 82 {
        BindingView { keys: seq![seq![sc(']'), sc('w')]], place: Where::Any, action: Action::WorktreeNext, group: "Worktrees"@, label: "next worktree"@, menu_section: 0 }
    } else if i == 83 {
        BindingView { keys: seq![seq![sc('['), sc('w')]], place: Where::Any, action: Action::WorktreePrev, group: "Worktrees"@, label: "previous worktree"@, menu_section: 0 }
    } else if i == 84 {
        BindingView { keys: seq![seq![sc(' '), sc('?')]], place: Where::Any, action: Action::Help, group: "Space menu"@, label: "view keymap"@, menu_section: 0 }
    } else if i == 85 {
        BindingView { keys: seq![seq![sc('z')]], place: Where::Tree, action: Action::Fold, group: "File list"@, label: "fold or unfold nearest directory"@, menu_section: 0 }
    } else if i == 86 {
        BindingView { keys: seq![seq![sc('Z')]], place: Where::Tree, action: Action::FoldAll, group: "File list"@, label: "fold every directory, or unfold them all"@, menu_section: 0 }
    } else if i == 87 {
        BindingView { keys: seq![seq![sc('j')], seq![sk(Key::Down)]], place: Where::Tree, action: Action::MoveDown, group: "File list"@, label: "down, showing the file"@, menu_section: 0 }
    } else if i == 88 {
        BindingView { keys: seq![seq![sc('k')], seq![sk(Key::Up)]], place: Where::Tree, action: Action::MoveUp, group: "File list"@, label: "up, showing the file"@, menu_section: 0 }
    } else if i == 89 {
        BindingView { keys: seq![seq![sc('h')], seq![sk(Key::Left)]], place: Where::Tree, action: Action::MoveLeft, group: "File list"@, label: "collapse"@, menu_section: 0 }
    } else {
        BindingView { keys: seq![seq![sc('l')], seq![sk(Key::Right)]], place: Where::Tree, action: Action::MoveRight, group: "File list"@, label: "expand directory"@, menu_section: 0 }
    }
}

fn binding_rows_6(i: usize) -> (b: Binding)
    requires
        78 <= i < 91,
    ensures
        b@ == rows_6(i as int),
{
    match i {
        78 => bind_in(Where::Any, alts1(three(c(' '), c('d'), c('c'))), Action::ComparisonCommitParent, "Space menu", "diff: Commit~1 to Commit…", 1),
        79 => bind_in(Where::Any, alts1(three(c(' '), c('d'), c('p'))), Action::ComparisonSave, "Space menu", "diff: save review point", 2),
        80 => bind_in(Where::Any, alts1(three(c(' '), c('d'), c('r'))), Action::ComparisonManage, "Space menu", "diff: manage review points…", 2),
        81 => bind_in(Where::Any, alts1(three(c(' '), c('d'), c('w'))), Action::ComparisonWhitespace, "Space menu", "diff: whitespace", 3),
        82 => bind(Where::Any, alts1(two(c(']'), c('w'))), Action::WorktreeNext, "Worktrees", "next worktree"),
        83 => bind(Where::Any, alts1(two(c('['), c('w'))), Action::WorktreePrev, "Worktrees", "previous worktree"),
        84 => bind(Where::Any, alts1(two(c(' '), c('?'))), Action::Help, "Space menu", "view keymap"),
        85 => bind(Where::Tree, alts1(one(c('z'))), Action::Fold, "File list", "fold or unfold nearest directory"),
        86 => bind(Where::Tree, alts1(one(c('Z'))), Action::FoldAll, "File list", "fold every directory, or unfold them all"),
        87 => bind(Where::Tree, alts2(one(c('j')), one(k(Key::Down))), Action::MoveDown, "File list", "down, showing the file"),
        88 => bind(Where::Tree, alts2(one(c('k')), one(k(Key::Up))), Action::MoveUp, "File list", "up, showing the file"),
        89 => bind(Where::Tree, alts2(one(c('h')), one(k(Key::Left))), Action::MoveLeft, "File list", "collapse"),
        _ => bind(Where::Tree, alts2(one(c('l')), one(k(Key::Right))), Action::MoveRight, "File list", "expand directory"),
    }
}

/// Rows 91 to 103 of the table.
pub open spec fn rows_7(i: int) -> BindingView {
    if i == 91 {
        BindingView { keys: seq![seq![sk(Key::Enter)]], place: Where::Tree, action: Action::Confirm, group: "File list"@, label: "open and focus the text"@, menu_section: 0 }
    } else if i == 92 {
        BindingView { keys: seq![seq![sc('g'), sc('g')]], place: Where::Tree, action: Action::Top, group: "File list"@, label: "goto top"@, menu_section: 0 }
    } else if i == 93 {
        BindingView { keys: seq![seq![sc('g'), sc('e')], seq![sc('G')]], place: Where::Tree, action: Action::Bottom, group: "File list"@, label: "goto bottom"@, menu_section: 0 }
    } else if i == 94 {
        BindingView { keys: seq![seq![sc('y')]], place: Where::Tree, action: Action::CopyPath, group: "File list"@, label: "copy the path"@, menu_section: 0 }
    } else if i == 95 {
        BindingView { keys: seq![seq![sc('Y')]], place: Where::Tree, action: Action::CopyFullPath, group: "File list"@, label: "copy the full path"@, menu_section: 0 }
    } else if i == 96 {
        BindingView { keys: seq![seq![sc('c')]], place: Where::Tree, action: Action::FilesChanged, group: "File list"@, label: "only changed"@, menu_section: 0 }
    } else if i == 97 {
        BindingView { keys: seq![seq![sc('o')]], place: Where::Tree, action: Action::FilesReviews, group: "File list"@, label: "only reviews"@, menu_section: 0 }
    } else if i == 98 {
        BindingView { keys: seq![seq![sc('u')]], place: Where::Tree, action: Action::FilesUntracked, group: "File list"@, label: "hide untracked"@, menu_section: 0 }
    } else if i == 99 {
        BindingView { keys: seq![seq![sc('i')]], place: Where::Tree, action: Action::FilesIgnored, group: "File list"@, label: "show ignored"@, menu_section: 0 }
    } else if i == 100 {
        BindingView { keys: seq![seq![sk(Key::Esc)]], place: Where::Tree, action: Action::Escape, group: "File list"@, label: "back to the text"@, menu_section: 0 }
    } else if i == 101 {
        BindingView { keys: seq![seq![sc('j')], seq![sk(Key::Down)]], place: Where::ThreadsPane, action: Action::MoveDown, group: "Thread list"@, label: "next thread; the text follows"@, menu_section: 0 }
    } else if i == 102 {
        BindingView { keys: seq![seq![sc('k')], seq![sk(Key::Up)]], place: Where::ThreadsPane, action: Action::MoveUp, group: "Thread list"@, label: "previous thread; the text follows"@, menu_section: 0 }
    } else {
        BindingView { keys: seq![seq![sk(Key::Enter)]], place: Where::ThreadsPane, action: Action::Confirm, group: "Thread list"@, label: "open the file with the thread expanded"@, menu_section: 0 }
    }
}

fn binding_rows_7(i: usize) -> (b: Binding)
    requires
        91 <= i < 104,
    ensures
        b@ == rows_7(i as int),
{
    match i {
        91 => bind(Where::Tree, alts1(one(k(Key::Enter))), Action::Confirm, "File list", "open and focus the text"),
        92 => bind(Where::Tree, alts1(two(c('g'), c('g'))), Action::Top, "File list", "goto top"),
        93 => bind(Where::Tree, alts2(two(c('g'), c('e')), one(c('G'))), Action::Bottom, "File list", "goto bottom"),
        94 => bind(Where::Tree, alts1(one(c('y'))), Action::CopyPath, "File list", "copy the path"),
        95 => bind(Where::Tree, alts1(one(c('Y'))), Action::CopyFullPath, "File list", "copy the full path"),
        96 => bind(Where::Tree, alts1(one(c('c'))), Action::FilesChanged, "File list", "only changed"),
        97 => bind(Where::Tree, alts1(one(c('o'))), Action::FilesReviews, "File list", "only reviews"),
        98 => bind(Where::Tree, alts1(one(c('u'))), Action::FilesUntracked, "File list", "hide untracked"),
        99 => bind(Where::Tree, alts1(one(c('i'))), Action::FilesIgnored, "File list", "show ignored"),
        100 => bind(Where::Tree, alts1(one(k(Key::Esc))), Action::Escape, "File list", "back to the text"),
        101 => bind(Where::ThreadsPane, alts2(one(c('j')), one(k(Key::Down))), Action::MoveDown, "Thread list", "next thread; the text follows"),
        102 => bind(Where::ThreadsPane, alts2(one(c('k')), one(k(Key::Up))), Action::MoveUp, "Thread list", "previous thread; the text follows"),
        _ => bind(Where::ThreadsPane, alts1(one(k(Key::Enter))), Action::Confirm, "Thread list", "open the file with the thread expanded"),
    }
}

/// Rows 104 to 116 of the table.
pub open spec fn rows_8(i: int) -> BindingView {
    if i == 104 {
        BindingView { keys: seq![seq![sc('s')]], place: Where::ThreadsPane, action: Action::PaneScope, group: "Thread list"@, label: "this file, or the workspace"@, menu_section: 0 }
    } else if i == 105 {
        BindingView { keys: seq![seq![sc('x')]], place: Where::ThreadsPane, action: Action::ReviewResolved, group: "Thread list"@, label: "show or hide resolved threads"@, menu_section: 0 }
    } else if i == 106 {
        BindingView { keys: seq![seq![sc(' '), sc('T'), sc('s')]], place: Where::Any, action: Action::PaneScope, group: "Space menu"@, label: "thread list: this file, or the workspace"@, menu_section: 0 }
    } else if i == 107 {
        BindingView { keys: seq![seq![sc(' '), sc('T'), sc('x')]], place: Where::Any, action: Action::ReviewResolved, group: "Space menu"@, label: "thread list: show or hide resolved threads"@, menu_section: 0 }
    } else if i == 108 {
        BindingView { keys: seq![seq![sc('z')]], place: Where::ThreadsPane, action: Action::Fold, group: "Thread list"@, label: "fold or unfold the file"@, menu_section: 0 }
    } else if i == 109 {
        BindingView { keys: seq![seq![sc('Z')]], place: Where::ThreadsPane, action: Action::FoldAll, group: "Thread list"@, label: "fold every file, or unfold them all"@, menu_section: 0 }
    } else if i == 110 {
        BindingView { keys: seq![seq![sc('c')]], place: Where::ThreadsPane, action: Action::Reply, group: "Thread list"@, label: "reply"@, menu_section: 0 }
    } else if i == 111 {
        BindingView { keys: seq![seq![sc('r')]], place: Where::ThreadsPane, action: Action::ToggleResolved, group: "Thread list"@, label: "resolve or reopen"@, menu_section: 0 }
    } else if i == 112 {
        BindingView { keys: seq![seq![sc('R')]], place: Where::ThreadsPane, action: Action::ToggleAutoResolve, group: "Thread list"@, label: "toggle auto-resolve"@, menu_section: 0 }
    } else if i == 113 {
        BindingView { keys: seq![seq![sc('a')]], place: Where::ThreadsPane, action: Action::ArchiveThread, group: "Thread list"@, label: "archive thread"@, menu_section: 0 }
    } else if i == 114 {
        BindingView { keys: seq![seq![sc('u')]], place: Where::ThreadsPane, action: Action::RestoreThread, group: "Thread list"@, label: "restore thread"@, menu_section: 0 }
    } else if i == 115 {
        BindingView { keys: seq![seq![sc('d'), sc('d')]], place: Where::ThreadsPane, action: Action::Delete, group: "Thread list"@, label: "delete the thread"@, menu_section: 0 }
    } else {
        BindingView { keys: seq![seq![sk(Key::Esc)]], place: Where::ThreadsPane, action: Action::Escape, group: "Thread list"@, label: "back to the text; the pane stays"@, menu_section: 0 }
    }
}

fn binding_rows_8(i: usize) -> (b: Binding)
    requires
        104 <= i < 117,
    ensures
        b@ == rows_8(i as int),
{
    match i {
        104 => bind(Where::ThreadsPane, alts1(one(c('s'))), Action::PaneScope, "Thread list", "this file, or the workspace"),
        105 => bind(Where::ThreadsPane, alts1(one(c('x'))), Action::ReviewResolved, "Thread list", "show or hide resolved threads"),
        106 => bind(Where::Any, alts1(three(c(' '), c('T'), c('s'))), Action::PaneScope, "Space menu", "thread list: this file, or the workspace"),
        107 => bind(Where::Any, alts1(three(c(' '), c('T'), c('x'))), Action::ReviewResolved, "Space menu", "thread list: show or hide resolved threads"),
        108 => bind(Where::ThreadsPane, alts1(one(c('z'))), Action::Fold, "Thread list", "fold or unfold the file"),
        109 => bind(Where::ThreadsPane, alts1(one(c('Z'))), Action::FoldAll, "Thread list", "fold every file, or unfold them all"),
        110 => bind(Where::ThreadsPane, alts1(one(c('c'))), Action::Reply, "Thread list", "reply"),
        111 => bind(Where::ThreadsPane, alts1(one(c('r'))), Action::ToggleResolved, "Thread list", "resolve or reopen"),
        112 => bind(Where::ThreadsPane, alts1(one(c('R'))), Action::ToggleAutoResolve, "Thread list", "toggle auto-resolve"),
        113 => bind(Where::ThreadsPane, alts1(one(c('a'))), Action::ArchiveThread, "Thread list", "archive thread"),
        114 => bind(Where::ThreadsPane, alts1(one(c('u'))), Action::RestoreThread, "Thread list", "restore thread"),
        115 => bind(Where::ThreadsPane, alts1(two(c('d'), c('d'))), Action::Delete, "Thread list", "delete the thread"),
        _ => bind(Where::ThreadsPane, alts1(one(k(Key::Esc))), Action::Escape, "Thread list", "back to the text; the pane stays"),
    }
}

/// Rows 117 to 129 of the table.
pub open spec fn rows_9(i: int) -> BindingView {
    if i == 117 {
        BindingView { keys: seq![seq![sc('j')], seq![sk(Key::Down)]], place: Where::Review, action: Action::ThreadNext, group: "Threads"@, label: "next thread"@, menu_section: 0 }
    } else if i == 118 {
        BindingView { keys: seq![seq![sc('k')], seq![sk(Key::Up)]], place: Where::Review, action: Action::ThreadPrev, group: "Threads"@, label: "previous thread"@, menu_section: 0 }
    } else if i == 119 {
        BindingView { keys: seq![seq![sc('l')], seq![sk(Key::Right)]], place: Where::Review, action: Action::MoveDown, group: "Threads"@, label: "next message"@, menu_section: 0 }
    } else if i == 120 {
        BindingView { keys: seq![seq![sc('h')], seq![sk(Key::Left)]], place: Where::Review, action: Action::MoveUp, group: "Threads"@, label: "previous message"@, menu_section: 0 }
    } else if i == 121 {
        BindingView { keys: seq![seq![sc('g'), sc('g')]], place: Where::Review, action: Action::Top, group: "Threads"@, label: "goto top"@, menu_section: 0 }
    } else if i == 122 {
        BindingView { keys: seq![seq![sc('g'), sc('e')], seq![sc('G')]], place: Where::Review, action: Action::Bottom, group: "Threads"@, label: "goto bottom"@, menu_section: 0 }
    } else if i == 123 {
        BindingView { keys: seq![seq![sctrl('d')]], place: Where::Review, action: Action::HalfPageDown, group: "Threads"@, label: "half a page down"@, menu_section: 0 }
    } else if i == 124 {
        BindingView { keys: seq![seq![sctrl('u')]], place: Where::Review, action: Action::HalfPageUp, group: "Threads"@, label: "half a page up"@, menu_section: 0 }
    } else if i == 125 {
        BindingView { keys: seq![seq![sk(Key::Enter)]], place: Where::Review, action: Action::Confirm, group: "Threads"@, label: "open the file with the thread expanded on this message"@, menu_section: 0 }
    } else if i == 126 {
        BindingView { keys: seq![seq![sc('c')]], place: Where::Review, action: Action::Reply, group: "Threads"@, label: "reply"@, menu_section: 0 }
    } else if i == 127 {
        BindingView { keys: seq![seq![sc('a')]], place: Where::Review, action: Action::ArchiveThread, group: "Threads"@, label: "archive thread"@, menu_section: 0 }
    } else if i == 128 {
        BindingView { keys: seq![seq![sc('u')]], place: Where::Review, action: Action::RestoreThread, group: "Threads"@, label: "restore thread"@, menu_section: 0 }
    } else {
        BindingView { keys: seq![seq![sc('e')]], place: Where::Review, action: Action::EditMessage, group: "Threads"@, label: "edit your message"@, menu_section: 0 }
    }
}

fn binding_rows_9(i: usize) -> (b: Binding)
    requires
        117 <= i < 130,
    ensures
        b@ == rows_9(i as int),
{
    match i {
        117 => bind(Where::Review, alts2(one(c('j')), one(k(Key::Down))), Action::ThreadNext, "Threads", "next thread"),
        118 => bind(Where::Review, alts2(one(c('k')), one(k(Key::Up))), Action::ThreadPrev, "Threads", "previous thread"),
        119 => bind(Where::Review, alts2(one(c('l')), one(k(Key::Right))), Action::MoveDown, "Threads", "next message"),
        120 => bind(Where::Review, alts2(one(c('h')), one(k(Key::Left))), Action::MoveUp, "Threads", "previous message"),
        121 => bind(Where::Review, alts1(two(c('g'), c('g'))), Action::Top, "Threads", "goto top"),
        122 => bind(Where::Review, alts2(two(c('g'), c('e')), one(c('G'))), Action::Bottom, "Threads", "goto bottom"),
        123 => bind(Where::Review, alts1(one(ctrl('d'))), Action::HalfPageDown, "Threads", "half a page down"),
        124 => bind(Where::Review, alts1(one(ctrl('u'))), Action::HalfPageUp, "Threads", "half a page up"),
        125 => bind(Where::Review, alts1(one(k(Key::Enter))), Action::Confirm, "Threads", "open the file with the thread expanded on this message"),
        126 => bind(Where::Review, alts1(one(c('c'))), Action::Reply, "Threads", "reply"),
        127 => bind(Where::Review, alts1(one(c('a'))), Action::ArchiveThread, "Threads", "archive thread"),
        128 => bind(Where::Review, alts1(one(c('u'))), Action::RestoreThread, "Threads", "restore thread"),
        _ => bind(Where::Review, alts1(one(c('e'))), Action::EditMessage, "Threads", "edit your message"),
    }
}

/// Rows 130 to 142 of the table.
pub open spec fn rows_10(i: int) -> BindingView {
    if i == 130 {
        BindingView { keys: seq![seq![sc('r')]], place: Where::Review, action: Action::ToggleResolved, group: "Threads"@, label: "resolve or reopen"@, menu_section: 0 }
    } else if i == 131 {
        BindingView { keys: seq![seq![sc('R')]], place: Where::Review, action: Action::ToggleAutoResolve, group: "Threads"@, label: "toggle auto-resolve"@, menu_section: 0 }
    } else if i == 132 {
        BindingView { keys: seq![seq![sc('d'), sc('d')]], place: Where::Review, action: Action::Delete, group: "Threads"@, label: "delete the thread"@, menu_section: 0 }
    } else if i == 133 {
        BindingView { keys: seq![seq![sc('z')]], place: Where::Review, action: Action::Fold, group: "Threads"@, label: "fold or expand the thread here, or the file on its row"@, menu_section: 0 }
    } else if i == 134 {
        BindingView { keys: seq![seq![sc('Z')]], place: Where::Review, action: Action::FoldAll, group: "Threads"@, label: "fold every thread, or expand them all"@, menu_section: 0 }
    } else if i == 135 {
        BindingView { keys: seq![seq![sc('x')]], place: Where::Review, action: Action::ReviewResolved, group: "Threads"@, label: "show or hide resolved threads"@, menu_section: 0 }
    } else if i == 136 {
        BindingView { keys: seq![seq![sc('s')]], place: Where::Review, action: Action::FileOnly, group: "Threads"@, label: "only this file"@, menu_section: 0 }
    } else if i == 137 {
        BindingView { keys: seq![seq![sk(Key::Esc)]], place: Where::Review, action: Action::Escape, group: "Threads"@, label: "back to the text"@, menu_section: 0 }
    } else if i == 138 {
        BindingView { keys: seq![seq![sk(Key::Enter)]], place: Where::Draft, action: Action::Confirm, group: "Draft"@, label: "submit, or save"@, menu_section: 0 }
    } else if i == 139 {
        BindingView { keys: seq![seq![sshift(Key::Enter)], seq![salt(Key::Enter)]], place: Where::Draft, action: Action::Newline, group: "Draft"@, label: "newline"@, menu_section: 0 }
    } else if i == 140 {
        BindingView { keys: seq![seq![Chord { key: Key::Enter, ctrl: true, alt: false, shift: false }]], place: Where::Draft, action: Action::SubmitAutoResolve, group: "Draft"@, label: "submit and enable auto-resolve"@, menu_section: 0 }
    } else if i == 141 {
        BindingView { keys: seq![seq![salt(Key::Char('k'))], seq![salt(Key::Up)]], place: Where::Draft, action: Action::ScrollUp, group: "Draft"@, label: "scroll the text up"@, menu_section: 0 }
    } else {
        BindingView { keys: seq![seq![salt(Key::Char('j'))], seq![salt(Key::Down)]], place: Where::Draft, action: Action::ScrollDown, group: "Draft"@, label: "scroll the text down"@, menu_section: 0 }
    }
}

fn binding_rows_10(i: usize) -> (b: Binding)
    requires
        130 <= i < 143,
    ensures
        b@ == rows_10(i as int),
{
    match i {
        130 => bind(Where::Review, alts1(one(c('r'))), Action::ToggleResolved, "Threads", "resolve or reopen"),
        131 => bind(Where::Review, alts1(one(c('R'))), Action::ToggleAutoResolve, "Threads", "toggle auto-resolve"),
        132 => bind(Where::Review, alts1(two(c('d'), c('d'))), Action::Delete, "Threads", "delete the thread"),
        133 => bind(Where::Review, alts1(one(c('z'))), Action::Fold, "Threads", "fold or expand the thread here, or the file on its row"),
        134 => bind(Where::Review, alts1(one(c('Z'))), Action::FoldAll, "Threads", "fold every thread, or expand them all"),
        135 => bind(Where::Review, alts1(one(c('x'))), Action::ReviewResolved, "Threads", "show or hide resolved threads"),
        136 => bind(Where::Review, alts1(one(c('s'))), Action::FileOnly, "Threads", "only this file"),
        137 => bind(Where::Review, alts1(one(k(Key::Esc))), Action::Escape, "Threads", "back to the text"),
        138 => bind(Where::Draft, alts1(one(k(Key::Enter))), Action::Confirm, "Draft", "submit, or save"),
        139 => bind(Where::Draft, alts2(one(shift(Key::Enter)), one(alt(Key::Enter))), Action::Newline, "Draft", "newline"),
        140 => bind(Where::Draft, alts1(one(Chord { key: Key::Enter, ctrl: true, alt: false, shift: false })), Action::SubmitAutoResolve, "Draft", "submit and enable auto-resolve"),
        141 => bind(Where::Draft, alts2(one(alt(Key::Char('k'))), one(alt(Key::Up))), Action::ScrollUp, "Draft", "scroll the text up"),
        _ => bind(Where::Draft, alts2(one(alt(Key::Char('j'))), one(alt(Key::Down))), Action::ScrollDown, "Draft", "scroll the text down"),
    }
}

/// Rows 143 to 155 of the table.
pub open spec fn rows_11(i: int) -> BindingView {
    if i == 143 {
        BindingView { keys: seq![seq![sctrl('e')]], place: Where::Draft, action: Action::EditDraft, group: "Draft"@, label: "edit the draft in $EDITOR"@, menu_section: 0 }
    } else if i == 144 {
        BindingView { keys: seq![seq![sk(Key::Left)]], place: Where::Draft, action: Action::MoveLeft, group: "Draft"@, label: "left"@, menu_section: 0 }
    } else if i == 145 {
        BindingView { keys: seq![seq![sk(Key::Right)]], place: Where::Draft, action: Action::MoveRight, group: "Draft"@, label: "right"@, menu_section: 0 }
    } else if i == 146 {
        BindingView { keys: seq![seq![sk(Key::Up)]], place: Where::Draft, action: Action::MoveUp, group: "Draft"@, label: "up"@, menu_section: 0 }
    } else if i == 147 {
        BindingView { keys: seq![seq![sk(Key::Down)]], place: Where::Draft, action: Action::MoveDown, group: "Draft"@, label: "down"@, menu_section: 0 }
    } else if i == 148 {
        BindingView { keys: seq![seq![sk(Key::Home)], seq![sctrl('a')]], place: Where::Draft, action: Action::LineStart, group: "Draft"@, label: "line start"@, menu_section: 0 }
    } else if i == 149 {
        BindingView { keys: seq![seq![sk(Key::End)]], place: Where::Draft, action: Action::LineEnd, group: "Draft"@, label: "line end"@, menu_section: 0 }
    } else if i == 150 {
        BindingView { keys: seq![seq![salt(Key::Char('b'))]], place: Where::Draft, action: Action::WordBack, group: "Draft"@, label: "word back"@, menu_section: 0 }
    } else if i == 151 {
        BindingView { keys: seq![seq![salt(Key::Char('f'))]], place: Where::Draft, action: Action::WordForward, group: "Draft"@, label: "word forward"@, menu_section: 0 }
    } else if i == 152 {
        BindingView { keys: seq![seq![sk(Key::Backspace)]], place: Where::Draft, action: Action::Backspace, group: "Draft"@, label: "delete back"@, menu_section: 0 }
    } else if i == 153 {
        BindingView { keys: seq![seq![sk(Key::Delete)]], place: Where::Draft, action: Action::DeleteForward, group: "Draft"@, label: "delete forward"@, menu_section: 0 }
    } else if i == 154 {
        BindingView { keys: seq![seq![sctrl('w')]], place: Where::Draft, action: Action::DeleteWordBack, group: "Draft"@, label: "delete the word back"@, menu_section: 0 }
    } else {
        BindingView { keys: seq![seq![sctrl('u')]], place: Where::Draft, action: Action::DeleteToLineStart, group: "Draft"@, label: "delete to line start"@, menu_section: 0 }
    }
}

fn binding_rows_11(i: usize) -> (b: Binding)
    requires
        143 <= i < 156,
    ensures
        b@ == rows_11(i as int),
{
    match i {
        143 => bind(Where::Draft, alts1(one(ctrl('e'))), Action::EditDraft, "Draft", "edit the draft in $EDITOR"),
        144 => bind(Where::Draft, alts1(one(k(Key::Left))), Action::MoveLeft, "Draft", "left"),
        145 => bind(Where::Draft, alts1(one(k(Key::Right))), Action::MoveRight, "Draft", "right"),
        146 => bind(Where::Draft, alts1(one(k(Key::Up))), Action::MoveUp, "Draft", "up"),
        147 => bind(Where::Draft, alts1(one(k(Key::Down))), Action::MoveDown, "Draft", "down"),
        148 => bind(Where::Draft, alts2(one(k(Key::Home)), one(ctrl('a'))), Action::LineStart, "Draft", "line start"),
        149 => bind(Where::Draft, alts1(one(k(Key::End))), Action::LineEnd, "Draft", "line end"),
        150 => bind(Where::Draft, alts1(one(alt(Key::Char('b')))), Action::WordBack, "Draft", "word back"),
        151 => bind(Where::Draft, alts1(one(alt(Key::Char('f')))), Action::WordForward, "Draft", "word forward"),
        152 => bind(Where::Draft, alts1(one(k(Key::Backspace))), Action::Backspace, "Draft", "delete back"),
        153 => bind(Where::Draft, alts1(one(k(Key::Delete))), Action::DeleteForward, "Draft", "delete forward"),
        154 => bind(Where::Draft, alts1(one(ctrl('w'))), Action::DeleteWordBack, "Draft", "delete the word back"),
        _ => bind(Where::Draft, alts1(one(ctrl('u'))), Action::DeleteToLineStart, "Draft", "delete to line start"),
    }
}

/// Rows 156 to 168 of the table.
pub open spec fn rows_12(i: int) -> BindingView {
    if i == 156 {
        BindingView { keys: seq![seq![sctrl('k')]], place: Where::Draft, action: Action::DeleteToLineEnd, group: "Draft"@, label: "delete to line end"@, menu_section: 0 }
    } else if i == 157 {
        BindingView { keys: seq![seq![sctrl('c')]], place: Where::Draft, action: Action::ClearDraft, group: "Draft"@, label: "clear the draft; empty closes"@, menu_section: 0 }
    } else if i == 158 {
        BindingView { keys: seq![seq![sk(Key::Esc)]], place: Where::Draft, action: Action::Escape, group: "Draft"@, label: "cancel; twice after a change"@, menu_section: 0 }
    } else if i == 159 {
        BindingView { keys: seq![seq![sk(Key::Down)], seq![sctrl('j')]], place: Where::Picker, action: Action::MoveDown, group: "Picker"@, label: "down"@, menu_section: 0 }
    } else if i == 160 {
        BindingView { keys: seq![seq![sk(Key::Up)], seq![sctrl('k')]], place: Where::Picker, action: Action::MoveUp, group: "Picker"@, label: "up"@, menu_section: 0 }
    } else if i == 161 {
        BindingView { keys: seq![seq![sk(Key::Enter)]], place: Where::Picker, action: Action::Confirm, group: "Picker"@, label: "open"@, menu_section: 0 }
    } else if i == 162 {
        BindingView { keys: seq![seq![sk(Key::Backspace)]], place: Where::Picker, action: Action::Backspace, group: "Picker"@, label: "delete back"@, menu_section: 0 }
    } else if i == 163 {
        BindingView { keys: seq![seq![sk(Key::Esc)]], place: Where::Picker, action: Action::Escape, group: "Picker"@, label: "close"@, menu_section: 0 }
    } else if i == 164 {
        BindingView { keys: seq![seq![sk(Key::Enter)]], place: Where::Input, action: Action::Confirm, group: "Command line"@, label: "run, or keep the match"@, menu_section: 0 }
    } else if i == 165 {
        BindingView { keys: seq![seq![sk(Key::Backspace)]], place: Where::Input, action: Action::Backspace, group: "Command line"@, label: "delete back"@, menu_section: 0 }
    } else if i == 166 {
        BindingView { keys: seq![seq![sk(Key::Tab)]], place: Where::Input, action: Action::CompleteNext, group: "Command line"@, label: "next command completion"@, menu_section: 0 }
    } else if i == 167 {
        BindingView { keys: seq![seq![sk(Key::BackTab)]], place: Where::Input, action: Action::CompletePrevious, group: "Command line"@, label: "previous command completion"@, menu_section: 0 }
    } else {
        BindingView { keys: seq![seq![sk(Key::Esc)]], place: Where::Input, action: Action::Escape, group: "Command line"@, label: "cancel"@, menu_section: 0 }
    }
}

fn binding_rows_12(i: usize) -> (b: Binding)
    requires
        156 <= i < 169,
    ensures
        b@ == rows_12(i as int),
{
    match i {
        156 => bind(Where::Draft, alts1(one(ctrl('k'))), Action::DeleteToLineEnd, "Draft", "delete to line end"),
        157 => bind(Where::Draft, alts1(one(ctrl('c'))), Action::ClearDraft, "Draft", "clear the draft; empty closes"),
        158 => bind(Where::Draft, alts1(one(k(Key::Esc))), Action::Escape, "Draft", "cancel; twice after a change"),
        159 => bind(Where::Picker, alts2(one(k(Key::Down)), one(ctrl('j'))), Action::MoveDown, "Picker", "down"),
        160 => bind(Where::Picker, alts2(one(k(Key::Up)), one(ctrl('k'))), Action::MoveUp, "Picker", "up"),
        161 => bind(Where::Picker, alts1(one(k(Key::Enter))), Action::Confirm, "Picker", "open"),
        162 => bind(Where::Picker, alts1(one(k(Key::Backspace))), Action::Backspace, "Picker", "delete back"),
        163 => bind(Where::Picker, alts1(one(k(Key::Esc))), Action::Escape, "Picker", "close"),
        164 => bind(Where::Input, alts1(one(k(Key::Enter))), Action::Confirm, "Command line", "run, or keep the match"),
        165 => bind(Where::Input, alts1(one(k(Key::Backspace))), Action::Backspace, "Command line", "delete back"),
        166 => bind(Where::Input, alts1(one(k(Key::Tab))), Action::CompleteNext, "Command line", "next command completion"),
        167 => bind(Where::Input, alts1(one(k(Key::BackTab))), Action::CompletePrevious, "Command line", "previous command completion"),
        _ => bind(Where::Input, alts1(one(k(Key::Esc))), Action::Escape, "Command line", "cancel"),
    }
}

} // verus!

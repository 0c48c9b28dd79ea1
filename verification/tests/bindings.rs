use fathomable::bindings::{
    alt, applicable, bindings, c, ctrl, hint, k, lookup, menu, menu_entries, menu_sections, menu_spell,
    menu_title, no_relabel, shift, spell, submenu_word, Action, Chord, Key, Match, Where,
};

const PANES: [Where; 4] = [Where::View, Where::Tree, Where::ThreadsPane, Where::Review];

/// `Ctrl` letters zellij's lock mode owns; the viewer never binds them.
const ZELLIJ_LOCKS: [char; 9] = ['g', 'p', 't', 'n', 'h', 's', 'o', 'q', 'b'];

fn owned(pairs: &[(&str, &str)]) -> Vec<(String, String)> {
    pairs
        .iter()
        .map(|(key, label)| ((*key).to_owned(), (*label).to_owned()))
        .collect()
}

#[test]
fn shifted_arrows_and_hjkl_share_comparison_navigation() {
    for (keys, action) in [
        ([c('J')], Action::ChangeNext),
        ([shift(Key::Down)], Action::ChangeNext),
        ([c('K')], Action::ChangePrev),
        ([shift(Key::Up)], Action::ChangePrev),
        ([c('L')], Action::ChangeFileNext),
        ([shift(Key::Right)], Action::ChangeFileNext),
        ([c('H')], Action::ChangeFilePrev),
        ([shift(Key::Left)], Action::ChangeFilePrev),
    ] {
        assert_eq!(lookup(Where::View, &keys), Match::Exact(action));
    }
}

#[test]
fn goto_menu_is_navigation_only_and_policy_keys_use_space() {
    assert_eq!(
        menu(Where::View, &[c('g')]),
        owned(&[
            ("g", "goto top"),
            ("e", "goto bottom"),
            ("l", "goto line end"),
            ("h", "goto line start"),
            ("f", "open linked file/URL"),
        ])
    );
    for suffix in ['s', 'd', 'D', 'y', 'x'] {
        assert_eq!(lookup(Where::View, &[c('g'), c(suffix)]), Match::Miss);
    }
    for place in PANES {
        for (keys, action) in [
            ([c(' '), c('v'), c('s')], Action::SourceView),
            ([c(' '), c('d'), c('s')], Action::DiffStandard),
            ([c(' '), c('d'), c('u')], Action::DiffUnified),
            ([c(' '), c('d'), c('o')], Action::DiffOff),
            ([c(' '), c('d'), c('b')], Action::ComparisonBase),
            ([c(' '), c('d'), c('d')], Action::ComparisonHeadWorkingTree),
            ([c(' '), c('d'), c('r')], Action::ComparisonManage),
        ] {
            assert_eq!(lookup(place, &keys), Match::Exact(action));
        }
        assert_eq!(lookup(place, &[c(' '), c('d'), c('x')]), Match::Miss);
    }
    assert_eq!(lookup(Where::View, &[c('b')]), Match::Miss);
}

#[test]
fn no_surface_has_two_meanings_for_one_sequence() {
    let table = bindings();
    let places = [
        Where::View,
        Where::Tree,
        Where::ThreadsPane,
        Where::Review,
        Where::Draft,
        Where::Picker,
        Where::Input,
    ];
    for place in places {
        let sequences: Vec<(&[Chord], Action)> = applicable(&table, place)
            .into_iter()
            .flat_map(|i| {
                let b = &table[i];
                b.keys.iter().map(move |keys| (keys.as_slice(), b.action))
            })
            .collect();
        for (i, (keys, action)) in sequences.iter().enumerate() {
            for (other, other_action) in &sequences[i + 1..] {
                assert!(
                    !(keys == other && action == other_action),
                    "{place:?} binds {} twice",
                    spell(keys)
                );
                assert!(
                    keys != other,
                    "{place:?} binds {} to both {action:?} and {other_action:?}",
                    spell(keys)
                );
                assert!(
                    !(other.starts_with(keys) || keys.starts_with(other)),
                    "{place:?}: {} is a prefix of {}",
                    spell(keys),
                    spell(other)
                );
            }
        }
    }
}

#[test]
fn no_binding_uses_a_zellij_lock_chord() {
    for binding in bindings() {
        for keys in &binding.keys {
            for chord in keys {
                assert!(
                    !(chord.ctrl && matches!(chord.key, Key::Char(ch) if ZELLIJ_LOCKS.contains(&ch))),
                    "{:?} binds {}, a zellij lock",
                    binding.action,
                    spell(keys)
                );
            }
        }
    }
}

#[test]
fn every_pane_can_leave_and_command() {
    for place in PANES {
        assert_eq!(lookup(place, &[k(Key::Esc)]), Match::Exact(Action::Escape), "{place:?}");
        assert_eq!(lookup(place, &[c(':')]), Match::Exact(Action::CommandLine), "{place:?}");
        assert_eq!(lookup(place, &[c(' ')]), Match::Prefix, "{place:?}");
    }
    for place in [Where::Draft, Where::Picker, Where::Input] {
        assert_eq!(lookup(place, &[k(Key::Esc)]), Match::Exact(Action::Escape));
        assert_eq!(lookup(place, &[c(' ')]), Match::Miss, "{place:?}");
    }
}

#[test]
fn menus_come_from_the_table() {
    let space = menu(Where::View, &[c(' ')]);
    assert!(space.iter().any(|(key, label)| key == "?" && label == "view keymap"));
    for (key, word) in [
        ("f", "open files…"),
        ("F", "files…"),
        ("p", "panes…"),
        ("t", "threads…"),
        ("T", "thread list…"),
        ("v", "view…"),
        ("d", "diff…"),
    ] {
        let entries: Vec<&str> = space
            .iter()
            .filter(|(k, _)| k == key)
            .map(|(_, label)| label.as_str())
            .collect();
        assert_eq!(entries, [word], "Space {key} is one submenu entry");
    }
    let keys = |place, typed: &[Chord]| {
        menu(place, typed).into_iter().map(|(key, _)| key).collect::<Vec<_>>()
    };
    assert_eq!(lookup(Where::View, &[c(' '), c('j')]), Match::Miss);
    assert_eq!(lookup(Where::View, &[c(']'), c('f')]), Match::Miss);
    assert_eq!(lookup(Where::View, &[c('['), c('f')]), Match::Miss);
    assert_eq!(
        keys(Where::View, &[c(' '), c('t')]),
        ["R", "h", "a", "A", "c", "r", "e", "d", "f"]
    );
    assert_eq!(keys(Where::View, &[c(' '), c('T')]), ["s", "x"]);
    assert_eq!(keys(Where::Review, &[c(' '), c('v')]), ["s", "t", "r"]);
    assert_eq!(
        keys(Where::Review, &[c(' '), c('d')]),
        ["s", "u", "o", "b", "t", "d", "l", "c", "p", "r", "w"]
    );
    assert_eq!(keys(Where::View, &[c(' '), c('F')]), ["c", "o", "u", "i"]);
    assert_eq!(keys(Where::View, &[c(' '), c('f')]), ["f", "i", "r"]);
    assert_eq!(lookup(Where::View, &[c(' '), c('c')]), Match::Miss);
    assert_eq!(lookup(Where::View, &[c(' '), c('w')]), Match::Miss);
    assert_eq!(lookup(Where::View, &[c('w')]), Match::Exact(Action::WindowNext));
    assert_eq!(lookup(Where::View, &[c('W')]), Match::Exact(Action::WindowPrev));
    assert_eq!(lookup(Where::View, &[c('F')]), Match::Exact(Action::WindowFiles));
    assert_eq!(lookup(Where::View, &[c('T')]), Match::Exact(Action::WindowThreads));
    assert_eq!(
        lookup(Where::View, &[c(' '), c('d'), c('w')]),
        Match::Exact(Action::ComparisonWhitespace)
    );
    assert_eq!(keys(Where::View, &[c(' '), c('p')]), ["f", "s", "m", "t"]);
    assert_eq!(lookup(Where::View, &[c(' '), c('a')]), Match::Miss);
    assert_eq!(lookup(Where::ThreadsPane, &[c(' '), c(' ')]), Match::Miss);
    assert!(menu(Where::Draft, &[c(' ')]).is_empty());
}

#[test]
fn pane_settings_share_local_and_remote_suffixes() {
    for (suffix, action) in [
        ('c', Action::FilesChanged),
        ('o', Action::FilesReviews),
        ('u', Action::FilesUntracked),
        ('i', Action::FilesIgnored),
    ] {
        assert_eq!(lookup(Where::Tree, &[c(suffix)]), Match::Exact(action));
        assert_eq!(lookup(Where::View, &[c(' '), c('F'), c(suffix)]), Match::Exact(action));
    }
    for (suffix, action) in [('s', Action::PaneScope), ('x', Action::ReviewResolved)] {
        assert_eq!(lookup(Where::ThreadsPane, &[c(suffix)]), Match::Exact(action));
        assert_eq!(lookup(Where::View, &[c(' '), c('T'), c(suffix)]), Match::Exact(action));
    }
}

#[test]
fn mixed_submenus_keep_semantic_sections() {
    let sections = menu_sections(Where::View, &[c(' '), c('d')], no_relabel);
    assert_eq!(
        sections
            .iter()
            .map(|section| section.entries().len())
            .collect::<Vec<_>>(),
        [3, 5, 2, 1]
    );
}

#[test]
fn a_submenu_entry_does_not_repeat_the_submenu_word() {
    for (prefix, word) in [
        (c('f'), "open files"),
        (c('F'), "files"),
        (c('p'), "panes"),
        (c('t'), "threads"),
        (c('T'), "thread list"),
        (c('v'), "view"),
        (c('d'), "diff"),
        (c('j'), "jump"),
    ] {
        for (key, label) in menu(Where::View, &[c(' '), prefix]) {
            assert!(
                !label.starts_with(&format!("{word}: ")),
                "{key} still says {word}: {label}"
            );
        }
    }
    let stub = menu(Where::View, &[c(' '), c('v')]);
    assert!(
        stub.iter().any(|(key, label)| key == "r" && label == "toggle resolved stubs"),
        "{stub:?}"
    );
}

#[test]
fn resolved_stub_shortcut_is_migrated_without_an_alias() {
    for place in PANES {
        assert_eq!(
            lookup(place, &[c(' '), c('v'), c('r')]),
            Match::Exact(Action::StubResolvedToggle),
            "{place:?}"
        );
        assert_eq!(lookup(place, &[c(' '), c('v'), c('x')]), Match::Miss, "{place:?}");
    }
    assert_eq!(
        menu(Where::View, &[c(' '), c('v')]),
        owned(&[
            ("s", "source view"),
            ("t", "toggle thread stubs"),
            ("r", "toggle resolved stubs"),
        ])
    );
}

#[test]
fn every_space_submenu_is_named() {
    for binding in bindings() {
        for keys in &binding.keys {
            if keys.len() > 2 && keys[0] == c(' ') {
                assert!(
                    submenu_word(&keys[..2]).is_some(),
                    "{} has no submenu name",
                    spell(&keys[..2])
                );
            }
        }
    }
    assert_eq!(menu_title(&[c(' ')]), "Space");
    assert_eq!(menu_title(&[c(' '), c('t')]), "Space t · threads");
    assert_eq!(menu_title(&[c(' '), c('T')]), "Space T · thread list");
    assert_eq!(menu_title(&[c('g')]), "g");
}

#[test]
fn sequences_are_spelled_the_way_the_guide_writes_them() {
    assert_eq!(spell(&[c('g'), c('g')]), "gg");
    assert_eq!(spell(&[c(']'), c('c')]), "]c");
    assert_eq!(spell(&[c(' '), c('d'), c('s')]), "Space d s");
    assert_eq!(menu_spell(&[c(' '), c('j'), c('j')]), "Sp j j");
    assert_eq!(lookup(Where::Any, &[c(' '), c('j'), c('a')]), Match::Miss);
    assert_eq!(spell(&[ctrl('d')]), "Ctrl-d");
    assert_eq!(spell(&[shift(Key::Enter)]), "Shift-Enter");
    assert_eq!(spell(&[alt(Key::Enter)]), "Alt-Enter");
    assert_eq!(hint(Where::Review, Action::Reply).as_deref(), Some("c"));
    assert_eq!(hint(Where::Tree, Action::CopyPath).as_deref(), Some("y"));
    assert_eq!(hint(Where::Tree, Action::CopyFullPath).as_deref(), Some("Y"));
    assert_eq!(hint(Where::View, Action::Reply).as_deref(), Some("Space t r"));
    assert_eq!(lookup(Where::View, &[c('r')]), Match::Exact(Action::ToggleResolved));
    assert_eq!(lookup(Where::View, &[c('R')]), Match::Exact(Action::ToggleAutoResolve));
    assert_eq!(lookup(Where::View, &[c('a')]), Match::Exact(Action::ArchiveThread));
    assert_eq!(lookup(Where::ThreadsPane, &[c('a')]), Match::Exact(Action::ArchiveThread));
    assert_eq!(lookup(Where::ThreadsPane, &[c('u')]), Match::Exact(Action::RestoreThread));
    assert_eq!(lookup(Where::View, &[c('t')]), Match::Exact(Action::Review));
    assert_eq!(lookup(Where::View, &[c('f')]), Match::Exact(Action::FileView));
    assert_eq!(lookup(Where::Review, &[c('s')]), Match::Exact(Action::FileOnly));
    for place in [Where::Draft, Where::Picker, Where::Input] {
        assert_eq!(lookup(place, &[c('q')]), Match::Miss);
        assert_eq!(lookup(place, &[c('t')]), Match::Miss);
        assert_eq!(lookup(place, &[c('f')]), Match::Miss);
        assert_eq!(lookup(place, &[c('r')]), Match::Miss);
        assert_eq!(lookup(place, &[c('R')]), Match::Miss);
    }
    for place in PANES {
        assert_eq!(lookup(place, &[c('q')]), Match::Exact(Action::ConfirmQuit));
    }
    assert_eq!(
        lookup(
            Where::Draft,
            &[Chord {
                key: Key::Enter,
                ctrl: true,
                alt: false,
                shift: false,
            }]
        ),
        Match::Exact(Action::SubmitAutoResolve)
    );
    assert_eq!(lookup(Where::Draft, &[shift(Key::Enter)]), Match::Exact(Action::Newline));
    assert_eq!(lookup(Where::Draft, &[alt(Key::Enter)]), Match::Exact(Action::Newline));
    assert_eq!(lookup(Where::Draft, &[k(Key::Enter)]), Match::Exact(Action::Confirm));
    assert_eq!(hint(Where::Review, Action::CommandLine).as_deref(), Some(":"));
    assert_eq!(hint(Where::Draft, Action::CommandLine), None);
}

#[test]
fn chords_and_keys_have_their_names() {
    assert_eq!(c(' ').to_string(), "Space");
    assert_eq!(k(Key::BackTab).to_string(), "Shift-Tab");
    assert_eq!(ctrl('d').to_string(), "Ctrl-d");
    assert_eq!(alt(Key::Left).to_string(), "Alt-Left");
    assert_eq!(Key::Char('x').to_string(), "x");
    assert!(c('g').is_plain_char());
    assert!(!c(' ').is_plain_char());
    assert!(!ctrl('g').is_plain_char());
}

#[test]
fn relabelled_entries_show_the_live_label() {
    let live = |action: Action| (action == Action::StubsToggle).then_some("show thread stubs");
    let sections = menu_sections(Where::View, &[c(' '), c('v')], live);
    let labels: Vec<String> = sections
        .iter()
        .flat_map(|section| section.entries().iter().map(|e| e.label().to_owned()))
        .collect();
    assert_eq!(labels, ["source view", "show thread stubs", "toggle resolved stubs"]);
    let first = &sections[0].entries()[0];
    assert_eq!(first.key(), "s");
    assert_eq!(first.chord(), c('s'));
}

/// Every action, in declaration order.
const ALL_ACTIONS: [Action; 108] = [
    Action::MoveDown,
    Action::MoveUp,
    Action::MoveLeft,
    Action::MoveRight,
    Action::LineStart,
    Action::LineEnd,
    Action::GotoLineStart,
    Action::GotoLineEnd,
    Action::Top,
    Action::Bottom,
    Action::HalfPageDown,
    Action::HalfPageUp,
    Action::ScrollDown,
    Action::ScrollUp,
    Action::SearchForward,
    Action::SearchBackward,
    Action::SearchNext,
    Action::SearchPrev,
    Action::SelectChars,
    Action::SelectLines,
    Action::ExtendLine,
    Action::Yank,
    Action::GotoFile,
    Action::CopyPath,
    Action::CopyFullPath,
    Action::Comment,
    Action::NewThread,
    Action::FileComment,
    Action::SourceView,
    Action::DiffStandard,
    Action::DiffUnified,
    Action::DiffOff,
    Action::ComparisonSave,
    Action::ComparisonManage,
    Action::ComparisonBase,
    Action::ComparisonTarget,
    Action::ComparisonHeadWorkingTree,
    Action::ComparisonHeadParent,
    Action::ComparisonCommitParent,
    Action::WorktreeNext,
    Action::WorktreePrev,
    Action::ComparisonWhitespace,
    Action::StubsToggle,
    Action::FilesChanged,
    Action::FilesReviews,
    Action::FilesUntracked,
    Action::FilesIgnored,
    Action::ChangeNext,
    Action::ChangePrev,
    Action::ChangeFileNext,
    Action::ChangeFilePrev,
    Action::JumpBack,
    Action::JumpForward,
    Action::ConfirmQuit,
    Action::CommandLine,
    Action::Escape,
    Action::Confirm,
    Action::TreeToggle,
    Action::PickFile,
    Action::PickAnyFile,
    Action::PickRecent,
    Action::FileView,
    Action::Review,
    Action::ReviewRecentlyResolved,
    Action::ReviewArchived,
    Action::ArchiveResolved,
    Action::ClearBoard,
    Action::ArchiveThread,
    Action::RestoreThread,
    Action::SidebarToggle,
    Action::MenuBarToggle,
    Action::ThreadsPaneToggle,
    Action::WindowNext,
    Action::WindowPrev,
    Action::WindowFiles,
    Action::WindowThreads,
    Action::ApplicationMenu,
    Action::PaneScope,
    Action::ReviewResolved,
    Action::Help,
    Action::ThreadNext,
    Action::ThreadPrev,
    Action::OpenThreadNext,
    Action::OpenThreadPrev,
    Action::Reply,
    Action::EditMessage,
    Action::EditNewestOwn,
    Action::StubResolvedToggle,
    Action::ToggleResolved,
    Action::ToggleAutoResolve,
    Action::Delete,
    Action::DeleteThread,
    Action::Fold,
    Action::FoldAll,
    Action::FileOnly,
    Action::Newline,
    Action::SubmitAutoResolve,
    Action::CompleteNext,
    Action::CompletePrevious,
    Action::Backspace,
    Action::DeleteForward,
    Action::WordBack,
    Action::WordForward,
    Action::DeleteWordBack,
    Action::DeleteToLineStart,
    Action::DeleteToLineEnd,
    Action::ClearDraft,
    Action::EditDraft,
];

/// An action nobody can press is dead code the table would hide.
#[test]
fn every_action_is_bound() {
    let table = bindings();
    for action in ALL_ACTIONS {
        assert!(table.iter().any(|b| b.action == action), "{action:?} has no binding");
    }
}

#[test]
fn the_menu_shows_a_breadcrumb_for_the_prefix() {
    assert_eq!(menu_title(&[c(' ')]), "Space");
    let space = menu_entries(Where::View, &[c(' ')], no_relabel);
    assert!(space.iter().any(|(_, label)| label == "threads…"));
    // The table puts the threads submenu under Space t.
    assert_eq!(menu_title(&[c(' '), c('t')]), "Space t · threads");
    let threads = menu_entries(Where::View, &[c(' '), c('t')], no_relabel);
    assert!(threads.iter().any(|(_, label)| label == "new thread"));
    assert!(matches!(lookup(Where::View, &[c(' '), c('t'), c('r')]), Match::Exact(Action::Reply)));
}

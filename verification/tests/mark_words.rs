use fathomable::mark_words::{label, MarkKind, Status, Thread, Words};

fn thread(awaits_user: bool, status: Status) -> Thread {
    Thread { awaits_user, status }
}

#[test]
fn placement_words_are_only_detached_and_edited() {
    let open = thread(false, Status::Open);
    assert_eq!(Words::of(Some(MarkKind::Detached), &open).placement(), Some(MarkKind::Detached));
    assert_eq!(Words::of(Some(MarkKind::Edited), &open).placement(), Some(MarkKind::Edited));
    assert_eq!(Words::of(Some(MarkKind::Open), &open).placement(), None);
    assert_eq!(Words::of(None, &open).placement(), None);
}

#[test]
fn the_state_word_is_never_hidden_by_placement() {
    let words = Words::of(Some(MarkKind::Detached), &thread(false, Status::Resolved));
    assert_eq!(words.state(), MarkKind::Resolved);
    assert!(words.is_resolved());
    let waiting = Words::of(Some(MarkKind::Edited), &thread(true, Status::Resolved));
    assert_eq!(waiting.state(), MarkKind::Waiting);
    assert!(!waiting.is_resolved());
    let auto = Words::of(None, &thread(false, Status::AutoResolved));
    assert_eq!(auto.state(), MarkKind::AutoResolved);
    assert!(auto.is_resolved());
    assert!(!Words::of(None, &thread(false, Status::Open)).is_resolved());
}

#[test]
fn every_kind_has_its_word() {
    assert_eq!(label(MarkKind::Detached), "detached");
    assert_eq!(label(MarkKind::Edited), "edited");
    assert_eq!(label(MarkKind::Waiting), "waiting");
    assert_eq!(label(MarkKind::Open), "open");
    assert_eq!(label(MarkKind::Resolved), "resolved");
    assert_eq!(label(MarkKind::AutoResolved), "auto-resolved");
}

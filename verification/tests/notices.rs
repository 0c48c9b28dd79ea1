use fathomable::notices::{seen_summary, NoticeTone, Notices, ToastKind, MAX_TOASTS};
use fathomable::text::decimal_string;

fn texts(n: &Notices) -> Vec<String> {
    n.toasts().iter().map(|t| t.text().to_owned()).collect()
}

#[test]
fn numbers_are_written_in_decimal() {
    assert_eq!(decimal_string(0), "0");
    assert_eq!(decimal_string(7), "7");
    assert_eq!(decimal_string(10), "10");
    assert_eq!(decimal_string(4096), "4096");
    assert_eq!(decimal_string(usize::MAX), usize::MAX.to_string());
}

#[test]
fn only_the_newest_toasts_stay_past_the_cap() {
    let mut n = Notices::new(1000);
    for (i, text) in ["a", "b", "c", "d"].iter().enumerate() {
        n.push_toast(text.to_string(), i as u64);
    }
    assert_eq!(n.toasts().len(), MAX_TOASTS);
    assert_eq!(texts(&n), ["b", "c", "d"]);
    assert_eq!(n.toasts()[0].until(), 1001);
    assert!(matches!(n.toasts()[2].kind(), ToastKind::Plain));
}

#[test]
fn toasts_that_live_for_no_time_are_never_raised() {
    let mut n = Notices::new(0);
    n.push_toast("gone".to_string(), 5);
    n.push_file_edit_toast("a.md".to_string(), 1, 2, 5);
    assert!(n.toasts().is_empty());
    assert_eq!(n.tick_in(5), None);
}

#[test]
fn a_file_edit_toast_counts_the_lines_that_changed() {
    let mut n = Notices::new(1000);
    n.push_file_edit_toast("docs/a.md".to_string(), 0, 0, 0);
    n.push_file_edit_toast("docs/a.md".to_string(), 0, 3, 0);
    n.push_file_edit_toast("docs/a.md".to_string(), 12, 0, 0);
    assert_eq!(texts(&n), ["docs/a.md", "docs/a.md  -3", "docs/a.md  +12"]);
    n.push_file_edit_toast("b.md".to_string(), 12, 305, 0);
    assert_eq!(n.toasts()[2].text(), "b.md  +12  -305");
    match n.toasts()[2].kind() {
        ToastKind::FileEdit { path, added, removed } => {
            assert_eq!(path, "b.md");
            assert_eq!((*added, *removed), (12, 305));
        }
        ToastKind::Plain => panic!("a file-edit toast"),
    }
}

#[test]
fn a_tick_expires_exactly_the_toasts_whose_moment_has_come() {
    let mut n = Notices::new(100);
    n.push_toast("first".to_string(), 0);
    n.push_toast("second".to_string(), 50);
    assert_eq!(n.tick_in(20), Some(80));
    n.tick(99);
    assert_eq!(texts(&n), ["first", "second"]);
    n.tick(100);
    assert_eq!(texts(&n), ["second"]);
    assert_eq!(n.tick_in(120), Some(30));
    n.tick(200);
    assert!(n.toasts().is_empty());
    assert_eq!(n.tick_in(200), None);
}

#[test]
fn a_startup_warning_goes_by_itself_and_others_stay() {
    let mut n = Notices::new(100);
    n.startup_warning("slow disk".to_string(), 1000);
    let message = n.message().expect("a message");
    assert_eq!(message.text(), "slow disk");
    assert_eq!(message.tone(), NoticeTone::Warning);
    assert_eq!(message.until(), Some(9000));
    assert_eq!(n.tick_in(1000), Some(8000));
    n.push_toast("edit".to_string(), 1000);
    assert_eq!(n.tick_in(1000), Some(100));
    n.tick(8999);
    assert!(n.message().is_some());
    n.tick(9000);
    assert!(n.message().is_none());

    n.error("broken".to_string());
    assert_eq!(n.message().map(|m| m.tone()), Some(NoticeTone::Error));
    n.tick(u64::MAX);
    assert_eq!(n.message().map(|m| m.text().to_owned()), Some("broken".to_owned()));
    n.notice("fine".to_string());
    assert_eq!(n.message().map(|m| (m.tone(), m.until())), Some((NoticeTone::Info, None)));
    n.clear_message();
    assert!(n.message().is_none());
}

#[test]
fn marking_all_seen_counts_the_new_snapshots() {
    assert_eq!(seen_summary(0), "seen: nothing new");
    assert_eq!(seen_summary(1), "seen: 1 file");
    assert_eq!(seen_summary(12), "seen: 12 files");
}

#[test]
fn the_shared_state_warning_counts_its_ancestors() {
    assert_eq!(
        fathomable::notices::shared_state_warning(1),
        "1 group-writable state ancestor; run :doctor for details"
    );
    assert_eq!(
        fathomable::notices::shared_state_warning(3),
        "3 group-writable state ancestors; run :doctor for details"
    );
}

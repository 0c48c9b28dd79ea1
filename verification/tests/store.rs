use fathomable::store::{
    inspect_store, stable_reload, store_loaded, update_status, Inspected, Reloaded, StoreBacking,
    StoreSettle, StoreStep, StoreTrouble, UpdatesReport, THREAD_WATCH_DEGRADED,
};

#[test]
fn a_file_that_was_seen_and_vanished_keeps_the_board() {
    let step = inspect_store(StoreBacking::Observed, true, true, Inspected::NotFound);
    assert_eq!(
        step,
        StoreStep::Settle(StoreSettle {
            backing: StoreBacking::Missing,
            trouble: Some(StoreTrouble::Disappeared),
            healthy: false,
            replace: false,
            refresh: false,
        })
    );
    let seen_now = inspect_store(StoreBacking::InitiallyAbsent, true, true, Inspected::NotFound);
    assert!(matches!(seen_now, StoreStep::Settle(s) if s.backing == StoreBacking::Missing));
}

#[test]
fn a_file_that_never_existed_is_healthy_or_read() {
    let loaded = inspect_store(StoreBacking::InitiallyAbsent, true, false, Inspected::NotFound);
    assert!(matches!(loaded, StoreStep::Settle(s) if s.healthy && s.trouble.is_none()));
    let unloaded = inspect_store(StoreBacking::InitiallyAbsent, false, false, Inspected::NotFound);
    assert_eq!(unloaded, StoreStep::Load { backing: StoreBacking::InitiallyAbsent });
    let failed = inspect_store(StoreBacking::Observed, true, true, Inspected::Failed);
    assert!(matches!(failed, StoreStep::Settle(s) if s.trouble == Some(StoreTrouble::CannotInspect)));
    let present = inspect_store(StoreBacking::Observed, true, true, Inspected::Present { dev: 1, ino: 2 });
    assert_eq!(present, StoreStep::Load { backing: StoreBacking::Observed });
}

#[test]
fn a_read_is_stable_only_on_the_same_file() {
    let here = Inspected::Present { dev: 1, ino: 7 };
    assert!(stable_reload(here, true, here));
    assert!(!stable_reload(here, true, Inspected::Present { dev: 1, ino: 8 }));
    assert!(!stable_reload(here, false, here));
    assert!(stable_reload(Inspected::NotFound, false, Inspected::NotFound));
    assert!(!stable_reload(Inspected::NotFound, true, Inspected::NotFound));
}

#[test]
fn a_read_replaces_the_board_or_keeps_it() {
    let fresh = Reloaded { stable: true, unchanged: false, observed: true };
    let settled = store_loaded(StoreBacking::InitiallyAbsent, Some(fresh));
    assert_eq!(settled, StoreSettle { backing: StoreBacking::Observed, trouble: None, healthy: true, replace: true, refresh: true });
    let same = store_loaded(StoreBacking::Observed, Some(Reloaded { unchanged: true, ..fresh }));
    assert!(same.replace && !same.refresh);
    let moved = store_loaded(StoreBacking::Observed, Some(Reloaded { stable: false, ..fresh }));
    assert_eq!(moved.trouble, Some(StoreTrouble::ChangedWhileLoading));
    assert!(!moved.replace);
    let failed = store_loaded(StoreBacking::Observed, None);
    assert_eq!(failed.trouble, Some(StoreTrouble::CannotReload));
    assert!(!failed.healthy);
}

#[test]
fn the_status_combines_the_store_and_the_watcher() {
    let mut status: Option<String> = None;
    assert_eq!(update_status(&mut status, &None, false), (false, UpdatesReport::Silent));
    assert_eq!(update_status(&mut status, &None, true), (true, UpdatesReport::Degraded));
    assert_eq!(status.as_deref(), Some(THREAD_WATCH_DEGRADED));
    let gone = Some("gone".to_owned());
    assert_eq!(update_status(&mut status, &gone, true), (true, UpdatesReport::Degraded));
    assert_eq!(status.as_deref(), Some("gone"));
    assert_eq!(update_status(&mut status, &gone, false), (false, UpdatesReport::Silent));
    assert_eq!(update_status(&mut status, &None, false), (true, UpdatesReport::Restored));
    assert_eq!(status, None);
}

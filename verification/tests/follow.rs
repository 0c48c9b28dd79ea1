use fathomable::follow::{
    auto_jump_allowed, auto_jump_in, auto_jump_step, left, switches_off, Aside, Place, TargetSeen,
    TickStep, ViewState,
};

const SECOND: u128 = 1_000_000_000;

fn view(idle: u128) -> ViewState {
    ViewState { selecting: false, normal: true, diff_view: false, idle_nanos: idle }
}

#[test]
fn going_elsewhere_switches_off_but_looking_around_does_not() {
    let reading = Place::of(Some(0), false, false, false, false);
    assert_eq!(reading, Place { doc: Some(0), aside: None });
    let selecting = Place::of(Some(0), false, false, false, true);
    assert_eq!(selecting.aside, Some(Aside::Selecting));
    assert!(!left(reading, reading));
    assert!(left(reading, Place::of(Some(1), false, false, false, false)));
    assert!(left(reading, selecting));
    assert!(!left(selecting, reading));
    let composing = Place::of(Some(0), true, true, true, true);
    assert_eq!(composing.aside, Some(Aside::Compose));
    assert_eq!(Place::of(None, false, true, true, false).aside, Some(Aside::List));
    assert_eq!(Place::of(None, false, false, true, true).aside, Some(Aside::Diff));
}

#[test]
fn auto_jump_waits_for_a_quiet_queue_and_an_idle_reader() {
    let wait = auto_jump_in(true, false, false, false, Some(view(SECOND)), Some(SECOND / 2), 2 * SECOND);
    assert_eq!(wait, Some(2 * SECOND));
    let wait = auto_jump_in(true, false, false, false, Some(view(10 * SECOND)), Some(0), 0);
    assert_eq!(wait, Some(50_000_000));
    let wait = auto_jump_in(true, false, false, false, None, None, 5 * SECOND);
    assert_eq!(wait, Some(5 * SECOND));
}

#[test]
fn a_blocking_popup_or_busy_view_suspends_the_timer() {
    assert_eq!(auto_jump_in(false, false, false, false, None, None, 0), None);
    assert_eq!(auto_jump_in(true, true, false, false, None, None, 0), None);
    assert_eq!(auto_jump_in(true, false, true, false, None, None, 0), None);
    let busy = ViewState { selecting: true, ..view(10 * SECOND) };
    assert_eq!(auto_jump_in(true, false, false, false, Some(busy), None, 0), None);
}

#[test]
fn auto_jump_moves_only_when_nothing_holds_it() {
    assert!(auto_jump_allowed(false, false, None));
    assert!(auto_jump_allowed(false, false, Some(view(3 * SECOND))));
    assert!(!auto_jump_allowed(false, false, Some(view(SECOND))));
    assert!(!auto_jump_allowed(true, false, None));
    let diff = ViewState { diff_view: true, ..view(10 * SECOND) };
    assert!(!auto_jump_allowed(false, false, Some(diff)));
}

#[test]
fn a_tick_jumps_only_after_a_quiet_spell_and_settles_on_what_shows() {
    let elsewhere = Some(TargetSeen { in_open_file: false, on_screen: false });
    let showing = Some(TargetSeen { in_open_file: true, on_screen: true });
    let below = Some(TargetSeen { in_open_file: true, on_screen: false });
    assert_eq!(auto_jump_step(true, Some(SECOND), SECOND, true, elsewhere), TickStep::Jump);
    assert_eq!(auto_jump_step(true, Some(SECOND - 1), SECOND, true, elsewhere), TickStep::Wait);
    assert_eq!(auto_jump_step(true, None, 0, true, elsewhere), TickStep::Wait);
    assert_eq!(auto_jump_step(false, Some(SECOND), SECOND, true, elsewhere), TickStep::Wait);
    assert_eq!(auto_jump_step(true, Some(SECOND), SECOND, false, elsewhere), TickStep::Wait);
    assert_eq!(auto_jump_step(true, Some(SECOND), SECOND, true, None), TickStep::Wait);
    assert_eq!(auto_jump_step(true, Some(SECOND), SECOND, true, showing), TickStep::Settle);
    assert_eq!(auto_jump_step(true, Some(SECOND), SECOND, true, below), TickStep::Jump);
}

#[test]
fn only_an_armed_auto_jump_switches_off() {
    let reading = Place::of(Some(0), false, false, false, false);
    let other = Place::of(Some(1), false, false, false, false);
    assert!(switches_off(true, reading, other));
    assert!(!switches_off(false, reading, other));
    assert!(!switches_off(true, reading, reading));
}

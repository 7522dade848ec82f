use clickclackfarm::activity::{ActivityGate, Timeline};

const SECOND: u64 = 1_000_000_000;

fn all_awake() -> ActivityGate {
    ActivityGate { session_active: true, system_awake: true, screens_awake: true, any_display_awake: true }
}

#[test]
fn inactive_time_never_becomes_productive_and_wake_does_not_backfill() {
    let start = 7 * SECOND;
    let mut timeline = Timeline::new(start);
    timeline.update(start, all_awake());
    assert_eq!(timeline.take_sample(start + 2 * SECOND), 2 * SECOND);

    let mut asleep = timeline.gate();
    asleep.system_awake = false;
    timeline.update(start + 3 * SECOND, asleep);
    let mut awake = timeline.gate();
    awake.system_awake = true;
    timeline.update(start + 30 * SECOND, awake);
    assert_eq!(timeline.take_sample(start + 31 * SECOND), 2 * SECOND);
}

#[test]
fn an_unobserved_long_gap_is_fail_closed() {
    let start = 0;
    let mut timeline = Timeline::new(start);
    timeline.update(start, all_awake());
    assert_eq!(timeline.take_sample(start + 6 * SECOND), 0);
}

#[test]
fn a_gap_of_exactly_the_limit_still_counts() {
    let mut timeline = Timeline::new(0);
    timeline.update(0, all_awake());
    assert_eq!(timeline.take_sample(5 * SECOND), 5 * SECOND);
    assert_eq!(timeline.take_sample(5 * SECOND + 1), 1);
    assert_eq!(timeline.take_sample(5 * SECOND), 0);
}

#[test]
fn a_new_timeline_is_closed_and_the_probe_helpers_move_single_flags() {
    let mut timeline = Timeline::new(0);
    assert!(!timeline.gate().productive());
    assert_eq!(timeline.take_sample(SECOND), 0);
    timeline.start_session(SECOND, true);
    assert!(timeline.gate().productive());
    assert_eq!(timeline.sample(2 * SECOND, false), SECOND);
    assert!(!timeline.gate().any_display_awake);
    assert_eq!(timeline.sample(3 * SECOND, true), 0);
    timeline.set_screens_awake(4 * SECOND, false);
    assert_eq!(timeline.pending_productive(), SECOND);
    timeline.set_screens_awake(5 * SECOND, true);
    timeline.set_session_active(6 * SECOND, false);
    timeline.set_system_awake(7 * SECOND, false);
    assert_eq!(timeline.take_sample(8 * SECOND), 2 * SECOND);
}

use clickclackfarm::probe::{
    input_needs_restart, is_effective_candidate, next_reenable, raw_keyboard_candidate, saturating_add,
    windows_keyboard_candidate, CandidateEvent, InputAggregator, InputHealth, PermissionState,
    RuntimeProbe, SendOutcome, WindowsCandidateEvent, WindowsInputPipeline, WindowsRepeatFilter,
    WINDOWS_WM_KEYDOWN, WINDOWS_WM_KEYUP, WINDOWS_WM_SYSKEYDOWN, WINDOWS_WM_SYSKEYUP,
};

#[test]
fn atomic_counter_saturates() {
    let mut counter = u64::MAX - 1;
    saturating_add(&mut counter, 8);
    assert_eq!(counter, u64::MAX);
}

#[test]
fn raw_input_distinguishes_modifiers_and_ignores_invalid_keys() {
    let mut filter = WindowsRepeatFilter::new();
    for (vk, left_scan, right_scan, right_flags) in [(16, 0x2a, 0x36, 0), (17, 0x1d, 0x1d, 2), (18, 0x38, 0x38, 2)] {
        assert!(filter.observe(raw_keyboard_candidate(WINDOWS_WM_KEYDOWN, vk, left_scan, 0)));
        assert!(filter.observe(raw_keyboard_candidate(WINDOWS_WM_KEYDOWN, vk, right_scan, right_flags)));
        assert!(!filter.observe(raw_keyboard_candidate(WINDOWS_WM_KEYDOWN, vk, right_scan, right_flags)));
    }
    for (vk, scan) in [(0, 0), (255, 1), (256, 1), (65, 255)] {
        assert_eq!(raw_keyboard_candidate(WINDOWS_WM_KEYDOWN, vk, scan, 0), WindowsCandidateEvent::Ignored);
    }
}

#[test]
fn public_state_encodings_are_stable() {
    assert_eq!(PermissionState::from_raw(1), PermissionState::Allowed);
    assert_eq!(PermissionState::from_raw(255), PermissionState::Unknown);
    assert_eq!(InputHealth::from_raw(2), InputHealth::Degraded);
    assert_eq!(InputHealth::from_raw(255), InputHealth::Starting);
    for raw in 0_u8..4 {
        assert_eq!(PermissionState::from_raw(raw).to_raw(), raw);
        assert_eq!(InputHealth::from_raw(raw).to_raw(), raw);
    }
}

#[test]
fn filters_repeat_and_extended_mouse_buttons() {
    assert!(is_effective_candidate(CandidateEvent::KeyDown { autorepeat: false }));
    assert!(!is_effective_candidate(CandidateEvent::KeyDown { autorepeat: true }));
    assert!(is_effective_candidate(CandidateEvent::LeftMouseDown));
    assert!(is_effective_candidate(CandidateEvent::RightMouseDown));
    assert!(is_effective_candidate(CandidateEvent::OtherMouseDown { transient_button_number: 2 }));
    assert!(!is_effective_candidate(CandidateEvent::OtherMouseDown { transient_button_number: 3 }));
    assert!(!is_effective_candidate(CandidateEvent::Ignored));
}

#[test]
fn windows_filter_counts_one_keydown_until_keyup_and_three_mouse_buttons() {
    let mut filter = WindowsRepeatFilter::new();
    assert!(filter.observe(WindowsCandidateEvent::KeyDown { virtual_key: 65 }));
    assert!(!filter.observe(WindowsCandidateEvent::KeyDown { virtual_key: 65 }));
    assert!(!filter.observe(WindowsCandidateEvent::KeyUp { virtual_key: 65 }));
    assert!(filter.observe(WindowsCandidateEvent::KeyDown { virtual_key: 65 }));
    assert!(filter.observe(WindowsCandidateEvent::LeftMouseDown));
    assert!(filter.observe(WindowsCandidateEvent::RightMouseDown));
    assert!(filter.observe(WindowsCandidateEvent::MiddleMouseDown));
    assert!(!filter.observe(WindowsCandidateEvent::Ignored));
}

#[test]
fn windows_keyboard_messages_map_to_transient_key_state_without_character_data() {
    assert_eq!(windows_keyboard_candidate(WINDOWS_WM_KEYDOWN, 65), WindowsCandidateEvent::KeyDown { virtual_key: 65 });
    assert_eq!(windows_keyboard_candidate(WINDOWS_WM_SYSKEYDOWN, 18), WindowsCandidateEvent::KeyDown { virtual_key: 18 });
    assert_eq!(windows_keyboard_candidate(WINDOWS_WM_KEYUP, 65), WindowsCandidateEvent::KeyUp { virtual_key: 65 });
    assert_eq!(windows_keyboard_candidate(WINDOWS_WM_SYSKEYUP, 18), WindowsCandidateEvent::KeyUp { virtual_key: 18 });
    assert_eq!(windows_keyboard_candidate(0x0201, 65), WindowsCandidateEvent::Ignored);
    assert_eq!(windows_keyboard_candidate(WINDOWS_WM_KEYDOWN, 256), WindowsCandidateEvent::Ignored);
}

#[test]
fn raw_keyboard_to_aggregator_counts_ten_taps_and_three_clicks_once() {
    let mut runtime = RuntimeProbe::new();
    let mut pipeline = WindowsInputPipeline::new();
    let mut aggregator = InputAggregator::new();
    let mut deliver = |runtime: &mut RuntimeProbe, pipeline: &mut WindowsInputPipeline, candidate| {
        if let Some(sequence) = pipeline.observe(runtime, candidate) {
            WindowsInputPipeline::delivered(runtime, candidate, SendOutcome::Sent);
            aggregator.accept(runtime, sequence);
            // a repeated delivery of the same observation is not counted again
            assert!(!aggregator.accept(runtime, sequence));
        }
    };
    for _ in 0..10 {
        deliver(&mut runtime, &mut pipeline, raw_keyboard_candidate(WINDOWS_WM_KEYDOWN, 65, 30, 0));
        deliver(&mut runtime, &mut pipeline, raw_keyboard_candidate(WINDOWS_WM_KEYDOWN, 65, 30, 0));
        deliver(&mut runtime, &mut pipeline, raw_keyboard_candidate(WINDOWS_WM_KEYUP, 65, 30, 1));
    }
    deliver(&mut runtime, &mut pipeline, WindowsCandidateEvent::LeftMouseDown);
    deliver(&mut runtime, &mut pipeline, WindowsCandidateEvent::RightMouseDown);
    deliver(&mut runtime, &mut pipeline, WindowsCandidateEvent::MiddleMouseDown);
    let counters = runtime.windows();
    assert_eq!(counters.key_down, 20);
    assert_eq!(counters.key_up, 10);
    assert_eq!(counters.keyboard_accepted, 10);
    assert_eq!(counters.mouse_accepted, 3);
    assert_eq!(counters.read_errors, 0);
    assert_eq!(runtime.total_effective_inputs(), 13);
}

#[test]
fn windows_pipeline_reports_queue_overflow_without_blocking() {
    let mut runtime = RuntimeProbe::new();
    let mut pipeline = WindowsInputPipeline::new();
    let first = WindowsCandidateEvent::LeftMouseDown;
    assert_eq!(pipeline.observe(&mut runtime, first), Some(1));
    WindowsInputPipeline::delivered(&mut runtime, first, SendOutcome::Sent);
    let second = raw_keyboard_candidate(WINDOWS_WM_KEYDOWN, 65, 30, 0);
    assert_eq!(pipeline.observe(&mut runtime, second), Some(2));
    WindowsInputPipeline::delivered(&mut runtime, second, SendOutcome::Full);
    assert_eq!(runtime.dropped_observations(), 1);
    assert_eq!(runtime.windows().keyboard_accepted, 0);
    assert_eq!(runtime.health(), InputHealth::Degraded);
    WindowsInputPipeline::delivered(&mut runtime, first, SendOutcome::Disconnected);
    assert_eq!(runtime.health(), InputHealth::Stopped);
}

#[test]
fn runtime_probe_reports_what_was_set() {
    let mut runtime = RuntimeProbe::default();
    assert_eq!(runtime.permission(), PermissionState::Unknown);
    assert_eq!(runtime.health(), InputHealth::Starting);
    runtime.set_permission(PermissionState::Denied);
    runtime.set_health(InputHealth::Healthy);
    runtime.add_effective_inputs(u64::MAX);
    runtime.add_effective_inputs(5);
    assert_eq!(runtime.permission(), PermissionState::Denied);
    assert_eq!(runtime.health(), InputHealth::Healthy);
    assert_eq!(runtime.total_effective_inputs(), u64::MAX);
}

#[test]
fn a_disabled_tap_is_retried_three_times_with_growing_delays() {
    assert_eq!(next_reenable(0), Some((1, 100)));
    assert_eq!(next_reenable(1), Some((2, 200)));
    assert_eq!(next_reenable(2), Some((3, 300)));
    assert_eq!(next_reenable(3), None);
}

#[test]
fn input_restarts_unless_it_runs_with_permission() {
    assert!(!input_needs_restart(PermissionState::Allowed, InputHealth::Healthy));
    assert!(!input_needs_restart(PermissionState::Allowed, InputHealth::Degraded));
    assert!(input_needs_restart(PermissionState::Allowed, InputHealth::Stopped));
    assert!(input_needs_restart(PermissionState::Unknown, InputHealth::Starting));
    assert!(input_needs_restart(PermissionState::Denied, InputHealth::Healthy));
}

#[test]
fn denial_read_errors_and_device_changes_are_recorded() {
    let mut runtime = RuntimeProbe::new();
    runtime.add_effective_inputs(3);
    runtime.deny();
    assert_eq!(runtime.permission(), PermissionState::Denied);
    assert_eq!(runtime.health(), InputHealth::Stopped);
    assert_eq!(runtime.total_effective_inputs(), 3);

    runtime.record_read_error();
    assert_eq!(runtime.windows().read_errors, 1);
    assert_eq!(runtime.health(), InputHealth::Degraded);

    let mut pipeline = WindowsInputPipeline::new();
    let key = raw_keyboard_candidate(WINDOWS_WM_KEYDOWN, 65, 30, 0);
    assert_eq!(pipeline.observe(&mut runtime, key), Some(1));
    assert_eq!(pipeline.observe(&mut runtime, key), None);
    pipeline.release_all_keys();
    assert_eq!(pipeline.observe(&mut runtime, key), Some(2));
}

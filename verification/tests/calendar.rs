use clickclackfarm::stats::calendar_sample;

#[test]
fn broken_down_local_time_becomes_a_calendar_sample() {
    // 2026-08-30 03:20:05, as the C library reports it.
    let sample = calendar_sample(126, 7, 30, 3, 20, 5).expect("sample");
    assert_eq!(sample.date, "2026-08-30");
    assert_eq!(sample.seconds_since_midnight, 3 * 3_600 + 20 * 60 + 5);

    let early = calendar_sample(-1_895, 0, 1, 0, 0, 0).expect("sample");
    assert_eq!(early.date, "0005-01-01");
    assert_eq!(early.seconds_since_midnight, 0);

    let before_common_era = calendar_sample(-1_905, 0, 9, 23, 59, 59).expect("sample");
    assert_eq!(before_common_era.date, "-005-01-09");
    assert_eq!(before_common_era.seconds_since_midnight, 86_399);
}

#[test]
fn an_unusable_local_time_gives_no_sample() {
    assert!(calendar_sample(i32::MAX, 0, 1, 0, 0, 0).is_none());
    assert!(calendar_sample(126, i32::MAX, 1, 0, 0, 0).is_none());
    assert!(calendar_sample(126, 7, 30, -1, 0, 0).is_none());
    assert!(calendar_sample(126, 7, 30, 0, -1, 0).is_none());
    assert!(calendar_sample(126, 7, 30, 0, 0, -1).is_none());
}

use clickclackfarm::backend::GameEngine;
use clickclackfarm::bignat::BigNat;
use clickclackfarm::content::load_mvp_content;
use clickclackfarm::message::domain_error;
use clickclackfarm::save::{
    restore_save, SaveFile, SavedDayStatistics, BAD_SAVED_NUMBER, BAD_SAVED_STATISTIC, UNSUPPORTED_SAVE,
};
use clickclackfarm::stats::{CalendarSample, Statistics};

fn played() -> GameEngine {
    let calendar = Some(CalendarSample { date: "2026-08-30".to_owned(), seconds_since_midnight: 100 });
    let mut engine = GameEngine::load(Ok(None), calendar.clone()).expect("load");
    engine.settle(42, 3_250_000_000, calendar);
    engine
}

fn restore_error(edit: impl FnOnce(&mut SaveFile)) -> String {
    let content = load_mvp_content().unwrap();
    let mut file = played().save_file();
    edit(&mut file);
    match restore_save(&content, &file) {
        Ok(_) => panic!("the save should not restore"),
        Err(message) => message,
    }
}

#[test]
fn a_save_reads_back_as_the_same_game() {
    let engine = played();
    let file = engine.save_file();
    assert_eq!(file.version, 1);
    assert_eq!(file.lifetime_inputs, "42");
    assert_eq!(file.statistics.production_subsecond_nanos, 250_000_000);
    assert_eq!(file.statistics.days.len(), 1);
    assert_eq!(file.statistics.days[0].0, "2026-08-30");
    assert_eq!(file.statistics.days[0].1.productive_nanos, "3250000000");
    assert_eq!(file.statistics.days[0].1.inputs, "42");

    let content = load_mvp_content().unwrap();
    let restored = restore_save(&content, &file).expect("restore");
    assert_eq!(&restored.state, engine.state());
    assert_eq!(restored.lifetime_inputs.to_decimal_string(), "42");
    assert_eq!(restored.statistics.productive_on("2026-08-30"), 3_250_000_000);
    assert_eq!(restored.statistics.inputs_on("2026-08-30").to_decimal_string(), "42");
    assert_eq!(restored.statistics.production_subsecond_nanos(), 250_000_000);
    assert_eq!(restored.statistics.current_local_date(), "2026-08-30");
}

#[test]
fn each_save_problem_has_its_message() {
    assert_eq!(restore_error(|f| f.version = 2), UNSUPPORTED_SAVE);
    assert_eq!(restore_error(|f| f.coins = "12x".to_owned()), BAD_SAVED_NUMBER);
    assert_eq!(restore_error(|f| f.lifetime_inputs = String::new()), BAD_SAVED_NUMBER);
    assert_eq!(restore_error(|f| f.plants[0].1.stock_cent = "_1".to_owned()), BAD_SAVED_NUMBER);
    assert_eq!(restore_error(|f| f.animals[0].1.count = "-1".to_owned()), BAD_SAVED_NUMBER);
    assert_eq!(
        restore_error(|f| f.plants[0].1.production_remainder_60 = 60),
        "操作失败：plant production remainder must be in 0..=59"
    );
    assert_eq!(
        restore_error(|f| f.plants[0].0 = "Apple".to_owned()),
        "操作失败：species id contains unsupported characters: Apple"
    );
    assert_eq!(
        restore_error(|f| f.discovered_animals.push(String::new())),
        "操作失败：species id must not be empty"
    );
    assert_eq!(
        restore_error(|f| f.statistics.days[0].1.productive_nanos = "18446744073709551616".to_owned()),
        BAD_SAVED_STATISTIC
    );
    assert_eq!(
        restore_error(|f| f.statistics.days[0].1.inputs = "1 ".to_owned()),
        BAD_SAVED_NUMBER
    );
    assert_eq!(
        restore_error(|f| f.content_version = "old".to_owned()),
        "操作失败：state content version old does not match catalog mvp-0.2.7"
    );
    assert_eq!(
        restore_error(|f| f.discovered_plants.clear()),
        "操作失败：an owned or historically purchased species must be discovered: clover"
    );
}

#[test]
fn the_first_save_problem_wins() {
    let message = restore_error(|f| {
        f.coins = "bad".to_owned();
        f.statistics.days[0].1.productive_nanos = "bad".to_owned();
    });
    assert_eq!(message, BAD_SAVED_STATISTIC);
}

#[test]
fn saved_statistics_cap_the_carried_remainder() {
    let content = load_mvp_content().unwrap();
    let mut file = played().save_file();
    file.statistics.production_subsecond_nanos = 4_000_000_000;
    file.statistics.days.push((
        "2026-08-31".to_owned(),
        SavedDayStatistics { productive_nanos: "+5".to_owned(), inputs: "1_000".to_owned() },
    ));
    let restored = restore_save(&content, &file).expect("restore");
    assert_eq!(restored.statistics.production_subsecond_nanos(), 999_999_999);
    assert_eq!(restored.statistics.productive_on("2026-08-31"), 5);
    assert_eq!(restored.statistics.inputs_on("2026-08-31").to_decimal_string(), "1000");
}

#[test]
fn decimal_numerals_parse_as_big_uint_reads_them() {
    let value = |s: &str| BigNat::parse_decimal(s).map(|n| n.to_decimal_string());
    assert_eq!(value("0"), Some("0".to_owned()));
    assert_eq!(value("+1_000"), Some("1000".to_owned()));
    assert_eq!(value("00042"), Some("42".to_owned()));
    assert_eq!(value("340282366920938463463374607431768211456"), Some("340282366920938463463374607431768211456".to_owned()));
    assert_eq!(value(""), None);
    assert_eq!(value("+"), None);
    assert_eq!(value("++1"), None);
    assert_eq!(value("_1"), None);
    assert_eq!(value("1.5"), None);
    assert_eq!(value("١"), None);
}

#[test]
fn statistics_totals_cap_and_count_full_days() {
    let mut statistics = Statistics::new();
    let day = |d: &str| CalendarSample { date: d.to_owned(), seconds_since_midnight: 0 };
    clickclackfarm::stats::record_productive(&mut statistics, &None, &day("2026-01-01"), u64::MAX);
    clickclackfarm::stats::record_productive(&mut statistics, &None, &day("2026-01-02"), 999_999_999);
    clickclackfarm::stats::record_productive(&mut statistics, &None, &day("2026-01-03"), 1_000_000_000);
    assert_eq!(statistics.lifetime_productive_nanos(), u64::MAX);
    assert_eq!(statistics.productive_day_count(), 2);
    assert_eq!(statistics.productive_on("2026-01-04"), 0);
}

#[test]
fn failed_commands_read_as_player_messages() {
    assert_eq!(domain_error("insufficient coins"), "金币不足");
    assert_eq!(domain_error("an empty selection was given"), "请至少选择一项");
    assert_eq!(domain_error("count exceeds owned animals"), "出售数量超过持有数量");
    assert_eq!(domain_error("unknown plant: x"), "操作失败：unknown plant: x");
}

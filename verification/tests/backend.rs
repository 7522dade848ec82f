use clickclackfarm::backend::{GameEngine, SaveStatus};
use clickclackfarm::engine::{PurchaseRequest, SaleRequest, DEMO_INITIAL_COINS};
use clickclackfarm::save::SavedStatistics;
use clickclackfarm::snapshot::{EconomySnapshot, TierSnapshot};
use clickclackfarm::stats::{record_productive, CalendarSample, Statistics};

const NANOS: u64 = 1_000_000_000;

fn day(date: &str, seconds_since_midnight: u32) -> CalendarSample {
    CalendarSample { date: date.to_owned(), seconds_since_midnight }
}

fn today() -> Option<CalendarSample> {
    Some(day("2026-08-30", 12_000))
}

fn tier<'a>(snapshot: &'a EconomySnapshot, plant: &str) -> &'a TierSnapshot {
    &snapshot.tiers.iter().find(|(id, _)| id == plant).expect("tier").1
}

fn new_engine() -> GameEngine {
    GameEngine::load(Ok(None), today()).expect("load demo")
}

fn shown(engine: &mut GameEngine, total_inputs: u64, productive_nanos: u64) -> EconomySnapshot {
    engine.snapshot(total_inputs, productive_nanos, today()).1.expect("snapshot")
}

#[test]
fn new_save_starts_with_release_assets() {
    let mut engine = new_engine();
    let snapshot = shown(&mut engine, 0, 0);

    assert_eq!(snapshot.coins, "100");
    assert_eq!(tier(&snapshot, "clover").plant_count, "1");
    assert_eq!(tier(&snapshot, "clover").animal_count, "1");
    assert_eq!(snapshot.save_status, "new");
}

#[test]
fn input_is_counted_once_and_persisted() {
    let mut engine = new_engine();
    let (changed, snapshot) = engine.snapshot(1, 0, today());
    let snapshot = snapshot.expect("record input");
    assert!(changed);
    assert_eq!(snapshot.lifetime_inputs, "1");
    assert_eq!(snapshot.statistics.today_inputs, "1");

    let saved = engine.save_file();
    let mut restored = GameEngine::load(Ok(Some(saved)), today()).expect("restore demo");
    let restored = shown(&mut restored, 0, 0);
    assert_eq!(restored.lifetime_inputs, "1");
    assert_eq!(restored.statistics.today_inputs, "1");
    assert_eq!(restored.save_status, "loaded");
}

#[test]
fn global_input_delta_is_counted_only_once() {
    let calendar = day("2026-08-30", 12_000);
    let mut engine = GameEngine::load(Ok(None), Some(calendar.clone())).expect("load demo");
    assert!(engine.settle(7, 0, Some(calendar.clone())));
    assert!(!engine.settle(7, 0, Some(calendar.clone())));
    assert_eq!(engine.lifetime_inputs().to_decimal_string(), "7");
    assert_eq!(engine.statistics_snapshot(&Some(calendar)).today_inputs, "7");
}

#[test]
fn productive_time_is_split_across_local_midnight() {
    let mut statistics = Statistics::new();
    let previous = day("2026-08-29", 86_399);
    let current = day("2026-08-30", 1);

    record_productive(&mut statistics, &Some(previous), &current, 2_000_000_000);

    assert_eq!(statistics.productive_on("2026-08-29"), 1_000_000_000);
    assert_eq!(statistics.productive_on("2026-08-30"), 1_000_000_000);
    assert_eq!(statistics.current_local_date(), "2026-08-30");
}

#[test]
fn zero_productive_duration_does_not_produce() {
    let mut engine = new_engine();
    let before = shown(&mut engine, 0, 0);
    let after = shown(&mut engine, 0, 0);

    assert_eq!(tier(&before, "clover").stock_cent, tier(&after, "clover").stock_cent);
    assert_eq!(after.statistics.lifetime_productive_seconds, "0");
}

#[test]
fn legacy_save_without_statistics_still_loads() {
    let mut engine = new_engine();
    shown(&mut engine, 1, 0);
    let mut saved = engine.save_file();
    saved.statistics =
        SavedStatistics { current_local_date: String::new(), production_subsecond_nanos: 0, days: vec![] };

    let mut restored = GameEngine::load(Ok(Some(saved)), today()).expect("load legacy save");
    let snapshot = shown(&mut restored, 0, 0);
    assert_eq!(snapshot.coins, DEMO_INITIAL_COINS.to_string());
    assert_eq!(snapshot.lifetime_inputs, "1");
    assert_eq!(snapshot.statistics.today_inputs, "0");
}

#[test]
fn snapshot_uses_authoritative_single_animal_sale_quote() {
    let mut engine = new_engine();
    let request = SaleRequest { animals: vec![("rabbit".to_owned(), 1)] };
    let quote = engine.quote_sale(&request).expect("quote rabbit sale");
    let snapshot = shown(&mut engine, 0, 0);

    assert_eq!(tier(&snapshot, "clover").single_sale_value_coins.as_deref(), Some(quote.total.as_str()));
}

#[test]
fn reset_restores_demo_state_and_clears_statistics() {
    let mut engine = new_engine();
    shown(&mut engine, 1, NANOS);

    engine.reset(0, today()).expect("reset demo");
    let snapshot = engine.to_snapshot(&today()).expect("snapshot");
    assert_eq!(snapshot.coins, DEMO_INITIAL_COINS.to_string());
    assert_eq!(tier(&snapshot, "clover").plant_count, "1");
    assert_eq!(tier(&snapshot, "clover").animal_count, "1");
    assert_eq!(snapshot.statistics.lifetime_inputs, "0");
    assert_eq!(snapshot.statistics.lifetime_productive_seconds, "0");
    assert_eq!(snapshot.save_status, "new");
}

#[test]
fn an_unreadable_save_starts_a_recovered_demo() {
    let engine = GameEngine::load(Err("broken".to_owned()), today()).expect("load");
    assert_eq!(engine.save_status(), SaveStatus::Recovered);
    assert_eq!(engine.state().wallet().coins.to_decimal_string(), "100");

    let mut saved = new_engine().save_file();
    saved.version = 2;
    let engine = GameEngine::load(Ok(Some(saved)), today()).expect("load");
    assert_eq!(engine.save_status(), SaveStatus::Recovered);
}

#[test]
fn productive_seconds_produce_and_the_rest_is_carried() {
    let mut engine = new_engine();
    // 1.5 s then 0.5 s: two whole seconds in all, nothing left over.
    shown(&mut engine, 0, 1_500_000_000);
    assert_eq!(engine.statistics().production_subsecond_nanos(), 500_000_000);
    let after = shown(&mut engine, 0, 500_000_000);
    assert_eq!(engine.statistics().production_subsecond_nanos(), 0);
    // One clover yields 500 cent per minute: two seconds give 16 cent and 40/60.
    assert_eq!(tier(&after, "clover").stock_cent, "16");
    assert_eq!(after.statistics.today_productive_seconds, "2");
    assert_eq!(after.statistics.productive_days, "1");

    let mut whole = new_engine();
    let once = shown(&mut whole, 0, 2_000_000_000);
    assert_eq!(tier(&once, "clover").stock_cent, tier(&after, "clover").stock_cent);
    let remainders = |e: &GameEngine| -> Vec<u8> {
        e.state().plants().values().iter().map(|p| p.production_remainder_60.value()).collect()
    };
    assert_eq!(remainders(&whole), remainders(&engine));
    assert!(remainders(&engine).contains(&40));
}

#[test]
fn no_calendar_books_no_productive_time() {
    let mut engine = new_engine();
    assert!(!engine.settle(0, 5 * NANOS, None));
    let snapshot = engine.to_snapshot(&None).expect("snapshot");
    assert_eq!(tier(&snapshot, "clover").stock_cent, "0");
    assert_eq!(snapshot.statistics.lifetime_productive_seconds, "0");
}

#[test]
fn a_counter_that_goes_back_becomes_the_new_base() {
    let mut engine = new_engine();
    assert!(engine.settle(10, 0, today()));
    assert!(!engine.settle(4, 0, today()));
    assert_eq!(engine.consumed_global_inputs(), 4);
    assert!(engine.settle(6, 0, today()));
    assert_eq!(engine.lifetime_inputs().to_decimal_string(), "12");
}

#[test]
fn purchase_and_sale_requests_change_the_game() {
    let mut engine = new_engine();
    let request = PurchaseRequest { plants: vec![("clover".to_owned(), 1)], animals: vec![] };
    let quote = engine.quote_purchase(&request).expect("quote");
    // The demo owns one clover already: the second costs 75 * 1.03, rounded up.
    assert_eq!(quote.total, "78");
    assert!(!quote.emergency_free);
    engine.purchase(&request).expect("purchase");
    let snapshot = engine.to_snapshot(&today()).expect("snapshot");
    assert_eq!(snapshot.coins, "22");
    assert_eq!(tier(&snapshot, "clover").plant_count, "2");
    assert_eq!(tier(&snapshot, "clover").next_seed_price_coins, "80");

    let again = engine.purchase(&request);
    assert_eq!(again, Err("金币不足".to_owned()));

    let sale = SaleRequest { animals: vec![("rabbit".to_owned(), 1)] };
    engine.sale(&sale).expect("sale");
    let snapshot = engine.to_snapshot(&today()).expect("snapshot");
    assert_eq!(snapshot.coins, "47");
    assert_eq!(tier(&snapshot, "clover").animal_count, "0");
    assert_eq!(tier(&snapshot, "clover").single_sale_value_coins, None);
}

#[test]
fn trade_requests_report_errors_as_player_messages() {
    let mut engine = new_engine();
    let zero = PurchaseRequest { plants: vec![("clover".to_owned(), 0)], animals: vec![] };
    assert_eq!(engine.quote_purchase(&zero).map(|q| q.total), Err("操作失败：selection is empty".to_owned()));

    let bad = PurchaseRequest { plants: vec![("Clover".to_owned(), 1)], animals: vec![] };
    assert_eq!(
        engine.purchase(&bad),
        Err("操作失败：species id contains unsupported characters: Clover".to_owned())
    );

    let too_many = SaleRequest { animals: vec![("rabbit".to_owned(), 2)] };
    assert_eq!(
        engine.sale(&too_many),
        Err("操作失败：sale quantity exceeds the owned animal count: rabbit".to_owned())
    );
    assert_eq!(shown(&mut engine, 0, 0).coins, "100");
}

use clickclackfarm::amount::{Coins, EntityCount, LifetimePurchaseCount};
use clickclackfarm::bignat::BigNat;
use clickclackfarm::budget::PurchasePricingBudget;
use clickclackfarm::content::{
    load_mvp_content, new_mvp_game_state, validate_mvp_numerical_invariants, APPLE, BAMBOO,
    CAPYBARA, CLOVER, CONTENT_VERSION, CORN, DEER, HAMSTER, RABBIT, RED_PANDA, SUNFLOWER,
};
use clickclackfarm::error::DomainError;
use clickclackfarm::event::DomainEvent;
use clickclackfarm::ids::{AnimalId, PlantId};
use clickclackfarm::input::apply_effective_inputs;
use clickclackfarm::pricing::single_plant_price;
use clickclackfarm::production::settle_production;
use clickclackfarm::purchase::{
    apply_purchase_batch, quote_purchase_batch, quote_purchase_batch_with_budget, PurchaseKind,
    PurchaseSelection,
};
use clickclackfarm::sale::{apply_sale_batch, SaleSelection};
use clickclackfarm::state::GameState;

#[test]
fn bundled_content_passes_all_static_invariants() {
    let content = load_mvp_content().unwrap();
    assert_eq!(content.content_version(), CONTENT_VERSION);
    assert_eq!(content.plants().len(), 5);
    assert_eq!(content.animals().len(), 5);
    assert!(validate_mvp_numerical_invariants(&content).is_ok());
}

#[test]
fn new_save_matches_the_confirmed_initial_assets() {
    let content = load_mvp_content().unwrap();
    let state = new_mvp_game_state(&content).unwrap();
    let clover = PlantId::new(CLOVER).unwrap();
    let rabbit = AnimalId::new(RABBIT).unwrap();
    assert_eq!(state.wallet().coins, Coins::from_u64(50));
    assert_eq!(state.plants().get(&clover).unwrap().count, EntityCount::from_u64(1));
    assert_eq!(state.animals().get(&rabbit).unwrap().count, EntityCount::from_u64(1));
    assert!(state.plants().values().iter().all(|plant| plant.stock_cent.is_zero()));
    assert!(state.animals().values().iter().all(|animal| animal.total_growth_cent.is_zero()
        && animal.feeding_progress.value() == 0
        && animal.lifetime_paid_purchase_count.is_zero()));
    assert!(state.collection().is_plant_discovered(&clover));
    assert!(state.collection().is_animal_discovered(&rabbit));
}

#[test]
fn all_reference_plant_prices_match_the_numeric_spec() {
    let content = load_mvp_content().unwrap();
    let clover = PlantId::new(CLOVER).unwrap();
    let config = content.plant(&clover).unwrap();
    let cases = [(1_u64, 75), (5, 85), (10, 98), (20, 132), (30, 177), (50, 320)];
    for (number, expected) in cases {
        assert_eq!(single_plant_price(config, &BigNat::from_u64(number)).unwrap(), Coins::from_u64(expected));
    }
}

#[test]
fn paid_purchase_increments_history_but_initial_grant_does_not() {
    let content = load_mvp_content().unwrap();
    let state = new_mvp_game_state(&content).unwrap();
    let rabbit = AnimalId::new(RABBIT).unwrap();
    assert!(state.animals().get(&rabbit).unwrap().lifetime_paid_purchase_count.is_zero());
    let rich_state = GameState::new(
        &content,
        Coins::from_u64(1_000),
        vec![],
        vec![(rabbit.clone(), EntityCount::from_u64(1))],
    )
    .unwrap();
    let result = apply_purchase_batch(
        &rich_state,
        &content,
        &[PurchaseSelection { kind: PurchaseKind::Animal(rabbit.clone()), quantity: EntityCount::from_u64(7) }],
    )
    .unwrap();
    assert_eq!(
        result.state.animals().get(&rabbit).unwrap().lifetime_paid_purchase_count.as_biguint(),
        &BigNat::from_u64(7)
    );
}

#[test]
fn five_tier_unified_purchase_feed_and_cross_species_sale_close_the_loop() {
    let content = load_mvp_content().unwrap();
    let mut selections = Vec::new();
    for id in [CLOVER, SUNFLOWER, BAMBOO, CORN, APPLE] {
        selections.push(PurchaseSelection {
            kind: PurchaseKind::Plant(PlantId::new(id).unwrap()),
            quantity: EntityCount::from_u64(1),
        });
    }
    for id in [RABBIT, HAMSTER, RED_PANDA, CAPYBARA, DEER] {
        selections.push(PurchaseSelection {
            kind: PurchaseKind::Animal(AnimalId::new(id).unwrap()),
            quantity: EntityCount::from_u64(1),
        });
    }
    let empty = GameState::new(&content, Coins::from_u64(1_000_000), vec![], vec![]).unwrap();
    let purchased = apply_purchase_batch(&empty, &content, &selections).unwrap();
    assert_eq!(purchased.outcome.quote.lines.len(), 10);
    assert!(matches!(
        purchased.events.as_slice(),
        [DomainEvent::PurchaseBatchCommitted(_), DomainEvent::CollectionDiscovered { .. }]
    ));
    assert!(purchased
        .state
        .animals()
        .values()
        .iter()
        .all(|animal| animal.lifetime_paid_purchase_count == LifetimePurchaseCount::from_u64(1)));

    let produced = settle_production(&purchased.state, &content, &BigNat::from_u64(24)).unwrap();
    assert!(matches!(produced.events.as_slice(), [DomainEvent::ProductionSettled(_)]));
    let fed = apply_effective_inputs(&produced.state, &content, &BigNat::from_u64(12)).unwrap();
    assert!(matches!(fed.events.as_slice(), [DomainEvent::FeedingAttempted(_)]));
    assert!(fed.outcome.feeding.iter().all(|line| line.successful_attempts == BigNat::from_u64(1)
        && line.failed_attempts == BigNat::zero()
        && line.consumed_cent.as_biguint() == line.growth_added_cent.as_biguint()));
    assert!(fed.state.plants().values().iter().all(|plant| plant.stock_cent.is_zero()));

    let sale_selections = content
        .animals()
        .iter()
        .map(|animal| SaleSelection { animal_id: animal.id.clone(), quantity: EntityCount::from_u64(1) })
        .collect::<Vec<_>>();
    let sold = apply_sale_batch(&fed.state, &content, &sale_selections).unwrap();
    assert!(matches!(sold.events.as_slice(), [DomainEvent::AnimalsSoldBatch(_)]));
    assert_eq!(sold.outcome.quote.lines.len(), 5);
    assert!(sold.state.animals().values().iter().all(|animal| animal.count.is_zero()
        && animal.total_growth_cent.is_zero()
        && animal.feeding_progress.value() == 0));
    assert_eq!(sold.state.collection().discovered_plants().len(), 5);
    assert_eq!(sold.state.collection().discovered_animals().len(), 5);
}

#[test]
fn emergency_rabbit_immediate_sale_reaches_normal_price_in_at_most_two_claims() {
    let content = load_mvp_content().unwrap();
    let rabbit = AnimalId::new(RABBIT).unwrap();
    for starting_coins in 0_u64..50 {
        let mut state = GameState::new(&content, Coins::from_u64(starting_coins), vec![], vec![]).unwrap();
        let mut claims = 0_u8;
        while state.wallet().coins < Coins::from_u64(50) {
            claims += 1;
            assert!(claims <= 2);
            state = apply_purchase_batch(
                &state,
                &content,
                &[PurchaseSelection { kind: PurchaseKind::Animal(rabbit.clone()), quantity: EntityCount::from_u64(1) }],
            )
            .unwrap()
            .state;
            assert!(state.animals().get(&rabbit).unwrap().lifetime_paid_purchase_count.is_zero());
            state = apply_sale_batch(
                &state,
                &content,
                &[SaleSelection { animal_id: rabbit.clone(), quantity: EntityCount::from_u64(1) }],
            )
            .unwrap()
            .state;
        }
        let normal_quote = quote_purchase_batch(
            &state,
            &content,
            &[PurchaseSelection { kind: PurchaseKind::Animal(rabbit.clone()), quantity: EntityCount::from_u64(1) }],
        )
        .unwrap();
        assert_eq!(normal_quote.total_cost, Coins::from_u64(50));
        assert!(!normal_quote.lines[0].emergency_free);
    }
}

#[test]
fn five_species_share_one_plant_purchase_budget() {
    let content = load_mvp_content().unwrap();
    let state = GameState::new(&content, Coins::from_u64(1_000_000), vec![], vec![]).unwrap();
    let selections = [CLOVER, SUNFLOWER, BAMBOO, CORN, APPLE]
        .into_iter()
        .map(|id| PurchaseSelection { kind: PurchaseKind::Plant(PlantId::new(id).unwrap()), quantity: EntityCount::from_u64(1) })
        .collect::<Vec<_>>();
    let result = quote_purchase_batch_with_budget(&state, &content, &selections, PurchasePricingBudget::new(4, 100, 100, 10_000));
    match result {
        Err(DomainError::PlantPricingTotalUnitsBudgetExceeded { requested, limit }) => {
            assert_eq!(requested, "5");
            assert_eq!(limit, 4);
        }
        _ => panic!("expected the shared unit budget to refuse"),
    }
}

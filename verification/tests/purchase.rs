use clickclackfarm::amount::{Coins, EntityCount, StockCent};
use clickclackfarm::bignat::BigNat;
use clickclackfarm::budget::PurchasePricingBudget;
use clickclackfarm::config::{AnimalConfig, ContentConfig, EmergencyPurchaseRule, PlantConfig};
use clickclackfarm::error::DomainError;
use clickclackfarm::event::DomainEvent;
use clickclackfarm::ids::{AnimalId, PlantId};
use clickclackfarm::purchase::{
    apply_purchase_batch, apply_purchase_batch_with_budget, quote_purchase_batch,
    quote_purchase_batch_with_budget, PurchaseKind, PurchaseSelection,
};
use clickclackfarm::state::GameState;

fn fixture(coins: u64, rabbits: u64) -> (ContentConfig, GameState, PlantId, AnimalId) {
    let plant_id = PlantId::new("clover").unwrap();
    let animal_id = AnimalId::new("rabbit").unwrap();
    let content = ContentConfig::try_new(
        "test".to_string(),
        vec![PlantConfig {
            id: plant_id.clone(),
            fixed_land_slot: 0,
            base_price_coins: Coins::from_u64(75),
            price_growth_num: BigNat::from_u64(103),
            price_growth_den: BigNat::from_u64(100),
            rate_cent_per_minute: StockCent::from_u64(500),
            paired_animal_id: animal_id.clone(),
        }],
        vec![AnimalConfig {
            id: animal_id.clone(),
            fixed_purchase_price_coins: Coins::from_u64(50),
            zero_growth_sell_price_coins: Coins::from_u64(25),
            feeding_threshold: 12,
            bite_cent: StockCent::from_u64(200),
            food_plant_id: plant_id.clone(),
        }],
        EmergencyPurchaseRule { animal_id: animal_id.clone(), trigger_below_coins: Coins::from_u64(50) },
    )
    .unwrap();
    let state = GameState::new(
        &content,
        Coins::from_u64(coins),
        vec![],
        vec![(animal_id.clone(), EntityCount::from_u64(rabbits))],
    )
    .unwrap();
    (content, state, plant_id, animal_id)
}

fn plant(id: &PlantId, quantity: u64) -> PurchaseSelection {
    PurchaseSelection { kind: PurchaseKind::Plant(id.clone()), quantity: EntityCount::from_u64(quantity) }
}

fn animal(id: &AnimalId, quantity: u64) -> PurchaseSelection {
    PurchaseSelection { kind: PurchaseKind::Animal(id.clone()), quantity: EntityCount::from_u64(quantity) }
}

#[test]
fn mixed_purchase_is_quoted_and_applied_as_one_result() {
    let (content, state, plant_id, animal_id) = fixture(1_000, 1);
    let selections = [plant(&plant_id, 2), animal(&animal_id, 3)];
    let result = apply_purchase_batch(&state, &content, &selections).unwrap();
    assert_eq!(result.outcome.quote.total_cost, Coins::from_u64(303));
    assert_eq!(result.state.wallet().coins, Coins::from_u64(697));
    assert_eq!(result.state.plants().get(&plant_id).unwrap().count, EntityCount::from_u64(2));
    assert_eq!(result.state.animals().get(&animal_id).unwrap().count, EntityCount::from_u64(4));
    assert_eq!(
        result.state.animals().get(&animal_id).unwrap().lifetime_paid_purchase_count.as_biguint(),
        &BigNat::from_u64(3)
    );
}

#[test]
fn insufficient_mixed_purchase_leaves_input_state_unchanged() {
    let (content, state, plant_id, animal_id) = fixture(100, 1);
    let selections = [plant(&plant_id, 1), animal(&animal_id, 1)];
    assert!(matches!(
        apply_purchase_batch(&state, &content, &selections),
        Err(DomainError::InsufficientCoins)
    ));
    assert_eq!(state.wallet().coins, Coins::from_u64(100));
}

#[test]
fn emergency_rabbit_is_free_and_not_counted_as_paid() {
    let (content, state, _, animal_id) = fixture(49, 0);
    let selection = [animal(&animal_id, 1)];
    let result = apply_purchase_batch(&state, &content, &selection).unwrap();
    assert!(result.outcome.quote.lines[0].emergency_free);
    assert_eq!(result.state.wallet().coins, Coins::from_u64(49));
    assert!(result.state.animals().get(&animal_id).unwrap().lifetime_paid_purchase_count.is_zero());
    assert!(result.state.collection().is_animal_discovered(&animal_id));
}

#[test]
fn emergency_quantity_above_one_is_rejected() {
    let (content, state, _, animal_id) = fixture(0, 0);
    let result = quote_purchase_batch(&state, &content, &[animal(&animal_id, 2)]);
    assert!(matches!(result, Err(DomainError::InvalidEmergencyQuantity)));
}

#[test]
fn duplicate_and_zero_only_selections_are_rejected() {
    let (content, state, plant_id, _) = fixture(1_000, 1);
    let duplicate = [plant(&plant_id, 1), plant(&plant_id, 2)];
    match quote_purchase_batch(&state, &content, &duplicate) {
        Err(DomainError::DuplicateSelection(text)) => assert_eq!(text, "plant:clover"),
        _ => panic!("expected a duplicate selection"),
    }
    assert!(matches!(
        quote_purchase_batch(&state, &content, &[plant(&plant_id, 0)]),
        Err(DomainError::EmptySelection)
    ));
}

#[test]
fn command_budget_accepts_limit_minus_one_and_limit_but_rejects_limit_plus_one() {
    let (content, state, plant_id, _) = fixture(10_000, 1);
    let budget = PurchasePricingBudget::new(10, 100, 100, 10_000);
    for quantity in [9_u64, 10] {
        let quote = quote_purchase_batch_with_budget(&state, &content, &[plant(&plant_id, quantity)], budget);
        assert!(quote.is_ok(), "quantity {quantity} should fit the budget");
    }
    let result = apply_purchase_batch_with_budget(&state, &content, &[plant(&plant_id, 11)], budget);
    match result {
        Err(DomainError::PlantPricingTotalUnitsBudgetExceeded { requested, limit }) => {
            assert_eq!(requested, "11");
            assert_eq!(limit, 10);
        }
        _ => panic!("expected the unit budget to refuse"),
    }
    assert_eq!(state.wallet().coins, Coins::from_u64(10_000));
    assert!(state.plants().values().iter().all(|plant| plant.count.is_zero()));
}

#[test]
fn enormous_current_count_fails_before_exact_power_calculation() {
    let (content, _, plant_id, animal_id) = fixture(10_000, 1);
    let ten = BigNat::from_u64(10);
    let mut enormous = BigNat::one();
    for _ in 0..10_000 {
        enormous = enormous.mul(&ten);
    }
    let state = GameState::new(
        &content,
        Coins::from_u64(10_000),
        vec![(plant_id.clone(), EntityCount::from_biguint(enormous))],
        vec![(animal_id, EntityCount::from_u64(1))],
    )
    .unwrap();
    let before = state.copy();
    let result = apply_purchase_batch(&state, &content, &[plant(&plant_id, 1)]);
    assert!(matches!(result, Err(DomainError::PlantPricingSequenceBudgetExceeded { .. })));
    assert_eq!(state, before);
}

#[test]
fn purchase_sorts_plants_before_animals_and_reports_discoveries() {
    let (content, state, plant_id, animal_id) = fixture(1_000, 1);
    let result = apply_purchase_batch(&state, &content, &[animal(&animal_id, 1), plant(&plant_id, 1)]).unwrap();
    assert_eq!(result.outcome.quote.lines[0].kind, PurchaseKind::Plant(plant_id.clone()));
    assert_eq!(result.outcome.quote.lines[1].kind, PurchaseKind::Animal(animal_id.clone()));
    assert_eq!(result.outcome.discovered_plants, vec![plant_id.clone()]);
    assert!(result.outcome.discovered_animals.is_empty());
    assert_eq!(result.events.len(), 2);
    assert!(matches!(result.events[1], DomainEvent::CollectionDiscovered { .. }));
    assert_eq!(result.outcome.quote.total_cost, Coins::from_u64(125));
}

#[test]
fn unknown_species_are_refused() {
    let (content, state, _, _) = fixture(1_000, 1);
    let tomato = PlantId::new("tomato").unwrap();
    let owl = AnimalId::new("owl").unwrap();
    match quote_purchase_batch(&state, &content, &[plant(&tomato, 1)]) {
        Err(DomainError::UnknownPlant(id)) => assert_eq!(id, "tomato"),
        _ => panic!("expected an unknown plant"),
    }
    match quote_purchase_batch(&state, &content, &[animal(&owl, 1)]) {
        Err(DomainError::UnknownAnimal(id)) => assert_eq!(id, "owl"),
        _ => panic!("expected an unknown animal"),
    }
}

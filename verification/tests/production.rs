use clickclackfarm::amount::{Coins, EntityCount, StockCent};
use clickclackfarm::bignat::BigNat;
use clickclackfarm::budget::PurchasePricingBudget;
use clickclackfarm::config::{AnimalConfig, ContentConfig, EmergencyPurchaseRule, PlantConfig};
use clickclackfarm::error::DomainError;
use clickclackfarm::ids::{AnimalId, PlantId};
use clickclackfarm::pricing::{single_plant_price, single_plant_price_with_budget};
use clickclackfarm::production::settle_production;
use clickclackfarm::state::GameState;

fn fixture() -> (ContentConfig, PlantId) {
    let plant_id = PlantId::new("clover").unwrap();
    let animal_id = AnimalId::new("rabbit").unwrap();
    let content = ContentConfig::try_new(
        "test".to_string(),
        vec![PlantConfig {
            id: plant_id.clone(),
            fixed_land_slot: 0,
            base_price_coins: Coins::from_u64(75),
            price_growth_num: BigNat::from_u64(103),
            price_growth_den: BigNat::from_u64(100),
            rate_cent_per_minute: StockCent::from_u64(500),
            paired_animal_id: animal_id.clone(),
        }],
        vec![AnimalConfig {
            id: animal_id.clone(),
            fixed_purchase_price_coins: Coins::from_u64(50),
            zero_growth_sell_price_coins: Coins::from_u64(25),
            feeding_threshold: 12,
            bite_cent: StockCent::from_u64(200),
            food_plant_id: plant_id.clone(),
        }],
        EmergencyPurchaseRule { animal_id, trigger_below_coins: Coins::from_u64(50) },
    )
    .unwrap();
    (content, plant_id)
}

fn ten_to_the_hundred() -> BigNat {
    let ten = BigNat::from_u64(10);
    let mut huge = BigNat::one();
    for _ in 0..100 {
        huge = huge.mul(&ten);
    }
    huge
}

#[test]
fn exact_reference_plant_prices_do_not_use_float() {
    let (content, plant_id) = fixture();
    let plant = content.plant(&plant_id).unwrap();
    let cases = [(1_u64, 75), (5, 85), (10, 98), (20, 132), (30, 177), (50, 320)];
    for (number, expected) in cases {
        assert_eq!(
            single_plant_price(plant, &BigNat::from_u64(number)).unwrap(),
            Coins::from_u64(expected)
        );
    }
}

#[test]
fn production_preserves_fractional_minute_remainder_across_chunks() {
    let (content, plant_id) = fixture();
    let state = GameState::new(
        &content,
        Coins::zero(),
        vec![(plant_id.clone(), EntityCount::from_u64(7))],
        vec![],
    )
    .unwrap();
    let whole = settle_production(&state, &content, &BigNat::from_u64(3_601)).unwrap();
    let first = settle_production(&state, &content, &BigNat::from_u64(1_337)).unwrap();
    let second = settle_production(&first.state, &content, &BigNat::from_u64(2_264)).unwrap();
    assert_eq!(
        whole.state.plants().get(&plant_id).unwrap().stock_cent,
        second.state.plants().get(&plant_id).unwrap().stock_cent
    );
    assert_eq!(
        whole.state.plants().get(&plant_id).unwrap().production_remainder_60,
        second.state.plants().get(&plant_id).unwrap().production_remainder_60
    );
}

#[test]
fn production_supports_values_beyond_u128() {
    let (content, plant_id) = fixture();
    let huge = ten_to_the_hundred();
    let state = GameState::new(
        &content,
        Coins::zero(),
        vec![(plant_id.clone(), EntityCount::from_biguint(huge.copy()))],
        vec![],
    )
    .unwrap();
    let result = settle_production(&state, &content, &huge).unwrap();
    assert!(result.state.plants().get(&plant_id).unwrap().stock_cent > StockCent::zero());
}

#[test]
fn production_of_one_minute_is_the_rate_times_the_count() {
    let (content, plant_id) = fixture();
    let state = GameState::new(
        &content,
        Coins::zero(),
        vec![(plant_id.clone(), EntityCount::from_u64(7))],
        vec![],
    )
    .unwrap();
    let result = settle_production(&state, &content, &BigNat::from_u64(61)).unwrap();
    // 7 * 500 * 61 / 60 = 3558 + 20/60
    let plant = result.state.plants().get(&plant_id).unwrap();
    assert_eq!(plant.stock_cent, StockCent::from_u64(3_558));
    assert_eq!(plant.production_remainder_60.value(), 20);
    assert_eq!(result.outcome.plants[0].minted_cent, StockCent::from_u64(3_558));
    assert_eq!(result.events.len(), 1);
}

#[test]
fn plant_number_zero_and_budgets_are_refused() {
    let (content, plant_id) = fixture();
    let plant = content.plant(&plant_id).unwrap();
    assert!(matches!(
        single_plant_price(plant, &BigNat::zero()),
        Err(DomainError::InvalidPlantSequenceNumber)
    ));
    let tight = PurchasePricingBudget::new(10, 100, 100, 10);
    assert!(matches!(
        single_plant_price_with_budget(plant, &BigNat::from_u64(101), tight),
        Err(DomainError::PlantPricingSequenceBudgetExceeded { limit: 100, .. })
    ));
    assert!(matches!(
        single_plant_price_with_budget(plant, &BigNat::from_u64(50), tight),
        Err(DomainError::PlantPricingDigitsBudgetExceeded { estimated: 149, limit: 100, .. })
    ));
    let digits_ok = PurchasePricingBudget::new(10, 100, 1_000, 10);
    assert!(matches!(
        single_plant_price_with_budget(plant, &BigNat::from_u64(50), digits_ok),
        Err(DomainError::PlantPricingWorkBudgetExceeded { estimated: 149, limit: 10 })
    ));
}

use clickclackfarm::amount::{Coins, EntityCount, StockCent};
use clickclackfarm::bignat::BigNat;
use clickclackfarm::config::{AnimalConfig, ContentConfig, EmergencyPurchaseRule, PlantConfig};
use clickclackfarm::ids::{AnimalId, PlantId};
use clickclackfarm::input::apply_effective_inputs;
use clickclackfarm::state::{GameState, PlantState, ProductionRemainder60, Wallet};

fn fixture(stock_cent: u64, animals: u64) -> (ContentConfig, GameState, PlantId, AnimalId) {
    let plant_id = PlantId::new("clover").unwrap();
    let animal_id = AnimalId::new("rabbit").unwrap();
    let content = ContentConfig::try_new(
        "test".to_string(),
        vec![PlantConfig {
            id: plant_id.clone(),
            fixed_land_slot: 0,
            base_price_coins: Coins::from_u64(75),
            price_growth_num: BigNat::from_u64(103),
            price_growth_den: BigNat::from_u64(100),
            rate_cent_per_minute: StockCent::from_u64(500),
            paired_animal_id: animal_id.clone(),
        }],
        vec![AnimalConfig {
            id: animal_id.clone(),
            fixed_purchase_price_coins: Coins::from_u64(50),
            zero_growth_sell_price_coins: Coins::from_u64(25),
            feeding_threshold: 12,
            bite_cent: StockCent::from_u64(200),
            food_plant_id: plant_id.clone(),
        }],
        EmergencyPurchaseRule {
            animal_id: animal_id.clone(),
            trigger_below_coins: Coins::from_u64(50),
        },
    )
    .unwrap();
    let initial = GameState::new(
        &content,
        Coins::zero(),
        vec![(plant_id.clone(), EntityCount::from_u64(1))],
        vec![(animal_id.clone(), EntityCount::from_u64(animals))],
    )
    .unwrap();
    let mut plants = initial.plants().clone();
    plants.insert(
        plant_id.clone(),
        PlantState {
            count: EntityCount::from_u64(1),
            stock_cent: StockCent::from_u64(stock_cent),
            production_remainder_60: ProductionRemainder60::default(),
        },
    );
    let state = GameState::try_from_parts(
        "test".to_owned(),
        Wallet { coins: Coins::zero() },
        plants,
        initial.animals().clone(),
        initial.collection().clone(),
        &content,
    )
    .unwrap();
    (content, state, plant_id, animal_id)
}

#[test]
fn threshold_boundaries_are_n_minus_one_n_and_n_plus_one() {
    for (inputs, attempts, progress) in [(11_u64, 0_u64, 11), (12, 1, 0), (13, 1, 1)] {
        let (content, state, _, animal_id) = fixture(10_000, 1);
        let result = apply_effective_inputs(&state, &content, &BigNat::from_u64(inputs)).unwrap();
        let line = result
            .outcome
            .feeding
            .iter()
            .find(|line| line.animal_id == animal_id)
            .unwrap();
        assert_eq!(line.attempts, BigNat::from_u64(attempts));
        assert_eq!(line.resulting_progress.value(), progress);
    }
}

#[test]
fn insufficient_food_fails_the_whole_group_and_resets_progress() {
    let (content, state, plant_id, animal_id) = fixture(399, 2);
    let result = apply_effective_inputs(&state, &content, &BigNat::from_u64(12)).unwrap();
    assert_eq!(
        result.state.plants().get(&plant_id).unwrap().stock_cent,
        StockCent::from_u64(399)
    );
    assert!(result.state.animals().get(&animal_id).unwrap().total_growth_cent.is_zero());
    assert_eq!(result.state.animals().get(&animal_id).unwrap().feeding_progress.value(), 0);
    assert_eq!(result.outcome.feeding[0].failed_attempts, BigNat::from_u64(1));
}

#[test]
fn successful_feeding_transfers_stock_to_growth_one_for_one() {
    let (content, state, plant_id, animal_id) = fixture(1_000, 2);
    let result = apply_effective_inputs(&state, &content, &BigNat::from_u64(12)).unwrap();
    assert_eq!(
        result.state.plants().get(&plant_id).unwrap().stock_cent,
        StockCent::from_u64(600)
    );
    assert_eq!(
        result.state.animals().get(&animal_id).unwrap().total_growth_cent.as_biguint(),
        &BigNat::from_u64(400)
    );
}

#[test]
fn bulk_input_matches_repeated_single_input() {
    for (inputs, stock) in [(0_u16, 0_u64), (1, 600), (11, 5_000), (12, 599), (25, 1_800), (40, 99_999), (37, 12_345)] {
        let (content, initial, _, _) = fixture(stock, 3);
        let bulk = apply_effective_inputs(&initial, &content, &BigNat::from_u64(u64::from(inputs))).unwrap();
        let mut repeated = initial;
        for _ in 0..inputs {
            repeated = apply_effective_inputs(&repeated, &content, &BigNat::from_u64(1)).unwrap().state;
        }
        assert_eq!(bulk.state, repeated);
    }
}

#[test]
fn feeding_conserves_stock_plus_growth() {
    let (content, state, plant_id, animal_id) = fixture(1_234, 3);
    let result = apply_effective_inputs(&state, &content, &BigNat::from_u64(30)).unwrap();
    let stock = result.state.plants().get(&plant_id).unwrap().stock_cent.as_biguint().copy();
    let growth = result.state.animals().get(&animal_id).unwrap().total_growth_cent.as_biguint().copy();
    assert_eq!(stock.add(&growth), BigNat::from_u64(1_234));
    // two attempts of 3 * 200 cents: 1_200 taken, 34 left, progress 6
    assert_eq!(stock, BigNat::from_u64(34));
    assert_eq!(result.state.animals().get(&animal_id).unwrap().feeding_progress.value(), 6);
}

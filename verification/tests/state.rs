use clickclackfarm::amount::{Coins, EntityCount, StockCent};
use clickclackfarm::bignat::BigNat;
use clickclackfarm::config::{AnimalConfig, ContentConfig, EmergencyPurchaseRule, PlantConfig};
use clickclackfarm::error::StateError;
use clickclackfarm::ids::{AnimalId, PlantId};
use clickclackfarm::state::{GameState, PlantState, ProductionRemainder60};

fn fixture() -> (ContentConfig, PlantId) {
    let plant_id = PlantId::new("clover").unwrap();
    let animal_id = AnimalId::new("rabbit").unwrap();
    let content = ContentConfig::try_new(
        "test".to_string(),
        vec![PlantConfig {
            id: plant_id.clone(),
            fixed_land_slot: 0,
            base_price_coins: Coins::from_u64(75),
            price_growth_num: BigNat::from_u64(103),
            price_growth_den: BigNat::from_u64(100),
            rate_cent_per_minute: StockCent::from_u64(500),
            paired_animal_id: animal_id.clone(),
        }],
        vec![AnimalConfig {
            id: animal_id.clone(),
            fixed_purchase_price_coins: Coins::from_u64(50),
            zero_growth_sell_price_coins: Coins::from_u64(25),
            feeding_threshold: 12,
            bite_cent: StockCent::from_u64(200),
            food_plant_id: plant_id.clone(),
        }],
        EmergencyPurchaseRule { animal_id, trigger_below_coins: Coins::from_u64(50) },
    )
    .unwrap();
    (content, plant_id)
}

#[test]
fn zero_count_plant_cannot_restore_nonzero_stock() {
    let (content, plant_id) = fixture();
    let state = GameState::new(&content, Coins::zero(), vec![], vec![]).unwrap();
    let mut plants = state.plants().clone();
    plants.insert(
        plant_id,
        PlantState {
            count: EntityCount::from_u64(0),
            stock_cent: StockCent::from_u64(1),
            production_remainder_60: ProductionRemainder60::default(),
        },
    );
    let restored = GameState::try_from_parts(
        state.content_version().to_owned(),
        state.wallet().clone(),
        plants,
        state.animals().clone(),
        state.collection().clone(),
        &content,
    );
    assert!(matches!(restored, Err(StateError::EmptyPlantHasStock(_))));
}

#[test]
fn initial_grants_are_checked() {
    let (content, plant_id) = fixture();
    let twice = GameState::new(
        &content,
        Coins::zero(),
        vec![(plant_id.clone(), EntityCount::from_u64(1)), (plant_id.clone(), EntityCount::from_u64(2))],
        vec![],
    );
    assert!(matches!(twice, Err(StateError::DuplicateInitialGrant(_))));
    let unknown = GameState::new(
        &content,
        Coins::zero(),
        vec![(PlantId::new("tomato").unwrap(), EntityCount::from_u64(1))],
        vec![],
    );
    assert!(matches!(unknown, Err(StateError::UnknownPlant(_))));
    let granted = GameState::new(&content, Coins::from_u64(5), vec![(plant_id.clone(), EntityCount::from_u64(2))], vec![]).unwrap();
    assert!(granted.collection().is_plant_discovered(&plant_id));
    assert_eq!(granted.total_animal_count(), BigNat::zero());
}

#[test]
fn remainder_and_ids_are_validated() {
    assert!(ProductionRemainder60::try_new(59).is_ok());
    assert!(matches!(ProductionRemainder60::try_new(60), Err(StateError::InvalidProductionRemainder)));
    assert!(PlantId::new("red-panda").is_ok());
    assert!(PlantId::new("").is_err());
}

use clickclackfarm::amount::{Coins, EntityCount, GrowthCent, LifetimePurchaseCount, StockCent};
use clickclackfarm::bignat::BigNat;
use clickclackfarm::config::{AnimalConfig, ContentConfig, EmergencyPurchaseRule, PlantConfig};
use clickclackfarm::error::DomainError;
use clickclackfarm::idmap::IdMap;
use clickclackfarm::ids::{AnimalId, PlantId};
use clickclackfarm::sale::{apply_sale_batch, quote_sale_batch, SaleSelection};
use clickclackfarm::state::{
    AnimalState, FeedingProgress, GameState, PlantState, ProductionRemainder60, Wallet,
};

fn fixture(animals: u64, growth_cent: BigNat, progress: u8) -> (ContentConfig, GameState, AnimalId) {
    let plant_id = PlantId::new("clover").unwrap();
    let animal_id = AnimalId::new("rabbit").unwrap();
    let content = ContentConfig::try_new(
        "test".to_string(),
        vec![PlantConfig {
            id: plant_id.clone(),
            fixed_land_slot: 0,
            base_price_coins: Coins::from_u64(75),
            price_growth_num: BigNat::from_u64(103),
            price_growth_den: BigNat::from_u64(100),
            rate_cent_per_minute: StockCent::from_u64(500),
            paired_animal_id: animal_id.clone(),
        }],
        vec![AnimalConfig {
            id: animal_id.clone(),
            fixed_purchase_price_coins: Coins::from_u64(50),
            zero_growth_sell_price_coins: Coins::from_u64(25),
            feeding_threshold: 12,
            bite_cent: StockCent::from_u64(200),
            food_plant_id: plant_id.clone(),
        }],
        EmergencyPurchaseRule { animal_id: animal_id.clone(), trigger_below_coins: Coins::from_u64(50) },
    )
    .unwrap();
    let mut plants = IdMap::new();
    plants.insert(
        plant_id.clone(),
        PlantState {
            count: EntityCount::from_u64(1),
            stock_cent: StockCent::zero(),
            production_remainder_60: ProductionRemainder60::default(),
        },
    );
    let mut animal_states = IdMap::new();
    animal_states.insert(
        animal_id.clone(),
        AnimalState {
            count: EntityCount::from_u64(animals),
            total_growth_cent: GrowthCent::from_biguint(growth_cent),
            feeding_progress: FeedingProgress::new_unchecked(progress),
            lifetime_paid_purchase_count: LifetimePurchaseCount::zero(),
        },
    );
    let initial = GameState::new(
        &content,
        Coins::zero(),
        vec![(PlantId::new("clover").unwrap(), EntityCount::from_u64(1))],
        vec![(animal_id.clone(), EntityCount::from_u64(animals))],
    )
    .unwrap();
    let state = GameState::try_from_parts(
        "test".to_owned(),
        Wallet { coins: Coins::zero() },
        plants,
        animal_states,
        initial.collection().clone(),
        &content,
    )
    .unwrap();
    (content, state, animal_id)
}

fn sell(id: &AnimalId, quantity: u64) -> SaleSelection {
    SaleSelection { animal_id: id.clone(), quantity: EntityCount::from_u64(quantity) }
}

#[test]
fn partial_sale_conserves_growth_and_progress() {
    let (content, state, animal_id) = fixture(3, BigNat::from_u64(100), 7);
    let result = apply_sale_batch(&state, &content, &[sell(&animal_id, 1)]).unwrap();
    let line = &result.outcome.quote.lines[0];
    assert_eq!(line.sold_growth_cent, GrowthCent::from_u64(33));
    let rabbit = result.state.animals().get(&animal_id).unwrap();
    assert_eq!(rabbit.total_growth_cent, GrowthCent::from_u64(67));
    assert_eq!(rabbit.feeding_progress.value(), 7);
    assert_eq!(
        line.sold_growth_cent.as_biguint().add(rabbit.total_growth_cent.as_biguint()),
        BigNat::from_u64(100)
    );
}

#[test]
fn full_sale_takes_all_growth_and_clears_progress() {
    let (content, state, animal_id) = fixture(3, BigNat::from_u64(101), 11);
    let result = apply_sale_batch(&state, &content, &[sell(&animal_id, 3)]).unwrap();
    let rabbit = result.state.animals().get(&animal_id).unwrap();
    assert!(rabbit.count.is_zero());
    assert!(rabbit.total_growth_cent.is_zero());
    assert_eq!(rabbit.feeding_progress.value(), 0);
    // 3 * 25 coins + 101 / 100
    assert_eq!(result.outcome.quote.total_coins, Coins::from_u64(76));
    assert_eq!(result.state.wallet().coins, Coins::from_u64(76));
}

#[test]
fn invalid_batch_is_rejected_before_any_species_can_change() {
    let (content, state, animal_id) = fixture(3, BigNat::from_u64(100), 0);
    let result = apply_sale_batch(&state, &content, &[sell(&animal_id, 4)]);
    match result {
        Err(DomainError::SaleQuantityExceedsOwned(id)) => assert_eq!(id, "rabbit"),
        _ => panic!("expected the sale to be refused"),
    }
    assert_eq!(state.wallet().coins, Coins::zero());
}

#[test]
fn partial_sale_supports_growth_far_beyond_u128() {
    let ten = BigNat::from_u64(10);
    let mut huge = BigNat::one();
    for _ in 0..100 {
        huge = huge.mul(&ten);
    }
    let (content, state, animal_id) = fixture(3, huge.copy(), 0);
    let result = apply_sale_batch(&state, &content, &[sell(&animal_id, 1)]).unwrap();
    assert_eq!(
        result.outcome.quote.lines[0]
            .sold_growth_cent
            .as_biguint()
            .add(result.state.animals().get(&animal_id).unwrap().total_growth_cent.as_biguint()),
        huge
    );
}

#[test]
fn split_sales_never_pay_more_than_combined() {
    for (animals, growth_cent) in [(1_u64, 0_u64), (2, 199), (3, 100), (7, 999_999), (13, 12_345), (49, 1)] {
        let (content, state, animal_id) = fixture(animals, BigNat::from_u64(growth_cent), 0);
        let combined = quote_sale_batch(&state, &content, &[sell(&animal_id, animals)]).unwrap();
        let mut current = state;
        let mut split_coins = BigNat::zero();
        for _ in 0..animals {
            let sale = apply_sale_batch(&current, &content, &[sell(&animal_id, 1)]).unwrap();
            split_coins = split_coins.add(sale.outcome.quote.total_coins.as_biguint());
            current = sale.state;
        }
        assert!(split_coins.le(combined.total_coins.as_biguint()));
        assert!(current.animals().get(&animal_id).unwrap().total_growth_cent.is_zero());
    }
}

#[test]
fn sale_selections_are_checked_like_purchases() {
    let (content, state, animal_id) = fixture(3, BigNat::from_u64(100), 0);
    match quote_sale_batch(&state, &content, &[sell(&animal_id, 1), sell(&animal_id, 1)]) {
        Err(DomainError::DuplicateSelection(text)) => assert_eq!(text, "animal:rabbit"),
        _ => panic!("expected a duplicate selection"),
    }
    assert!(matches!(quote_sale_batch(&state, &content, &[sell(&animal_id, 0)]), Err(DomainError::EmptySelection)));
    let owl = AnimalId::new("owl").unwrap();
    assert!(matches!(quote_sale_batch(&state, &content, &[sell(&owl, 1)]), Err(DomainError::UnknownAnimal(_))));
}

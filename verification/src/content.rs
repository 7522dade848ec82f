//! The bundled catalog: five tiers, each a plant and the animal that eats it.
//!
//! `load_mvp_content` checks the catalog's structure and its numbers every time it
//! builds it.
use crate::amount::{Coins, EntityCount, StockCent};
use crate::bignat::BigNat;
use crate::config::{
    catalog_ids_valid, lemma_paired_catalog_valid, lemma_sorted_lookup, AnimalConfig, ContentConfig, EmergencyPurchaseRule,
    PlantConfig,
};
use crate::error::{ConfigError, ConfigErrorView, StateError, StateErrorView};
use crate::ids::{valid_species_id, AnimalId, PlantId};
use crate::keyed::{has_key, key_index, SortKey};
use crate::state::{id_set_of, state_valid, AnimalStateView, GameState, GameView, PlantStateView};
use vstd::prelude::*;

verus! {

pub const CONTENT_VERSION: &'static str = "mvp-0.2.7";

pub const CLOVER: &'static str = "clover";

pub const SUNFLOWER: &'static str = "sunflower";

pub const BAMBOO: &'static str = "bamboo";

pub const CORN: &'static str = "corn";

pub const APPLE: &'static str = "apple";

pub const RABBIT: &'static str = "rabbit";

pub const HAMSTER: &'static str = "hamster";

pub const RED_PANDA: &'static str = "red-panda";

pub const CAPYBARA: &'static str = "capybara";

pub const DEER: &'static str = "deer";

/// Why the bundled content could not be used.
#[derive(Clone, Debug, PartialEq, Eq)]
pub enum MvpContentError {
    InvalidCatalog(ConfigError),
    NumericalInvariant(&'static str),
    InvalidInitialState(StateError),
}

pub enum MvpContentErrorView {
    InvalidCatalog(ConfigErrorView),
    NumericalInvariant(Seq<char>),
    InvalidInitialState(StateErrorView),
}

impl View for MvpContentError {
    type V = MvpContentErrorView;

    open spec fn view(&self) -> MvpContentErrorView {
        match self {
            MvpContentError::InvalidCatalog(e) => MvpContentErrorView::InvalidCatalog(e@),
            MvpContentError::NumericalInvariant(s) => MvpContentErrorView::NumericalInvariant(s@),
            MvpContentError::InvalidInitialState(e) => MvpContentErrorView::InvalidInitialState(e@),
        }
    }
}

/// The plant species keyed `id` is in `ps` with these parameters (and growth 103/100).
pub open spec fn plant_row(ps: Seq<PlantConfig>, id: Seq<char>, pair: Seq<char>, slot: u8, base: nat, rate: nat) -> bool {
    &&& has_key(ps, id)
    &&& ps[key_index(ps, id)].paired_animal_id@ == pair
    &&& ps[key_index(ps, id)].fixed_land_slot == slot
    &&& ps[key_index(ps, id)].base_price_coins@ == base
    &&& ps[key_index(ps, id)].price_growth_num@ == 103
    &&& ps[key_index(ps, id)].price_growth_den@ == 100
    &&& ps[key_index(ps, id)].rate_cent_per_minute@ == rate
}

/// The animal species keyed `id` is in `xs` with these parameters (and threshold 12).
pub open spec fn animal_row(
    xs: Seq<AnimalConfig>,
    id: Seq<char>,
    food: Seq<char>,
    price: nat,
    zero_growth: nat,
    bite: nat,
) -> bool {
    &&& has_key(xs, id)
    &&& xs[key_index(xs, id)].food_plant_id@ == food
    &&& xs[key_index(xs, id)].fixed_purchase_price_coins@ == price
    &&& xs[key_index(xs, id)].zero_growth_sell_price_coins@ == zero_growth
    &&& xs[key_index(xs, id)].feeding_threshold == 12
    &&& xs[key_index(xs, id)].bite_cent@ == bite
}

/// The bundled catalog.
pub open spec fn mvp_catalog(c: ContentConfig) -> bool {
    &&& c.version_view() == CONTENT_VERSION@
    &&& c.plant_seq().len() == 5
    &&& c.animal_seq().len() == 5
    &&& plant_row(c.plant_seq(), CLOVER@, RABBIT@, 0, 75, 500)
    &&& plant_row(c.plant_seq(), SUNFLOWER@, HAMSTER@, 1, 300, 2_500)
    &&& plant_row(c.plant_seq(), BAMBOO@, RED_PANDA@, 2, 1_200, 12_500)
    &&& plant_row(c.plant_seq(), CORN@, CAPYBARA@, 3, 4_800, 62_500)
    &&& plant_row(c.plant_seq(), APPLE@, DEER@, 4, 19_200, 312_500)
    &&& animal_row(c.animal_seq(), RABBIT@, CLOVER@, 50, 25, 200)
    &&& animal_row(c.animal_seq(), HAMSTER@, SUNFLOWER@, 200, 100, 1_000)
    &&& animal_row(c.animal_seq(), RED_PANDA@, BAMBOO@, 800, 400, 5_000)
    &&& animal_row(c.animal_seq(), CAPYBARA@, CORN@, 3_200, 1_600, 25_000)
    &&& animal_row(c.animal_seq(), DEER@, APPLE@, 12_800, 6_400, 125_000)
    &&& c.rule().animal_id@ == RABBIT@
    &&& c.rule().trigger_below_coins@ == 50
}

fn plant(id: &PlantId, animal_id: &AnimalId, fixed_land_slot: u8, base_price_coins: u64, rate_cent_per_minute: u64) -> (r:
    PlantConfig)
    ensures
        r.id@ == id@,
        r.paired_animal_id@ == animal_id@,
        r.fixed_land_slot == fixed_land_slot,
        r.base_price_coins@ == base_price_coins,
        r.price_growth_num@ == 103,
        r.price_growth_den@ == 100,
        r.rate_cent_per_minute@ == rate_cent_per_minute,
{
    PlantConfig {
        id: id.copy(),
        fixed_land_slot,
        base_price_coins: Coins::from_u64(base_price_coins),
        price_growth_num: BigNat::from_u64(103),
        price_growth_den: BigNat::from_u64(100),
        rate_cent_per_minute: StockCent::from_u64(rate_cent_per_minute),
        paired_animal_id: animal_id.copy(),
    }
}

fn animal(id: &AnimalId, plant_id: &PlantId, purchase_price: u64, zero_growth_sale: u64, bite_cent: u64) -> (r:
    AnimalConfig)
    ensures
        r.id@ == id@,
        r.food_plant_id@ == plant_id@,
        r.fixed_purchase_price_coins@ == purchase_price,
        r.zero_growth_sell_price_coins@ == zero_growth_sale,
        r.feeding_threshold == 12,
        r.bite_cent@ == bite_cent,
{
    AnimalConfig {
        id: id.copy(),
        fixed_purchase_price_coins: Coins::from_u64(purchase_price),
        zero_growth_sell_price_coins: Coins::from_u64(zero_growth_sale),
        feeding_threshold: 12,
        bite_cent: StockCent::from_u64(bite_cent),
        food_plant_id: plant_id.copy(),
    }
}

/// The ids of the bundled species are valid.
proof fn lemma_mvp_ids_valid()
    ensures
        valid_species_id(CLOVER@),
        valid_species_id(SUNFLOWER@),
        valid_species_id(BAMBOO@),
        valid_species_id(CORN@),
        valid_species_id(APPLE@),
        valid_species_id(RABBIT@),
        valid_species_id(HAMSTER@),
        valid_species_id(RED_PANDA@),
        valid_species_id(CAPYBARA@),
        valid_species_id(DEER@),
{
    reveal_strlit("clover");
    reveal_strlit("sunflower");
    reveal_strlit("bamboo");
    reveal_strlit("corn");
    reveal_strlit("apple");
    reveal_strlit("rabbit");
    reveal_strlit("hamster");
    reveal_strlit("red-panda");
    reveal_strlit("capybara");
    reveal_strlit("deer");
}

struct Ids {
    clover: PlantId,
    sunflower: PlantId,
    bamboo: PlantId,
    corn: PlantId,
    apple: PlantId,
    rabbit: AnimalId,
    hamster: AnimalId,
    red_panda: AnimalId,
    capybara: AnimalId,
    deer: AnimalId,
}

fn ids() -> (r: Result<Ids, ConfigError>)
    ensures
        r matches Ok(i) && i.clover@ == CLOVER@ && i.sunflower@ == SUNFLOWER@ && i.bamboo@ == BAMBOO@
            && i.corn@ == CORN@ && i.apple@ == APPLE@ && i.rabbit@ == RABBIT@ && i.hamster@ == HAMSTER@
            && i.red_panda@ == RED_PANDA@ && i.capybara@ == CAPYBARA@ && i.deer@ == DEER@,
{
    proof {
        lemma_mvp_ids_valid();
    }
    let clover = match PlantId::new(CLOVER) {
        Ok(x) => x,
        Err(e) => {
            return Err(e);
        },
    };
    let sunflower = match PlantId::new(SUNFLOWER) {
        Ok(x) => x,
        Err(e) => {
            return Err(e);
        },
    };
    let bamboo = match PlantId::new(BAMBOO) {
        Ok(x) => x,
        Err(e) => {
            return Err(e);
        },
    };
    let corn = match PlantId::new(CORN) {
        Ok(x) => x,
        Err(e) => {
            return Err(e);
        },
    };
    let apple = match PlantId::new(APPLE) {
        Ok(x) => x,
        Err(e) => {
            return Err(e);
        },
    };
    let rabbit = match AnimalId::new(RABBIT) {
        Ok(x) => x,
        Err(e) => {
            return Err(e);
        },
    };
    let hamster = match AnimalId::new(HAMSTER) {
        Ok(x) => x,
        Err(e) => {
            return Err(e);
        },
    };
    let red_panda = match AnimalId::new(RED_PANDA) {
        Ok(x) => x,
        Err(e) => {
            return Err(e);
        },
    };
    let capybara = match AnimalId::new(CAPYBARA) {
        Ok(x) => x,
        Err(e) => {
            return Err(e);
        },
    };
    let deer = match AnimalId::new(DEER) {
        Ok(x) => x,
        Err(e) => {
            return Err(e);
        },
    };
    Ok(Ids { clover, sunflower, bamboo, corn, apple, rabbit, hamster, red_panda, capybara, deer })
}

/// The bundled ids are pairwise distinct.
proof fn lemma_mvp_ids_distinct()
    ensures
        CLOVER@ != SUNFLOWER@,
        CLOVER@ != BAMBOO@,
        CLOVER@ != CORN@,
        CLOVER@ != APPLE@,
        SUNFLOWER@ != BAMBOO@,
        SUNFLOWER@ != CORN@,
        SUNFLOWER@ != APPLE@,
        BAMBOO@ != CORN@,
        BAMBOO@ != APPLE@,
        CORN@ != APPLE@,
        RABBIT@ != HAMSTER@,
        RABBIT@ != RED_PANDA@,
        RABBIT@ != CAPYBARA@,
        RABBIT@ != DEER@,
        HAMSTER@ != RED_PANDA@,
        HAMSTER@ != CAPYBARA@,
        HAMSTER@ != DEER@,
        RED_PANDA@ != CAPYBARA@,
        RED_PANDA@ != DEER@,
        CAPYBARA@ != DEER@,
{
    reveal_strlit("clover");
    reveal_strlit("sunflower");
    reveal_strlit("bamboo");
    reveal_strlit("corn");
    reveal_strlit("apple");
    reveal_strlit("rabbit");
    reveal_strlit("hamster");
    reveal_strlit("red-panda");
    reveal_strlit("capybara");
    reveal_strlit("deer");
    assert(CLOVER@[0] != BAMBOO@[0]);
    assert(CLOVER@.len() == 6 && SUNFLOWER@.len() == 9 && BAMBOO@.len() == 6 && CORN@.len() == 4
        && APPLE@.len() == 5);
    assert(RABBIT@.len() == 6 && HAMSTER@.len() == 7 && RED_PANDA@.len() == 9 && CAPYBARA@.len() == 8
        && DEER@.len() == 4);
}

/// Builds the bundled catalog and checks its structure and numbers.
pub fn load_mvp_content() -> (r: Result<ContentConfig, MvpContentError>)
    ensures
        r matches Ok(c) && mvp_catalog(c),
{
    let ids = match ids() {
        Ok(i) => i,
        Err(e) => {
            return Err(MvpContentError::InvalidCatalog(e));
        },
    };
    let plants = vec![
        plant(&ids.clover, &ids.rabbit, 0, 75, 500),
        plant(&ids.sunflower, &ids.hamster, 1, 300, 2_500),
        plant(&ids.bamboo, &ids.red_panda, 2, 1_200, 12_500),
        plant(&ids.corn, &ids.capybara, 3, 4_800, 62_500),
        plant(&ids.apple, &ids.deer, 4, 19_200, 312_500),
    ];
    let animals = vec![
        animal(&ids.rabbit, &ids.clover, 50, 25, 200),
        animal(&ids.hamster, &ids.sunflower, 200, 100, 1_000),
        animal(&ids.red_panda, &ids.bamboo, 800, 400, 5_000),
        animal(&ids.capybara, &ids.corn, 3_200, 1_600, 25_000),
        animal(&ids.deer, &ids.apple, 12_800, 6_400, 125_000),
    ];
    let rule = EmergencyPurchaseRule { animal_id: ids.rabbit.copy(), trigger_below_coins: Coins::from_u64(50) };
    let ghost ps = plants@;
    let ghost xs = animals@;
    proof {
        lemma_mvp_ids_distinct();
        assert forall|i: int, j: int| 0 <= i < j < ps.len() implies (#[trigger] ps[i]).key() != (#[trigger] ps[j]).key() by {}
        assert forall|i: int, j: int| 0 <= i < j < xs.len() implies (#[trigger] xs[i]).key() != (#[trigger] xs[j]).key() by {}
        assert forall|i: int, j: int| 0 <= i < j < ps.len() implies (#[trigger] ps[i]).fixed_land_slot != (#[trigger] ps[j]).fixed_land_slot by {}
        lemma_paired_catalog_valid(ps, xs, rule, 0);
        reveal_strlit("mvp-0.2.7");
        assert(!crate::config::is_blank(CONTENT_VERSION@)) by {
            assert(!crate::config::is_white_space(CONTENT_VERSION@[0]));
        }
    }
    let content = match ContentConfig::try_new(CONTENT_VERSION.to_owned(), plants, animals, rule) {
        Ok(c) => c,
        Err(e) => {
            return Err(MvpContentError::InvalidCatalog(e));
        },
    };
    proof {
        lemma_sorted_lookup(ps, CLOVER@, 0);
        lemma_sorted_lookup(ps, SUNFLOWER@, 1);
        lemma_sorted_lookup(ps, BAMBOO@, 2);
        lemma_sorted_lookup(ps, CORN@, 3);
        lemma_sorted_lookup(ps, APPLE@, 4);
        lemma_sorted_lookup(xs, RABBIT@, 0);
        lemma_sorted_lookup(xs, HAMSTER@, 1);
        lemma_sorted_lookup(xs, RED_PANDA@, 2);
        lemma_sorted_lookup(xs, CAPYBARA@, 3);
        lemma_sorted_lookup(xs, DEER@, 4);
        crate::keyed::lemma_sort_by_key_len(ps);
        crate::keyed::lemma_sort_by_key_len(xs);
        lemma_mvp_numbers(content);
    }
    match validate_mvp_numerical_invariants(&content) {
        Err(e) => {
            return Err(e);
        },
        Ok(()) => {},
    }
    Ok(content)
}

/// The plant of tier `k`, cheapest first.
pub open spec fn tier_plant(k: int) -> Seq<char> {
    if k == 0 {
        CLOVER@
    } else if k == 1 {
        SUNFLOWER@
    } else if k == 2 {
        BAMBOO@
    } else if k == 3 {
        CORN@
    } else {
        APPLE@
    }
}

/// The animal of tier `k`.
pub open spec fn tier_animal(k: int) -> Seq<char> {
    if k == 0 {
        RABBIT@
    } else if k == 1 {
        HAMSTER@
    } else if k == 2 {
        RED_PANDA@
    } else if k == 3 {
        CAPYBARA@
    } else {
        DEER@
    }
}

/// The effective cost each tier must have: its animal plus its first plant, less what the
/// animal sells back for.
pub open spec fn expected_cost(k: int) -> nat {
    if k == 0 {
        100
    } else if k == 1 {
        400
    } else if k == 2 {
        1_600
    } else if k == 3 {
        6_400
    } else {
        25_600
    }
}

pub open spec fn tier_plant_config(c: ContentConfig, k: int) -> PlantConfig {
    c.plant_seq()[key_index(c.plant_seq(), tier_plant(k))]
}

pub open spec fn tier_animal_config(c: ContentConfig, k: int) -> AnimalConfig {
    c.animal_seq()[key_index(c.animal_seq(), tier_animal(k))]
}

/// Animal price plus base plant price less the zero-growth sale price of tier `k`.
pub open spec fn effective_cost(c: ContentConfig, k: int) -> int {
    tier_animal_config(c, k).fixed_purchase_price_coins@ + tier_plant_config(c, k).base_price_coins@
        - tier_animal_config(c, k).zero_growth_sell_price_coins@
}

/// The growth a tier's animal makes in an hour of standard play: 150 bites.
pub open spec fn hourly_growth(c: ContentConfig, k: int) -> nat {
    tier_animal_config(c, k).bite_cent@ * 150
}

/// The first numerical rule tier `k` breaks, as its message.
pub open spec fn tier_check(c: ContentConfig, k: int) -> Option<Seq<char>> {
    let p = tier_plant_config(c, k);
    let a = tier_animal_config(c, k);
    if !has_key(c.plant_seq(), tier_plant(k)) {
        Some("missing MVP plant"@)
    } else if !has_key(c.animal_seq(), tier_animal(k)) {
        Some("missing MVP animal"@)
    } else if p.fixed_land_slot != k || p.price_growth_num@ != 103 || p.price_growth_den@ != 100
        || a.feeding_threshold != 12 {
        Some("land slot, growth ratio, or feeding threshold drifted"@)
    } else if effective_cost(c, k) != expected_cost(k) {
        Some("effective cost identity drifted"@)
    } else if p.rate_cent_per_minute@ * 60 != hourly_growth(c, k) {
        Some("standard supply and demand are not 100 percent balanced"@)
    } else if k > 0 && (effective_cost(c, k) != effective_cost(c, k - 1) * 4 || hourly_growth(c, k)
        != hourly_growth(c, k - 1) * 5) {
        Some("tier cost or income ladder drifted"@)
    } else {
        None
    }
}

pub open spec fn tier_checks(c: ContentConfig) -> spec_fn(int) -> Option<Seq<char>> {
    |k: int| tier_check(c, k)
}

/// The first numerical rule the catalog breaks: five tiers, each at its land slot with
/// growth 103/100 and threshold 12, effective costs 100, 400, 1600, 6400, 25600, supply
/// per hour equal to demand per hour, and each tier four times the cost and five times
/// the growth of the one below.
pub open spec fn numerical_check(c: ContentConfig) -> Option<Seq<char>> {
    if c.plant_seq().len() != 5 || c.animal_seq().len() != 5 {
        Some("exactly five plants and five animals are required"@)
    } else {
        crate::error::first_some(tier_checks(c), 0, 5)
    }
}

fn tier_names(k: usize) -> (r: (&'static str, &'static str, u64))
    requires
        k < 5,
    ensures
        r.0@ == tier_plant(k as int),
        r.1@ == tier_animal(k as int),
        r.2 as nat == expected_cost(k as int),
{
    if k == 0 {
        (CLOVER, RABBIT, 100)
    } else if k == 1 {
        (SUNFLOWER, HAMSTER, 400)
    } else if k == 2 {
        (BAMBOO, RED_PANDA, 1_600)
    } else if k == 3 {
        (CORN, CAPYBARA, 6_400)
    } else {
        (APPLE, DEER, 25_600)
    }
}

/// Checks the catalog's numbers against the design of the five tiers.
pub fn validate_mvp_numerical_invariants(content: &ContentConfig) -> (r: Result<(), MvpContentError>)
    ensures
        match numerical_check(*content) {
            Some(m) => r matches Err(e) && e@ == MvpContentErrorView::NumericalInvariant(m),
            None => r is Ok,
        },
{
    match content.validate() {
        Err(e) => {
            return Err(MvpContentError::InvalidCatalog(e));
        },
        Ok(()) => {},
    }
    proof {
        use_type_invariant(content);
        crate::config::lemma_catalog_facts(content.plant_seq(), content.animal_seq(), content.rule());
        lemma_mvp_ids_valid();
    }
    if content.plants().len() != 5 || content.animals().len() != 5 {
        return Err(MvpContentError::NumericalInvariant("exactly five plants and five animals are required"));
    }
    let ghost c = *content;
    let ghost checks = tier_checks(c);
    let mut previous: Option<(BigNat, BigNat)> = None;
    let mut k: usize = 0;
    while k < 5
        invariant
            c == *content,
            checks == tier_checks(c),
            c.plant_seq().len() == 5,
            c.animal_seq().len() == 5,
            k <= 5,
            crate::error::first_some(checks, 0, 5) == crate::error::first_some(checks, k as int, 5),
            k > 0 ==> (previous matches Some(pv) && pv.0@ == effective_cost(c, k - 1) && pv.1@ == hourly_growth(
                c,
                k - 1,
            )),
            k == 0 ==> previous is None,
            forall|i: int| 0 <= i < c.animal_seq().len() ==> (#[trigger] crate::config::animal_check(
                c.plant_seq(),
                c.animal_seq(),
                i,
            )) is None,
            valid_species_id(CLOVER@),
            valid_species_id(SUNFLOWER@),
            valid_species_id(BAMBOO@),
            valid_species_id(CORN@),
            valid_species_id(APPLE@),
            valid_species_id(RABBIT@),
            valid_species_id(HAMSTER@),
            valid_species_id(RED_PANDA@),
            valid_species_id(CAPYBARA@),
            valid_species_id(DEER@),
        decreases 5 - k,
    {
        let (plant_name, animal_name, expected) = tier_names(k);
        let plant_id = match PlantId::new(plant_name) {
            Ok(x) => x,
            Err(e) => {
                return Err(MvpContentError::InvalidCatalog(e));
            },
        };
        let animal_id = match AnimalId::new(animal_name) {
            Ok(x) => x,
            Err(e) => {
                return Err(MvpContentError::InvalidCatalog(e));
            },
        };
        let plant = match content.plant(&plant_id) {
            Some(p) => p,
            None => {
                proof {
                    assert(checks(k as int) == Some("missing MVP plant"@));
                }
                return Err(MvpContentError::NumericalInvariant("missing MVP plant"));
            },
        };
        let animal = match content.animal(&animal_id) {
            Some(a) => a,
            None => {
                proof {
                    assert(checks(k as int) == Some("missing MVP animal"@));
                }
                return Err(MvpContentError::NumericalInvariant("missing MVP animal"));
            },
        };
        assert(*plant == tier_plant_config(c, k as int));
        assert(*animal == tier_animal_config(c, k as int));
        if plant.fixed_land_slot as usize != k || !plant.price_growth_num.eq(&BigNat::from_u64(103))
            || !plant.price_growth_den.eq(&BigNat::from_u64(100)) || animal.feeding_threshold != 12 {
            proof {
                assert(checks(k as int) == Some("land slot, growth ratio, or feeding threshold drifted"@));
            }
            return Err(MvpContentError::NumericalInvariant("land slot, growth ratio, or feeding threshold drifted"));
        }
        proof {
            let ai = key_index(c.animal_seq(), tier_animal(k as int));
            assert(crate::config::animal_check(c.plant_seq(), c.animal_seq(), ai) is None);
        }
        let effective_cost = animal.fixed_purchase_price_coins.as_biguint().add(plant.base_price_coins.as_biguint()).sub(
            animal.zero_growth_sell_price_coins.as_biguint(),
        );
        if !effective_cost.eq(&BigNat::from_u64(expected)) {
            proof {
                assert(checks(k as int) == Some("effective cost identity drifted"@));
            }
            return Err(MvpContentError::NumericalInvariant("effective cost identity drifted"));
        }
        let hourly_supply = plant.rate_cent_per_minute.as_biguint().mul(&BigNat::from_u64(60));
        let hourly_growth = animal.bite_cent.as_biguint().mul(&BigNat::from_u64(150));
        if !hourly_supply.eq(&hourly_growth) {
            proof {
                assert(checks(k as int) == Some("standard supply and demand are not 100 percent balanced"@));
            }
            return Err(MvpContentError::NumericalInvariant("standard supply and demand are not 100 percent balanced"));
        }
        if let Some((previous_cost, previous_growth)) = &previous {
            if !effective_cost.eq(&previous_cost.mul(&BigNat::from_u64(4))) || !hourly_growth.eq(
                &previous_growth.mul(&BigNat::from_u64(5)),
            ) {
                proof {
                    assert(checks(k as int) == Some("tier cost or income ladder drifted"@));
                }
                return Err(MvpContentError::NumericalInvariant("tier cost or income ladder drifted"));
            }
        }
        proof {
            assert(checks(k as int) is None);
            crate::error::lemma_first_some_step(checks, k as int, 5);
        }
        previous = Some((effective_cost, hourly_growth));
        k = k + 1;
    }
    Ok(())
}

/// The bundled catalog meets its numerical design.
pub proof fn lemma_mvp_numbers(c: ContentConfig)
    requires
        mvp_catalog(c),
    ensures
        numerical_check(c) is None,
{
    assert(tier_check(c, 0) is None);
    assert(tier_check(c, 1) is None);
    assert(tier_check(c, 2) is None);
    assert(tier_check(c, 3) is None);
    assert(tier_check(c, 4) is None);
    assert forall|k: int| 0 <= k < 5 implies (#[trigger] tier_checks(c)(k)) is None by {
        if k == 0 {
        } else if k == 1 {
        } else if k == 2 {
        } else if k == 3 {
        } else {
        }
    }
    crate::error::lemma_first_some_none(tier_checks(c), 0, 5);
}

/// The bundled catalog's species ids are well formed, and a new game can start on it.
pub proof fn lemma_mvp_catalog_ids(c: ContentConfig)
    requires
        mvp_catalog(c),
        c.wf(),
    ensures
        catalog_ids_valid(c),
        mvp_start_check(c) is None,
{
    lemma_mvp_ids_valid();
    let ps = c.plant_seq();
    let xs = c.animal_seq();
    let k0 = key_index(ps, CLOVER@);
    let k1 = key_index(ps, SUNFLOWER@);
    let k2 = key_index(ps, BAMBOO@);
    let k3 = key_index(ps, CORN@);
    let k4 = key_index(ps, APPLE@);
    reveal_strlit("clover");
    reveal_strlit("sunflower");
    reveal_strlit("bamboo");
    reveal_strlit("corn");
    reveal_strlit("apple");
    reveal_strlit("rabbit");
    reveal_strlit("hamster");
    reveal_strlit("red-panda");
    reveal_strlit("capybara");
    reveal_strlit("deer");
    assert forall|j: int| 0 <= j < ps.len() implies valid_species_id(#[trigger] ps[j].id@) by {
        assert(ps[k0].key() == CLOVER@);
        assert(ps[k1].key() == SUNFLOWER@);
        assert(ps[k2].key() == BAMBOO@);
        assert(ps[k3].key() == CORN@);
        assert(ps[k4].key() == APPLE@);
        assert(j == k0 || j == k1 || j == k2 || j == k3 || j == k4);
    }
    let a0 = key_index(xs, RABBIT@);
    let a1 = key_index(xs, HAMSTER@);
    let a2 = key_index(xs, RED_PANDA@);
    let a3 = key_index(xs, CAPYBARA@);
    let a4 = key_index(xs, DEER@);
    assert forall|j: int| 0 <= j < xs.len() implies valid_species_id(#[trigger] xs[j].id@) by {
        assert(xs[a0].key() == RABBIT@);
        assert(xs[a1].key() == HAMSTER@);
        assert(xs[a2].key() == RED_PANDA@);
        assert(xs[a3].key() == CAPYBARA@);
        assert(xs[a4].key() == DEER@);
        assert(j == a0 || j == a1 || j == a2 || j == a3 || j == a4);
    }
}

/// Why a new game cannot start on catalog `c`: it lacks the clover or the rabbit.
pub open spec fn mvp_start_check(c: ContentConfig) -> Option<StateErrorView> {
    if !has_key(c.plant_seq(), CLOVER@) {
        Some(StateErrorView::UnknownPlant(CLOVER@))
    } else if !has_key(c.animal_seq(), RABBIT@) {
        Some(StateErrorView::UnknownAnimal(RABBIT@))
    } else {
        None
    }
}

/// A new game with `coins` coins, one clover, one rabbit, both discovered; nothing else.
pub open spec fn mvp_start_view(v: GameView, c: ContentConfig, coins: nat) -> bool {
    &&& v.version == c.version_view()
    &&& v.coins == coins
    &&& v.plant_ids == crate::idmap::key_view(c.plant_seq())
    &&& v.plants.len() == c.plant_seq().len()
    &&& forall|k: int|
        0 <= k < v.plants.len() ==> #[trigger] v.plants[k] == (PlantStateView {
            count: if v.plant_ids[k] == CLOVER@ {
                1
            } else {
                0
            },
            stock_cent: 0,
            remainder: 0,
        })
    &&& v.animal_ids == crate::idmap::key_view(c.animal_seq())
    &&& v.animals.len() == c.animal_seq().len()
    &&& forall|k: int|
        0 <= k < v.animals.len() ==> #[trigger] v.animals[k] == (AnimalStateView {
            count: if v.animal_ids[k] == RABBIT@ {
                1
            } else {
                0
            },
            growth_cent: 0,
            progress: 0,
            lifetime_paid: 0,
        })
    &&& id_set_of(v.found_plants, seq![CLOVER@])
    &&& id_set_of(v.found_animals, seq![RABBIT@])
}

/// The state a new game starts from: 50 coins, one clover, one rabbit.
pub fn new_mvp_game_state(content: &ContentConfig) -> (r: Result<GameState, MvpContentError>)
    ensures
        match mvp_start_check(*content) {
            Some(e) => r matches Err(x) && x@ == MvpContentErrorView::InvalidInitialState(e),
            None => r matches Ok(s) && mvp_start_view(s@, *content, 50) && state_valid(s@, *content),
        },
{
    start_game_state(content, 50)
}

/// A new game with `coins` coins, one clover and one rabbit.
pub fn start_game_state(content: &ContentConfig, coins: u64) -> (r: Result<GameState, MvpContentError>)
    ensures
        match mvp_start_check(*content) {
            Some(e) => r matches Err(x) && x@ == MvpContentErrorView::InvalidInitialState(e),
            None => r matches Ok(s) && mvp_start_view(s@, *content, coins as nat) && state_valid(s@, *content),
        },
{
    proof {
        lemma_mvp_ids_valid();
    }
    let clover = match PlantId::new(CLOVER) {
        Ok(x) => x,
        Err(e) => {
            return Err(MvpContentError::InvalidCatalog(e));
        },
    };
    let rabbit = match AnimalId::new(RABBIT) {
        Ok(x) => x,
        Err(e) => {
            return Err(MvpContentError::InvalidCatalog(e));
        },
    };
    let plants = vec![(clover, EntityCount::from_u64(1))];
    let animals = vec![(rabbit, EntityCount::from_u64(1))];
    let ghost gp = plants@;
    let ghost ga = animals@;
    proof {
        let fp = crate::state::plant_grant_checks(*content, gp);
        let fa = crate::state::animal_grant_checks(*content, ga);
        assert(crate::error::first_some(fp, 0, 1) == if fp(0) is Some {
            fp(0)
        } else {
            crate::error::first_some(fp, 1, 1)
        });
        assert(crate::error::first_some(fa, 0, 1) == if fa(0) is Some {
            fa(0)
        } else {
            crate::error::first_some(fa, 1, 1)
        });
        assert(gp.drop_last() =~= Seq::<(PlantId, EntityCount)>::empty());
        assert(ga.drop_last() =~= Seq::<(AnimalId, EntityCount)>::empty());
        assert forall|id: Seq<char>| #[trigger] crate::state::grant_count(gp, id) == if id == CLOVER@ {
            1nat
        } else {
            0nat
        } by {
            assert(crate::state::grant_count(gp.drop_last(), id) == 0);
        }
        assert forall|id: Seq<char>| #[trigger] crate::state::grant_count(ga, id) == if id == RABBIT@ {
            1nat
        } else {
            0nat
        } by {
            assert(crate::state::grant_count(ga.drop_last(), id) == 0);
        }
        assert(crate::state::grants_check(*content, gp, ga) == mvp_start_check(*content));
    }
    match GameState::new(content, Coins::from_u64(coins), plants, animals) {
        Ok(s) => {
            proof {
                let v = s@;
                assert forall|k: int| 0 <= k < v.plants.len() implies #[trigger] v.plants[k] == (PlantStateView {
                    count: if v.plant_ids[k] == CLOVER@ {
                        1
                    } else {
                        0
                    },
                    stock_cent: 0,
                    remainder: 0,
                }) by {
                    assert(crate::state::grant_count(gp, v.plant_ids[k]) == if v.plant_ids[k] == CLOVER@ {
                        1nat
                    } else {
                        0nat
                    });
                }
                assert forall|k: int| 0 <= k < v.animals.len() implies #[trigger] v.animals[k] == (AnimalStateView {
                    count: if v.animal_ids[k] == RABBIT@ {
                        1
                    } else {
                        0
                    },
                    growth_cent: 0,
                    progress: 0,
                    lifetime_paid: 0,
                }) by {
                    assert(crate::state::grant_count(ga, v.animal_ids[k]) == if v.animal_ids[k] == RABBIT@ {
                        1nat
                    } else {
                        0nat
                    });
                }
                assert forall|x: Seq<char>| crate::state::granted_nonzero(gp, x) <==> seq![CLOVER@].contains(x) by {
                    if x == CLOVER@ {
                        assert(gp[0].0@ == x);
                        assert(seq![CLOVER@][0] == x);
                    }
                }
                assert forall|x: Seq<char>| crate::state::granted_nonzero(ga, x) <==> seq![RABBIT@].contains(x) by {
                    if x == RABBIT@ {
                        assert(ga[0].0@ == x);
                        assert(seq![RABBIT@][0] == x);
                    }
                }
                assert forall|x: Seq<char>| v.found_plants.contains(x) <==> seq![CLOVER@].contains(x) by {
                    assert(v.found_plants.contains(x) <==> crate::state::granted_nonzero(gp, x));
                    assert(crate::state::granted_nonzero(gp, x) <==> seq![CLOVER@].contains(x));
                }
                assert forall|x: Seq<char>| v.found_animals.contains(x) <==> seq![RABBIT@].contains(x) by {
                    assert(v.found_animals.contains(x) <==> crate::state::granted_nonzero(ga, x));
                    assert(crate::state::granted_nonzero(ga, x) <==> seq![RABBIT@].contains(x));
                }
            }
            Ok(s)
        },
        Err(e) => Err(MvpContentError::InvalidInitialState(e)),
    }
}

} // verus!

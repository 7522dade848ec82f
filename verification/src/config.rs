//! The species catalog and its economic parameters.
use crate::amount::{Coins, StockCent};
use crate::bignat::BigNat;
use crate::error::{
    first_some, lemma_first_some_none_iff, lemma_first_some_step, ConfigError, ConfigErrorView,
};
use crate::ids::{valid_species_id, AnimalId, PlantId};
use crate::keyed::{
    first_dup, has_key, key_index, key_position, keys_increasing, lemma_key_index_unique, seq_less,
    sort_by_key, sort_unique, Keyed, SortKey,
};
use vstd::prelude::*;

verus! {

/// A plant species.
#[derive(Clone, Debug, PartialEq, Eq)]
pub struct PlantConfig {
    pub id: PlantId,
    pub fixed_land_slot: u8,
    pub base_price_coins: Coins,
    pub price_growth_num: BigNat,
    pub price_growth_den: BigNat,
    pub rate_cent_per_minute: StockCent,
    pub paired_animal_id: AnimalId,
}

/// An animal species.
#[derive(Clone, Debug, PartialEq, Eq)]
pub struct AnimalConfig {
    pub id: AnimalId,
    pub fixed_purchase_price_coins: Coins,
    pub zero_growth_sell_price_coins: Coins,
    pub feeding_threshold: u8,
    pub bite_cent: StockCent,
    pub food_plant_id: PlantId,
}

/// The animal that a player without animals and without enough coins may take for free.
#[derive(Clone, Debug, PartialEq, Eq)]
pub struct EmergencyPurchaseRule {
    pub animal_id: AnimalId,
    pub trigger_below_coins: Coins,
}

impl SortKey for PlantConfig {
    open spec fn key(&self) -> Seq<char> {
        self.id@
    }
}

impl Keyed for PlantConfig {
    fn key_str(&self) -> (r: &str) {
        self.id.as_str()
    }

    fn dup(&self) -> (r: Self) {
        let mut r = self.clone();
        r.id = self.id.copy();
        r
    }
}

impl SortKey for AnimalConfig {
    open spec fn key(&self) -> Seq<char> {
        self.id@
    }
}

impl Keyed for AnimalConfig {
    fn key_str(&self) -> (r: &str) {
        self.id.as_str()
    }

    fn dup(&self) -> (r: Self) {
        let mut r = self.clone();
        r.id = self.id.copy();
        r
    }
}

/// The Unicode `White_Space` property, which `str::trim` removes.
pub open spec fn is_white_space(c: char) -> bool {
    ('\u{9}' <= c && c <= '\u{d}') || c == ' ' || c == '\u{85}' || c == '\u{a0}' || c == '\u{1680}'
        || ('\u{2000}' <= c && c <= '\u{200a}') || c == '\u{2028}' || c == '\u{2029}' || c
        == '\u{202f}' || c == '\u{205f}' || c == '\u{3000}'
}

/// A string that is empty once trimmed.
pub open spec fn is_blank(s: Seq<char>) -> bool {
    forall|i: int| 0 <= i < s.len() ==> is_white_space(#[trigger] s[i])
}

fn white_space(c: char) -> (r: bool)
    ensures
        r == is_white_space(c),
{
    ('\u{9}' <= c && c <= '\u{d}') || c == ' ' || c == '\u{85}' || c == '\u{a0}' || c == '\u{1680}'
        || ('\u{2000}' <= c && c <= '\u{200a}') || c == '\u{2028}' || c == '\u{2029}' || c
        == '\u{202f}' || c == '\u{205f}' || c == '\u{3000}'
}

fn blank(s: &str) -> (r: bool)
    ensures
        r == is_blank(s@),
{
    let n = s.unicode_len();
    let mut i: usize = 0;
    while i < n
        invariant
            n == s@.len(),
            i <= n,
            forall|j: int| 0 <= j < i ==> is_white_space(#[trigger] s@[j]),
        decreases n - i,
    {
        if !white_space(s.get_char(i)) {
            return false;
        }
        i = i + 1;
    }
    true
}

/// The check of plant `i`, in the catalog's key order.
pub open spec fn plant_check(plants: Seq<PlantConfig>, animals: Seq<AnimalConfig>, i: int) -> Option<
    ConfigErrorView,
> {
    let p = plants[i];
    if p.fixed_land_slot >= 5 {
        Some(ConfigErrorView::InvalidLandSlot(p.fixed_land_slot))
    } else if exists|j: int| 0 <= j < i && #[trigger] plants[j].fixed_land_slot == p.fixed_land_slot {
        Some(ConfigErrorView::DuplicateLandSlot(p.fixed_land_slot))
    } else if p.base_price_coins@ == 0 || p.price_growth_num@ == 0 || p.price_growth_den@ == 0
        || p.price_growth_num@ < p.price_growth_den@ || p.rate_cent_per_minute@ == 0 {
        Some(ConfigErrorView::InvalidPlantParameter(p.id@))
    } else if !has_key(animals, p.paired_animal_id@) {
        Some(
            ConfigErrorView::UnknownPairedAnimal {
                plant_id: p.id@,
                animal_id: p.paired_animal_id@,
            },
        )
    } else if animals[key_index(animals, p.paired_animal_id@)].food_plant_id@ != p.id@ {
        Some(
            ConfigErrorView::NonReciprocalPair {
                plant_id: p.id@,
                animal_id: animals[key_index(animals, p.paired_animal_id@)].id@,
            },
        )
    } else {
        None
    }
}

/// The check of animal `i`, in the catalog's key order.
pub open spec fn animal_check(plants: Seq<PlantConfig>, animals: Seq<AnimalConfig>, i: int) -> Option<
    ConfigErrorView,
> {
    let a = animals[i];
    if a.fixed_purchase_price_coins@ == 0 || a.feeding_threshold == 0 || a.bite_cent@ == 0
        || a.zero_growth_sell_price_coins@ >= a.fixed_purchase_price_coins@ {
        Some(ConfigErrorView::InvalidAnimalParameter(a.id@))
    } else if !has_key(plants, a.food_plant_id@) {
        Some(ConfigErrorView::UnknownFoodPlant { animal_id: a.id@, plant_id: a.food_plant_id@ })
    } else if plants[key_index(plants, a.food_plant_id@)].paired_animal_id@ != a.id@ {
        Some(
            ConfigErrorView::NonReciprocalPair {
                plant_id: plants[key_index(plants, a.food_plant_id@)].id@,
                animal_id: a.id@,
            },
        )
    } else {
        None
    }
}

/// The check of the emergency rule.
pub open spec fn emergency_check(animals: Seq<AnimalConfig>, rule: EmergencyPurchaseRule) -> Option<
    ConfigErrorView,
> {
    if !has_key(animals, rule.animal_id@) {
        Some(ConfigErrorView::UnknownEmergencyAnimal(rule.animal_id@))
    } else {
        let e = animals[key_index(animals, rule.animal_id@)];
        if rule.trigger_below_coins@ != e.fixed_purchase_price_coins@
            || e.zero_growth_sell_price_coins@ == 0 {
            Some(ConfigErrorView::InvalidEmergencyThreshold)
        } else {
            None
        }
    }
}

pub open spec fn plant_checks(plants: Seq<PlantConfig>, animals: Seq<AnimalConfig>) -> spec_fn(
    int,
) -> Option<ConfigErrorView> {
    |i: int| plant_check(plants, animals, i)
}

pub open spec fn animal_checks(plants: Seq<PlantConfig>, animals: Seq<AnimalConfig>) -> spec_fn(
    int,
) -> Option<ConfigErrorView> {
    |i: int| animal_check(plants, animals, i)
}

/// The first failed check of a key-ordered catalog: plants, then animals, then the rule.
pub open spec fn catalog_check(
    plants: Seq<PlantConfig>,
    animals: Seq<AnimalConfig>,
    rule: EmergencyPurchaseRule,
) -> Option<ConfigErrorView> {
    let pe = first_some(plant_checks(plants, animals), 0, plants.len() as int);
    let ae = first_some(animal_checks(plants, animals), 0, animals.len() as int);
    if pe is Some {
        pe
    } else if ae is Some {
        ae
    } else {
        emergency_check(animals, rule)
    }
}

/// What `ContentConfig::try_new` checks, in order.
pub open spec fn content_check(
    version: Seq<char>,
    plants: Seq<PlantConfig>,
    animals: Seq<AnimalConfig>,
    rule: EmergencyPurchaseRule,
) -> Option<ConfigErrorView> {
    if is_blank(version) {
        Some(ConfigErrorView::EmptyContentVersion)
    } else if first_dup(plants) is Some {
        Some(ConfigErrorView::DuplicatePlantId(plants[first_dup(plants)->0].id@))
    } else if first_dup(animals) is Some {
        Some(ConfigErrorView::DuplicateAnimalId(animals[first_dup(animals)->0].id@))
    } else if plants.len() == 0 || animals.len() == 0 {
        Some(ConfigErrorView::EmptyCatalog)
    } else {
        catalog_check(sort_by_key(plants), sort_by_key(animals), rule)
    }
}

/// A valid catalog: a version, species in key order, and every check passed.
pub open spec fn catalog_valid(
    version: Seq<char>,
    plants: Seq<PlantConfig>,
    animals: Seq<AnimalConfig>,
    rule: EmergencyPurchaseRule,
) -> bool {
    &&& !is_blank(version)
    &&& keys_increasing(plants)
    &&& keys_increasing(animals)
    &&& plants.len() > 0
    &&& animals.len() > 0
    &&& catalog_check(plants, animals, rule) is None
}

/// What a valid catalog gives, species by species.
pub proof fn lemma_catalog_facts(
    plants: Seq<PlantConfig>,
    animals: Seq<AnimalConfig>,
    rule: EmergencyPurchaseRule,
)
    requires
        catalog_check(plants, animals, rule) is None,
    ensures
        forall|i: int| 0 <= i < plants.len() ==> (#[trigger] plant_check(plants, animals, i)) is None,
        forall|i: int| 0 <= i < animals.len() ==> (#[trigger] animal_check(plants, animals, i)) is None,
        emergency_check(animals, rule) is None,
{
    let f = plant_checks(plants, animals);
    let g = animal_checks(plants, animals);
    lemma_first_some_none_iff(f, 0, plants.len() as int);
    lemma_first_some_none_iff(g, 0, animals.len() as int);
    assert forall|i: int| 0 <= i < plants.len() implies (#[trigger] plant_check(plants, animals, i)) is None by {
        assert(f(i) is None);
    }
    assert forall|i: int| 0 <= i < animals.len() implies (#[trigger] animal_check(plants, animals, i)) is None by {
        assert(g(i) is None);
    }
}

/// The catalog of species, valid by construction.
#[derive(Debug, PartialEq, Eq)]
pub struct ContentConfig {
    content_version: String,
    plants: Vec<PlantConfig>,
    animals: Vec<AnimalConfig>,
    emergency_purchase: EmergencyPurchaseRule,
}

/// The position of the species keyed `k` in the increasing `v`, if any.
pub fn find_by_key<T: Keyed>(v: &Vec<T>, k: &str) -> (r: Option<usize>)
    requires
        keys_increasing(v@),
    ensures
        r is Some <==> has_key(v@, k@),
        r matches Some(i) ==> i < v@.len() && v@[i as int].key() == k@ && i == key_index(v@, k@),
{
    let (pos, found) = key_position(v, k);
    if found {
        proof {
            lemma_key_index_unique(v@, pos as int);
        }
        Some(pos)
    } else {
        None
    }
}

fn check_plants(plants: &Vec<PlantConfig>, animals: &Vec<AnimalConfig>) -> (r: Result<(), ConfigError>)
    requires
        keys_increasing(animals@),
    ensures
        match first_some(plant_checks(plants@, animals@), 0, plants@.len() as int) {
            Some(e) => r matches Err(x) && x@ == e,
            None => r is Ok,
        },
{
    let ghost f = plant_checks(plants@, animals@);
    let n = plants.len();
    let mut occupied: Vec<bool> = vec![false, false, false, false, false];
    let mut i: usize = 0;
    while i < n
        invariant
            n == plants@.len(),
            i <= n,
            keys_increasing(animals@),
            f == plant_checks(plants@, animals@),
            occupied@.len() == 5,
            forall|s: int|
                0 <= s < 5 ==> (occupied@[s] <==> exists|j: int|
                    0 <= j < i && #[trigger] plants@[j].fixed_land_slot == s),
            forall|j: int| 0 <= j < i ==> plants@[j].fixed_land_slot < 5,
            first_some(f, 0, n as int) == first_some(f, i as int, n as int),
        decreases n - i,
    {
        let plant = &plants[i];
        let slot = plant.fixed_land_slot;
        if slot >= 5 {
            assert(f(i as int) == Some(ConfigErrorView::InvalidLandSlot(slot)));
            return Err(ConfigError::InvalidLandSlot(slot));
        }
        if occupied[slot as usize] {
            assert(f(i as int) == Some(ConfigErrorView::DuplicateLandSlot(slot)));
            return Err(ConfigError::DuplicateLandSlot(slot));
        }
        assert(!exists|j: int| 0 <= j < i && #[trigger] plants@[j].fixed_land_slot == slot);
        occupied.set(slot as usize, true);
        if plant.base_price_coins.is_zero() || plant.price_growth_num.is_zero()
            || plant.price_growth_den.is_zero() || plant.price_growth_num.lt(
            &plant.price_growth_den,
        ) || plant.rate_cent_per_minute.is_zero() {
            return Err(ConfigError::InvalidPlantParameter(plant.id.to_string()));
        }
        let found = find_by_key(animals, plant.paired_animal_id.as_str());
        match found {
            None => {
                return Err(
                    ConfigError::UnknownPairedAnimal {
                        plant_id: plant.id.to_string(),
                        animal_id: plant.paired_animal_id.to_string(),
                    },
                );
            },
            Some(k) => {
                let animal = &animals[k];
                if !animal.food_plant_id.same(&plant.id) {
                    return Err(
                        ConfigError::NonReciprocalPair {
                            plant_id: plant.id.to_string(),
                            animal_id: animal.id.to_string(),
                        },
                    );
                }
            },
        }
        proof {
            assert(f(i as int) is None);
            lemma_first_some_step(f, i as int, n as int);
        }
        i = i + 1;
    }
    Ok(())
}

fn check_animals(plants: &Vec<PlantConfig>, animals: &Vec<AnimalConfig>) -> (r: Result<
    (),
    ConfigError,
>)
    requires
        keys_increasing(plants@),
    ensures
        match first_some(animal_checks(plants@, animals@), 0, animals@.len() as int) {
            Some(e) => r matches Err(x) && x@ == e,
            None => r is Ok,
        },
{
    let ghost f = animal_checks(plants@, animals@);
    let n = animals.len();
    let mut i: usize = 0;
    while i < n
        invariant
            n == animals@.len(),
            i <= n,
            keys_increasing(plants@),
            f == animal_checks(plants@, animals@),
            first_some(f, 0, n as int) == first_some(f, i as int, n as int),
        decreases n - i,
    {
        let animal = &animals[i];
        if animal.fixed_purchase_price_coins.is_zero() || animal.feeding_threshold == 0
            || animal.bite_cent.is_zero() || animal.fixed_purchase_price_coins.as_biguint().le(
            animal.zero_growth_sell_price_coins.as_biguint(),
        ) {
            return Err(ConfigError::InvalidAnimalParameter(animal.id.to_string()));
        }
        let found = find_by_key(plants, animal.food_plant_id.as_str());
        match found {
            None => {
                return Err(
                    ConfigError::UnknownFoodPlant {
                        animal_id: animal.id.to_string(),
                        plant_id: animal.food_plant_id.to_string(),
                    },
                );
            },
            Some(k) => {
                let plant = &plants[k];
                if !plant.paired_animal_id.same(&animal.id) {
                    return Err(
                        ConfigError::NonReciprocalPair {
                            plant_id: plant.id.to_string(),
                            animal_id: animal.id.to_string(),
                        },
                    );
                }
            },
        }
        proof {
            assert(f(i as int) is None);
            lemma_first_some_step(f, i as int, n as int);
        }
        i = i + 1;
    }
    Ok(())
}

fn check_catalog(
    plants: &Vec<PlantConfig>,
    animals: &Vec<AnimalConfig>,
    rule: &EmergencyPurchaseRule,
) -> (r: Result<(), ConfigError>)
    requires
        keys_increasing(plants@),
        keys_increasing(animals@),
    ensures
        match catalog_check(plants@, animals@, *rule) {
            Some(e) => r matches Err(x) && x@ == e,
            None => r is Ok,
        },
{
    check_plants(plants, animals)?;
    check_animals(plants, animals)?;
    match find_by_key(animals, rule.animal_id.as_str()) {
        None => Err(ConfigError::UnknownEmergencyAnimal(rule.animal_id.to_string())),
        Some(k) => {
            let e = &animals[k];
            if !rule.trigger_below_coins.as_biguint().eq(e.fixed_purchase_price_coins.as_biguint())
                || e.zero_growth_sell_price_coins.is_zero() {
                Err(ConfigError::InvalidEmergencyThreshold)
            } else {
                Ok(())
            }
        },
    }
}

impl ContentConfig {
    pub closed spec fn version_view(&self) -> Seq<char> {
        self.content_version@
    }

    pub closed spec fn plant_seq(&self) -> Seq<PlantConfig> {
        self.plants@
    }

    pub closed spec fn animal_seq(&self) -> Seq<AnimalConfig> {
        self.animals@
    }

    pub closed spec fn rule(&self) -> EmergencyPurchaseRule {
        self.emergency_purchase
    }

    /// Every catalog satisfies this.
    #[verifier::type_invariant]
    pub open spec fn wf(&self) -> bool {
        catalog_valid(self.version_view(), self.plant_seq(), self.animal_seq(), self.rule())
    }

    /// Builds a catalog; rejects a blank version, repeated ids, an empty catalog, and
    /// any catalog that fails `validate`. Species are kept in id order.
    pub fn try_new(
        content_version: String,
        plants: Vec<PlantConfig>,
        animals: Vec<AnimalConfig>,
        emergency_purchase: EmergencyPurchaseRule,
    ) -> (r: Result<Self, ConfigError>)
        ensures
            match content_check(content_version@, plants@, animals@, emergency_purchase) {
                Some(e) => r matches Err(x) && x@ == e,
                None => r matches Ok(c) && c.version_view() == content_version@ && c.plant_seq()
                    == sort_by_key(plants@) && c.animal_seq() == sort_by_key(animals@) && c.rule()
                    == emergency_purchase,
            },
    {
        if blank(content_version.as_str()) {
            return Err(ConfigError::EmptyContentVersion);
        }
        let ghost plants_in = plants@;
        let ghost animals_in = animals@;
        let plant_map = match sort_unique(plants) {
            Ok(v) => v,
            Err(p) => {
                return Err(ConfigError::DuplicatePlantId(p.id.to_string()));
            },
        };
        let animal_map = match sort_unique(animals) {
            Ok(v) => v,
            Err(a) => {
                return Err(ConfigError::DuplicateAnimalId(a.id.to_string()));
            },
        };
        proof {
            crate::keyed::lemma_sort_by_key_len(plants_in);
            crate::keyed::lemma_sort_by_key_len(animals_in);
        }
        if plant_map.len() == 0 || animal_map.len() == 0 {
            return Err(ConfigError::EmptyCatalog);
        }
        check_catalog(&plant_map, &animal_map, &emergency_purchase)?;
        Ok(
            ContentConfig {
                content_version,
                plants: plant_map,
                animals: animal_map,
                emergency_purchase,
            },
        )
    }

    /// Re-runs the catalog checks; they pass for every catalog.
    pub fn validate(&self) -> (r: Result<(), ConfigError>)
        ensures
            r is Ok,
    {
        proof {
            use_type_invariant(self);
        }
        check_catalog(&self.plants, &self.animals, &self.emergency_purchase)
    }

    pub fn content_version(&self) -> (r: &str)
        ensures
            r@ == self.version_view(),
    {
        self.content_version.as_str()
    }

    /// The plant species, in id order.
    pub fn plants(&self) -> (r: &Vec<PlantConfig>)
        ensures
            r@ == self.plant_seq(),
    {
        &self.plants
    }

    /// The animal species, in id order.
    pub fn animals(&self) -> (r: &Vec<AnimalConfig>)
        ensures
            r@ == self.animal_seq(),
    {
        &self.animals
    }

    pub fn plant(&self, id: &PlantId) -> (r: Option<&PlantConfig>)
        ensures
            r is Some <==> has_key(self.plant_seq(), id@),
            r matches Some(p) ==> *p == self.plant_seq()[key_index(self.plant_seq(), id@)],
    {
        proof {
            use_type_invariant(self);
        }
        match find_by_key(&self.plants, id.as_str()) {
            Some(i) => Some(&self.plants[i]),
            None => None,
        }
    }

    pub fn animal(&self, id: &AnimalId) -> (r: Option<&AnimalConfig>)
        ensures
            r is Some <==> has_key(self.animal_seq(), id@),
            r matches Some(a) ==> *a == self.animal_seq()[key_index(self.animal_seq(), id@)],
    {
        proof {
            use_type_invariant(self);
        }
        match find_by_key(&self.animals, id.as_str()) {
            Some(i) => Some(&self.animals[i]),
            None => None,
        }
    }

    pub fn emergency_purchase(&self) -> (r: &EmergencyPurchaseRule)
        ensures
            *r == self.rule(),
    {
        &self.emergency_purchase
    }
}

/// The position of the food plant of animal species `i`.
pub open spec fn food_index(c: ContentConfig, i: int) -> int {
    key_index(c.plant_seq(), c.animal_seq()[i].food_plant_id@)
}

/// Every species id of the catalog is a well-formed species id.
pub open spec fn catalog_ids_valid(c: ContentConfig) -> bool {
    &&& forall|j: int| 0 <= j < c.plant_seq().len() ==> valid_species_id(#[trigger] c.plant_seq()[j].id@)
    &&& forall|j: int| 0 <= j < c.animal_seq().len() ==> valid_species_id(#[trigger] c.animal_seq()[j].id@)
}

/// The position of the animal species paired with plant species `j`.
pub open spec fn pair_index(c: ContentConfig, j: int) -> int {
    key_index(c.animal_seq(), c.plant_seq()[j].paired_animal_id@)
}

/// In a valid catalog, plants and animals pair up one to one: each animal eats the plant
/// that is paired with it, and every threshold and bite is positive.
pub proof fn lemma_pairing(c: ContentConfig)
    requires
        c.wf(),
    ensures
        forall|i: int|
            0 <= i < c.animal_seq().len() ==> {
                &&& 0 <= #[trigger] food_index(c, i) < c.plant_seq().len()
                &&& pair_index(c, food_index(c, i)) == i
                &&& c.plant_seq()[food_index(c, i)].id@ == c.animal_seq()[i].food_plant_id@
                &&& c.animal_seq()[i].feeding_threshold > 0
                &&& c.animal_seq()[i].bite_cent@ > 0
            },
        forall|j: int|
            0 <= j < c.plant_seq().len() ==> {
                &&& 0 <= #[trigger] pair_index(c, j) < c.animal_seq().len()
                &&& food_index(c, pair_index(c, j)) == j
            },
{
    let plants = c.plant_seq();
    let animals = c.animal_seq();
    lemma_catalog_facts(plants, animals, c.rule());
    assert forall|i: int| 0 <= i < animals.len() implies {
        &&& 0 <= #[trigger] food_index(c, i) < plants.len()
        &&& pair_index(c, food_index(c, i)) == i
        &&& plants[food_index(c, i)].id@ == animals[i].food_plant_id@
        &&& animals[i].feeding_threshold > 0
        &&& animals[i].bite_cent@ > 0
    } by {
        assert(animal_check(plants, animals, i) is None);
        let f = food_index(c, i);
        assert(plants[f].key() == animals[i].food_plant_id@);
        assert(animals[i].key() == plants[f].paired_animal_id@);
        lemma_key_index_unique(animals, i);
    }
    assert forall|j: int| 0 <= j < plants.len() implies {
        &&& 0 <= #[trigger] pair_index(c, j) < animals.len()
        &&& food_index(c, pair_index(c, j)) == j
    } by {
        assert(plant_check(plants, animals, j) is None);
        let k = pair_index(c, j);
        assert(animals[k].key() == plants[j].paired_animal_id@);
        assert(plants[j].key() == animals[k].food_plant_id@);
        lemma_key_index_unique(plants, j);
    }
}

/// In a sequence without repeated keys, the element that sorting puts under key `k` is the
/// one that had it.
pub proof fn lemma_sorted_lookup<T: SortKey>(s: Seq<T>, k: Seq<char>, m: int)
    requires
        forall|i: int, j: int| 0 <= i < j < s.len() ==> (#[trigger] s[i]).key() != (#[trigger] s[j]).key(),
        0 <= m < s.len(),
        s[m].key() == k,
    ensures
        has_key(sort_by_key(s), k),
        sort_by_key(s)[key_index(sort_by_key(s), k)] == s[m],
{
    assert forall|i: int| 0 <= i < s.len() implies !crate::keyed::is_dup_at(s, i) by {
        if crate::keyed::is_dup_at(s, i) {
            let j = choose|j: int| 0 <= j < i && #[trigger] s[j].key() == s[i].key();
            assert(s[j].key() != s[i].key());
        }
    }
    crate::keyed::lemma_sort_by_key(s);
    let t = sort_by_key(s);
    assert(s.contains(s[m]));
    assert(t.contains(s[m]));
    let w = choose|w: int| 0 <= w < t.len() && t[w] == s[m];
    assert(t[w].key() == k);
    let j = key_index(t, k);
    assert(t.contains(t[j]));
    assert(s.contains(t[j]));
    let m2 = choose|m2: int| 0 <= m2 < s.len() && s[m2] == t[j];
    if m2 != m {
        if m2 < m {
            assert(s[m2].key() != s[m].key());
        } else {
            assert(s[m].key() != s[m2].key());
        }
    }
}

/// A catalog whose plants and animals pair up position by position, with distinct ids and
/// land slots and sound parameters, passes every check once sorted.
pub proof fn lemma_paired_catalog_valid(
    ps: Seq<PlantConfig>,
    xs: Seq<AnimalConfig>,
    rule: EmergencyPurchaseRule,
    e: int,
)
    requires
        ps.len() == xs.len(),
        ps.len() > 0,
        forall|i: int, j: int| 0 <= i < j < ps.len() ==> (#[trigger] ps[i]).key() != (#[trigger] ps[j]).key(),
        forall|i: int, j: int| 0 <= i < j < xs.len() ==> (#[trigger] xs[i]).key() != (#[trigger] xs[j]).key(),
        forall|i: int, j: int|
            0 <= i < j < ps.len() ==> (#[trigger] ps[i]).fixed_land_slot != (#[trigger] ps[j]).fixed_land_slot,
        forall|m: int|
            0 <= m < ps.len() ==> {
                let p = #[trigger] ps[m];
                let a = xs[m];
                &&& p.fixed_land_slot < 5
                &&& p.base_price_coins@ != 0
                &&& p.price_growth_num@ != 0
                &&& p.price_growth_den@ != 0
                &&& p.price_growth_num@ >= p.price_growth_den@
                &&& p.rate_cent_per_minute@ != 0
                &&& p.paired_animal_id@ == a.id@
                &&& a.food_plant_id@ == p.id@
                &&& a.fixed_purchase_price_coins@ != 0
                &&& a.feeding_threshold != 0
                &&& a.bite_cent@ != 0
                &&& a.zero_growth_sell_price_coins@ < a.fixed_purchase_price_coins@
            },
        0 <= e < xs.len(),
        xs[e].id@ == rule.animal_id@,
        rule.trigger_below_coins@ == xs[e].fixed_purchase_price_coins@,
        xs[e].zero_growth_sell_price_coins@ != 0,
    ensures
        first_dup(ps) is None,
        first_dup(xs) is None,
        catalog_check(sort_by_key(ps), sort_by_key(xs), rule) is None,
{
    let fp = |i: int| if crate::keyed::is_dup_at(ps, i) { Some(i) } else { None };
    let fx = |i: int| if crate::keyed::is_dup_at(xs, i) { Some(i) } else { None };
    assert forall|i: int| 0 <= i < ps.len() implies (#[trigger] fp(i)) is None by {
        if crate::keyed::is_dup_at(ps, i) {
            let j = choose|j: int| 0 <= j < i && #[trigger] ps[j].key() == ps[i].key();
            assert(ps[j].key() != ps[i].key());
        }
    }
    assert forall|i: int| 0 <= i < xs.len() implies (#[trigger] fx(i)) is None by {
        if crate::keyed::is_dup_at(xs, i) {
            let j = choose|j: int| 0 <= j < i && #[trigger] xs[j].key() == xs[i].key();
            assert(xs[j].key() != xs[i].key());
        }
    }
    crate::error::lemma_first_some_none(fp, 0, ps.len() as int);
    crate::error::lemma_first_some_none(fx, 0, xs.len() as int);
    assert forall|i: int| 0 <= i < ps.len() implies !crate::keyed::is_dup_at(ps, i) by {
        assert(fp(i) is None);
    }
    assert forall|i: int| 0 <= i < xs.len() implies !crate::keyed::is_dup_at(xs, i) by {
        assert(fx(i) is None);
    }
    crate::keyed::lemma_sort_by_key(ps);
    crate::keyed::lemma_sort_by_key(xs);
    let sp = sort_by_key(ps);
    let sx = sort_by_key(xs);
    assert forall|i: int| 0 <= i < sp.len() implies (#[trigger] plant_check(sp, sx, i)) is None by {
        assert(sp.contains(sp[i]));
        assert(ps.contains(sp[i]));
        let m = choose|m: int| 0 <= m < ps.len() && ps[m] == sp[i];
        assert(ps[m] == sp[i]);
        assert forall|j: int| 0 <= j < i implies #[trigger] sp[j].fixed_land_slot != sp[i].fixed_land_slot by {
            assert(sp.contains(sp[j]));
            assert(ps.contains(sp[j]));
            let m2 = choose|m2: int| 0 <= m2 < ps.len() && ps[m2] == sp[j];
            if m2 != m {
                if m2 < m {
                    assert(ps[m2].fixed_land_slot != ps[m].fixed_land_slot);
                } else {
                    assert(ps[m].fixed_land_slot != ps[m2].fixed_land_slot);
                }
            } else {
                assert(seq_less(sp[j].key(), sp[i].key()));
                crate::keyed::lemma_seq_less_irreflexive(sp[i].key());
            }
        }
        lemma_sorted_lookup(xs, ps[m].paired_animal_id@, m);
    }
    assert forall|i: int| 0 <= i < sx.len() implies (#[trigger] animal_check(sp, sx, i)) is None by {
        assert(sx.contains(sx[i]));
        assert(xs.contains(sx[i]));
        let m = choose|m: int| 0 <= m < xs.len() && xs[m] == sx[i];
        assert(xs[m] == sx[i]);
        assert(ps[m].key() == xs[m].food_plant_id@);
        lemma_sorted_lookup(ps, xs[m].food_plant_id@, m);
    }
    lemma_sorted_lookup(xs, rule.animal_id@, e);
    crate::error::lemma_first_some_none(plant_checks(sp, sx), 0, sp.len() as int);
    crate::error::lemma_first_some_none(animal_checks(sp, sx), 0, sx.len() as int);
}

} // verus!

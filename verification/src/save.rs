//! The save format: every amount as decimal text, and the rules for reading a save back
//! into a state, lifetime inputs and statistics.
use crate::amount::{Coins, EntityCount, GrowthCent, LifetimePurchaseCount, StockCent};
use crate::bignat::{
    big_numeral_ok, decimal, digits_value, is_digit, lemma_decimal_digits, numeral_value, BigNat,
};
use crate::state::{ids_increasing, lemma_increasing_ids_equal};
use crate::state::{
    game_view_shape, state_check, state_valid, CollectionState, GameState, GameView, Wallet,
};
use crate::stats::{days_of, inputs_of, productive_of, DayStatistics, Statistics};
use crate::config::ContentConfig;
use crate::error::StateErrorView;
use crate::idmap::IdMap;
use crate::ids::{species_id_check, AnimalId, PlantId};
use crate::message::{config_error_text, domain_error, player_message, state_error_text};
use crate::state::{
    AnimalState, AnimalStateView, FeedingProgress, PlantState, PlantStateView, ProductionRemainder60,
};
use vstd::prelude::*;

verus! {

/// The save format this version writes and reads.
pub const SAVE_FORMAT_VERSION: u8 = 1;

/// The message for a save of another format.
pub const UNSUPPORTED_SAVE: &'static str = "unsupported save";

/// The message for an amount in a save that is not a decimal numeral.
pub const BAD_SAVED_NUMBER: &'static str = "存档数值无效";

/// The message for a day's productive time in a save that is not a `u64` numeral.
pub const BAD_SAVED_STATISTIC: &'static str = "存档统计数值无效";

/// A saved plant group.
pub struct SavedPlant {
    pub count: String,
    pub stock_cent: String,
    pub production_remainder_60: u8,
}

/// A saved animal group.
pub struct SavedAnimal {
    pub count: String,
    pub total_growth_cent: String,
    pub feeding_progress: u8,
    pub lifetime_paid_purchase_count: String,
}

/// A saved day of statistics.
pub struct SavedDayStatistics {
    pub productive_nanos: String,
    pub inputs: String,
}

/// Saved statistics; the days by date.
pub struct SavedStatistics {
    pub current_local_date: String,
    pub production_subsecond_nanos: u32,
    pub days: Vec<(String, SavedDayStatistics)>,
}

/// A save; species and days by id, in id order.
pub struct SaveFile {
    pub version: u8,
    pub content_version: String,
    pub coins: String,
    pub lifetime_inputs: String,
    pub plants: Vec<(String, SavedPlant)>,
    pub animals: Vec<(String, SavedAnimal)>,
    pub discovered_plants: Vec<String>,
    pub discovered_animals: Vec<String>,
    pub statistics: SavedStatistics,
}

/// Reads entries in order into a map by key: the first entry that cannot be read gives
/// the result's error; a key read twice keeps its last value.
pub open spec fn read_all<T, V>(es: Seq<T>, read: spec_fn(T) -> Result<(Seq<char>, V), Seq<char>>) -> Result<
    Map<Seq<char>, V>,
    Seq<char>,
>
    decreases es.len(),
{
    if es.len() == 0 {
        Ok(Map::empty())
    } else {
        match read_all(es.drop_last(), read) {
            Err(m) => Err(m),
            Ok(m) => match read(es.last()) {
                Err(e) => Err(e),
                Ok(kv) => Ok(m.insert(kv.0, kv.1)),
            },
        }
    }
}

/// Once a prefix fails to read, every longer prefix fails the same way.
pub proof fn lemma_read_all_error_sticks<T, V>(
    es: Seq<T>,
    read: spec_fn(T) -> Result<(Seq<char>, V), Seq<char>>,
    n: int,
)
    requires
        0 <= n <= es.len(),
        read_all(es.take(n), read) is Err,
    ensures
        read_all(es, read) == read_all(es.take(n), read),
    decreases es.len() - n,
{
    if n < es.len() {
        assert(es.take(n + 1).drop_last() =~= es.take(n));
        lemma_read_all_error_sticks(es, read, n + 1);
    } else {
        assert(es.take(n) =~= es);
    }
}

/// The message for an id that is not a species id.
pub open spec fn bad_id(id: Seq<char>) -> Seq<char> {
    player_message(config_error_text(species_id_check(id)->Some_0))
}

/// One saved plant group: its id and numbers, or the first problem with it.
pub open spec fn read_plant(e: (String, SavedPlant)) -> Result<(Seq<char>, PlantStateView), Seq<char>> {
    let id = e.0@;
    let p = e.1;
    if species_id_check(id) is Some {
        Err(bad_id(id))
    } else if !big_numeral_ok(p.count@) || !big_numeral_ok(p.stock_cent@) {
        Err(BAD_SAVED_NUMBER@)
    } else if p.production_remainder_60 >= 60 {
        Err(player_message(state_error_text(StateErrorView::InvalidProductionRemainder)))
    } else {
        Ok(
            (
                id,
                PlantStateView {
                    count: numeral_value(p.count@),
                    stock_cent: numeral_value(p.stock_cent@),
                    remainder: p.production_remainder_60,
                },
            ),
        )
    }
}

pub open spec fn plant_reader() -> spec_fn((String, SavedPlant)) -> Result<(Seq<char>, PlantStateView), Seq<char>> {
    |e: (String, SavedPlant)| read_plant(e)
}

/// The views of stored plant groups.
pub open spec fn plant_map_views(m: Map<Seq<char>, PlantState>) -> Map<Seq<char>, PlantStateView> {
    m.map_values(|s: PlantState| s@)
}

fn bad_number() -> (r: String)
    ensures
        r@ == BAD_SAVED_NUMBER@,
{
    BAD_SAVED_NUMBER.to_owned()
}

/// Reads the saved plant groups.
pub fn restore_plants(entries: &Vec<(String, SavedPlant)>) -> (r: Result<IdMap<PlantId, PlantState>, String>)
    ensures
        match read_all(entries@, plant_reader()) {
            Err(m) => r matches Err(x) && x@ == m,
            Ok(m) => r matches Ok(map) && plant_map_views(map.as_map()) == m,
        },
{
    let ghost read = plant_reader();
    let mut map: IdMap<PlantId, PlantState> = IdMap::new();
    let mut i: usize = 0;
    assert(entries@.take(0) =~= Seq::<(String, SavedPlant)>::empty());
    assert(plant_map_views(map.as_map()) =~= Map::<Seq<char>, PlantStateView>::empty());
    while i < entries.len()
        invariant
            i <= entries@.len(),
            read == plant_reader(),
            read_all(entries@.take(i as int), read) matches Ok(m) && plant_map_views(map.as_map()) == m,
        decreases entries@.len() - i,
    {
        let (id, saved) = &entries[i];
        let ghost t = entries@.take(i as int + 1);
        proof {
            assert(t.drop_last() =~= entries@.take(i as int));
            assert(t.last() == entries@[i as int]);
        }
        let plant_id = match PlantId::new(id.as_str()) {
            Ok(p) => p,
            Err(e) => {
                proof {
                    lemma_read_all_error_sticks(entries@, read, i as int + 1);
                }
                return Err(domain_error(&e.message()));
            },
        };
        let count = match BigNat::parse_decimal(saved.count.as_str()) {
            Some(n) => n,
            None => {
                proof {
                    lemma_read_all_error_sticks(entries@, read, i as int + 1);
                }
                return Err(bad_number());
            },
        };
        let stock = match BigNat::parse_decimal(saved.stock_cent.as_str()) {
            Some(n) => n,
            None => {
                proof {
                    lemma_read_all_error_sticks(entries@, read, i as int + 1);
                }
                return Err(bad_number());
            },
        };
        let remainder = match ProductionRemainder60::try_new(saved.production_remainder_60) {
            Ok(x) => x,
            Err(e) => {
                proof {
                    lemma_read_all_error_sticks(entries@, read, i as int + 1);
                }
                return Err(domain_error(&e.message()));
            },
        };
        let ghost before = map.as_map();
        let state = PlantState {
            count: EntityCount::from_biguint(count),
            stock_cent: StockCent::from_biguint(stock),
            production_remainder_60: remainder,
        };
        map.insert(plant_id, state);
        proof {
            assert(plant_map_views(map.as_map()) =~= plant_map_views(before).insert(id@, state@));
        }
        i = i + 1;
    }
    assert(entries@.take(entries@.len() as int) =~= entries@);
    Ok(map)
}

/// One saved animal group: its id and numbers, or the first problem with it. Feeding
/// progress is taken as it is; the state check judges it against the threshold.
pub open spec fn read_animal(e: (String, SavedAnimal)) -> Result<(Seq<char>, AnimalStateView), Seq<char>> {
    let id = e.0@;
    let a = e.1;
    if species_id_check(id) is Some {
        Err(bad_id(id))
    } else if !big_numeral_ok(a.count@) || !big_numeral_ok(a.total_growth_cent@) || !big_numeral_ok(
        a.lifetime_paid_purchase_count@,
    ) {
        Err(BAD_SAVED_NUMBER@)
    } else {
        Ok(
            (
                id,
                AnimalStateView {
                    count: numeral_value(a.count@),
                    growth_cent: numeral_value(a.total_growth_cent@),
                    progress: a.feeding_progress,
                    lifetime_paid: numeral_value(a.lifetime_paid_purchase_count@),
                },
            ),
        )
    }
}

pub open spec fn animal_reader() -> spec_fn((String, SavedAnimal)) -> Result<(Seq<char>, AnimalStateView), Seq<char>> {
    |e: (String, SavedAnimal)| read_animal(e)
}

/// The views of stored animal groups.
pub open spec fn animal_map_views(m: Map<Seq<char>, AnimalState>) -> Map<Seq<char>, AnimalStateView> {
    m.map_values(|s: AnimalState| s@)
}

/// Reads the saved animal groups.
pub fn restore_animals(entries: &Vec<(String, SavedAnimal)>) -> (r: Result<IdMap<AnimalId, AnimalState>, String>)
    ensures
        match read_all(entries@, animal_reader()) {
            Err(m) => r matches Err(x) && x@ == m,
            Ok(m) => r matches Ok(map) && animal_map_views(map.as_map()) == m,
        },
{
    let ghost read = animal_reader();
    let mut map: IdMap<AnimalId, AnimalState> = IdMap::new();
    let mut i: usize = 0;
    assert(entries@.take(0) =~= Seq::<(String, SavedAnimal)>::empty());
    assert(animal_map_views(map.as_map()) =~= Map::<Seq<char>, AnimalStateView>::empty());
    while i < entries.len()
        invariant
            i <= entries@.len(),
            read == animal_reader(),
            read_all(entries@.take(i as int), read) matches Ok(m) && animal_map_views(map.as_map()) == m,
        decreases entries@.len() - i,
    {
        let (id, saved) = &entries[i];
        let ghost t = entries@.take(i as int + 1);
        proof {
            assert(t.drop_last() =~= entries@.take(i as int));
            assert(t.last() == entries@[i as int]);
        }
        let animal_id = match AnimalId::new(id.as_str()) {
            Ok(a) => a,
            Err(e) => {
                proof {
                    lemma_read_all_error_sticks(entries@, read, i as int + 1);
                }
                return Err(domain_error(&e.message()));
            },
        };
        let count = BigNat::parse_decimal(saved.count.as_str());
        let growth = BigNat::parse_decimal(saved.total_growth_cent.as_str());
        let paid = BigNat::parse_decimal(saved.lifetime_paid_purchase_count.as_str());
        let (count, growth, paid) = match (count, growth, paid) {
            (Some(c), Some(g), Some(p)) => (c, g, p),
            _ => {
                proof {
                    lemma_read_all_error_sticks(entries@, read, i as int + 1);
                }
                return Err(bad_number());
            },
        };
        let ghost before = map.as_map();
        let state = AnimalState {
            count: EntityCount::from_biguint(count),
            total_growth_cent: GrowthCent::from_biguint(growth),
            feeding_progress: FeedingProgress::new_unchecked(saved.feeding_progress),
            lifetime_paid_purchase_count: LifetimePurchaseCount::from_biguint(paid),
        };
        map.insert(animal_id, state);
        proof {
            assert(animal_map_views(map.as_map()) =~= animal_map_views(before).insert(id@, state@));
        }
        i = i + 1;
    }
    assert(entries@.take(entries@.len() as int) =~= entries@);
    Ok(map)
}

/// One saved discovered species: its id, or the problem with it.
pub open spec fn read_id(e: String) -> Result<(Seq<char>, ()), Seq<char>> {
    if species_id_check(e@) is Some {
        Err(bad_id(e@))
    } else {
        Ok((e@, ()))
    }
}

pub open spec fn id_reader() -> spec_fn(String) -> Result<(Seq<char>, ()), Seq<char>> {
    |e: String| read_id(e)
}

/// Reads the saved discovered plants.
pub fn restore_plant_ids(ids: &Vec<String>) -> (r: Result<Vec<PlantId>, String>)
    ensures
        match read_all(ids@, id_reader()) {
            Err(m) => r matches Err(x) && x@ == m,
            Ok(m) => r matches Ok(v) && forall|x: Seq<char>|
                #[trigger] crate::idmap::key_view(v@).contains(x) <==> m.dom().contains(x),
        },
{
    let ghost read = id_reader();
    let mut out: Vec<PlantId> = Vec::new();
    let mut i: usize = 0;
    assert(ids@.take(0) =~= Seq::<String>::empty());
    while i < ids.len()
        invariant
            i <= ids@.len(),
            read == id_reader(),
            read_all(ids@.take(i as int), read) matches Ok(m) && forall|x: Seq<char>|
                #[trigger] crate::idmap::key_view(out@).contains(x) <==> m.dom().contains(x),
        decreases ids@.len() - i,
    {
        let ghost t = ids@.take(i as int + 1);
        proof {
            assert(t.drop_last() =~= ids@.take(i as int));
            assert(t.last() == ids@[i as int]);
        }
        let id = match PlantId::new(ids[i].as_str()) {
            Ok(p) => p,
            Err(e) => {
                proof {
                    lemma_read_all_error_sticks(ids@, read, i as int + 1);
                }
                return Err(domain_error(&e.message()));
            },
        };
        let ghost before = out@;
        out.push(id);
        proof {
            let m = read_all(t, read)->Ok_0;
            assert forall|x: Seq<char>| #[trigger] crate::idmap::key_view(out@).contains(x) <==> m.dom().contains(x) by {
                assert(crate::idmap::key_view(out@) =~= crate::idmap::key_view(before).push(ids@[i as int]@));
                if crate::idmap::key_view(out@).contains(x) && x != ids@[i as int]@ {
                    let k = choose|k: int| 0 <= k < crate::idmap::key_view(out@).len() && crate::idmap::key_view(out@)[k] == x;
                    assert(crate::idmap::key_view(before)[k] == x);
                }
                if x == ids@[i as int]@ {
                    assert(crate::idmap::key_view(out@)[before.len() as int] == x);
                }
                if crate::idmap::key_view(before).contains(x) {
                    let k = choose|k: int| 0 <= k < crate::idmap::key_view(before).len() && crate::idmap::key_view(before)[k] == x;
                    assert(crate::idmap::key_view(out@)[k] == x);
                }
            }
        }
        i = i + 1;
    }
    assert(ids@.take(ids@.len() as int) =~= ids@);
    Ok(out)
}

/// Reads the saved discovered animals.
pub fn restore_animal_ids(ids: &Vec<String>) -> (r: Result<Vec<AnimalId>, String>)
    ensures
        match read_all(ids@, id_reader()) {
            Err(m) => r matches Err(x) && x@ == m,
            Ok(m) => r matches Ok(v) && forall|x: Seq<char>|
                #[trigger] crate::idmap::key_view(v@).contains(x) <==> m.dom().contains(x),
        },
{
    let ghost read = id_reader();
    let mut out: Vec<AnimalId> = Vec::new();
    let mut i: usize = 0;
    assert(ids@.take(0) =~= Seq::<String>::empty());
    while i < ids.len()
        invariant
            i <= ids@.len(),
            read == id_reader(),
            read_all(ids@.take(i as int), read) matches Ok(m) && forall|x: Seq<char>|
                #[trigger] crate::idmap::key_view(out@).contains(x) <==> m.dom().contains(x),
        decreases ids@.len() - i,
    {
        let ghost t = ids@.take(i as int + 1);
        proof {
            assert(t.drop_last() =~= ids@.take(i as int));
            assert(t.last() == ids@[i as int]);
        }
        let id = match AnimalId::new(ids[i].as_str()) {
            Ok(p) => p,
            Err(e) => {
                proof {
                    lemma_read_all_error_sticks(ids@, read, i as int + 1);
                }
                return Err(domain_error(&e.message()));
            },
        };
        let ghost before = out@;
        out.push(id);
        proof {
            let m = read_all(t, read)->Ok_0;
            assert forall|x: Seq<char>| #[trigger] crate::idmap::key_view(out@).contains(x) <==> m.dom().contains(x) by {
                assert(crate::idmap::key_view(out@) =~= crate::idmap::key_view(before).push(ids@[i as int]@));
                if crate::idmap::key_view(out@).contains(x) && x != ids@[i as int]@ {
                    let k = choose|k: int| 0 <= k < crate::idmap::key_view(out@).len() && crate::idmap::key_view(out@)[k] == x;
                    assert(crate::idmap::key_view(before)[k] == x);
                }
                if x == ids@[i as int]@ {
                    assert(crate::idmap::key_view(out@)[before.len() as int] == x);
                }
                if crate::idmap::key_view(before).contains(x) {
                    let k = choose|k: int| 0 <= k < crate::idmap::key_view(before).len() && crate::idmap::key_view(before)[k] == x;
                    assert(crate::idmap::key_view(out@)[k] == x);
                }
            }
        }
        i = i + 1;
    }
    assert(ids@.take(ids@.len() as int) =~= ids@);
    Ok(out)
}

/// A numeral without its sign, as `u64::from_str` reads it: one leading `+` is dropped.
pub open spec fn plain_body(s: Seq<char>) -> Seq<char> {
    if s.len() > 0 && s[0] == '+' {
        s.drop_first()
    } else {
        s
    }
}

/// A numeral that `u64::from_str` accepts: after an optional `+`, one or more digits and
/// nothing else, of a value that fits.
pub open spec fn u64_numeral_ok(s: Seq<char>) -> bool {
    let b = plain_body(s);
    &&& b.len() > 0
    &&& forall|i: int| 0 <= i < b.len() ==> is_digit(#[trigger] b[i])
    &&& digits_value(b) <= u64::MAX
}

/// `u64::from_str`: an optional `+` followed by decimal digits only, with no other
/// character (whitespace and `_` included), and a value that fits in `u64`.
#[verifier::external_body]
fn parse_u64(s: &str) -> (r: Option<u64>)
    ensures
        r is Some <==> u64_numeral_ok(s@),
        r matches Some(v) ==> v == digits_value(plain_body(s@)),
{
    match s.parse::<u64>() {
        Ok(v) => Some(v),
        Err(_) => None,
    }
}

/// One saved day: its date and its productive nanoseconds and inputs, or the first
/// problem with it.
pub open spec fn read_day(e: (String, SavedDayStatistics)) -> Result<(Seq<char>, (nat, nat)), Seq<char>> {
    let d = e.1;
    if !u64_numeral_ok(d.productive_nanos@) {
        Err(BAD_SAVED_STATISTIC@)
    } else if !big_numeral_ok(d.inputs@) {
        Err(BAD_SAVED_NUMBER@)
    } else {
        Ok((e.0@, (digits_value(plain_body(d.productive_nanos@)), numeral_value(d.inputs@))))
    }
}

pub open spec fn day_reader() -> spec_fn((String, SavedDayStatistics)) -> Result<(Seq<char>, (nat, nat)), Seq<char>> {
    |e: (String, SavedDayStatistics)| read_day(e)
}

/// The numbers of stored days.
pub open spec fn day_map_views(m: Map<Seq<char>, DayStatistics>) -> Map<Seq<char>, (nat, nat)> {
    m.map_values(|d: DayStatistics| (d.productive_nanos as nat, d.inputs@))
}

/// `s` holds saved statistics whose days read as `days`.
pub open spec fn restored_statistics(s: Statistics, saved: SavedStatistics, days: Map<Seq<char>, (nat, nat)>) -> bool {
    &&& s.current() == saved.current_local_date@
    &&& s.subsecond() == if saved.production_subsecond_nanos > 999_999_999 {
        999_999_999
    } else {
        saved.production_subsecond_nanos
    }
    &&& s.days_map().dom() == days.dom()
    &&& forall|x: Seq<char>|
        #[trigger] days.dom().contains(x) ==> productive_of(s.days_map(), x) == days[x].0 && inputs_of(
            s.days_map(),
            x,
        ) == days[x].1
}

fn bad_statistic() -> (r: String)
    ensures
        r@ == BAD_SAVED_STATISTIC@,
{
    BAD_SAVED_STATISTIC.to_owned()
}

/// Reads saved statistics; a remainder beyond a second is capped just below it.
pub fn restore_statistics(saved: &SavedStatistics) -> (r: Result<Statistics, String>)
    ensures
        match read_all(saved.days@, day_reader()) {
            Err(m) => r matches Err(x) && x@ == m,
            Ok(days) => r matches Ok(s) && restored_statistics(s, *saved, days),
        },
{
    let entries = &saved.days;
    let ghost read = day_reader();
    let mut out: Vec<(String, DayStatistics)> = Vec::new();
    let mut i: usize = 0;
    assert(entries@.take(0) =~= Seq::<(String, SavedDayStatistics)>::empty());
    assert(day_map_views(days_of(out@)) =~= Map::<Seq<char>, (nat, nat)>::empty());
    while i < entries.len()
        invariant
            i <= entries@.len(),
            entries@ == saved.days@,
            read == day_reader(),
            read_all(entries@.take(i as int), read) matches Ok(m) && day_map_views(days_of(out@)) == m,
        decreases entries@.len() - i,
    {
        let (date, day) = &entries[i];
        let ghost t = entries@.take(i as int + 1);
        proof {
            assert(t.drop_last() =~= entries@.take(i as int));
            assert(t.last() == entries@[i as int]);
        }
        let productive = match parse_u64(day.productive_nanos.as_str()) {
            Some(v) => v,
            None => {
                proof {
                    lemma_read_all_error_sticks(entries@, read, i as int + 1);
                }
                return Err(bad_statistic());
            },
        };
        let inputs = match BigNat::parse_decimal(day.inputs.as_str()) {
            Some(n) => n,
            None => {
                proof {
                    lemma_read_all_error_sticks(entries@, read, i as int + 1);
                }
                return Err(bad_number());
            },
        };
        let ghost before = out@;
        let record = DayStatistics { productive_nanos: productive, inputs };
        out.push((date.clone(), record));
        proof {
            assert(out@.drop_last() =~= before);
            assert(day_map_views(days_of(out@)) =~= day_map_views(days_of(before)).insert(
                date@,
                (productive as nat, record.inputs@),
            ));
        }
        i = i + 1;
    }
    assert(entries@.take(entries@.len() as int) =~= entries@);
    let ghost kept = out@;
    let statistics = Statistics::from_parts(saved.current_local_date.clone(), saved.production_subsecond_nanos, out);
    proof {
        let days = read_all(entries@, read)->Ok_0;
        assert(day_map_views(days_of(kept)) == days);
        assert(days.dom() =~= days_of(kept).dom());
        assert forall|x: Seq<char>| #[trigger] days.dom().contains(x) implies productive_of(statistics.days_map(), x)
            == days[x].0 && inputs_of(statistics.days_map(), x) == days[x].1 by {
            assert(productive_of(statistics.days_map(), x) == productive_of(days_of(kept), x));
            assert(inputs_of(statistics.days_map(), x) == inputs_of(days_of(kept), x));
            assert(days[x] == day_map_views(days_of(kept))[x]);
        }
    }
    Ok(statistics)
}

/// What a readable save holds, before the state is checked against the catalog.
pub struct SaveParts {
    pub plants: Map<Seq<char>, PlantStateView>,
    pub animals: Map<Seq<char>, AnimalStateView>,
    pub found_plants: Set<Seq<char>>,
    pub found_animals: Set<Seq<char>>,
    pub days: Map<Seq<char>, (nat, nat)>,
}

/// Reads a save up to the state check: the format version, the plant groups, the animal
/// groups, the discovered plants and animals, the statistics, then the coins. The first
/// problem met is the error.
pub open spec fn save_parts(f: SaveFile) -> Result<SaveParts, Seq<char>> {
    if f.version != SAVE_FORMAT_VERSION {
        Err(UNSUPPORTED_SAVE@)
    } else {
        match read_all(f.plants@, plant_reader()) {
            Err(m) => Err(m),
            Ok(plants) => match read_all(f.animals@, animal_reader()) {
                Err(m) => Err(m),
                Ok(animals) => match read_all(f.discovered_plants@, id_reader()) {
                    Err(m) => Err(m),
                    Ok(fp) => match read_all(f.discovered_animals@, id_reader()) {
                        Err(m) => Err(m),
                        Ok(fa) => match read_all(f.statistics.days@, day_reader()) {
                            Err(m) => Err(m),
                            Ok(days) => if !big_numeral_ok(f.coins@) {
                                Err(BAD_SAVED_NUMBER@)
                            } else {
                                Ok(
                                    SaveParts {
                                        plants,
                                        animals,
                                        found_plants: fp.dom(),
                                        found_animals: fa.dom(),
                                        days,
                                    },
                                )
                            },
                        },
                    },
                },
            },
        }
    }
}

/// `v` is the state that save `f`, read as `p`, describes.
pub open spec fn state_of_parts(v: GameView, f: SaveFile, p: SaveParts) -> bool {
    &&& v.version == f.content_version@
    &&& v.coins == numeral_value(f.coins@)
    &&& forall|x: Seq<char>| #[trigger] v.plant_ids.contains(x) <==> p.plants.dom().contains(x)
    &&& forall|j: int| 0 <= j < v.plant_ids.len() ==> v.plants[j] == p.plants[#[trigger] v.plant_ids[j]]
    &&& forall|x: Seq<char>| #[trigger] v.animal_ids.contains(x) <==> p.animals.dom().contains(x)
    &&& forall|j: int| 0 <= j < v.animal_ids.len() ==> v.animals[j] == p.animals[#[trigger] v.animal_ids[j]]
    &&& forall|x: Seq<char>| #[trigger] v.found_plants.contains(x) <==> p.found_plants.contains(x)
    &&& forall|x: Seq<char>| #[trigger] v.found_animals.contains(x) <==> p.found_animals.contains(x)
}

/// A game read back from a save.
pub struct SavedGame {
    pub state: GameState,
    pub lifetime_inputs: BigNat,
    pub statistics: Statistics,
}

/// Reads a save back, checking the state against the catalog. After the parts are read
/// the state is checked, and the lifetime inputs are read last.
pub fn restore_save(content: &ContentConfig, file: &SaveFile) -> (r: Result<SavedGame, String>)
    ensures
        match save_parts(*file) {
            Err(m) => r matches Err(x) && x@ == m,
            Ok(p) => match r {
                Ok(g) => {
                    &&& state_of_parts(g.state@, *file, p)
                    &&& state_valid(g.state@, *content)
                    &&& big_numeral_ok(file.lifetime_inputs@)
                    &&& g.lifetime_inputs@ == numeral_value(file.lifetime_inputs@)
                    &&& restored_statistics(g.statistics, file.statistics, p.days)
                },
                Err(x) => exists|v: GameView|
                    {
                        &&& game_view_shape(v)
                        &&& state_of_parts(v, *file, p)
                        &&& match state_check(v, *content) {
                            Some(e) => x@ == player_message(state_error_text(e)),
                            None => !big_numeral_ok(file.lifetime_inputs@) && x@ == BAD_SAVED_NUMBER@,
                        }
                    },
            },
        },
{
    if file.version != SAVE_FORMAT_VERSION {
        return Err(UNSUPPORTED_SAVE.to_owned());
    }
    let plants = match restore_plants(&file.plants) {
        Ok(m) => m,
        Err(e) => {
            return Err(e);
        },
    };
    let animals = match restore_animals(&file.animals) {
        Ok(m) => m,
        Err(e) => {
            return Err(e);
        },
    };
    let found_plants = match restore_plant_ids(&file.discovered_plants) {
        Ok(v) => v,
        Err(e) => {
            return Err(e);
        },
    };
    let found_animals = match restore_animal_ids(&file.discovered_animals) {
        Ok(v) => v,
        Err(e) => {
            return Err(e);
        },
    };
    let collection = CollectionState::from_discovered(found_plants, found_animals);
    let statistics = match restore_statistics(&file.statistics) {
        Ok(s) => s,
        Err(e) => {
            return Err(e);
        },
    };
    let coins = match BigNat::parse_decimal(file.coins.as_str()) {
        Some(n) => n,
        None => {
            return Err(bad_number());
        },
    };
    let ghost p = save_parts(*file)->Ok_0;
    let ghost v = GameView {
        version: file.content_version@,
        coins: coins@,
        plant_ids: crate::idmap::key_view(plants.key_seq()),
        plants: crate::state::plant_views(plants.val_seq()),
        animal_ids: crate::idmap::key_view(animals.key_seq()),
        animals: crate::state::animal_views(animals.val_seq()),
        found_plants: collection.plant_ids(),
        found_animals: collection.animal_ids(),
    };
    proof {
        use_type_invariant(&plants);
        use_type_invariant(&animals);
        crate::idmap::lemma_map_of_positions(plants.key_seq(), plants.val_seq());
        crate::idmap::lemma_map_of_positions(animals.key_seq(), animals.val_seq());
        crate::state::lemma_key_view_facts(plants.key_seq());
        crate::state::lemma_key_view_facts(animals.key_seq());
        assert(plant_map_views(plants.as_map()) == p.plants);
        assert(animal_map_views(animals.as_map()) == p.animals);
        assert forall|j: int| 0 <= j < v.plant_ids.len() implies v.plants[j] == p.plants[#[trigger] v.plant_ids[j]] by {
            assert(plants.as_map()[v.plant_ids[j]] == plants.val_seq()[j]);
        }
        assert forall|j: int| 0 <= j < v.animal_ids.len() implies v.animals[j] == p.animals[#[trigger] v.animal_ids[j]] by {
            assert(animals.as_map()[v.animal_ids[j]] == animals.val_seq()[j]);
        }
        assert(state_of_parts(v, *file, p));
    }
    let state = match GameState::try_from_parts(
        file.content_version.clone(),
        Wallet { coins: Coins::from_biguint(coins) },
        plants,
        animals,
        collection,
        content,
    ) {
        Ok(s) => s,
        Err(e) => {
            proof {
                assert(game_view_shape(v)) by {
                    crate::state::lemma_key_view_facts(plants.key_seq());
                }
            }
            return Err(domain_error(&e.message()));
        },
    };
    let lifetime_inputs = match BigNat::parse_decimal(file.lifetime_inputs.as_str()) {
        Some(n) => n,
        None => {
            proof {
                use_type_invariant(&state);
            }
            return Err(bad_number());
        },
    };
    Ok(SavedGame { state, lifetime_inputs, statistics })
}

/// Entries that each read well, under increasing keys, read into the map of those keys.
pub proof fn lemma_read_all_ok<T, V>(
    es: Seq<T>,
    read: spec_fn(T) -> Result<(Seq<char>, V), Seq<char>>,
    keys: Seq<Seq<char>>,
    vals: Seq<V>,
)
    requires
        es.len() == keys.len(),
        keys.len() == vals.len(),
        forall|j: int| 0 <= j < es.len() ==> read(#[trigger] es[j]) == Ok::<(Seq<char>, V), Seq<char>>((keys[j], vals[j])),
        ids_increasing(keys),
    ensures
        read_all(es, read) is Ok,
        forall|x: Seq<char>| #[trigger] read_all(es, read)->Ok_0.dom().contains(x) <==> keys.contains(x),
        forall|j: int| 0 <= j < keys.len() ==> read_all(es, read)->Ok_0[#[trigger] keys[j]] == vals[j],
    decreases es.len(),
{
    if es.len() > 0 {
        let n = es.len() - 1;
        let k0 = keys.drop_last();
        let v0 = vals.drop_last();
        assert forall|j: int| 0 <= j < es.drop_last().len() implies read(#[trigger] es.drop_last()[j])
            == Ok::<(Seq<char>, V), Seq<char>>((k0[j], v0[j])) by {
            assert(es.drop_last()[j] == es[j]);
        }
        assert(ids_increasing(k0)) by {
            assert forall|p: int, q: int| 0 <= p < q < k0.len() implies crate::keyed::seq_less(#[trigger] k0[p], #[trigger] k0[q]) by {
                assert(k0[p] == keys[p] && k0[q] == keys[q]);
            }
        }
        lemma_read_all_ok(es.drop_last(), read, k0, v0);
        assert(es.last() == es[n]);
        let m = read_all(es, read)->Ok_0;
        assert forall|x: Seq<char>| #[trigger] m.dom().contains(x) <==> keys.contains(x) by {
            if k0.contains(x) {
                let j = choose|j: int| 0 <= j < k0.len() && k0[j] == x;
                assert(keys[j] == x);
            }
            if keys.contains(x) && x != keys[n] {
                let j = choose|j: int| 0 <= j < keys.len() && keys[j] == x;
                assert(k0[j] == x);
            }
            if x == keys[n] {
                assert(keys[n] == x);
            }
        }
        assert forall|j: int| 0 <= j < keys.len() implies m[#[trigger] keys[j]] == vals[j] by {
            if j < n {
                assert(crate::keyed::seq_less(keys[j], keys[n]));
                crate::keyed::lemma_seq_less_irreflexive(keys[j]);
                assert(k0[j] == keys[j]);
            }
        }
    }
}

/// A save describes at most one state: the ids come in order, so the groups and
/// discovered species it lists fix the state.
pub proof fn law_save_describes_one_state(v1: GameView, v2: GameView, f: SaveFile, p: SaveParts)
    requires
        game_view_shape(v1),
        game_view_shape(v2),
        state_of_parts(v1, f, p),
        state_of_parts(v2, f, p),
    ensures
        v1 == v2,
{
    assert forall|x: Seq<char>| v1.plant_ids.contains(x) <==> v2.plant_ids.contains(x) by {
        assert(v1.plant_ids.contains(x) <==> p.plants.dom().contains(x));
        assert(v2.plant_ids.contains(x) <==> p.plants.dom().contains(x));
    }
    assert forall|x: Seq<char>| v1.animal_ids.contains(x) <==> v2.animal_ids.contains(x) by {
        assert(v1.animal_ids.contains(x) <==> p.animals.dom().contains(x));
        assert(v2.animal_ids.contains(x) <==> p.animals.dom().contains(x));
    }
    assert forall|x: Seq<char>| v1.found_plants.contains(x) <==> v2.found_plants.contains(x) by {
        assert(v1.found_plants.contains(x) <==> p.found_plants.contains(x));
        assert(v2.found_plants.contains(x) <==> p.found_plants.contains(x));
    }
    assert forall|x: Seq<char>| v1.found_animals.contains(x) <==> v2.found_animals.contains(x) by {
        assert(v1.found_animals.contains(x) <==> p.found_animals.contains(x));
        assert(v2.found_animals.contains(x) <==> p.found_animals.contains(x));
    }
    lemma_increasing_ids_equal(v1.plant_ids, v2.plant_ids);
    lemma_increasing_ids_equal(v1.animal_ids, v2.animal_ids);
    lemma_increasing_ids_equal(v1.found_plants, v2.found_plants);
    lemma_increasing_ids_equal(v1.found_animals, v2.found_animals);
    assert(v1.plants =~= v2.plants) by {
        assert forall|j: int| 0 <= j < v1.plants.len() implies v1.plants[j] == v2.plants[j] by {
            assert(v1.plants[j] == p.plants[v1.plant_ids[j]]);
            assert(v2.plants[j] == p.plants[v2.plant_ids[j]]);
        }
    }
    assert(v1.animals =~= v2.animals) by {
        assert forall|j: int| 0 <= j < v1.animals.len() implies v1.animals[j] == v2.animals[j] by {
            assert(v1.animals[j] == p.animals[v1.animal_ids[j]]);
            assert(v2.animals[j] == p.animals[v2.animal_ids[j]]);
        }
    }
}

/// The decimal text of a `u64` reads back through `u64::from_str`'s rules.
pub proof fn lemma_u64_text_reads_back(k: u64)
    ensures
        u64_numeral_ok(decimal(k as nat)),
        digits_value(plain_body(decimal(k as nat))) == k,
{
    lemma_decimal_digits(k as nat);
    assert(is_digit(decimal(k as nat)[0]));
    assert(plain_body(decimal(k as nat)) == decimal(k as nat));
}

} // verus!

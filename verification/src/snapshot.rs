//! What the shell displays: each tier of plant and paired animal, the economy and the
//! statistics, all numbers as decimal text.
use crate::amount::EntityCount;
use crate::bignat::decimal;
use crate::budget::PurchasePricingBudget;
use crate::config::{pair_index, plant_check, lemma_catalog_facts, ContentConfig};
use crate::error::{first_some, lemma_first_some_step, DomainErrorView};
use crate::keyed::{has_key, key_index, lemma_key_index_unique, SortKey};
use crate::message::{domain_error, domain_error_text, player_message};
use crate::purchase::{
    purchase_quote, quote_purchase_batch, PurchaseKind, PurchaseKindView, PurchaseSelection,
    PurchaseSelectionView,
};
use crate::sale::{quote_sale_batch, sale_quote, SaleSelection, SaleSelectionView};
use crate::state::{game_view_shape, lemma_state_valid, state_valid, GameState, GameView};
use crate::bignat::BigNat;
use crate::stats::{
    capped_total, full_days, inputs_of, productive_of, CalendarSample, Statistics, NANOS_PER_SECOND,
};
use vstd::prelude::*;
use vstd::string::StrSliceExecFns;

verus! {

/// One tier: a plant species and its paired animal.
pub struct TierSnapshot {
    pub plant_count: String,
    pub stock_cent: String,
    pub plant_rate_cent_per_minute: String,
    pub total_rate_cent_per_minute: String,
    pub next_seed_price_coins: String,
    pub plant_discovered: bool,
    pub animal_count: String,
    pub animal_purchase_price_coins: String,
    pub bite_cent: String,
    pub group_bite_cent: String,
    pub growth_per_feed_cent: String,
    pub growth_cent: String,
    pub feeding_threshold: u8,
    pub feeding_progress: u8,
    pub lifetime_paid_purchase_count: String,
    pub single_sale_value_coins: Option<String>,
    pub animal_discovered: bool,
}

/// A tier as text and flags.
pub struct TierSnapshotView {
    pub plant_count: Seq<char>,
    pub stock_cent: Seq<char>,
    pub plant_rate_cent_per_minute: Seq<char>,
    pub total_rate_cent_per_minute: Seq<char>,
    pub next_seed_price_coins: Seq<char>,
    pub plant_discovered: bool,
    pub animal_count: Seq<char>,
    pub animal_purchase_price_coins: Seq<char>,
    pub bite_cent: Seq<char>,
    pub group_bite_cent: Seq<char>,
    pub growth_per_feed_cent: Seq<char>,
    pub growth_cent: Seq<char>,
    pub feeding_threshold: u8,
    pub feeding_progress: u8,
    pub lifetime_paid_purchase_count: Seq<char>,
    pub single_sale_value_coins: Option<Seq<char>>,
    pub animal_discovered: bool,
}

/// The text of an optional string.
pub open spec fn opt_text(o: Option<String>) -> Option<Seq<char>> {
    match o {
        Some(s) => Some(s@),
        None => None,
    }
}

impl View for TierSnapshot {
    type V = TierSnapshotView;

    open spec fn view(&self) -> TierSnapshotView {
        TierSnapshotView {
            plant_count: self.plant_count@,
            stock_cent: self.stock_cent@,
            plant_rate_cent_per_minute: self.plant_rate_cent_per_minute@,
            total_rate_cent_per_minute: self.total_rate_cent_per_minute@,
            next_seed_price_coins: self.next_seed_price_coins@,
            plant_discovered: self.plant_discovered,
            animal_count: self.animal_count@,
            animal_purchase_price_coins: self.animal_purchase_price_coins@,
            bite_cent: self.bite_cent@,
            group_bite_cent: self.group_bite_cent@,
            growth_per_feed_cent: self.growth_per_feed_cent@,
            growth_cent: self.growth_cent@,
            feeding_threshold: self.feeding_threshold,
            feeding_progress: self.feeding_progress,
            lifetime_paid_purchase_count: self.lifetime_paid_purchase_count@,
            single_sale_value_coins: opt_text(self.single_sale_value_coins),
            animal_discovered: self.animal_discovered,
        }
    }
}

/// The quote for one more seed of plant group `j`.
pub open spec fn seed_quote(v: GameView, c: ContentConfig, j: int) -> Result<
    crate::purchase::PurchaseQuoteView,
    DomainErrorView,
> {
    purchase_quote(
        v,
        c,
        seq![PurchaseSelectionView { kind: PurchaseKindView::Plant(v.plant_ids[j]), quantity: 1 }],
        PurchasePricingBudget::default_spec(),
    )
}

/// The quote for selling one animal of the species paired with plant group `j`.
pub open spec fn single_sale_quote(v: GameView, c: ContentConfig, j: int) -> Result<
    crate::sale::SaleQuoteView,
    DomainErrorView,
> {
    sale_quote(v, c, seq![SaleSelectionView { animal_id: c.plant_seq()[j].paired_animal_id@, quantity: 1 }])
}

/// Why tier `j` cannot be shown: its seed quote fails, or, when it has animals, their
/// single sale quote fails.
pub open spec fn tier_error(v: GameView, c: ContentConfig, j: int) -> Option<DomainErrorView> {
    match seed_quote(v, c, j) {
        Err(e) => Some(e),
        Ok(_) => if v.animals[pair_index(c, j)].count != 0 {
            match single_sale_quote(v, c, j) {
                Err(e) => Some(e),
                Ok(_) => None,
            }
        } else {
            None
        },
    }
}

pub open spec fn tier_errors(v: GameView, c: ContentConfig) -> spec_fn(int) -> Option<DomainErrorView> {
    |j: int| tier_error(v, c, j)
}

/// Tier `j` as displayed, when its quotes succeed.
pub open spec fn tier_view(v: GameView, c: ContentConfig, j: int) -> TierSnapshotView {
    let p = v.plants[j];
    let pc = c.plant_seq()[j];
    let a = v.animals[pair_index(c, j)];
    let ac = c.animal_seq()[pair_index(c, j)];
    TierSnapshotView {
        plant_count: decimal(p.count),
        stock_cent: decimal(p.stock_cent),
        plant_rate_cent_per_minute: decimal(pc.rate_cent_per_minute@),
        total_rate_cent_per_minute: decimal(p.count * pc.rate_cent_per_minute@),
        next_seed_price_coins: decimal(seed_quote(v, c, j)->Ok_0.total_cost),
        plant_discovered: v.found_plants.contains(v.plant_ids[j]),
        animal_count: decimal(a.count),
        animal_purchase_price_coins: decimal(ac.fixed_purchase_price_coins@),
        bite_cent: decimal(ac.bite_cent@),
        group_bite_cent: decimal(a.count * ac.bite_cent@),
        growth_per_feed_cent: decimal(ac.bite_cent@),
        growth_cent: decimal(a.growth_cent),
        feeding_threshold: ac.feeding_threshold,
        feeding_progress: a.progress,
        lifetime_paid_purchase_count: decimal(a.lifetime_paid),
        single_sale_value_coins: if a.count == 0 {
            None
        } else {
            Some(decimal(single_sale_quote(v, c, j)->Ok_0.total_coins))
        },
        animal_discovered: v.found_animals.contains(ac.id@),
    }
}

/// The tiers of a state, keyed by plant id in id order.
pub open spec fn tier_views(v: GameView, c: ContentConfig) -> Seq<(Seq<char>, TierSnapshotView)> {
    Seq::new(v.plants.len(), |j: int| (v.plant_ids[j], tier_view(v, c, j)))
}

/// The keyed views of built tiers.
pub open spec fn tier_entry_views(t: Seq<(String, TierSnapshot)>) -> Seq<(Seq<char>, TierSnapshotView)> {
    Seq::new(t.len(), |j: int| (t[j].0@, t[j].1@))
}

/// Builds every tier of a valid state, in plant id order. The first tier whose quote
/// fails makes the whole snapshot fail with that error's message.
pub fn tier_snapshots(state: &GameState, content: &ContentConfig) -> (r: Result<Vec<(String, TierSnapshot)>, String>)
    requires
        state_valid(state@, *content),
    ensures
        match first_some(tier_errors(state@, *content), 0, state@.plants.len() as int) {
            Some(e) => r matches Err(m) && m@ == player_message(domain_error_text(e)),
            None => r matches Ok(t) && tier_entry_views(t@) == tier_views(state@, *content),
        },
{
    proof {
        use_type_invariant(state);
        use_type_invariant(content);
        lemma_state_valid(state@, *content);
        crate::config::lemma_pairing(*content);
        lemma_catalog_facts(content.plant_seq(), content.animal_seq(), content.rule());
    }
    let ghost v = state@;
    let ghost c = *content;
    let ghost n = v.plants.len() as int;
    let ghost f = tier_errors(v, c);
    let ids = state.plants().keys();
    let plants = state.plants().values();
    let animals = state.animals();
    let mut out: Vec<(String, TierSnapshot)> = Vec::new();
    let mut j: usize = 0;
    while j < ids.len()
        invariant
            v == state@,
            c == *content,
            n == v.plants.len(),
            f == tier_errors(v, c),
            state_valid(v, c),
            game_view_shape(v),
            c.wf(),
            v.plant_ids == crate::idmap::key_view(c.plant_seq()),
            v.animal_ids == crate::idmap::key_view(c.animal_seq()),
            v.plants.len() == c.plant_seq().len(),
            v.animals.len() == c.animal_seq().len(),
            forall|i: int| 0 <= i < c.plant_seq().len() ==> (#[trigger] plant_check(c.plant_seq(), c.animal_seq(), i)) is None,
            forall|k: int|
                0 <= k < c.plant_seq().len() ==> {
                    &&& 0 <= #[trigger] pair_index(c, k) < c.animal_seq().len()
                },
            crate::idmap::key_view(ids@) == v.plant_ids,
            crate::state::plant_views(plants@) == v.plants,
            crate::idmap::key_view(animals.key_seq()) == v.animal_ids,
            crate::state::animal_views(animals.val_seq()) == v.animals,
            ids@.len() == n,
            plants@.len() == n,
            0 <= j <= n,
            first_some(f, 0, n) == first_some(f, j as int, n),
            tier_entry_views(out@) == tier_views(v, c).take(j as int),
        decreases n - j,
    {
        let plant_id = &ids[j];
        let plant = &plants[j];
        proof {
            lemma_key_index_unique(c.plant_seq(), j as int);
            assert(c.plant_seq()[j as int].key() == v.plant_ids[j as int]);
            assert(plant_id@ == v.plant_ids[j as int]);
        }
        let plant_config = content.plant(plant_id).unwrap();
        let animal_id = &plant_config.paired_animal_id;
        proof {
            assert(plant_check(c.plant_seq(), c.animal_seq(), j as int) is None);
            assert(has_key(c.animal_seq(), animal_id@));
            let ai = key_index(c.animal_seq(), animal_id@);
            assert(ai == pair_index(c, j as int));
            lemma_key_index_unique(c.animal_seq(), ai);
            assert(c.animal_seq()[ai].key() == animal_id@);
            assert(v.animal_ids[ai] == animal_id@);
            use_type_invariant(animals);
            assert(animals.key_seq()[ai].key() == animal_id@);
            lemma_key_index_unique(animals.key_seq(), ai);
        }
        let animal = animals.get(animal_id).unwrap();
        let animal_config = content.animal(animal_id).unwrap();
        let ghost ai = pair_index(c, j as int);
        let seed = vec![PurchaseSelection { kind: PurchaseKind::Plant(plant_id.copy()), quantity: EntityCount::from_u64(1) }];
        proof {
            assert(crate::purchase::selection_views(seed@) =~= seq![
                PurchaseSelectionView { kind: PurchaseKindView::Plant(v.plant_ids[j as int]), quantity: 1 },
            ]);
        }
        let next_seed_price = match quote_purchase_batch(state, content, seed.as_slice()) {
            Ok(q) => q.total_cost,
            Err(e) => {
                proof {
                    assert(f(j as int) == Some(e@));
                }
                return Err(domain_error(&e.message()));
            },
        };
        let single_sale_value = if animal.count.is_zero() {
            None
        } else {
            let one = vec![SaleSelection { animal_id: animal_id.copy(), quantity: EntityCount::from_u64(1) }];
            proof {
                assert(crate::sale::sale_selection_views(one@) =~= seq![
                    SaleSelectionView { animal_id: c.plant_seq()[j as int].paired_animal_id@, quantity: 1 },
                ]);
            }
            match quote_sale_batch(state, content, one.as_slice()) {
                Ok(q) => Some(q.total_coins.to_decimal_string()),
                Err(e) => {
                    proof {
                        assert(f(j as int) == Some(e@));
                    }
                    return Err(domain_error(&e.message()));
                },
            }
        };
        let tier = TierSnapshot {
            plant_count: plant.count.to_decimal_string(),
            stock_cent: plant.stock_cent.to_decimal_string(),
            plant_rate_cent_per_minute: plant_config.rate_cent_per_minute.to_decimal_string(),
            total_rate_cent_per_minute: plant.count.as_biguint().mul(
                plant_config.rate_cent_per_minute.as_biguint(),
            ).to_decimal_string(),
            next_seed_price_coins: next_seed_price.to_decimal_string(),
            plant_discovered: state.collection().is_plant_discovered(plant_id),
            animal_count: animal.count.to_decimal_string(),
            animal_purchase_price_coins: animal_config.fixed_purchase_price_coins.to_decimal_string(),
            bite_cent: animal_config.bite_cent.to_decimal_string(),
            group_bite_cent: animal.count.as_biguint().mul(animal_config.bite_cent.as_biguint()).to_decimal_string(),
            growth_per_feed_cent: animal_config.bite_cent.to_decimal_string(),
            growth_cent: animal.total_growth_cent.to_decimal_string(),
            feeding_threshold: animal_config.feeding_threshold,
            feeding_progress: animal.feeding_progress.value(),
            lifetime_paid_purchase_count: animal.lifetime_paid_purchase_count.to_decimal_string(),
            single_sale_value_coins: single_sale_value,
            animal_discovered: state.collection().is_animal_discovered(animal_id),
        };
        proof {
            assert(f(j as int) is None);
            lemma_first_some_step(f, j as int, n);
            assert(tier@ == tier_view(v, c, j as int));
        }
        let ghost before = out@;
        out.push((plant_id.as_str().to_owned(), tier));
        proof {
            assert(tier_entry_views(out@) =~= tier_entry_views(before).push((v.plant_ids[j as int], tier_view(v, c, j as int))));
            assert(tier_views(v, c).take(j as int + 1) =~= tier_views(v, c).take(j as int).push(
                (v.plant_ids[j as int], tier_view(v, c, j as int)),
            ));
        }
        j = j + 1;
    }
    proof {
        assert(tier_views(v, c).take(n) =~= tier_views(v, c));
    }
    Ok(out)
}

/// Statistics as displayed.
pub struct StatisticsSnapshot {
    pub local_date: String,
    pub today_productive_seconds: String,
    pub today_inputs: String,
    pub lifetime_productive_seconds: String,
    pub lifetime_inputs: String,
    pub productive_days: String,
}

pub struct StatisticsSnapshotView {
    pub local_date: Seq<char>,
    pub today_productive_seconds: Seq<char>,
    pub today_inputs: Seq<char>,
    pub lifetime_productive_seconds: Seq<char>,
    pub lifetime_inputs: Seq<char>,
    pub productive_days: Seq<char>,
}

impl View for StatisticsSnapshot {
    type V = StatisticsSnapshotView;

    open spec fn view(&self) -> StatisticsSnapshotView {
        StatisticsSnapshotView {
            local_date: self.local_date@,
            today_productive_seconds: self.today_productive_seconds@,
            today_inputs: self.today_inputs@,
            lifetime_productive_seconds: self.lifetime_productive_seconds@,
            lifetime_inputs: self.lifetime_inputs@,
            productive_days: self.productive_days@,
        }
    }
}

/// The day a snapshot shows: the calendar's date when it has one, else the day last seen.
pub open spec fn shown_date(calendar: Option<CalendarSample>, current: Seq<char>) -> Seq<char> {
    if calendar matches Some(c) && c.date@.len() > 0 {
        calendar->0.date@
    } else {
        current
    }
}

/// The statistics as displayed: whole seconds, counts in decimal.
pub open spec fn statistics_view(
    statistics: Statistics,
    lifetime_inputs: nat,
    calendar: Option<CalendarSample>,
) -> StatisticsSnapshotView {
    let date = shown_date(calendar, statistics.current());
    let days = statistics.days_map();
    StatisticsSnapshotView {
        local_date: date,
        today_productive_seconds: decimal(productive_of(days, date) / (NANOS_PER_SECOND as nat)),
        today_inputs: decimal(inputs_of(days, date)),
        lifetime_productive_seconds: decimal(capped_total(statistics.day_seq()) / (NANOS_PER_SECOND as nat)),
        lifetime_inputs: decimal(lifetime_inputs),
        productive_days: decimal(full_days(statistics.day_seq())),
    }
}

fn count_text(n: u64) -> (r: String)
    ensures
        r@ == decimal(n as nat),
{
    BigNat::from_u64(n).to_decimal_string()
}

/// The statistics of the day shown and of all days.
pub fn statistics_snapshot(
    statistics: &Statistics,
    lifetime_inputs: &BigNat,
    calendar: &Option<CalendarSample>,
) -> (r: StatisticsSnapshot)
    ensures
        r@ == statistics_view(*statistics, lifetime_inputs@, *calendar),
{
    let date: String = match calendar {
        Some(c) => if c.date.as_str().unicode_len() > 0 {
            c.date.clone()
        } else {
            statistics.current_local_date().to_owned()
        },
        None => statistics.current_local_date().to_owned(),
    };
    let today_nanos = statistics.productive_on(date.as_str());
    let today_inputs = statistics.inputs_on(date.as_str());
    let lifetime_nanos = statistics.lifetime_productive_nanos();
    let days = statistics.productive_day_count();
    StatisticsSnapshot {
        local_date: date,
        today_productive_seconds: count_text(today_nanos / NANOS_PER_SECOND),
        today_inputs: today_inputs.to_decimal_string(),
        lifetime_productive_seconds: count_text(lifetime_nanos / NANOS_PER_SECOND),
        lifetime_inputs: lifetime_inputs.to_decimal_string(),
        productive_days: count_text(days as u64),
    }
}

/// Everything the shell displays.
pub struct EconomySnapshot {
    pub coins: String,
    pub lifetime_inputs: String,
    pub statistics: StatisticsSnapshot,
    pub tiers: Vec<(String, TierSnapshot)>,
    pub save_status: &'static str,
}

/// A tier's total rate is what its plant group produces in one minute of productive
/// time: the stock gained over sixty seconds, whatever the group carried before.
pub proof fn law_tier_rate_is_one_minute_of_production(v: GameView, c: ContentConfig, j: int)
    requires
        state_valid(v, c),
        game_view_shape(v),
        0 <= j < v.plants.len(),
    ensures
        tier_views(v, c)[j].1.total_rate_cent_per_minute == decimal(
            (crate::production::settled_view(v, c.plant_seq(), 60).plants[j].stock_cent - v.plants[j].stock_cent) as nat,
        ),
{
    lemma_state_valid(v, c);
    assert(crate::state::plant_state_check(v, j) is None);
    let p = v.plants[j];
    let rate = c.plant_seq()[j].rate_cent_per_minute@;
    let n = crate::production::production_numerator(p, rate, 60);
    let r = p.remainder as nat;
    let cr = p.count * rate;
    assert(n == r + cr * 60) by (nonlinear_arith)
        requires
            n == r + p.count * rate * 60,
            cr == p.count * rate,
    ;
    assert(n / 60 == cr) by (nonlinear_arith)
        requires
            n == r + cr * 60,
            r < 60,
    ;
}

/// The figures of the day shown depend on that day's record alone: two statistics that
/// show the same day and agree on its record show the same day's figures, whatever their
/// other days hold.
pub proof fn law_today_depends_only_on_the_shown_day(
    s1: Statistics,
    s2: Statistics,
    lifetime1: nat,
    lifetime2: nat,
    calendar: Option<CalendarSample>,
)
    requires
        shown_date(calendar, s1.current()) == shown_date(calendar, s2.current()),
        productive_of(s1.days_map(), shown_date(calendar, s1.current())) == productive_of(
            s2.days_map(),
            shown_date(calendar, s2.current()),
        ),
        inputs_of(s1.days_map(), shown_date(calendar, s1.current())) == inputs_of(
            s2.days_map(),
            shown_date(calendar, s2.current()),
        ),
    ensures
        statistics_view(s1, lifetime1, calendar).local_date == statistics_view(s2, lifetime2, calendar).local_date,
        statistics_view(s1, lifetime1, calendar).today_productive_seconds == statistics_view(
            s2,
            lifetime2,
            calendar,
        ).today_productive_seconds,
        statistics_view(s1, lifetime1, calendar).today_inputs == statistics_view(s2, lifetime2, calendar).today_inputs,
{
}

/// Today's productive seconds are the whole seconds recorded for the day shown: a day with
/// `n` seconds recorded shows `n`, and a day with nothing recorded shows zero.
pub proof fn law_today_shows_the_days_whole_seconds(
    st: Statistics,
    lifetime: nat,
    calendar: Option<CalendarSample>,
    seconds: nat,
)
    requires
        st.days_map().dom().contains(shown_date(calendar, st.current())) ==> st.days_map()[shown_date(
            calendar,
            st.current(),
        )].productive_nanos == seconds * 1_000_000_000,
    ensures
        statistics_view(st, lifetime, calendar).today_productive_seconds == decimal(
            if st.days_map().dom().contains(shown_date(calendar, st.current())) {
                seconds
            } else {
                0
            },
        ),
{
    let d = shown_date(calendar, st.current());
    if st.days_map().dom().contains(d) {
        assert((seconds * 1_000_000_000) / 1_000_000_000 == seconds) by (nonlinear_arith);
    }
}

} // verus!

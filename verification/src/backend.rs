//! The game as the desktop shell drives it: one catalog and state, lifetime inputs and
//! daily statistics, settled from an input counter and productive time, and read back as
//! snapshots of text for display.
use crate::bignat::{decimal, BigNat};
use crate::budget::PurchasePricingBudget;
use crate::config::{catalog_ids_valid, ContentConfig};
use crate::content::{
    lemma_mvp_catalog_ids, load_mvp_content, mvp_catalog, mvp_start_check, mvp_start_view,
};
use crate::engine::{
    entry_views, new_demo_game_state, purchase_picks, purchase_selections, sale_picks, sale_selections, Farm,
    PurchaseRequest, SaleRequest, TradeQuote, DEMO_INITIAL_COINS,
};
use crate::error::{first_some, DomainErrorView};
use crate::message::{
    config_error_text, domain_error, domain_error_text, player_message, state_error_text,
};
use crate::purchase::{purchase_applied, purchase_quote, quote_purchase_batch, PurchaseLineView};
use crate::sale::{quote_sale_batch, sale_applied, sale_quote};
use crate::save::{
    animal_reader, day_map_views, day_reader, id_reader, lemma_read_all_ok,
    lemma_u64_text_reads_back, law_save_describes_one_state, plant_reader, restore_save,
    restored_statistics, save_parts, state_of_parts, SaveFile, SavedAnimal, SavedDayStatistics,
    SavedPlant, SavedStatistics, SAVE_FORMAT_VERSION,
};
use crate::bignat::{big_numeral_ok, lemma_decimal_reads_back, numeral_value};
use crate::ids::valid_species_id;
use crate::stats::lemma_day_positions;
use crate::snapshot::{
    statistics_snapshot, statistics_view, tier_entry_views, tier_errors, tier_snapshots, tier_views,
    EconomySnapshot, StatisticsSnapshot,
};
use crate::input::fed_view;
use crate::production::{law_production_splits, lemma_carry_split, settled_view};
use crate::state::{game_view_shape, state_valid, GameState, GameView};
use crate::stats::{
    booked_dates, booked_productive, inputs_of, productive_of, record_inputs, record_productive, sat_plus,
    CalendarSample, Statistics, NANOS_PER_SECOND,
};
use vstd::prelude::*;

verus! {

/// Where the running game came from.
#[derive(Clone, Copy, Debug, PartialEq, Eq)]
pub enum SaveStatus {
    /// Restored from a save.
    Loaded,
    /// Started afresh: there was no save.
    New,
    /// Started afresh: the save could not be read.
    Recovered,
}

/// The text of a save status.
pub open spec fn status_text(s: SaveStatus) -> Seq<char> {
    match s {
        SaveStatus::Loaded => "loaded"@,
        SaveStatus::New => "new"@,
        SaveStatus::Recovered => "recovered"@,
    }
}

impl SaveStatus {
    /// The status as the shell shows it.
    pub fn text(&self) -> (r: &'static str)
        ensures
            r@ == status_text(*self),
    {
        match self {
            SaveStatus::Loaded => "loaded",
            SaveStatus::New => "new",
            SaveStatus::Recovered => "recovered",
        }
    }
}

/// Productive time with the carried part below a second, capped at `u64::MAX`.
pub open spec fn carried_nanos(subsecond: u32, nanos: u64) -> nat {
    sat_plus(subsecond as nat, nanos as nat)
}

/// The whole seconds of carried productive time.
pub open spec fn carry_whole(subsecond: u32, nanos: u64) -> nat {
    carried_nanos(subsecond, nanos) / (NANOS_PER_SECOND as nat)
}

/// The part below a second of carried productive time.
pub open spec fn carry_rest(subsecond: u32, nanos: u64) -> nat {
    carried_nanos(subsecond, nanos) % (NANOS_PER_SECOND as nat)
}

/// Productive time is booked only when there is some and the calendar is known.
pub open spec fn productive_runs(nanos: u64, calendar: Option<CalendarSample>) -> bool {
    nanos > 0 && calendar is Some
}

/// The new inputs in a counter reading: none when the counter went back.
pub open spec fn input_delta(consumed: u64, total: u64) -> nat {
    if total > consumed {
        (total - consumed) as nat
    } else {
        0
    }
}

/// The state after producing over the whole seconds of carried productive time.
pub open spec fn produced_game(
    v: GameView,
    c: ContentConfig,
    subsecond: u32,
    nanos: u64,
    calendar: Option<CalendarSample>,
) -> GameView {
    if productive_runs(nanos, calendar) && carry_whole(subsecond, nanos) > 0 {
        settled_view(v, c.plant_seq(), carry_whole(subsecond, nanos))
    } else {
        v
    }
}

/// The running game.
pub struct GameEngine {
    farm: Farm,
    lifetime_inputs: BigNat,
    statistics: Statistics,
    last_calendar: Option<CalendarSample>,
    consumed_global_inputs: u64,
    save_status: SaveStatus,
}

impl GameEngine {
    pub closed spec fn catalog(&self) -> ContentConfig {
        self.farm.catalog()
    }

    pub closed spec fn game(&self) -> GameView {
        self.farm.game()
    }

    pub closed spec fn lifetime(&self) -> nat {
        self.lifetime_inputs@
    }

    pub closed spec fn stats(&self) -> Statistics {
        self.statistics
    }

    pub closed spec fn last(&self) -> Option<CalendarSample> {
        self.last_calendar
    }

    pub closed spec fn consumed(&self) -> u64 {
        self.consumed_global_inputs
    }

    pub closed spec fn status(&self) -> SaveStatus {
        self.save_status
    }
}

impl GameEngine {
    /// The state is valid for the catalog, and the catalog is valid.
    pub open spec fn valid(&self) -> bool {
        &&& state_valid(self.game(), self.catalog())
        &&& game_view_shape(self.game())
        &&& self.catalog().wf()
        &&& self.stats().wf()
    }

    fn facts(&self)
        ensures
            self.valid(),
    {
        let state = self.farm.state();
        let content = self.farm.content();
        self.statistics.assert_wf();
        proof {
            use_type_invariant(state);
            use_type_invariant(content);
        }
    }
}

/// `new` is `old` after booking `nanos` of productive time observed at `calendar`.
pub open spec fn productive_settled(
    old: GameEngine,
    new: GameEngine,
    nanos: u64,
    calendar: Option<CalendarSample>,
) -> bool {
    if productive_runs(nanos, calendar) {
        let c = calendar->0;
        &&& new.catalog() == old.catalog()
        &&& new.game() == produced_game(old.game(), old.catalog(), old.stats().subsecond(), nanos, calendar)
        &&& new.stats().current() == c.date@
        &&& new.stats().subsecond() == carry_rest(old.stats().subsecond(), nanos)
        &&& new.stats().days_map().dom() == booked_dates(old.stats().days_map().dom(), old.last(), c)
        &&& forall|x: Seq<char>|
            #[trigger] productive_of(new.stats().days_map(), x) == booked_productive(
                old.stats().days_map(),
                old.last(),
                c,
                nanos as nat,
                x,
            )
        &&& forall|x: Seq<char>|
            #[trigger] inputs_of(new.stats().days_map(), x) == inputs_of(old.stats().days_map(), x)
        &&& new.lifetime() == old.lifetime()
        &&& new.last() == old.last()
        &&& new.consumed() == old.consumed()
        &&& new.status() == old.status()
    } else {
        new == old
    }
}

/// `new` is `old` after reading the input counter at `total` and productive time `nanos`
/// at `calendar`: productive time is booked first, then the new inputs are fed, counted
/// and recorded for the calendar's day, and the calendar becomes the last one seen.
pub open spec fn settled(
    old: GameEngine,
    new: GameEngine,
    total: u64,
    nanos: u64,
    calendar: Option<CalendarSample>,
) -> bool {
    let runs = productive_runs(nanos, calendar);
    let delta = input_delta(old.consumed(), total);
    let counted = delta > 0 && calendar is Some;
    let produced = produced_game(old.game(), old.catalog(), old.stats().subsecond(), nanos, calendar);
    let booked = if runs {
        booked_dates(old.stats().days_map().dom(), old.last(), calendar->0)
    } else {
        old.stats().days_map().dom()
    };
    &&& new.catalog() == old.catalog()
    &&& new.game() == if delta > 0 {
        fed_view(produced, old.catalog(), delta)
    } else {
        produced
    }
    &&& new.lifetime() == old.lifetime() + delta
    &&& new.consumed() == total
    &&& new.last() == calendar
    &&& new.status() == old.status()
    &&& new.stats().subsecond() == if runs {
        carry_rest(old.stats().subsecond(), nanos)
    } else {
        old.stats().subsecond() as nat
    }
    &&& new.stats().current() == if runs || counted {
        calendar->0.date@
    } else {
        old.stats().current()
    }
    &&& new.stats().days_map().dom() == if counted {
        booked.insert(calendar->0.date@)
    } else {
        booked
    }
    &&& forall|x: Seq<char>|
        #[trigger] productive_of(new.stats().days_map(), x) == if runs {
            booked_productive(old.stats().days_map(), old.last(), calendar->0, nanos as nat, x)
        } else {
            productive_of(old.stats().days_map(), x)
        }
    &&& forall|x: Seq<char>|
        #[trigger] inputs_of(new.stats().days_map(), x) == inputs_of(old.stats().days_map(), x) + if counted
            && calendar->0.date@ == x {
            delta
        } else {
            0
        }
}

impl GameEngine {
    /// Settles a reading of the global input counter and of productive time. Returns
    /// whether anything was booked. A counter that went back is taken as the new base.
    pub fn settle(&mut self, total_global_inputs: u64, productive_nanos: u64, calendar: Option<CalendarSample>) -> (changed:
        bool)
        ensures
            changed == (productive_runs(productive_nanos, calendar) || input_delta(
                old(self).consumed(),
                total_global_inputs,
            ) > 0),
            settled(*old(self), *final(self), total_global_inputs, productive_nanos, calendar),
            final(self).valid(),
    {
        let mut changed = self.settle_productive(productive_nanos, &calendar);
        if total_global_inputs >= self.consumed_global_inputs {
            let delta = total_global_inputs - self.consumed_global_inputs;
            self.consumed_global_inputs = total_global_inputs;
            if delta > 0 {
                self.farm.feed(&BigNat::from_u64(delta));
                self.lifetime_inputs = self.lifetime_inputs.add(&BigNat::from_u64(delta));
                let day: Option<&CalendarSample> = match &calendar {
                    Some(c) => Some(c),
                    None => None,
                };
                record_inputs(&mut self.statistics, day, delta);
                changed = true;
            }
        } else {
            self.consumed_global_inputs = total_global_inputs;
        }
        self.last_calendar = calendar;
        self.facts();
        changed
    }

    /// Books productive time, carrying the part below a second, and produces over the
    /// whole seconds. Nothing happens without time or without a calendar.
    fn settle_productive(&mut self, productive_nanos: u64, calendar: &Option<CalendarSample>) -> (r: bool)
        ensures
            r == productive_runs(productive_nanos, *calendar),
            productive_settled(*old(self), *final(self), productive_nanos, *calendar),
    {
        let current = match calendar {
            Some(c) => c,
            None => {
                return false;
            },
        };
        if productive_nanos == 0 {
            return false;
        }
        record_productive(&mut self.statistics, &self.last_calendar, current, productive_nanos);
        let sub: u64 = self.statistics.production_subsecond_nanos() as u64;
        let total = sub.saturating_add(productive_nanos);
        let whole = total / NANOS_PER_SECOND;
        let rest = total % NANOS_PER_SECOND;
        self.statistics.set_subsecond(rest as u32);
        if whole > 0 {
            self.farm.produce(&BigNat::from_u64(whole));
        }
        true
    }
}

/// `s` shows engine `e` at `calendar`.
pub open spec fn economy_matches(s: EconomySnapshot, e: GameEngine, calendar: Option<CalendarSample>) -> bool {
    &&& s.coins@ == decimal(e.game().coins)
    &&& s.lifetime_inputs@ == decimal(e.lifetime())
    &&& s.statistics@ == statistics_view(e.stats(), e.lifetime(), calendar)
    &&& tier_entry_views(s.tiers@) == tier_views(e.game(), e.catalog())
    &&& s.save_status@ == status_text(e.status())
}

/// Why a snapshot of `e` fails: the first tier that cannot be shown.
pub open spec fn snapshot_error(e: GameEngine) -> Option<DomainErrorView> {
    first_some(tier_errors(e.game(), e.catalog()), 0, e.game().plants.len() as int)
}

/// Some line of a purchase quote is an emergency grant.
pub open spec fn any_emergency(lines: Seq<PurchaseLineView>) -> bool {
    exists|i: int| 0 <= i < lines.len() && #[trigger] lines[i].emergency_free
}

impl GameEngine {
    /// The snapshot of the game for the day of `calendar`.
    pub fn to_snapshot(&self, calendar: &Option<CalendarSample>) -> (r: Result<EconomySnapshot, String>)
        ensures
            match snapshot_error(*self) {
                Some(e) => r matches Err(m) && m@ == player_message(domain_error_text(e)),
                None => r matches Ok(s) && economy_matches(s, *self, *calendar),
            },
    {
        self.facts();
        let tiers = match tier_snapshots(self.farm.state(), self.farm.content()) {
            Ok(t) => t,
            Err(m) => {
                return Err(m);
            },
        };
        Ok(
            EconomySnapshot {
                coins: self.farm.state().wallet().coins.to_decimal_string(),
                lifetime_inputs: self.lifetime_inputs.to_decimal_string(),
                statistics: statistics_snapshot(&self.statistics, &self.lifetime_inputs, calendar),
                tiers,
                save_status: self.save_status.text(),
            },
        )
    }

    /// Settles a reading of the counter and of productive time, then shows the game.
    /// The flag says whether anything was booked, and so whether there is news to save.
    pub fn snapshot(&mut self, total_global_inputs: u64, productive_nanos: u64, calendar: Option<CalendarSample>) -> (r: (
        bool,
        Result<EconomySnapshot, String>,
    ))
        ensures
            r.0 == (productive_runs(productive_nanos, calendar) || input_delta(
                old(self).consumed(),
                total_global_inputs,
            ) > 0),
            settled(*old(self), *final(self), total_global_inputs, productive_nanos, calendar),
            final(self).valid(),
            match snapshot_error(*final(self)) {
                Some(e) => r.1 matches Err(m) && m@ == player_message(domain_error_text(e)),
                None => r.1 matches Ok(s) && economy_matches(s, *final(self), calendar),
            },
    {
        let again = match &calendar {
            Some(c) => Some(c.copy()),
            None => None,
        };
        let changed = self.settle(total_global_inputs, productive_nanos, again);
        let shown = self.to_snapshot(&calendar);
        (changed, shown)
    }

    /// The price of a purchase request, and whether an emergency grant makes it free.
    pub fn quote_purchase(&self, request: &PurchaseRequest) -> (r: Result<TradeQuote, String>)
        ensures
            match purchase_picks(entry_views(request.plants@), entry_views(request.animals@)) {
                Err(e) => r matches Err(m) && m@ == player_message(config_error_text(e)),
                Ok(sels) => match purchase_quote(
                    self.game(),
                    self.catalog(),
                    sels,
                    PurchasePricingBudget::default_spec(),
                ) {
                    Err(e) => r matches Err(m) && m@ == player_message(domain_error_text(e)),
                    Ok(q) => r matches Ok(t) && t.total@ == decimal(q.total_cost) && t.emergency_free
                        == any_emergency(q.lines),
                },
            },
    {
        let selections = match purchase_selections(request) {
            Ok(s) => s,
            Err(e) => {
                return Err(domain_error(&e.message()));
            },
        };
        let quote = match quote_purchase_batch(self.farm.state(), self.farm.content(), selections.as_slice()) {
            Ok(q) => q,
            Err(e) => {
                return Err(domain_error(&e.message()));
            },
        };
        let mut emergency_free = false;
        let mut i: usize = 0;
        while i < quote.lines.len()
            invariant
                i <= quote.lines@.len(),
                emergency_free == exists|k: int| 0 <= k < i && #[trigger] quote@.lines[k].emergency_free,
            decreases quote.lines@.len() - i,
        {
            let free = quote.lines[i].emergency_free;
            proof {
                assert(quote@.lines[i as int] == quote.lines@[i as int]@);
                assert(quote@.lines[i as int].emergency_free == free);
                if exists|k: int| 0 <= k < i + 1 && #[trigger] quote@.lines[k].emergency_free {
                    let k = choose|k: int| 0 <= k < i + 1 && #[trigger] quote@.lines[k].emergency_free;
                    if k < i {
                        assert(exists|k: int| 0 <= k < i && #[trigger] quote@.lines[k].emergency_free);
                    }
                }
            }
            if free {
                emergency_free = true;
            }
            i = i + 1;
        }
        Ok(TradeQuote { total: quote.total_cost.to_decimal_string(), emergency_free })
    }

    /// Commits a purchase request; on an error nothing changes.
    pub fn purchase(&mut self, request: &PurchaseRequest) -> (r: Result<(), String>)
        ensures
            final(self).catalog() == old(self).catalog(),
            final(self).lifetime() == old(self).lifetime(),
            final(self).stats() == old(self).stats(),
            final(self).last() == old(self).last(),
            final(self).consumed() == old(self).consumed(),
            final(self).status() == old(self).status(),
            final(self).valid(),
            match purchase_picks(entry_views(request.plants@), entry_views(request.animals@)) {
                Err(e) => r matches Err(m) && m@ == player_message(config_error_text(e)) && final(self).game()
                    == old(self).game(),
                Ok(sels) => match purchase_quote(
                    old(self).game(),
                    old(self).catalog(),
                    sels,
                    PurchasePricingBudget::default_spec(),
                ) {
                    Err(e) => r matches Err(m) && m@ == player_message(domain_error_text(e)) && final(self).game()
                        == old(self).game(),
                    Ok(q) => if old(self).game().coins < q.total_cost {
                        r matches Err(m) && m@ == player_message(domain_error_text(DomainErrorView::InsufficientCoins))
                            && final(self).game() == old(self).game()
                    } else {
                        r is Ok && purchase_applied(old(self).game(), q.lines, q.total_cost, final(self).game())
                    },
                },
            },
    {
        let selections = match purchase_selections(request) {
            Ok(s) => s,
            Err(e) => {
                self.facts();
                return Err(domain_error(&e.message()));
            },
        };
        let r = match self.farm.purchase(selections.as_slice()) {
            Ok(()) => Ok(()),
            Err(e) => Err(domain_error(&e.message())),
        };
        self.facts();
        r
    }

    /// The value of a sale request.
    pub fn quote_sale(&self, request: &SaleRequest) -> (r: Result<TradeQuote, String>)
        ensures
            match sale_picks(entry_views(request.animals@)) {
                Err(e) => r matches Err(m) && m@ == player_message(config_error_text(e)),
                Ok(sels) => match sale_quote(self.game(), self.catalog(), sels) {
                    Err(e) => r matches Err(m) && m@ == player_message(domain_error_text(e)),
                    Ok(q) => r matches Ok(t) && t.total@ == decimal(q.total_coins) && !t.emergency_free,
                },
            },
    {
        let selections = match sale_selections(request) {
            Ok(s) => s,
            Err(e) => {
                return Err(domain_error(&e.message()));
            },
        };
        match quote_sale_batch(self.farm.state(), self.farm.content(), selections.as_slice()) {
            Ok(q) => Ok(TradeQuote { total: q.total_coins.to_decimal_string(), emergency_free: false }),
            Err(e) => Err(domain_error(&e.message())),
        }
    }

    /// Commits a sale request; on an error nothing changes.
    pub fn sale(&mut self, request: &SaleRequest) -> (r: Result<(), String>)
        ensures
            final(self).catalog() == old(self).catalog(),
            final(self).lifetime() == old(self).lifetime(),
            final(self).stats() == old(self).stats(),
            final(self).last() == old(self).last(),
            final(self).consumed() == old(self).consumed(),
            final(self).status() == old(self).status(),
            final(self).valid(),
            match sale_picks(entry_views(request.animals@)) {
                Err(e) => r matches Err(m) && m@ == player_message(config_error_text(e)) && final(self).game()
                    == old(self).game(),
                Ok(sels) => match sale_quote(old(self).game(), old(self).catalog(), sels) {
                    Err(e) => r matches Err(m) && m@ == player_message(domain_error_text(e)) && final(self).game()
                        == old(self).game(),
                    Ok(q) => r is Ok && final(self).game() == sale_applied(old(self).game(), q),
                },
            },
    {
        let selections = match sale_selections(request) {
            Ok(s) => s,
            Err(e) => {
                self.facts();
                return Err(domain_error(&e.message()));
            },
        };
        let r = match self.farm.sale(selections.as_slice()) {
            Ok(()) => Ok(()),
            Err(e) => Err(domain_error(&e.message())),
        };
        self.facts();
        r
    }

    /// Starts the demo game over: demo state, no inputs or statistics, the counter's
    /// current total as the base, and status `new`. If the demo state cannot be built
    /// nothing changes.
    pub fn reset(&mut self, total_global_inputs: u64, calendar: Option<CalendarSample>) -> (r: Result<(), String>)
        ensures
            final(self).catalog() == old(self).catalog(),
            final(self).valid(),
            match mvp_start_check(old(self).catalog()) {
                Some(e) => r matches Err(m) && m@ == player_message(state_error_text(e)) && *final(self) == *old(
                    self,
                ),
                None => {
                    &&& r is Ok
                    &&& mvp_start_view(final(self).game(), old(self).catalog(), DEMO_INITIAL_COINS as nat)
                    &&& final(self).lifetime() == 0
                    &&& final(self).stats().current() == Seq::<char>::empty()
                    &&& final(self).stats().subsecond() == 0
                    &&& final(self).stats().days_map() == Map::<Seq<char>, crate::stats::DayStatistics>::empty()
                    &&& final(self).stats().day_seq().len() == 0
                    &&& final(self).last() == calendar
                    &&& final(self).consumed() == total_global_inputs
                    &&& final(self).status() == SaveStatus::New
                },
            },
    {
        self.facts();
        let state = match new_demo_game_state(self.farm.content()) {
            Ok(s) => s,
            Err(m) => {
                return Err(m);
            },
        };
        match self.farm.replace_state(state) {
            Ok(()) => {},
            Err(e) => {
                return Err(domain_error(&e.message()));
            },
        }
        self.lifetime_inputs = BigNat::zero();
        self.statistics = Statistics::new();
        self.last_calendar = calendar;
        self.consumed_global_inputs = total_global_inputs;
        self.save_status = SaveStatus::New;
        self.facts();
        Ok(())
    }
}

/// `f` is the save of engine `e`: every amount in decimal, species and days in order.
pub open spec fn save_matches(f: SaveFile, e: GameEngine) -> bool {
    let v = e.game();
    let st = e.stats();
    &&& f.version == SAVE_FORMAT_VERSION
    &&& f.content_version@ == v.version
    &&& f.coins@ == decimal(v.coins)
    &&& f.lifetime_inputs@ == decimal(e.lifetime())
    &&& f.plants@.len() == v.plants.len()
    &&& forall|j: int|
        0 <= j < f.plants@.len() ==> {
            &&& (#[trigger] f.plants@[j]).0@ == v.plant_ids[j]
            &&& f.plants@[j].1.count@ == decimal(v.plants[j].count)
            &&& f.plants@[j].1.stock_cent@ == decimal(v.plants[j].stock_cent)
            &&& f.plants@[j].1.production_remainder_60 == v.plants[j].remainder
        }
    &&& f.animals@.len() == v.animals.len()
    &&& forall|j: int|
        0 <= j < f.animals@.len() ==> {
            &&& (#[trigger] f.animals@[j]).0@ == v.animal_ids[j]
            &&& f.animals@[j].1.count@ == decimal(v.animals[j].count)
            &&& f.animals@[j].1.total_growth_cent@ == decimal(v.animals[j].growth_cent)
            &&& f.animals@[j].1.feeding_progress == v.animals[j].progress
            &&& f.animals@[j].1.lifetime_paid_purchase_count@ == decimal(v.animals[j].lifetime_paid)
        }
    &&& f.discovered_plants@.len() == v.found_plants.len()
    &&& forall|j: int| 0 <= j < f.discovered_plants@.len() ==> (#[trigger] f.discovered_plants@[j])@ == v.found_plants[j]
    &&& f.discovered_animals@.len() == v.found_animals.len()
    &&& forall|j: int|
        0 <= j < f.discovered_animals@.len() ==> (#[trigger] f.discovered_animals@[j])@ == v.found_animals[j]
    &&& f.statistics.current_local_date@ == st.current()
    &&& f.statistics.production_subsecond_nanos == st.subsecond()
    &&& f.statistics.days@.len() == st.day_seq().len()
    &&& forall|k: int|
        0 <= k < f.statistics.days@.len() ==> {
            &&& (#[trigger] f.statistics.days@[k]).0@ == st.date_seq()[k]
            &&& f.statistics.days@[k].1.productive_nanos@ == decimal(st.day_seq()[k].productive_nanos as nat)
            &&& f.statistics.days@[k].1.inputs@ == decimal(st.day_seq()[k].inputs@)
        }
}

fn count_text(n: u64) -> (r: String)
    ensures
        r@ == decimal(n as nat),
{
    BigNat::from_u64(n).to_decimal_string()
}

impl GameEngine {
    /// The save of the game.
    pub fn save_file(&self) -> (f: SaveFile)
        ensures
            save_matches(f, *self),
    {
        let state = self.farm.state();
        let ghost v = state@;
        proof {
            use_type_invariant(state);
        }
        let plant_ids = state.plants().keys();
        let plant_vals = state.plants().values();
        let mut plants: Vec<(String, SavedPlant)> = Vec::new();
        let mut j: usize = 0;
        while j < plant_ids.len()
            invariant
                crate::idmap::key_view(plant_ids@) == v.plant_ids,
                crate::state::plant_views(plant_vals@) == v.plants,
                plant_ids@.len() == plant_vals@.len(),
                j <= plant_ids@.len(),
                plants@.len() == j,
                forall|k: int|
                    0 <= k < j ==> {
                        &&& (#[trigger] plants@[k]).0@ == v.plant_ids[k]
                        &&& plants@[k].1.count@ == decimal(v.plants[k].count)
                        &&& plants@[k].1.stock_cent@ == decimal(v.plants[k].stock_cent)
                        &&& plants@[k].1.production_remainder_60 == v.plants[k].remainder
                    },
            decreases plant_ids@.len() - j,
        {
            let p = &plant_vals[j];
            plants.push(
                (
                    plant_ids[j].to_string(),
                    SavedPlant {
                        count: p.count.to_decimal_string(),
                        stock_cent: p.stock_cent.to_decimal_string(),
                        production_remainder_60: p.production_remainder_60.value(),
                    },
                ),
            );
            j = j + 1;
        }
        proof {
            use_type_invariant(state);
        }
        let animal_ids = state.animals().keys();
        let animal_vals = state.animals().values();
        let mut animals: Vec<(String, SavedAnimal)> = Vec::new();
        let mut j: usize = 0;
        while j < animal_ids.len()
            invariant
                crate::idmap::key_view(animal_ids@) == v.animal_ids,
                crate::state::animal_views(animal_vals@) == v.animals,
                animal_ids@.len() == animal_vals@.len(),
                j <= animal_ids@.len(),
                animals@.len() == j,
                forall|k: int|
                    0 <= k < j ==> {
                        &&& (#[trigger] animals@[k]).0@ == v.animal_ids[k]
                        &&& animals@[k].1.count@ == decimal(v.animals[k].count)
                        &&& animals@[k].1.total_growth_cent@ == decimal(v.animals[k].growth_cent)
                        &&& animals@[k].1.feeding_progress == v.animals[k].progress
                        &&& animals@[k].1.lifetime_paid_purchase_count@ == decimal(v.animals[k].lifetime_paid)
                    },
            decreases animal_ids@.len() - j,
        {
            let a = &animal_vals[j];
            animals.push(
                (
                    animal_ids[j].to_string(),
                    SavedAnimal {
                        count: a.count.to_decimal_string(),
                        total_growth_cent: a.total_growth_cent.to_decimal_string(),
                        feeding_progress: a.feeding_progress.value(),
                        lifetime_paid_purchase_count: a.lifetime_paid_purchase_count.to_decimal_string(),
                    },
                ),
            );
            j = j + 1;
        }
        let found_plants = state.collection().discovered_plants();
        let mut discovered_plants: Vec<String> = Vec::new();
        let mut j: usize = 0;
        while j < found_plants.len()
            invariant
                crate::idmap::key_view(found_plants@) == v.found_plants,
                j <= found_plants@.len(),
                discovered_plants@.len() == j,
                forall|k: int| 0 <= k < j ==> (#[trigger] discovered_plants@[k])@ == v.found_plants[k],
            decreases found_plants@.len() - j,
        {
            discovered_plants.push(found_plants[j].to_string());
            j = j + 1;
        }
        let found_animals = state.collection().discovered_animals();
        let mut discovered_animals: Vec<String> = Vec::new();
        let mut j: usize = 0;
        while j < found_animals.len()
            invariant
                crate::idmap::key_view(found_animals@) == v.found_animals,
                j <= found_animals@.len(),
                discovered_animals@.len() == j,
                forall|k: int| 0 <= k < j ==> (#[trigger] discovered_animals@[k])@ == v.found_animals[k],
            decreases found_animals@.len() - j,
        {
            discovered_animals.push(found_animals[j].to_string());
            j = j + 1;
        }
        let recorded = self.statistics.days();
        let ghost st = self.statistics;
        let mut days: Vec<(String, SavedDayStatistics)> = Vec::new();
        let mut k: usize = 0;
        while k < recorded.len()
            invariant
                recorded@.len() == st.day_seq().len(),
                forall|i: int|
                    #![trigger recorded@[i]]
                    0 <= i < recorded@.len() ==> recorded@[i].0@ == st.date_seq()[i]
                        && recorded@[i].1.productive_nanos == st.day_seq()[i].productive_nanos
                        && recorded@[i].1.inputs@ == st.day_seq()[i].inputs@,
                k <= recorded@.len(),
                days@.len() == k,
                forall|i: int|
                    0 <= i < k ==> {
                        &&& (#[trigger] days@[i]).0@ == st.date_seq()[i]
                        &&& days@[i].1.productive_nanos@ == decimal(st.day_seq()[i].productive_nanos as nat)
                        &&& days@[i].1.inputs@ == decimal(st.day_seq()[i].inputs@)
                    },
            decreases recorded@.len() - k,
        {
            let (date, day) = &recorded[k];
            days.push(
                (
                    date.clone(),
                    SavedDayStatistics {
                        productive_nanos: count_text(day.productive_nanos),
                        inputs: day.inputs.to_decimal_string(),
                    },
                ),
            );
            k = k + 1;
        }
        SaveFile {
            version: SAVE_FORMAT_VERSION,
            content_version: state.content_version().to_owned(),
            coins: state.wallet().coins.to_decimal_string(),
            lifetime_inputs: self.lifetime_inputs.to_decimal_string(),
            plants,
            animals,
            discovered_plants,
            discovered_animals,
            statistics: SavedStatistics {
                current_local_date: self.statistics.current_local_date().to_owned(),
                production_subsecond_nanos: self.statistics.production_subsecond_nanos(),
                days,
            },
        }
    }
}

/// A save that restores on catalog `c`: its parts read, the state they describe is
/// valid for `c`, and its lifetime inputs read.
pub open spec fn save_restorable(f: SaveFile, c: ContentConfig) -> bool {
    &&& save_parts(f) is Ok
    &&& big_numeral_ok(f.lifetime_inputs@)
    &&& exists|v: GameView|
        game_view_shape(v) && state_of_parts(v, f, save_parts(f)->Ok_0) && #[trigger] state_valid(v, c)
}

/// `e` holds what save `f` holds.
pub open spec fn loaded_from(e: GameEngine, f: SaveFile) -> bool {
    let p = save_parts(f)->Ok_0;
    &&& e.status() == SaveStatus::Loaded
    &&& state_of_parts(e.game(), f, p)
    &&& e.lifetime() == numeral_value(f.lifetime_inputs@)
    &&& restored_statistics(e.stats(), f.statistics, p.days)
}

/// `e` is a fresh demo game with no inputs and no statistics.
pub open spec fn fresh_demo(e: GameEngine) -> bool {
    &&& mvp_start_view(e.game(), e.catalog(), DEMO_INITIAL_COINS as nat)
    &&& e.lifetime() == 0
    &&& e.stats().current() == Seq::<char>::empty()
    &&& e.stats().subsecond() == 0
    &&& e.stats().days_map() == Map::<Seq<char>, crate::stats::DayStatistics>::empty()
    &&& e.stats().day_seq().len() == 0
}

impl GameEngine {
    /// Starts the game on the bundled catalog from what the shell found: a save, no save,
    /// or a save it could not read. A save that does not restore counts as unreadable,
    /// and both start a demo game, marked `recovered`; no save starts one marked `new`.
    pub fn load(save: Result<Option<SaveFile>, String>, calendar: Option<CalendarSample>) -> (r: Result<GameEngine, String>)
        ensures
            r matches Ok(e) && {
                &&& mvp_catalog(e.catalog())
                &&& catalog_ids_valid(e.catalog())
                &&& e.valid()
                &&& e.last() == calendar
                &&& e.consumed() == 0
                &&& if save matches Ok(Some(f)) && save_restorable(f, e.catalog()) {
                    loaded_from(e, save->Ok_0->Some_0)
                } else {
                    &&& fresh_demo(e)
                    &&& e.status() == if save matches Ok(None) {
                        SaveStatus::New
                    } else {
                        SaveStatus::Recovered
                    }
                }
            },
    {
        let content = load_mvp_content().unwrap();
        proof {
            use_type_invariant(&content);
            lemma_mvp_catalog_ids(content);
        }
        let restored = match &save {
            Ok(Some(f)) => match restore_save(&content, f) {
                Ok(g) => Some(g),
                Err(_) => {
                    proof {
                        let p = save_parts(*f)->Ok_0;
                        if save_restorable(*f, content) {
                            let w = choose|v: GameView| game_view_shape(v) && state_of_parts(v, *f, p) && #[trigger] state_valid(v, content);
                            let x = choose|v: GameView| {
                                &&& game_view_shape(v)
                                &&& state_of_parts(v, *f, p)
                                &&& match crate::state::state_check(v, content) {
                                    Some(_) => true,
                                    None => !big_numeral_ok(f.lifetime_inputs@),
                                }
                            };
                            law_save_describes_one_state(w, x, *f, p);
                        }
                    }
                    None
                },
            },
            _ => None,
        };
        let status = match (&save, &restored) {
            (_, Some(_)) => SaveStatus::Loaded,
            (Ok(None), None) => SaveStatus::New,
            _ => SaveStatus::Recovered,
        };
        let (state, lifetime_inputs, statistics) = match restored {
            Some(g) => (g.state, g.lifetime_inputs, g.statistics),
            None => {
                let s = match new_demo_game_state(&content) {
                    Ok(s) => s,
                    Err(m) => {
                        return Err(m);
                    },
                };
                (s, BigNat::zero(), Statistics::new())
            },
        };
        let farm = match Farm::new(content, state) {
            Ok(f) => f,
            Err(e) => {
                return Err(domain_error(&e.message()));
            },
        };
        let engine = GameEngine {
            farm,
            lifetime_inputs,
            statistics,
            last_calendar: calendar,
            consumed_global_inputs: 0,
            save_status: status,
        };
        engine.facts();
        Ok(engine)
    }
}

impl GameEngine {
    pub fn content(&self) -> (r: &ContentConfig)
        ensures
            *r == self.catalog(),
    {
        self.farm.content()
    }

    pub fn state(&self) -> (r: &GameState)
        ensures
            r@ == self.game(),
    {
        self.farm.state()
    }

    pub fn lifetime_inputs(&self) -> (r: &BigNat)
        ensures
            r@ == self.lifetime(),
    {
        &self.lifetime_inputs
    }

    pub fn statistics(&self) -> (r: &Statistics)
        ensures
            *r == self.stats(),
    {
        &self.statistics
    }

    pub fn last_calendar(&self) -> (r: &Option<CalendarSample>)
        ensures
            *r == self.last(),
    {
        &self.last_calendar
    }

    pub fn consumed_global_inputs(&self) -> (r: u64)
        ensures
            r == self.consumed(),
    {
        self.consumed_global_inputs
    }

    pub fn save_status(&self) -> (r: SaveStatus)
        ensures
            r == self.status(),
    {
        self.save_status
    }

    /// The statistics of the day of `calendar` (or of the day last seen) and of all days.
    pub fn statistics_snapshot(&self, calendar: &Option<CalendarSample>) -> (r: StatisticsSnapshot)
        ensures
            r@ == statistics_view(self.stats(), self.lifetime(), *calendar),
    {
        statistics_snapshot(&self.statistics, &self.lifetime_inputs, calendar)
    }
}

/// Reading the same counter total again counts nothing: an input is counted once, however
/// often the counter is read.
pub proof fn law_input_total_counted_once(
    e0: GameEngine,
    e1: GameEngine,
    e2: GameEngine,
    total: u64,
    nanos: u64,
    first: Option<CalendarSample>,
    second: Option<CalendarSample>,
)
    requires
        settled(e0, e1, total, nanos, first),
        settled(e1, e2, total, 0, second),
    ensures
        e2.lifetime() == e1.lifetime(),
        e2.lifetime() == e0.lifetime() + input_delta(e0.consumed(), total),
        e2.game() == e1.game(),
        forall|x: Seq<char>| #[trigger] inputs_of(e2.stats().days_map(), x) == inputs_of(e1.stats().days_map(), x),
        forall|x: Seq<char>|
            #[trigger] productive_of(e2.stats().days_map(), x) == productive_of(e1.stats().days_map(), x),
{
}

/// Without productive time nothing is produced and no productive time is booked; without
/// new inputs the state does not change at all.
pub proof fn law_no_productive_time_no_production(
    e0: GameEngine,
    e1: GameEngine,
    total: u64,
    calendar: Option<CalendarSample>,
)
    requires
        settled(e0, e1, total, 0, calendar),
    ensures
        input_delta(e0.consumed(), total) == 0 ==> e1.game() == e0.game(),
        forall|x: Seq<char>|
            #[trigger] productive_of(e1.stats().days_map(), x) == productive_of(e0.stats().days_map(), x),
        e1.stats().subsecond() == e0.stats().subsecond(),
{
}

/// Carrying the part below a second makes the whole seconds independent of how
/// productive time is sliced, as long as the carried total stays below the cap.
pub proof fn law_carry_slices(subsecond: u32, a: u64, b: u64)
    requires
        subsecond + a + b <= u64::MAX,
    ensures
        carry_rest(subsecond, a) < NANOS_PER_SECOND,
        carry_whole(subsecond, a) + carry_whole(carry_rest(subsecond, a) as u32, b) == carry_whole(
            subsecond,
            (a + b) as u64,
        ),
        carry_rest(carry_rest(subsecond, a) as u32, b) == carry_rest(subsecond, (a + b) as u64),
{
    lemma_carry_split((subsecond + a) as nat, b as nat, NANOS_PER_SECOND as nat);
}

/// Two readings of productive time, with no new inputs, produce what one reading of
/// their sum produces, and carry the same part below a second.
pub proof fn law_productive_time_slices(
    e0: GameEngine,
    e1: GameEngine,
    e2: GameEngine,
    a: u64,
    b: u64,
    calendar: Option<CalendarSample>,
)
    requires
        e0.valid(),
        settled(e0, e1, e0.consumed(), a, calendar),
        settled(e1, e2, e0.consumed(), b, calendar),
        a > 0,
        b > 0,
        e0.stats().subsecond() + a + b <= u64::MAX,
    ensures
        e2.game() == produced_game(e0.game(), e0.catalog(), e0.stats().subsecond(), (a + b) as u64, calendar),
        e2.stats().subsecond() == if calendar is Some {
            carry_rest(e0.stats().subsecond(), (a + b) as u64)
        } else {
            e0.stats().subsecond() as nat
        },
{
    let sub = e0.stats().subsecond();
    law_carry_slices(sub, a, b);
    if calendar is Some {
        let c = e0.catalog();
        let w1 = carry_whole(sub, a);
        let w2 = carry_whole(carry_rest(sub, a) as u32, b);
        assert(e1.stats().subsecond() == carry_rest(sub, a));
        crate::state::lemma_state_valid(e0.game(), c);
        law_production_splits(e0.game(), c.plant_seq(), w1, w2);
        if w1 == 0 {
            assert(e1.game() == e0.game());
        }
        if w2 == 0 {
            assert(e2.game() == e1.game());
            crate::production::law_production_splits(e0.game(), c.plant_seq(), w1, 0);
        }
        if w1 > 0 && w2 > 0 {
            assert(e2.game() == settled_view(settled_view(e0.game(), c.plant_seq(), w1), c.plant_seq(), w2));
        }
    }
}

/// What a game saves reads back as the same game: the save is readable, it describes
/// exactly the saved state, its lifetime inputs read back, and any statistics read from
/// it agree with the saved ones day by day.
pub proof fn law_save_reads_back(e: GameEngine, f: SaveFile)
    requires
        e.valid(),
        catalog_ids_valid(e.catalog()),
        save_matches(f, e),
    ensures
        save_parts(f) is Ok,
        state_of_parts(e.game(), f, save_parts(f)->Ok_0),
        forall|v: GameView| game_view_shape(v) && state_of_parts(v, f, save_parts(f)->Ok_0) ==> v == e.game(),
        big_numeral_ok(f.lifetime_inputs@),
        numeral_value(f.lifetime_inputs@) == e.lifetime(),
        forall|s: Statistics|
            restored_statistics(s, f.statistics, save_parts(f)->Ok_0.days) ==> {
                &&& s.current() == e.stats().current()
                &&& e.stats().subsecond() <= 999_999_999 ==> s.subsecond() == e.stats().subsecond()
                &&& s.days_map().dom() == e.stats().days_map().dom()
                &&& forall|x: Seq<char>|
                    #[trigger] productive_of(s.days_map(), x) == productive_of(e.stats().days_map(), x)
                        && inputs_of(s.days_map(), x) == inputs_of(e.stats().days_map(), x)
            },
{
    let v = e.game();
    let c = e.catalog();
    let st = e.stats();
    crate::state::lemma_state_valid(v, c);
    lemma_decimal_reads_back(v.coins);
    lemma_decimal_reads_back(e.lifetime());
    assert forall|j: int| 0 <= j < v.plant_ids.len() implies valid_species_id(#[trigger] v.plant_ids[j]) by {
        assert(v.plant_ids[j] == c.plant_seq()[j].id@);
    }
    assert forall|j: int| 0 <= j < v.animal_ids.len() implies valid_species_id(#[trigger] v.animal_ids[j]) by {
        assert(v.animal_ids[j] == c.animal_seq()[j].id@);
    }
    assert forall|j: int| 0 <= j < v.found_plants.len() implies valid_species_id(#[trigger] v.found_plants[j]) by {
        assert(crate::idmap::key_view(c.plant_seq()).contains(v.found_plants[j]));
        let k = choose|k: int| 0 <= k < crate::idmap::key_view(c.plant_seq()).len() && crate::idmap::key_view(c.plant_seq())[k] == v.found_plants[j];
        assert(c.plant_seq()[k].id@ == v.found_plants[j]);
    }
    assert forall|j: int| 0 <= j < v.found_animals.len() implies valid_species_id(#[trigger] v.found_animals[j]) by {
        assert(crate::idmap::key_view(c.animal_seq()).contains(v.found_animals[j]));
        let k = choose|k: int| 0 <= k < crate::idmap::key_view(c.animal_seq()).len() && crate::idmap::key_view(c.animal_seq())[k] == v.found_animals[j];
        assert(c.animal_seq()[k].id@ == v.found_animals[j]);
    }
    // plant groups
    assert forall|j: int| 0 <= j < f.plants@.len() implies (plant_reader())(#[trigger] f.plants@[j])
        == Ok::<(Seq<char>, crate::state::PlantStateView), Seq<char>>((v.plant_ids[j], v.plants[j])) by {
        lemma_decimal_reads_back(v.plants[j].count);
        lemma_decimal_reads_back(v.plants[j].stock_cent);
        assert(crate::state::plant_state_check(v, j) is None);
    }
    lemma_read_all_ok(f.plants@, plant_reader(), v.plant_ids, v.plants);
    // animal groups
    assert forall|j: int| 0 <= j < f.animals@.len() implies (animal_reader())(#[trigger] f.animals@[j])
        == Ok::<(Seq<char>, crate::state::AnimalStateView), Seq<char>>((v.animal_ids[j], v.animals[j])) by {
        lemma_decimal_reads_back(v.animals[j].count);
        lemma_decimal_reads_back(v.animals[j].growth_cent);
        lemma_decimal_reads_back(v.animals[j].lifetime_paid);
    }
    lemma_read_all_ok(f.animals@, animal_reader(), v.animal_ids, v.animals);
    // discovered species
    let units_p = Seq::new(v.found_plants.len(), |j: int| ());
    let units_a = Seq::new(v.found_animals.len(), |j: int| ());
    assert forall|j: int| 0 <= j < f.discovered_plants@.len() implies (id_reader())(#[trigger] f.discovered_plants@[j])
        == Ok::<(Seq<char>, ()), Seq<char>>((v.found_plants[j], units_p[j])) by {}
    assert forall|j: int| 0 <= j < f.discovered_animals@.len() implies (id_reader())(#[trigger] f.discovered_animals@[j])
        == Ok::<(Seq<char>, ()), Seq<char>>((v.found_animals[j], units_a[j])) by {}
    lemma_read_all_ok(f.discovered_plants@, id_reader(), v.found_plants, units_p);
    lemma_read_all_ok(f.discovered_animals@, id_reader(), v.found_animals, units_a);
    // days
    lemma_day_positions(st);
    let dv = Seq::new(st.day_seq().len(), |k: int| (st.day_seq()[k].productive_nanos as nat, st.day_seq()[k].inputs@));
    assert forall|k: int| 0 <= k < f.statistics.days@.len() implies (day_reader())(#[trigger] f.statistics.days@[k])
        == Ok::<(Seq<char>, (nat, nat)), Seq<char>>((st.date_seq()[k], dv[k])) by {
        lemma_u64_text_reads_back(st.day_seq()[k].productive_nanos);
        lemma_decimal_reads_back(st.day_seq()[k].inputs@);
    }
    lemma_read_all_ok(f.statistics.days@, day_reader(), st.date_seq(), dv);
    let p = save_parts(f)->Ok_0;
    assert(p.days =~= day_map_views(st.days_map())) by {
        assert forall|x: Seq<char>| #[trigger] p.days.dom().contains(x) implies p.days[x] == day_map_views(st.days_map())[x] by {
            let k = choose|k: int| 0 <= k < st.date_seq().len() && st.date_seq()[k] == x;
            assert(p.days[st.date_seq()[k]] == dv[k]);
            assert(st.days_map()[st.date_seq()[k]] == st.day_seq()[k]);
        }
    }
    assert(state_of_parts(v, f, p));
    assert forall|w: GameView| game_view_shape(w) && state_of_parts(w, f, p) implies w == v by {
        law_save_describes_one_state(w, v, f, p);
    }
    assert forall|s: Statistics| restored_statistics(s, f.statistics, p.days) implies {
        &&& s.current() == st.current()
        &&& st.subsecond() <= 999_999_999 ==> s.subsecond() == st.subsecond()
        &&& s.days_map().dom() == st.days_map().dom()
        &&& forall|x: Seq<char>|
            #[trigger] productive_of(s.days_map(), x) == productive_of(st.days_map(), x) && inputs_of(s.days_map(), x)
                == inputs_of(st.days_map(), x)
    } by {
        assert forall|x: Seq<char>|
            #[trigger] productive_of(s.days_map(), x) == productive_of(st.days_map(), x) && inputs_of(s.days_map(), x)
                == inputs_of(st.days_map(), x) by {
            if p.days.dom().contains(x) {
                assert(p.days[x] == day_map_views(st.days_map())[x]);
            }
        }
    }
}

/// Saving a game and loading the save on the same catalog gives back the same game: the
/// same state and lifetime inputs, the same statistics day by day, marked `loaded`.
pub proof fn law_reload_gives_back_the_game(e: GameEngine, f: SaveFile, e2: GameEngine)
    requires
        e.valid(),
        catalog_ids_valid(e.catalog()),
        save_matches(f, e),
        e2.valid(),
        e2.catalog() == e.catalog(),
        save_restorable(f, e2.catalog()) ==> loaded_from(e2, f),
    ensures
        save_restorable(f, e.catalog()),
        e2.status() == SaveStatus::Loaded,
        e2.game() == e.game(),
        e2.lifetime() == e.lifetime(),
        e2.stats().current() == e.stats().current(),
        e.stats().subsecond() <= 999_999_999 ==> e2.stats().subsecond() == e.stats().subsecond(),
        e2.stats().days_map().dom() == e.stats().days_map().dom(),
        forall|x: Seq<char>|
            #[trigger] productive_of(e2.stats().days_map(), x) == productive_of(e.stats().days_map(), x)
                && inputs_of(e2.stats().days_map(), x) == inputs_of(e.stats().days_map(), x),
{
    law_save_reads_back(e, f);
    let p = save_parts(f)->Ok_0;
    assert(game_view_shape(e.game()) && state_of_parts(e.game(), f, p) && state_valid(e.game(), e.catalog()));
    assert(save_restorable(f, e.catalog()));
    assert(loaded_from(e2, f));
}

/// Producing over no seconds leaves a valid state as it is.
proof fn lemma_no_seconds_no_production(v: GameView, c: ContentConfig)
    requires
        state_valid(v, c),
        game_view_shape(v),
    ensures
        settled_view(v, c.plant_seq(), 0) == v,
{
    crate::state::lemma_state_valid(v, c);
    let w = settled_view(v, c.plant_seq(), 0);
    assert forall|j: int| 0 <= j < v.plants.len() implies w.plants[j] == v.plants[j] by {
        assert(crate::state::plant_state_check(v, j) is None);
        let p = v.plants[j];
        let rate = c.plant_seq()[j].rate_cent_per_minute@;
        assert(crate::production::production_numerator(p, rate, 0) == p.remainder as nat) by (nonlinear_arith)
            requires
                crate::production::production_numerator(p, rate, 0) == p.remainder as nat + p.count * rate * 0,
        ;
    }
    assert(w.plants =~= v.plants);
    assert(w =~= v);
}

/// A reading that brings both productive time and new inputs produces first and feeds
/// after: the new inputs are fed from the stock that the carried whole seconds produced.
pub proof fn law_production_comes_before_feeding(
    e0: GameEngine,
    e1: GameEngine,
    total: u64,
    nanos: u64,
    calendar: Option<CalendarSample>,
)
    requires
        e0.valid(),
        settled(e0, e1, total, nanos, calendar),
        nanos > 0,
        calendar is Some,
        total > e0.consumed(),
    ensures
        e1.game() == fed_view(
            settled_view(e0.game(), e0.catalog().plant_seq(), carry_whole(e0.stats().subsecond(), nanos)),
            e0.catalog(),
            (total - e0.consumed()) as nat,
        ),
{
    if carry_whole(e0.stats().subsecond(), nanos) == 0 {
        lemma_no_seconds_no_production(e0.game(), e0.catalog());
    }
}

} // verus!

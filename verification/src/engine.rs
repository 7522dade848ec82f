//! The running game: a catalog with a state valid for it, the statistics of play, and
//! the settlement of observed inputs and productive time.
use crate::amount::{Coins, EntityCount};
use crate::bignat::BigNat;
use crate::config::ContentConfig;
use crate::content::{mvp_start_check, mvp_start_view, start_game_state, MvpContentError};
use crate::error::{ConfigError, ConfigErrorView, DomainError, DomainErrorView, StateError};
use crate::ids::{species_id_check, AnimalId, PlantId};
use crate::input::{apply_effective_inputs, fed_view};
use crate::message::{domain_error, player_message, state_error_text};
use crate::production::{settle_production, settled_view};
use crate::purchase::{
    apply_purchase_batch, purchase_applied, purchase_quote, selection_views, PurchaseKind,
    PurchaseKindView, PurchaseSelection, PurchaseSelectionView,
};
use crate::sale::{
    apply_sale_batch, sale_applied, sale_quote, sale_selection_views, SaleSelection,
    SaleSelectionView,
};
use crate::budget::PurchasePricingBudget;
use crate::state::{state_check, state_valid, GameState, GameView};

use vstd::prelude::*;

verus! {

/// Coins of a new demo game.
pub const DEMO_INITIAL_COINS: u64 = 100;

/// Species to buy, by id, with quantities; a quantity of zero is skipped.
pub struct PurchaseRequest {
    pub plants: Vec<(String, u64)>,
    pub animals: Vec<(String, u64)>,
}

/// Animals to sell, by id, with quantities; a quantity of zero is skipped.
pub struct SaleRequest {
    pub animals: Vec<(String, u64)>,
}

/// A priced trade as the player sees it.
pub struct TradeQuote {
    pub total: String,
    pub emergency_free: bool,
}

/// The entries of a request, taken by their characters.
pub open spec fn entry_views(es: Seq<(String, u64)>) -> Seq<(Seq<char>, u64)> {
    Seq::new(es.len(), |i: int| (es[i].0@, es[i].1))
}

/// The selections of request entries for plants (or animals), in order, skipping zero
/// quantities; the first invalid id among the rest is the error.
pub open spec fn picks(es: Seq<(Seq<char>, u64)>, plants: bool) -> Result<Seq<PurchaseSelectionView>, ConfigErrorView>
    decreases es.len(),
{
    if es.len() == 0 {
        Ok(Seq::empty())
    } else {
        match picks(es.drop_last(), plants) {
            Err(e) => Err(e),
            Ok(prev) => {
                let id = es.last().0;
                let q = es.last().1;
                if q == 0 {
                    Ok(prev)
                } else {
                    match species_id_check(id) {
                        Some(e) => Err(e),
                        None => Ok(
                            prev.push(
                                PurchaseSelectionView {
                                    kind: if plants {
                                        PurchaseKindView::Plant(id)
                                    } else {
                                        PurchaseKindView::Animal(id)
                                    },
                                    quantity: q as nat,
                                },
                            ),
                        ),
                    }
                }
            },
        }
    }
}

/// The selections of a purchase request: its plants, then its animals.
pub open spec fn purchase_picks(plants: Seq<(Seq<char>, u64)>, animals: Seq<(Seq<char>, u64)>) -> Result<
    Seq<PurchaseSelectionView>,
    ConfigErrorView,
> {
    match picks(plants, true) {
        Err(e) => Err(e),
        Ok(a) => match picks(animals, false) {
            Err(e) => Err(e),
            Ok(b) => Ok(a + b),
        },
    }
}

/// The selections of a sale request, in order, skipping zero quantities.
pub open spec fn sale_picks(es: Seq<(Seq<char>, u64)>) -> Result<Seq<SaleSelectionView>, ConfigErrorView>
    decreases es.len(),
{
    if es.len() == 0 {
        Ok(Seq::empty())
    } else {
        match sale_picks(es.drop_last()) {
            Err(e) => Err(e),
            Ok(prev) => {
                let id = es.last().0;
                let q = es.last().1;
                if q == 0 {
                    Ok(prev)
                } else {
                    match species_id_check(id) {
                        Some(e) => Err(e),
                        None => Ok(prev.push(SaleSelectionView { animal_id: id, quantity: q as nat })),
                    }
                }
            },
        }
    }
}

fn collect_picks(entries: &Vec<(String, u64)>, plants: bool, out: &mut Vec<PurchaseSelection>) -> (r: Result<
    (),
    ConfigError,
>)
    ensures
        match picks(entry_views(entries@), plants) {
            Err(e) => r matches Err(x) && x@ == e,
            Ok(s) => r is Ok && selection_views(final(out)@) == selection_views(old(out)@) + s,
        },
{
    let ghost es = entry_views(entries@);
    let ghost start = selection_views(out@);
    let mut i: usize = 0;
    assert(es.take(0) =~= Seq::<(Seq<char>, u64)>::empty());
    assert(start + Seq::<PurchaseSelectionView>::empty() =~= start);
    while i < entries.len()
        invariant
            i <= entries@.len(),
            es == entry_views(entries@),
            picks(es.take(i as int), plants) matches Ok(s) && selection_views(out@) == start + s,
        decreases entries@.len() - i,
    {
        let (id, q) = &entries[i];
        let ghost prev = picks(es.take(i as int), plants)->Ok_0;
        assert(es.take(i as int + 1).drop_last() =~= es.take(i as int));
        assert(es.take(i as int + 1).last() == (id@, *q));
        if *q > 0 {
            let kind = if plants {
                match PlantId::new(id.as_str()) {
                    Ok(p) => PurchaseKind::Plant(p),
                    Err(e) => {
                        proof {
                            assert(es.take(entries@.len() as int) =~= es);
                            lemma_picks_error_sticks(es, plants, i as int + 1);
                        }
                        return Err(e);
                    },
                }
            } else {
                match AnimalId::new(id.as_str()) {
                    Ok(a) => PurchaseKind::Animal(a),
                    Err(e) => {
                        proof {
                            assert(es.take(entries@.len() as int) =~= es);
                            lemma_picks_error_sticks(es, plants, i as int + 1);
                        }
                        return Err(e);
                    },
                }
            };
            let ghost before = selection_views(out@);
            out.push(PurchaseSelection { kind, quantity: EntityCount::from_u64(*q) });
            assert(selection_views(out@) =~= before.push(selection_views(out@).last()));
            assert(start + prev.push(selection_views(out@).last()) =~= (start + prev).push(selection_views(out@).last()));
        }
        i = i + 1;
    }
    assert(es.take(entries@.len() as int) =~= es);
    Ok(())
}

/// Once the selections of a prefix fail, every longer prefix fails the same way.
proof fn lemma_picks_error_sticks(es: Seq<(Seq<char>, u64)>, plants: bool, n: int)
    requires
        0 <= n <= es.len(),
        picks(es.take(n), plants) is Err,
    ensures
        picks(es, plants) == picks(es.take(n), plants),
    decreases es.len() - n,
{
    if n < es.len() {
        assert(es.take(n + 1).drop_last() =~= es.take(n));
        lemma_picks_error_sticks(es, plants, n + 1);
    } else {
        assert(es.take(n) =~= es);
    }
}

/// The selections a purchase request asks for.
pub fn purchase_selections(request: &PurchaseRequest) -> (r: Result<Vec<PurchaseSelection>, ConfigError>)
    ensures
        match purchase_picks(entry_views(request.plants@), entry_views(request.animals@)) {
            Err(e) => r matches Err(x) && x@ == e,
            Ok(s) => r matches Ok(v) && selection_views(v@) == s,
        },
{
    let mut out: Vec<PurchaseSelection> = Vec::new();
    assert(selection_views(out@) =~= Seq::<PurchaseSelectionView>::empty());
    match collect_picks(&request.plants, true, &mut out) {
        Err(e) => {
            return Err(e);
        },
        Ok(()) => {},
    }
    match collect_picks(&request.animals, false, &mut out) {
        Err(e) => {
            return Err(e);
        },
        Ok(()) => {},
    }
    Ok(out)
}

/// Once the sale selections of a prefix fail, every longer prefix fails the same way.
proof fn lemma_sale_picks_error_sticks(es: Seq<(Seq<char>, u64)>, n: int)
    requires
        0 <= n <= es.len(),
        sale_picks(es.take(n)) is Err,
    ensures
        sale_picks(es) == sale_picks(es.take(n)),
    decreases es.len() - n,
{
    if n < es.len() {
        assert(es.take(n + 1).drop_last() =~= es.take(n));
        lemma_sale_picks_error_sticks(es, n + 1);
    } else {
        assert(es.take(n) =~= es);
    }
}

/// The selections a sale request asks for.
pub fn sale_selections(request: &SaleRequest) -> (r: Result<Vec<SaleSelection>, ConfigError>)
    ensures
        match sale_picks(entry_views(request.animals@)) {
            Err(e) => r matches Err(x) && x@ == e,
            Ok(s) => r matches Ok(v) && sale_selection_views(v@) == s,
        },
{
    let entries = &request.animals;
    let ghost es = entry_views(entries@);
    let mut out: Vec<SaleSelection> = Vec::new();
    let mut i: usize = 0;
    assert(es.take(0) =~= Seq::<(Seq<char>, u64)>::empty());
    assert(sale_selection_views(out@) =~= Seq::<SaleSelectionView>::empty());
    while i < entries.len()
        invariant
            i <= entries@.len(),
            entries@ == request.animals@,
            es == entry_views(entries@),
            sale_picks(es.take(i as int)) matches Ok(s) && sale_selection_views(out@) == s,
        decreases entries@.len() - i,
    {
        let (id, q) = &entries[i];
        assert(es.take(i as int + 1).drop_last() =~= es.take(i as int));
        assert(es.take(i as int + 1).last() == (id@, *q));
        if *q > 0 {
            let animal_id = match AnimalId::new(id.as_str()) {
                Ok(a) => a,
                Err(e) => {
                    proof {
                        assert(es.take(entries@.len() as int) =~= es);
                        lemma_sale_picks_error_sticks(es, i as int + 1);
                    }
                    return Err(e);
                },
            };
            let ghost before = sale_selection_views(out@);
            out.push(SaleSelection { animal_id, quantity: EntityCount::from_u64(*q) });
            assert(sale_selection_views(out@) =~= before.push(sale_selection_views(out@).last()));
        }
        i = i + 1;
    }
    assert(es.take(entries@.len() as int) =~= es);
    Ok(out)
}

/// The state a demo game starts from: the demo coins, one clover and one rabbit.
pub fn new_demo_game_state(content: &ContentConfig) -> (r: Result<GameState, String>)
    ensures
        match mvp_start_check(*content) {
            Some(e) => r matches Err(m) && m@ == player_message(state_error_text(e)),
            None => r matches Ok(s) && mvp_start_view(s@, *content, DEMO_INITIAL_COINS as nat) && state_valid(
                s@,
                *content,
            ),
        },
{
    match start_game_state(content, DEMO_INITIAL_COINS) {
        Ok(s) => Ok(s),
        Err(MvpContentError::InvalidInitialState(e)) => Err(domain_error(&e.message())),
        Err(MvpContentError::InvalidCatalog(e)) => Err(domain_error(&e.message())),
        Err(MvpContentError::NumericalInvariant(m)) => Err(domain_error(m)),
    }
}

/// A catalog and a state that is valid for it.
pub struct Farm {
    content: ContentConfig,
    state: GameState,
}

impl Farm {
    pub closed spec fn catalog(&self) -> ContentConfig {
        self.content
    }

    pub closed spec fn game(&self) -> GameView {
        self.state@
    }

    #[verifier::type_invariant]
    spec fn valid(&self) -> bool {
        state_valid(self.state@, self.content)
    }

    /// Pairs a catalog with a state, if the state is valid for it.
    pub fn new(content: ContentConfig, state: GameState) -> (r: Result<Self, StateError>)
        ensures
            match state_check(state@, content) {
                Some(e) => r matches Err(x) && x@ == e,
                None => r matches Ok(f) && f.catalog() == content && f.game() == state@,
            },
    {
        match state.validate(&content) {
            Err(e) => Err(e),
            Ok(()) => Ok(Farm { content, state }),
        }
    }

    pub fn content(&self) -> (r: &ContentConfig)
        ensures
            *r == self.catalog(),
    {
        &self.content
    }

    pub fn state(&self) -> (r: &GameState)
        ensures
            r@ == self.game(),
            state_valid(r@, self.catalog()),
    {
        proof {
            use_type_invariant(self);
        }
        &self.state
    }

    /// Production over `whole_seconds` productive seconds.
    pub fn produce(&mut self, whole_seconds: &BigNat)
        ensures
            final(self).catalog() == old(self).catalog(),
            final(self).game() == settled_view(old(self).game(), old(self).catalog().plant_seq(), whole_seconds@),
    {
        proof {
            use_type_invariant(&*self);
        }
        match settle_production(&self.state, &self.content, whole_seconds) {
            Ok(t) => {
                self.state = t.state;
            },
            Err(_) => {},
        }
    }

    /// `count` effective inputs, with no production between them.
    pub fn feed(&mut self, count: &BigNat)
        ensures
            final(self).catalog() == old(self).catalog(),
            final(self).game() == fed_view(old(self).game(), old(self).catalog(), count@),
    {
        proof {
            use_type_invariant(&*self);
        }
        match apply_effective_inputs(&self.state, &self.content, count) {
            Ok(t) => {
                self.state = t.state;
            },
            Err(_) => {},
        }
    }

    /// Commits a purchase; on an error nothing changes.
    pub fn purchase(&mut self, selections: &[PurchaseSelection]) -> (r: Result<(), DomainError>)
        ensures
            final(self).catalog() == old(self).catalog(),
            match purchase_quote(
                old(self).game(),
                old(self).catalog(),
                selection_views(selections@),
                PurchasePricingBudget::default_spec(),
            ) {
                Err(e) => r matches Err(x) && x@ == e && final(self).game() == old(self).game(),
                Ok(q) => if old(self).game().coins < q.total_cost {
                    r matches Err(x) && x@ == DomainErrorView::InsufficientCoins && final(self).game() == old(
                        self,
                    ).game()
                } else {
                    r is Ok && purchase_applied(old(self).game(), q.lines, q.total_cost, final(self).game())
                },
            },
    {
        match apply_purchase_batch(&self.state, &self.content, selections) {
            Ok(t) => {
                self.state = t.state;
                Ok(())
            },
            Err(e) => Err(e),
        }
    }

    /// Commits a sale; on an error nothing changes.
    pub fn sale(&mut self, selections: &[SaleSelection]) -> (r: Result<(), DomainError>)
        ensures
            final(self).catalog() == old(self).catalog(),
            match sale_quote(old(self).game(), old(self).catalog(), sale_selection_views(selections@)) {
                Err(e) => r matches Err(x) && x@ == e && final(self).game() == old(self).game(),
                Ok(q) => r is Ok && final(self).game() == sale_applied(old(self).game(), q),
            },
    {
        match apply_sale_batch(&self.state, &self.content, selections) {
            Ok(t) => {
                self.state = t.state;
                Ok(())
            },
            Err(e) => Err(e),
        }
    }

    /// Replaces the state, if the new one is valid for the catalog.
    pub fn replace_state(&mut self, state: GameState) -> (r: Result<(), StateError>)
        ensures
            final(self).catalog() == old(self).catalog(),
            match state_check(state@, old(self).catalog()) {
                Some(e) => r matches Err(x) && x@ == e && final(self).game() == old(self).game(),
                None => r is Ok && final(self).game() == state@,
            },
    {
        match state.validate(&self.content) {
            Err(e) => Err(e),
            Ok(()) => {
                self.state = state;
                Ok(())
            },
        }
    }
}

} // verus!

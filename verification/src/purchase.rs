//! Buying plants and animals.
use crate::amount::{Coins, EntityCount, LifetimePurchaseCount};
use crate::bignat::{decimal, BigNat};
use crate::budget::PurchasePricingBudget;
use crate::config::{find_by_key, ContentConfig};
use crate::config::lemma_catalog_facts;
use crate::error::{first_some, lemma_first_some_step, DomainError, DomainErrorView};
use crate::pricing::{
    batch_cost, plant_batch_cost, preflight_plant_sequence, sat_add, sat_mul, saturating_mul,
    sequence_check,
};
use crate::event::{DomainEvent, DomainEventView};
use crate::idmap::{dup_keys, key_view};
use crate::state::{
    CollectionState, animal_state_check, animal_views, game_view_shape, id_set_of, lemma_key_view_facts,
    lemma_state_valid, lemma_state_valid_intro, plant_state_check, plant_views, state_check,
    state_valid, total_count, AnimalState, AnimalStateView, GameState, GameView, PlantState,
    PlantStateView, Transition,
};
use crate::ids::{AnimalId, PlantId};
use crate::keyed::{
    first_dup, has_key, is_dup_at, key_index, keys_increasing, lemma_first_dup_map, lemma_sort_by_key, lemma_sort_map,
    seq_less, sort_by_key, sort_distinct, str_less, Ranked, SortKey,
};
use vstd::prelude::*;
use vstd::string::StringExecFns;

verus! {

#[derive(Clone, Debug, PartialEq, Eq, PartialOrd, Ord)]
pub enum PurchaseKind {
    Plant(PlantId),
    Animal(AnimalId),
}

pub enum PurchaseKindView {
    Plant(Seq<char>),
    Animal(Seq<char>),
}

impl View for PurchaseKind {
    type V = PurchaseKindView;

    open spec fn view(&self) -> PurchaseKindView {
        match self {
            PurchaseKind::Plant(id) => PurchaseKindView::Plant(id@),
            PurchaseKind::Animal(id) => PurchaseKindView::Animal(id@),
        }
    }
}

impl PurchaseKind {
    pub fn copy(&self) -> (r: Self)
        ensures
            r@ == self@,
    {
        match self {
            PurchaseKind::Plant(id) => PurchaseKind::Plant(id.copy()),
            PurchaseKind::Animal(id) => PurchaseKind::Animal(id.copy()),
        }
    }
}

#[derive(Clone, Debug, PartialEq, Eq)]
pub struct PurchaseSelection {
    pub kind: PurchaseKind,
    pub quantity: EntityCount,
}

#[derive(Clone, Debug, PartialEq, Eq)]
pub struct PurchaseLine {
    pub kind: PurchaseKind,
    pub quantity: EntityCount,
    pub cost: Coins,
    pub emergency_free: bool,
}

#[derive(Clone, Debug, PartialEq, Eq)]
pub struct PurchaseQuote {
    pub lines: Vec<PurchaseLine>,
    pub total_cost: Coins,
}

#[derive(Clone, Debug, PartialEq, Eq)]
pub struct PurchaseReceipt {
    pub quote: PurchaseQuote,
    pub discovered_plants: Vec<PlantId>,
    pub discovered_animals: Vec<AnimalId>,
}

pub struct PurchaseLineView {
    pub kind: PurchaseKindView,
    pub quantity: nat,
    pub cost: nat,
    pub emergency_free: bool,
}

pub struct PurchaseQuoteView {
    pub lines: Seq<PurchaseLineView>,
    pub total_cost: nat,
}

impl View for PurchaseLine {
    type V = PurchaseLineView;

    open spec fn view(&self) -> PurchaseLineView {
        PurchaseLineView {
            kind: self.kind@,
            quantity: self.quantity@,
            cost: self.cost@,
            emergency_free: self.emergency_free,
        }
    }
}

impl View for PurchaseQuote {
    type V = PurchaseQuoteView;

    open spec fn view(&self) -> PurchaseQuoteView {
        PurchaseQuoteView {
            lines: Seq::new(self.lines@.len(), |i: int| self.lines@[i]@),
            total_cost: self.total_cost@,
        }
    }
}

impl PurchaseLine {
    pub fn copy(&self) -> (r: Self)
        ensures
            r@ == self@,
    {
        PurchaseLine {
            kind: self.kind.copy(),
            quantity: self.quantity.copy(),
            cost: self.cost.copy(),
            emergency_free: self.emergency_free,
        }
    }
}

impl PurchaseQuote {
    pub fn copy(&self) -> (r: Self)
        ensures
            r@ == self@,
    {
        let mut lines: Vec<PurchaseLine> = Vec::new();
        let mut i: usize = 0;
        while i < self.lines.len()
            invariant
                i <= self.lines@.len(),
                lines@.len() == i,
                forall|j: int| 0 <= j < i ==> #[trigger] lines@[j]@ == self.lines@[j]@,
            decreases self.lines@.len() - i,
        {
            lines.push(self.lines[i].copy());
            i = i + 1;
        }
        let r = PurchaseQuote { lines, total_cost: self.total_cost.copy() };
        assert(r@.lines =~= self@.lines);
        r
    }
}

pub struct PurchaseSelectionView {
    pub kind: PurchaseKindView,
    pub quantity: nat,
}

impl View for PurchaseSelection {
    type V = PurchaseSelectionView;

    open spec fn view(&self) -> PurchaseSelectionView {
        PurchaseSelectionView { kind: self.kind@, quantity: self.quantity@ }
    }
}

impl PurchaseSelection {
    pub fn copy(&self) -> (r: Self)
        ensures
            r@ == self@,
    {
        PurchaseSelection { kind: self.kind.copy(), quantity: self.quantity.copy() }
    }
}

/// The order of purchase kinds: plants before animals, each kind in id order.
pub open spec fn kind_key(k: PurchaseKindView) -> Seq<char> {
    match k {
        PurchaseKindView::Plant(id) => seq!['0'] + id,
        PurchaseKindView::Animal(id) => seq!['1'] + id,
    }
}

/// How a kind is named in messages: `plant:<id>` or `animal:<id>`.
pub open spec fn kind_text(k: PurchaseKindView) -> Seq<char> {
    match k {
        PurchaseKindView::Plant(id) => seq!['p', 'l', 'a', 'n', 't', ':'] + id,
        PurchaseKindView::Animal(id) => seq!['a', 'n', 'i', 'm', 'a', 'l', ':'] + id,
    }
}

impl SortKey for PurchaseSelectionView {
    open spec fn key(&self) -> Seq<char> {
        kind_key(self.kind)
    }
}

impl SortKey for PurchaseSelection {
    open spec fn key(&self) -> Seq<char> {
        kind_key(self.kind@)
    }
}

/// A common first character does not change the order.
proof fn lemma_seq_less_prefix(c: char, a: Seq<char>, b: Seq<char>)
    ensures
        seq_less(seq![c] + a, seq![c] + b) == seq_less(a, b),
{
    assert((seq![c] + a).drop_first() =~= a);
    assert((seq![c] + b).drop_first() =~= b);
}

impl Ranked for PurchaseSelection {
    fn key_less(&self, other: &Self) -> (r: bool) {
        match (&self.kind, &other.kind) {
            (PurchaseKind::Plant(a), PurchaseKind::Plant(b)) => {
                proof {
                    lemma_seq_less_prefix('0', a@, b@);
                }
                str_less(a.as_str(), b.as_str())
            },
            (PurchaseKind::Animal(a), PurchaseKind::Animal(b)) => {
                proof {
                    lemma_seq_less_prefix('1', a@, b@);
                }
                str_less(a.as_str(), b.as_str())
            },
            (PurchaseKind::Plant(a), PurchaseKind::Animal(b)) => true,
            (PurchaseKind::Animal(a), PurchaseKind::Plant(b)) => false,
        }
    }
}

impl PurchaseKind {
    /// The kind as named in messages: `plant:<id>` or `animal:<id>`.
    pub fn key(&self) -> (r: String)
        ensures
            r@ == kind_text(self@),
    {
        match self {
            PurchaseKind::Plant(id) => {
                let mut t = String::from_str("plant:");
                proof {
                    reveal_strlit("plant:");
                }
                t.append(id.as_str());
                t
            },
            PurchaseKind::Animal(id) => {
                let mut t = String::from_str("animal:");
                proof {
                    reveal_strlit("animal:");
                }
                t.append(id.as_str());
                t
            },
        }
    }
}

/// The views of a sequence of selections.
pub open spec fn selection_views(s: Seq<PurchaseSelection>) -> Seq<PurchaseSelectionView> {
    Seq::new(s.len(), |i: int| s[i]@)
}

/// Selections that ask for at least one unit.
pub open spec fn has_quantity() -> spec_fn(PurchaseSelectionView) -> bool {
    |x: PurchaseSelectionView| x.quantity != 0
}

/// The selections that ask for something, in kind order.
pub open spec fn normalized_selections(s: Seq<PurchaseSelectionView>) -> Seq<PurchaseSelectionView> {
    sort_by_key(s).filter(has_quantity())
}

/// The normalized selections, or the first repeated kind, or an empty request.
pub open spec fn normalize_result(s: Seq<PurchaseSelectionView>) -> Result<
    Seq<PurchaseSelectionView>,
    DomainErrorView,
> {
    match first_dup(s) {
        Some(i) => Err(DomainErrorView::DuplicateSelection(kind_text(s[i].kind))),
        None => if normalized_selections(s).len() == 0 {
            Err(DomainErrorView::EmptySelection)
        } else {
            Ok(normalized_selections(s))
        },
    }
}

fn normalize(selections: &[PurchaseSelection]) -> (r: Result<Vec<PurchaseSelection>, DomainError>)
    ensures
        match normalize_result(selection_views(selections@)) {
            Ok(v) => r matches Ok(x) && selection_views(x@) == v,
            Err(e) => r matches Err(x) && x@ == e,
        },
{
    let ghost sv = selection_views(selections@);
    let mut copies: Vec<PurchaseSelection> = Vec::new();
    let mut i: usize = 0;
    while i < selections.len()
        invariant
            i <= selections@.len(),
            copies@.len() == i,
            forall|j: int| 0 <= j < i ==> #[trigger] copies@[j]@ == selections@[j]@,
        decreases selections@.len() - i,
    {
        copies.push(selections[i].copy());
        i = i + 1;
    }
    let ghost f = |x: PurchaseSelection| x@;
    proof {
        assert(copies@.map_values(f) =~= sv);
        assert forall|x: PurchaseSelection| #[trigger] f(x).key() == x.key() by {}
        lemma_first_dup_map(copies@, f);
    }
    let ghost cs = copies@;
    let sorted = match sort_distinct(copies) {
        Ok(v) => v,
        Err(x) => {
            proof {
                assert(first_dup(sv) == first_dup(cs));
                let i = first_dup(cs)->0;
                crate::keyed::lemma_first_dup_in_range(cs);
                assert(x == cs[i]);
                assert(sv[i] == cs[i]@);
            }
            return Err(DomainError::DuplicateSelection(x.kind.key()));
        },
    };
    proof {
        crate::error::lemma_first_some_none_all(
            |j: int| if is_dup_at(cs, j) { Some(j) } else { None },
            0,
            cs.len() as int,
        );
        assert forall|j: int| 0 <= j < cs.len() implies !is_dup_at(cs, j) by {
            let g = |j: int| if is_dup_at(cs, j) { Some(j) } else { None };
            assert(g(j) is None);
        }
        lemma_sort_map(cs, f);
    }
    let ghost sorted_views = selection_views(sorted@);
    assert(sorted_views =~= sort_by_key(sv)) by {
        assert(sorted@.map_values(f) =~= sorted_views);
    }
    let mut out: Vec<PurchaseSelection> = Vec::new();
    let mut k: usize = 0;
    while k < sorted.len()
        invariant
            k <= sorted@.len(),
            sorted_views == selection_views(sorted@),
            selection_views(out@) == sorted_views.take(k as int).filter(has_quantity()),
        decreases sorted@.len() - k,
    {
        let ghost before = selection_views(out@);
        proof {
            reveal(Seq::filter);
            assert(sorted_views.take(k as int + 1).drop_last() =~= sorted_views.take(k as int));
        }
        if !sorted[k].quantity.is_zero() {
            out.push(sorted[k].copy());
            assert(selection_views(out@) =~= before.push(sorted_views[k as int]));
        }
        k = k + 1;
    }
    assert(sorted_views.take(sorted@.len() as int) =~= sorted_views);
    if out.len() == 0 {
        return Err(DomainError::EmptySelection);
    }
    Ok(out)
}

/// The pricing budget check of the normalized selections from position `i` on, with
/// `units` plants and `work` digit work counted before it; `None` when all fit.
pub open spec fn preflight_from(
    s: GameView,
    c: ContentConfig,
    out: Seq<PurchaseSelectionView>,
    b: PurchasePricingBudget,
    i: int,
    units: nat,
    work: nat,
) -> Option<DomainErrorView>
    decreases out.len() - i,
{
    if i < 0 || i >= out.len() {
        None
    } else {
        match out[i].kind {
            PurchaseKindView::Animal(_) => preflight_from(s, c, out, b, i + 1, units, work),
            PurchaseKindView::Plant(id) => {
                let q = out[i].quantity;
                let units2 = units + q;
                if !has_key(c.plant_seq(), id) {
                    Some(DomainErrorView::UnknownPlant(id))
                } else if units2 > b.units_limit() {
                    Some(
                        DomainErrorView::PlantPricingTotalUnitsBudgetExceeded {
                            requested: decimal(units2),
                            limit: b.units_limit(),
                        },
                    )
                } else {
                    let k = key_index(c.plant_seq(), id);
                    match sequence_check(c.plant_seq()[k], s.plants[k].count + q, b) {
                        Err(e) => Some(e),
                        Ok(est) => {
                            let work2 = sat_add(work, sat_mul(q, est));
                            if work2 > b.work_limit() {
                                Some(
                                    DomainErrorView::PlantPricingWorkBudgetExceeded {
                                        estimated: work2 as u64,
                                        limit: b.work_limit(),
                                    },
                                )
                            } else {
                                preflight_from(s, c, out, b, i + 1, units2, work2)
                            }
                        },
                    }
                }
            },
        }
    }
}

/// Checks the pricing budget before any exact price is computed: the plant units of the
/// whole request, each plant's last sequence number and its estimated digits, and the
/// estimated digit work summed over the request.
fn preflight_purchase_pricing(
    state: &GameState,
    content: &ContentConfig,
    selections: &Vec<PurchaseSelection>,
    budget: PurchasePricingBudget,
) -> (r: Result<(), DomainError>)
    requires
        state_valid(state@, *content),
    ensures
        match preflight_from(state@, *content, selection_views(selections@), budget, 0, 0, 0) {
            Some(e) => r matches Err(x) && x@ == e,
            None => r is Ok,
        },
{
    proof {
        use_type_invariant(state);
        use_type_invariant(content);
        lemma_state_valid(state@, *content);
    }
    let ghost sv = state@;
    let ghost out = selection_views(selections@);
    let plants = state.plant_values();
    let configs = content.plants();
    let units_limit = BigNat::from_u64(budget.max_total_plant_units());
    let mut total_units = BigNat::zero();
    let mut total_work: u64 = 0;
    let mut i: usize = 0;
    while i < selections.len()
        invariant
            i <= selections@.len(),
            out == selection_views(selections@),
            sv == state@,
            plant_views(plants@) == sv.plants,
            configs@ == content.plant_seq(),
            keys_increasing(content.plant_seq()),
            sv.plants.len() == content.plant_seq().len(),
            units_limit@ == budget.units_limit(),
            total_units@ <= budget.units_limit(),
            preflight_from(sv, *content, out, budget, 0, 0, 0) == preflight_from(
                sv,
                *content,
                out,
                budget,
                i as int,
                total_units@,
                total_work as nat,
            ),
        decreases selections@.len() - i,
    {
        let selection = &selections[i];
        assert(out[i as int] == selection@);
        match &selection.kind {
            PurchaseKind::Animal(_) => {},
            PurchaseKind::Plant(id) => {
                let k = match find_by_key(configs, id.as_str()) {
                    Some(k) => k,
                    None => {
                        return Err(DomainError::UnknownPlant(id.to_string()));
                    },
                };
                let config = &configs[k];
                let current = &plants[k];
                assert(current@ == sv.plants[k as int]);
                total_units = total_units.add(selection.quantity.as_biguint());
                if units_limit.lt(&total_units) {
                    return Err(
                        DomainError::PlantPricingTotalUnitsBudgetExceeded {
                            requested: total_units.to_decimal_string(),
                            limit: budget.max_total_plant_units(),
                        },
                    );
                }
                let quantity: u64 = match selection.quantity.as_biguint().to_u64() {
                    Some(q) => q,
                    None => 0,
                };
                let last_sequence = current.count.as_biguint().add(selection.quantity.as_biguint());
                let estimated_digits = preflight_plant_sequence(config, &last_sequence, budget)?;
                let line_work = saturating_mul(quantity, estimated_digits);
                total_work = total_work.saturating_add(line_work);
                if total_work > budget.max_estimated_digit_work() {
                    return Err(
                        DomainError::PlantPricingWorkBudgetExceeded {
                            estimated: total_work,
                            limit: budget.max_estimated_digit_work(),
                        },
                    );
                }
            },
        }
        i = i + 1;
    }
    Ok(())
}

/// Passing the preflight from position `i` bounds every later plant quantity by the unit
/// budget and shows its species is in the catalog.
proof fn lemma_preflight_bounds(
    s: GameView,
    c: ContentConfig,
    out: Seq<PurchaseSelectionView>,
    b: PurchasePricingBudget,
    i: int,
    units: nat,
    work: nat,
)
    requires
        0 <= i,
        preflight_from(s, c, out, b, i, units, work) is None,
    ensures
        forall|j: int|
            i <= j < out.len() ==> (#[trigger] out[j].kind matches PurchaseKindView::Plant(id) ==> (
            out[j].quantity <= b.units_limit() && has_key(c.plant_seq(), id))),
    decreases out.len() - i,
{
    if i < out.len() {
        match out[i].kind {
            PurchaseKindView::Animal(_) => {
                lemma_preflight_bounds(s, c, out, b, i + 1, units, work);
            },
            PurchaseKindView::Plant(id) => {
                let units2 = units + out[i].quantity;
                let k = key_index(c.plant_seq(), id);
                let est = sequence_check(c.plant_seq()[k], s.plants[k].count + out[i].quantity, b)->Ok_0;
                let work2 = sat_add(work, sat_mul(out[i].quantity, est));
                lemma_preflight_bounds(s, c, out, b, i + 1, units2, work2);
            },
        }
    }
}

/// The emergency offer is open: no animals at all, and fewer coins than its threshold.
pub open spec fn emergency_active(s: GameView, c: ContentConfig) -> bool {
    total_count(s.animals) == 0 && s.coins < c.rule().trigger_below_coins@
}

/// Selection `sel` takes the free emergency animal.
pub open spec fn is_emergency_pick(c: ContentConfig, active: bool, sel: PurchaseSelectionView) -> bool {
    active && sel.kind == PurchaseKindView::Animal(c.rule().animal_id@)
}

/// The check of one normalized selection while quoting.
pub open spec fn line_check(c: ContentConfig, active: bool, sel: PurchaseSelectionView) -> Option<
    DomainErrorView,
> {
    match sel.kind {
        PurchaseKindView::Plant(_) => None,
        PurchaseKindView::Animal(id) => if !has_key(c.animal_seq(), id) {
            Some(DomainErrorView::UnknownAnimal(id))
        } else if is_emergency_pick(c, active, sel) && sel.quantity != 1 {
            Some(DomainErrorView::InvalidEmergencyQuantity)
        } else {
            None
        },
    }
}

pub open spec fn line_checks(c: ContentConfig, active: bool, out: Seq<PurchaseSelectionView>) -> spec_fn(
    int,
) -> Option<DomainErrorView> {
    |i: int| line_check(c, active, out[i])
}

/// The quote line of one normalized selection: plants cost the sum of their exact unit
/// prices from the owned count on; animals cost a fixed price each, except the emergency
/// animal, which is free.
pub open spec fn quote_line(s: GameView, c: ContentConfig, active: bool, sel: PurchaseSelectionView) -> PurchaseLineView {
    match sel.kind {
        PurchaseKindView::Plant(id) => {
            let k = key_index(c.plant_seq(), id);
            PurchaseLineView {
                kind: sel.kind,
                quantity: sel.quantity,
                cost: batch_cost(c.plant_seq()[k], s.plants[k].count, sel.quantity),
                emergency_free: false,
            }
        },
        PurchaseKindView::Animal(id) => if is_emergency_pick(c, active, sel) {
            PurchaseLineView { kind: sel.kind, quantity: sel.quantity, cost: 0, emergency_free: true }
        } else {
            PurchaseLineView {
                kind: sel.kind,
                quantity: sel.quantity,
                cost: sel.quantity * c.animal_seq()[key_index(c.animal_seq(), id)].fixed_purchase_price_coins@,
                emergency_free: false,
            }
        },
    }
}

/// The sum of the costs of the lines.
pub open spec fn lines_total(lines: Seq<PurchaseLineView>) -> nat
    decreases lines.len(),
{
    if lines.len() == 0 {
        0
    } else {
        lines_total(lines.drop_last()) + lines.last().cost
    }
}

/// The quote of normalized selections that passed the preflight.
pub open spec fn quote_from(s: GameView, c: ContentConfig, out: Seq<PurchaseSelectionView>) -> Result<
    PurchaseQuoteView,
    DomainErrorView,
> {
    let active = emergency_active(s, c);
    match first_some(line_checks(c, active, out), 0, out.len() as int) {
        Some(e) => Err(e),
        None => {
            let lines = Seq::new(out.len(), |i: int| quote_line(s, c, active, out[i]));
            Ok(PurchaseQuoteView { lines, total_cost: lines_total(lines) })
        },
    }
}

/// What `quote_purchase_batch_with_budget` gives.
pub open spec fn purchase_quote(
    s: GameView,
    c: ContentConfig,
    sels: Seq<PurchaseSelectionView>,
    b: PurchasePricingBudget,
) -> Result<PurchaseQuoteView, DomainErrorView> {
    match state_check(s, c) {
        Some(e) => Err(DomainErrorView::InvalidState(e)),
        None => match normalize_result(sels) {
            Err(e) => Err(e),
            Ok(out) => match preflight_from(s, c, out, b, 0, 0, 0) {
                Some(e) => Err(e),
                None => quote_from(s, c, out),
            },
        },
    }
}

/// The views of a sequence of quote lines.
pub open spec fn purchase_line_views(s: Seq<PurchaseLine>) -> Seq<PurchaseLineView> {
    Seq::new(s.len(), |i: int| s[i]@)
}

/// Prices a purchase request without changing the state, within the pricing budget.
///
/// Repeated kinds are refused, selections of zero are dropped, and the rest is priced
/// plants first, then animals, each in id order. Plant prices are exact: each plant costs
/// `ceil(base * num^n / den^n)` where `n` plants are owned before it.
pub fn quote_purchase_batch_with_budget(
    state: &GameState,
    content: &ContentConfig,
    selections: &[PurchaseSelection],
    budget: PurchasePricingBudget,
) -> (r: Result<PurchaseQuote, DomainError>)
    ensures
        match purchase_quote(state@, *content, selection_views(selections@), budget) {
            Ok(q) => r matches Ok(x) && x@ == q,
            Err(e) => r matches Err(x) && x@ == e,
        },
{
    match state.validate(content) {
        Err(e) => {
            return Err(DomainError::InvalidState(e));
        },
        Ok(()) => {},
    }
    proof {
        use_type_invariant(state);
        use_type_invariant(content);
        lemma_state_valid(state@, *content);
        lemma_catalog_facts(content.plant_seq(), content.animal_seq(), content.rule());
    }
    let normalized = normalize(selections)?;
    preflight_purchase_pricing(state, content, &normalized, budget)?;
    let ghost sv = state@;
    let ghost out = selection_views(normalized@);
    proof {
        lemma_preflight_bounds(sv, *content, out, budget, 0, 0, 0);
    }
    let offer_open = state.total_animal_count().is_zero() && state.wallet().coins.as_biguint().lt(
        content.emergency_purchase().trigger_below_coins.as_biguint(),
    );
    let ghost active = emergency_active(sv, *content);
    assert(offer_open == active);
    let ghost checks = line_checks(*content, active, out);
    assert(purchase_quote(sv, *content, selection_views(selections@), budget) == quote_from(sv, *content, out));
    assert forall|j: int| 0 <= j < content.plant_seq().len() implies (#[trigger] content.plant_seq()[j]).price_growth_den@ != 0 by {
        assert(crate::config::plant_check(content.plant_seq(), content.animal_seq(), j) is None);
    }
    let plants = state.plant_values();
    let configs = content.plants();
    let rule = content.emergency_purchase();
    let one = BigNat::one();
    let mut total = BigNat::zero();
    let mut lines: Vec<PurchaseLine> = Vec::new();
    let mut i: usize = 0;
    while i < normalized.len()
        invariant
            i <= normalized@.len(),
            out == selection_views(normalized@),
            sv == state@,
            active == offer_open,
            active == emergency_active(sv, *content),
            checks == line_checks(*content, active, out),
            purchase_quote(sv, *content, selection_views(selections@), budget) == quote_from(sv, *content, out),
            plant_views(plants@) == sv.plants,
            configs@ == content.plant_seq(),
            *rule == content.rule(),
            one@ == 1,
            keys_increasing(content.plant_seq()),
            keys_increasing(content.animal_seq()),
            sv.plants.len() == content.plant_seq().len(),
            forall|j: int| 0 <= j < content.plant_seq().len() ==> (#[trigger] content.plant_seq()[j]).price_growth_den@ != 0,
            forall|j: int|
                0 <= j < out.len() ==> (#[trigger] out[j].kind matches PurchaseKindView::Plant(id) ==> (
                out[j].quantity <= budget.units_limit() && has_key(content.plant_seq(), id))),
            first_some(checks, 0, out.len() as int) == first_some(checks, i as int, out.len() as int),
            purchase_line_views(lines@) == Seq::new(i as nat, |j: int| quote_line(sv, *content, active, out[j])),
            total@ == lines_total(purchase_line_views(lines@)),
        decreases normalized@.len() - i,
    {
        let selection = &normalized[i];
        assert(out[i as int] == selection@);
        let ghost before = purchase_line_views(lines@);
        let (cost, emergency_free) = match &selection.kind {
            PurchaseKind::Plant(id) => {
                let k = match find_by_key(configs, id.as_str()) {
                    Some(k) => k,
                    None => {
                        return Err(DomainError::UnknownPlant(id.to_string()));
                    },
                };
                let quantity: u64 = match selection.quantity.as_biguint().to_u64() {
                    Some(q) => q,
                    None => 0,
                };
                assert(plants@[k as int]@ == sv.plants[k as int]);
                (plant_batch_cost(&configs[k], plants[k].count.as_biguint(), quantity), false)
            },
            PurchaseKind::Animal(id) => {
                let config = match content.animal(id) {
                    Some(a) => a,
                    None => {
                        proof {
                            assert(checks(i as int) == Some(DomainErrorView::UnknownAnimal(id@)));
                            assert(first_some(checks, i as int, out.len() as int) == checks(i as int));
                        }
                        return Err(DomainError::UnknownAnimal(id.to_string()));
                    },
                };
                if offer_open && id.same(&rule.animal_id) {
                    if !selection.quantity.as_biguint().eq(&one) {
                        proof {
                            assert(checks(i as int) == Some(DomainErrorView::InvalidEmergencyQuantity));
                            assert(first_some(checks, i as int, out.len() as int) == checks(i as int));
                        }
                        return Err(DomainError::InvalidEmergencyQuantity);
                    }
                    (Coins::zero(), true)
                } else {
                    (
                        Coins::from_biguint(
                            selection.quantity.as_biguint().mul(config.fixed_purchase_price_coins.as_biguint()),
                        ),
                        false,
                    )
                }
            },
        };
        proof {
            assert(checks(i as int) is None);
            lemma_first_some_step(checks, i as int, out.len() as int);
        }
        total = total.add(cost.as_biguint());
        lines.push(
            PurchaseLine { kind: selection.kind.copy(), quantity: selection.quantity.copy(), cost, emergency_free },
        );
        proof {
            assert(purchase_line_views(lines@) =~= before.push(quote_line(sv, *content, active, out[i as int])));
            assert(purchase_line_views(lines@).drop_last() =~= before);
            assert(purchase_line_views(lines@) =~= Seq::new(
                (i + 1) as nat,
                |j: int| quote_line(sv, *content, active, out[j]),
            ));
        }
        i = i + 1;
    }
    proof {
        crate::error::lemma_first_some_none_iff(checks, out.len() as int, out.len() as int);
    }
    let quote = PurchaseQuote { lines, total_cost: Coins::from_biguint(total) };
    assert(quote@.lines =~= purchase_line_views(quote.lines@));
    Ok(quote)
}

/// `quote_purchase_batch_with_budget` with the default budget.
pub fn quote_purchase_batch(state: &GameState, content: &ContentConfig, selections: &[PurchaseSelection]) -> (r:
    Result<PurchaseQuote, DomainError>)
    ensures
        match purchase_quote(
            state@,
            *content,
            selection_views(selections@),
            PurchasePricingBudget::default_spec(),
        ) {
            Ok(q) => r matches Ok(x) && x@ == q,
            Err(e) => r matches Err(x) && x@ == e,
        },
{
    quote_purchase_batch_with_budget(state, content, selections, PurchasePricingBudget::default())
}

/// The species of a kind is in the catalog.
pub open spec fn kind_known(c: ContentConfig, k: PurchaseKindView) -> bool {
    match k {
        PurchaseKindView::Plant(id) => has_key(c.plant_seq(), id),
        PurchaseKindView::Animal(id) => has_key(c.animal_seq(), id),
    }
}

/// What a successful quote guarantees of its lines: kinds strictly in kind order (so no
/// kind twice), positive quantities, species from the catalog, and a valid state.
pub proof fn lemma_quote_lines(
    s: GameView,
    c: ContentConfig,
    sels: Seq<PurchaseSelectionView>,
    b: PurchasePricingBudget,
)
    requires
        purchase_quote(s, c, sels, b) is Ok,
    ensures
        state_valid(s, c),
        lines_sound(c, purchase_quote(s, c, sels, b)->Ok_0.lines),
        forall|i: int, j: int|
            0 <= i < j < purchase_quote(s, c, sels, b)->Ok_0.lines.len() ==> seq_less(
                kind_key(#[trigger] purchase_quote(s, c, sels, b)->Ok_0.lines[i].kind),
                kind_key(#[trigger] purchase_quote(s, c, sels, b)->Ok_0.lines[j].kind),
            ),
        forall|i: int|
            0 <= i < purchase_quote(s, c, sels, b)->Ok_0.lines.len() ==> (#[trigger] purchase_quote(
                s,
                c,
                sels,
                b,
            )->Ok_0.lines[i]).quantity > 0 && kind_known(c, purchase_quote(s, c, sels, b)->Ok_0.lines[i].kind),
{
    let q = purchase_quote(s, c, sels, b)->Ok_0;
    let out = normalized_selections(sels);
    let g = |i: int| if is_dup_at(sels, i) { Some(i) } else { None };
    crate::error::lemma_first_some_none_all(g, 0, sels.len() as int);
    assert forall|i: int| 0 <= i < sels.len() implies !is_dup_at(sels, i) by {
        assert(g(i) is None);
    }
    lemma_sort_by_key(sels);
    crate::keyed::lemma_filter_increasing(sort_by_key(sels), has_quantity());
    lemma_preflight_bounds(s, c, out, b, 0, 0, 0);
    let active = emergency_active(s, c);
    crate::error::lemma_first_some_none_all(line_checks(c, active, out), 0, out.len() as int);
    assert forall|i: int| 0 <= i < q.lines.len() implies (#[trigger] q.lines[i]).quantity > 0 && kind_known(c, q.lines[i].kind) by {
        assert(q.lines[i].kind == out[i].kind);
        assert(out.contains(out[i]));
        assert(line_checks(c, active, out)(i) is None);
    }
    assert forall|i: int, j: int| 0 <= i < j < q.lines.len() implies seq_less(
        kind_key(#[trigger] q.lines[i].kind),
        kind_key(#[trigger] q.lines[j].kind),
    ) by {
        assert(q.lines[i].kind == out[i].kind);
        assert(q.lines[j].kind == out[j].kind);
        assert(keys_increasing(out));
        assert(seq_less(out[i].key(), out[j].key()));
    }
}

/// Units of kind `k` the lines buy.
pub open spec fn bought(lines: Seq<PurchaseLineView>, k: PurchaseKindView) -> nat
    decreases lines.len(),
{
    if lines.len() == 0 {
        0
    } else {
        bought(lines.drop_last(), k) + if lines.last().kind == k {
            lines.last().quantity
        } else {
            0
        }
    }
}

/// Units of kind `k` the lines buy for coins (the free emergency animal is not paid).
pub open spec fn paid(lines: Seq<PurchaseLineView>, k: PurchaseKindView) -> nat
    decreases lines.len(),
{
    if lines.len() == 0 {
        0
    } else {
        paid(lines.drop_last(), k) + if lines.last().kind == k && !lines.last().emergency_free {
            lines.last().quantity
        } else {
            0
        }
    }
}

/// The plant ids of the lines, in line order.
pub open spec fn line_plant_ids(lines: Seq<PurchaseLineView>) -> Seq<Seq<char>>
    decreases lines.len(),
{
    if lines.len() == 0 {
        Seq::empty()
    } else {
        match lines.last().kind {
            PurchaseKindView::Plant(id) => line_plant_ids(lines.drop_last()).push(id),
            PurchaseKindView::Animal(_) => line_plant_ids(lines.drop_last()),
        }
    }
}

/// The animal ids of the lines, in line order.
pub open spec fn line_animal_ids(lines: Seq<PurchaseLineView>) -> Seq<Seq<char>>
    decreases lines.len(),
{
    if lines.len() == 0 {
        Seq::empty()
    } else {
        match lines.last().kind {
            PurchaseKindView::Animal(id) => line_animal_ids(lines.drop_last()).push(id),
            PurchaseKindView::Plant(_) => line_animal_ids(lines.drop_last()),
        }
    }
}

/// The plant ids of the lines that were not discovered before, in line order.
pub open spec fn new_plant_ids(lines: Seq<PurchaseLineView>, found: Seq<Seq<char>>) -> Seq<Seq<char>>
    decreases lines.len(),
{
    if lines.len() == 0 {
        Seq::empty()
    } else {
        match lines.last().kind {
            PurchaseKindView::Plant(id) => if found.contains(id) {
                new_plant_ids(lines.drop_last(), found)
            } else {
                new_plant_ids(lines.drop_last(), found).push(id)
            },
            PurchaseKindView::Animal(_) => new_plant_ids(lines.drop_last(), found),
        }
    }
}

/// The animal ids of the lines that were not discovered before, in line order.
pub open spec fn new_animal_ids(lines: Seq<PurchaseLineView>, found: Seq<Seq<char>>) -> Seq<Seq<char>>
    decreases lines.len(),
{
    if lines.len() == 0 {
        Seq::empty()
    } else {
        match lines.last().kind {
            PurchaseKindView::Animal(id) => if found.contains(id) {
                new_animal_ids(lines.drop_last(), found)
            } else {
                new_animal_ids(lines.drop_last(), found).push(id)
            },
            PurchaseKindView::Plant(_) => new_animal_ids(lines.drop_last(), found),
        }
    }
}

/// An id is among the plant (animal) ids of the lines when some line buys that kind.
pub proof fn lemma_line_ids(lines: Seq<PurchaseLineView>)
    ensures
        forall|x: Seq<char>|
            #[trigger] line_plant_ids(lines).contains(x) <==> exists|m: int|
                0 <= m < lines.len() && #[trigger] lines[m].kind == PurchaseKindView::Plant(x),
        forall|x: Seq<char>|
            #[trigger] line_animal_ids(lines).contains(x) <==> exists|m: int|
                0 <= m < lines.len() && #[trigger] lines[m].kind == PurchaseKindView::Animal(x),
    decreases lines.len(),
{
    if lines.len() > 0 {
        let d = lines.drop_last();
        let last = lines.last().kind;
        lemma_line_ids(d);
        let pd = line_plant_ids(d);
        let ad = line_animal_ids(d);
        assert forall|x: Seq<char>| #[trigger] line_plant_ids(lines).contains(x) <==> exists|m: int|
            0 <= m < lines.len() && #[trigger] lines[m].kind == PurchaseKindView::Plant(x) by {
            let w = exists|m: int| 0 <= m < lines.len() && #[trigger] lines[m].kind == PurchaseKindView::Plant(x);
            let wd = exists|m: int| 0 <= m < d.len() && #[trigger] d[m].kind == PurchaseKindView::Plant(x);
            if wd {
                let m = choose|m: int| 0 <= m < d.len() && #[trigger] d[m].kind == PurchaseKindView::Plant(x);
                assert(lines[m] == d[m]);
            }
            if w {
                let m = choose|m: int| 0 <= m < lines.len() && #[trigger] lines[m].kind == PurchaseKindView::Plant(x);
                if m < d.len() {
                    assert(d[m] == lines[m]);
                }
            }
            match last {
                PurchaseKindView::Plant(y) => {
                    assert(line_plant_ids(lines) == pd.push(y));
                    if pd.push(y).contains(x) {
                        let k = choose|k: int| 0 <= k < pd.push(y).len() && pd.push(y)[k] == x;
                        if k < pd.len() {
                            assert(pd[k] == x);
                        }
                    }
                    if pd.contains(x) {
                        let k = choose|k: int| 0 <= k < pd.len() && pd[k] == x;
                        assert(pd.push(y)[k] == x);
                    }
                    if x == y {
                        assert(pd.push(y)[pd.len() as int] == x);
                    }
                },
                PurchaseKindView::Animal(_) => {
                    assert(line_plant_ids(lines) == pd);
                },
            }
        }
        assert forall|x: Seq<char>| #[trigger] line_animal_ids(lines).contains(x) <==> exists|m: int|
            0 <= m < lines.len() && #[trigger] lines[m].kind == PurchaseKindView::Animal(x) by {
            let w = exists|m: int| 0 <= m < lines.len() && #[trigger] lines[m].kind == PurchaseKindView::Animal(x);
            let wd = exists|m: int| 0 <= m < d.len() && #[trigger] d[m].kind == PurchaseKindView::Animal(x);
            if wd {
                let m = choose|m: int| 0 <= m < d.len() && #[trigger] d[m].kind == PurchaseKindView::Animal(x);
                assert(lines[m] == d[m]);
            }
            if w {
                let m = choose|m: int| 0 <= m < lines.len() && #[trigger] lines[m].kind == PurchaseKindView::Animal(x);
                if m < d.len() {
                    assert(d[m] == lines[m]);
                }
            }
            match last {
                PurchaseKindView::Animal(y) => {
                    assert(line_animal_ids(lines) == ad.push(y));
                    if ad.push(y).contains(x) {
                        let k = choose|k: int| 0 <= k < ad.push(y).len() && ad.push(y)[k] == x;
                        if k < ad.len() {
                            assert(ad[k] == x);
                        }
                    }
                    if ad.contains(x) {
                        let k = choose|k: int| 0 <= k < ad.len() && ad[k] == x;
                        assert(ad.push(y)[k] == x);
                    }
                    if x == y {
                        assert(ad.push(y)[ad.len() as int] == x);
                    }
                },
                PurchaseKindView::Plant(_) => {
                    assert(line_animal_ids(lines) == ad);
                },
            }
        }
    }
}

/// The plant groups of `s` after buying `lines`.
pub open spec fn plants_after(s: GameView, lines: Seq<PurchaseLineView>) -> Seq<PlantStateView> {
    Seq::new(
        s.plants.len(),
        |j: int|
            PlantStateView {
                count: s.plants[j].count + bought(lines, PurchaseKindView::Plant(s.plant_ids[j])),
                ..s.plants[j]
            },
    )
}

/// The animal groups of `s` after buying `lines`.
pub open spec fn animals_after(s: GameView, lines: Seq<PurchaseLineView>) -> Seq<AnimalStateView> {
    Seq::new(
        s.animals.len(),
        |i: int|
            AnimalStateView {
                count: s.animals[i].count + bought(lines, PurchaseKindView::Animal(s.animal_ids[i])),
                lifetime_paid: s.animals[i].lifetime_paid + paid(lines, PurchaseKindView::Animal(s.animal_ids[i])),
                ..s.animals[i]
            },
    )
}

/// One more plant line raises the count of its species only.
proof fn lemma_plant_line_step(s: GameView, t0: Seq<PurchaseLineView>, line: PurchaseLineView, k: int)
    requires
        0 <= k < s.plants.len(),
        s.plant_ids.len() == s.plants.len(),
        crate::state::ids_increasing(s.plant_ids),
        line.kind == PurchaseKindView::Plant(s.plant_ids[k]),
    ensures
        plants_after(s, t0.push(line)) == plants_after(s, t0).update(
            k,
            PlantStateView { count: plants_after(s, t0)[k].count + line.quantity, ..plants_after(s, t0)[k] },
        ),
        animals_after(s, t0.push(line)) == animals_after(s, t0),
{
    let t1 = t0.push(line);
    assert(t1.drop_last() =~= t0);
    assert forall|j: int| 0 <= j < s.plants.len() && j != k implies s.plant_ids[j] != s.plant_ids[k] by {
        if j < k {
            assert(seq_less(s.plant_ids[j], s.plant_ids[k]));
        } else {
            assert(seq_less(s.plant_ids[k], s.plant_ids[j]));
        }
        crate::keyed::lemma_seq_less_irreflexive(s.plant_ids[k]);
    }
    assert(plants_after(s, t1) =~= plants_after(s, t0).update(
        k,
        PlantStateView { count: plants_after(s, t0)[k].count + line.quantity, ..plants_after(s, t0)[k] },
    ));
    assert(animals_after(s, t1) =~= animals_after(s, t0));
}

/// One more animal line raises the count (and, when paid, the paid count) of its species only.
proof fn lemma_animal_line_step(s: GameView, t0: Seq<PurchaseLineView>, line: PurchaseLineView, k: int)
    requires
        0 <= k < s.animals.len(),
        s.animal_ids.len() == s.animals.len(),
        crate::state::ids_increasing(s.animal_ids),
        line.kind == PurchaseKindView::Animal(s.animal_ids[k]),
    ensures
        animals_after(s, t0.push(line)) == animals_after(s, t0).update(
            k,
            AnimalStateView {
                count: animals_after(s, t0)[k].count + line.quantity,
                lifetime_paid: animals_after(s, t0)[k].lifetime_paid + if line.emergency_free {
                    0
                } else {
                    line.quantity
                },
                ..animals_after(s, t0)[k]
            },
        ),
        plants_after(s, t0.push(line)) == plants_after(s, t0),
{
    let t1 = t0.push(line);
    assert(t1.drop_last() =~= t0);
    assert forall|j: int| 0 <= j < s.animals.len() && j != k implies s.animal_ids[j] != s.animal_ids[k] by {
        if j < k {
            assert(seq_less(s.animal_ids[j], s.animal_ids[k]));
        } else {
            assert(seq_less(s.animal_ids[k], s.animal_ids[j]));
        }
        crate::keyed::lemma_seq_less_irreflexive(s.animal_ids[k]);
    }
    assert(animals_after(s, t1) =~= animals_after(s, t0).update(
        k,
        AnimalStateView {
            count: animals_after(s, t0)[k].count + line.quantity,
            lifetime_paid: animals_after(s, t0)[k].lifetime_paid + if line.emergency_free {
                0
            } else {
                line.quantity
            },
            ..animals_after(s, t0)[k]
        },
    ));
    assert(plants_after(s, t1) =~= plants_after(s, t0));
}

/// `t` is `s` after buying `lines` for `total` coins: coins paid, counts raised, paid
/// animals counted, and every bought species discovered.
pub open spec fn purchase_applied(s: GameView, lines: Seq<PurchaseLineView>, total: nat, t: GameView) -> bool {
    &&& t.version == s.version
    &&& t.coins == s.coins - total
    &&& t.plant_ids == s.plant_ids
    &&& t.animal_ids == s.animal_ids
    &&& t.plants == plants_after(s, lines)
    &&& t.animals == animals_after(s, lines)
    &&& id_set_of(t.found_plants, s.found_plants + line_plant_ids(lines))
    &&& id_set_of(t.found_animals, s.found_animals + line_animal_ids(lines))
}

/// Membership after a push.
proof fn lemma_push_contains(a: Seq<Seq<char>>, y: Seq<char>)
    ensures
        forall|x: Seq<char>| #[trigger] a.push(y).contains(x) <==> a.contains(x) || x == y,
{
    assert forall|x: Seq<char>| #[trigger] a.push(y).contains(x) <==> a.contains(x) || x == y by {
        if a.push(y).contains(x) {
            let k = choose|k: int| 0 <= k < a.push(y).len() && a.push(y)[k] == x;
            if k < a.len() {
                assert(a[k] == x);
            }
        }
        if a.contains(x) {
            let k = choose|k: int| 0 <= k < a.len() && a[k] == x;
            assert(a.push(y)[k] == x);
        }
        if x == y {
            assert(a.push(y)[a.len() as int] == x);
        }
    }
}

/// Membership in a concatenation.
proof fn lemma_concat_contains(a: Seq<Seq<char>>, b: Seq<Seq<char>>)
    ensures
        forall|x: Seq<char>| #[trigger] (a + b).contains(x) <==> a.contains(x) || b.contains(x),
{
    assert forall|x: Seq<char>| #[trigger] (a + b).contains(x) <==> a.contains(x) || b.contains(x) by {
        if (a + b).contains(x) {
            let k = choose|k: int| 0 <= k < (a + b).len() && (a + b)[k] == x;
            if k < a.len() {
                assert(a[k] == x);
            } else {
                assert(b[k - a.len()] == x);
            }
        }
        if a.contains(x) {
            let k = choose|k: int| 0 <= k < a.len() && a[k] == x;
            assert((a + b)[k] == x);
        }
        if b.contains(x) {
            let k = choose|k: int| 0 <= k < b.len() && b[k] == x;
            assert((a + b)[k + a.len()] == x);
        }
    }
}

/// The receipt of a committed purchase.
pub struct PurchaseReceiptView {
    pub quote: PurchaseQuoteView,
    pub discovered_plants: Seq<Seq<char>>,
    pub discovered_animals: Seq<Seq<char>>,
}

impl View for PurchaseReceipt {
    type V = PurchaseReceiptView;

    open spec fn view(&self) -> PurchaseReceiptView {
        PurchaseReceiptView {
            quote: self.quote@,
            discovered_plants: key_view(self.discovered_plants@),
            discovered_animals: key_view(self.discovered_animals@),
        }
    }
}

/// The quote lines are in strict kind order, buy at least one unit each, and name species
/// of the catalog.
pub open spec fn lines_sound(c: ContentConfig, ls: Seq<PurchaseLineView>) -> bool {
    &&& forall|i: int, j: int|
        0 <= i < j < ls.len() ==> seq_less(kind_key(#[trigger] ls[i].kind), kind_key(#[trigger] ls[j].kind))
    &&& forall|i: int| 0 <= i < ls.len() ==> (#[trigger] ls[i]).quantity > 0 && kind_known(c, ls[i].kind)
}

/// Raises the counts the lines buy and discovers their species, on copies of the state's
/// groups and collection.
#[verifier::loop_isolation(false)]
fn commit_lines(state: &GameState, content: &ContentConfig, lines: &Vec<PurchaseLine>) -> (r: (
    Vec<PlantState>,
    Vec<AnimalState>,
    CollectionState,
    Vec<PlantId>,
    Vec<AnimalId>,
))
    requires
        state_valid(state@, *content),
        lines_sound(*content, purchase_line_views(lines@)),
    ensures
        plant_views(r.0@) == plants_after(state@, purchase_line_views(lines@)),
        animal_views(r.1@) == animals_after(state@, purchase_line_views(lines@)),
        id_set_of(r.2.plant_ids(), state@.found_plants + line_plant_ids(purchase_line_views(lines@))),
        id_set_of(r.2.animal_ids(), state@.found_animals + line_animal_ids(purchase_line_views(lines@))),
        key_view(r.3@) == new_plant_ids(purchase_line_views(lines@), state@.found_plants),
        key_view(r.4@) == new_animal_ids(purchase_line_views(lines@), state@.found_animals),
{
    let ghost sv = state@;
    let ghost ls = purchase_line_views(lines@);
    proof {
        use_type_invariant(state);
        use_type_invariant(content);
        lemma_state_valid(sv, *content);
        lemma_key_view_facts(content.plant_seq());
        lemma_key_view_facts(content.animal_seq());
        lemma_line_ids(ls);
    }
    let plant_configs = content.plants();
    let animal_configs = content.animals();
    let mut plant_vals = state.plant_values();
    let mut animal_vals = state.animal_values();
    let mut collection = state.collection_copy();
    let mut discovered_plants: Vec<PlantId> = Vec::new();
    let mut discovered_animals: Vec<AnimalId> = Vec::new();
    let mut i: usize = 0;
    proof {
        assert(ls.take(0) =~= Seq::<PurchaseLineView>::empty());
        assert(sv.found_plants + line_plant_ids(ls.take(0)) =~= sv.found_plants);
        assert(sv.found_animals + line_animal_ids(ls.take(0)) =~= sv.found_animals);
        assert(plant_views(plant_vals@) =~= plants_after(sv, ls.take(0)));
        assert(animal_views(animal_vals@) =~= animals_after(sv, ls.take(0)));
    }
    while i < lines.len()
        invariant
            i <= ls.len(),
            ls == purchase_line_views(lines@),
            plant_views(plant_vals@) == plants_after(sv, ls.take(i as int)),
            animal_views(animal_vals@) == animals_after(sv, ls.take(i as int)),
            id_set_of(collection.plant_ids(), sv.found_plants + line_plant_ids(ls.take(i as int))),
            id_set_of(collection.animal_ids(), sv.found_animals + line_animal_ids(ls.take(i as int))),
            key_view(discovered_plants@) == new_plant_ids(ls.take(i as int), sv.found_plants),
            key_view(discovered_animals@) == new_animal_ids(ls.take(i as int), sv.found_animals),
        decreases ls.len() - i,
    {
        let line = &lines[i];
        assert(ls[i as int] == line@);
        let ghost t0 = ls.take(i as int);
        let ghost t1 = ls.take(i as int + 1);
        assert(t1.drop_last() =~= t0);
        assert(t1.last() == line@);
        let ghost old_plants = plant_views(plant_vals@);
        let ghost old_animals = animal_views(animal_vals@);
        let ghost old_found_p = collection.plant_ids();
        let ghost old_found_a = collection.animal_ids();
        let ghost old_disc_p = key_view(discovered_plants@);
        let ghost old_disc_a = key_view(discovered_animals@);
        proof {
            lemma_line_ids(t0);
            lemma_concat_contains(sv.found_plants, line_plant_ids(t0));
            lemma_concat_contains(sv.found_animals, line_animal_ids(t0));
            lemma_concat_contains(sv.found_plants, line_plant_ids(t1));
            lemma_concat_contains(sv.found_animals, line_animal_ids(t1));
            assert forall|m: int| 0 <= m < i implies #[trigger] t0[m].kind != line@.kind by {
                assert(t0[m] == ls[m]);
                assert(seq_less(kind_key(ls[m].kind), kind_key(ls[i as int].kind)));
                crate::keyed::lemma_seq_less_irreflexive(kind_key(ls[i as int].kind));
            }
        }
        match &line.kind {
            PurchaseKind::Plant(id) => {
                let k = match find_by_key(plant_configs, id.as_str()) {
                    Some(k) => k,
                    None => 0,
                };
                assert(sv.plant_ids[k as int] == id@);
                let p = &plant_vals[k];
                let np = PlantState {
                    count: EntityCount::from_biguint(p.count.as_biguint().add(line.quantity.as_biguint())),
                    stock_cent: p.stock_cent.copy(),
                    production_remainder_60: p.production_remainder_60,
                };
                let ghost np_view = np@;
                plant_vals.set(k, np);
                if collection.discover_plant(id.copy()) {
                    discovered_plants.push(id.copy());
                }
                proof {
                    assert(t1 == t0.push(line@));
                    lemma_plant_line_step(sv, t0, line@, k as int);
                    assert(plant_views(plant_vals@) =~= old_plants.update(k as int, np_view));
                    assert(line_plant_ids(t0).contains(id@) == false);
                    assert(key_view(discovered_plants@) =~= new_plant_ids(t1, sv.found_plants));
                    assert(line_plant_ids(t1) == line_plant_ids(t0).push(id@));
                    lemma_push_contains(line_plant_ids(t0), id@);
                    lemma_push_contains(old_found_p, id@);
                }
            },
            PurchaseKind::Animal(id) => {
                let k = match find_by_key(animal_configs, id.as_str()) {
                    Some(k) => k,
                    None => 0,
                };
                assert(sv.animal_ids[k as int] == id@);
                let a = &animal_vals[k];
                let lifetime = if line.emergency_free {
                    a.lifetime_paid_purchase_count.copy()
                } else {
                    LifetimePurchaseCount::from_biguint(
                        a.lifetime_paid_purchase_count.as_biguint().add(line.quantity.as_biguint()),
                    )
                };
                let na = AnimalState {
                    count: EntityCount::from_biguint(a.count.as_biguint().add(line.quantity.as_biguint())),
                    total_growth_cent: a.total_growth_cent.copy(),
                    feeding_progress: a.feeding_progress,
                    lifetime_paid_purchase_count: lifetime,
                };
                let ghost na_view = na@;
                animal_vals.set(k, na);
                if collection.discover_animal(id.copy()) {
                    discovered_animals.push(id.copy());
                }
                proof {
                    assert(t1 == t0.push(line@));
                    lemma_animal_line_step(sv, t0, line@, k as int);
                    assert(animal_views(animal_vals@) =~= old_animals.update(k as int, na_view));
                    assert(line_animal_ids(t0).contains(id@) == false);
                    assert(key_view(discovered_animals@) =~= new_animal_ids(t1, sv.found_animals));
                    assert(line_animal_ids(t1) == line_animal_ids(t0).push(id@));
                    lemma_push_contains(line_animal_ids(t0), id@);
                    lemma_push_contains(old_found_a, id@);
                }
            },
        }
        i = i + 1;
    }
    proof {
        assert(ls.take(ls.len() as int) =~= ls);
    }
    (plant_vals, animal_vals, collection, discovered_plants, discovered_animals)
}

/// Quotes a purchase and, when the wallet covers it, commits it as one step: coins are
/// paid, counts raised, paid animals counted, and new species discovered.
#[verifier::loop_isolation(false)]
pub fn apply_purchase_batch_with_budget(
    state: &GameState,
    content: &ContentConfig,
    selections: &[PurchaseSelection],
    budget: PurchasePricingBudget,
) -> (r: Result<Transition<PurchaseReceipt>, DomainError>)
    ensures
        match purchase_quote(state@, *content, selection_views(selections@), budget) {
            Err(e) => r matches Err(x) && x@ == e,
            Ok(q) => if state@.coins < q.total_cost {
                r matches Err(x) && x@ == DomainErrorView::InsufficientCoins
            } else {
                r matches Ok(t) && purchase_applied(state@, q.lines, q.total_cost, t.state@)
                    && state_valid(t.state@, *content) && t.outcome@.quote == q
                    && t.outcome@.discovered_plants == new_plant_ids(q.lines, state@.found_plants)
                    && t.outcome@.discovered_animals == new_animal_ids(q.lines, state@.found_animals)
                    && t.events@.len() == (if t.outcome@.discovered_plants.len() == 0
                    && t.outcome@.discovered_animals.len() == 0 {
                    1int
                } else {
                    2int
                }) && t.events@[0]@ == DomainEventView::PurchaseBatchCommitted(q) && (t.events@.len() == 2
                    ==> t.events@[1]@ == DomainEventView::CollectionDiscovered {
                    plants: t.outcome@.discovered_plants,
                    animals: t.outcome@.discovered_animals,
                })
            },
        },
{
    let quote = match quote_purchase_batch_with_budget(state, content, selections, budget) {
        Ok(q) => q,
        Err(e) => {
            return Err(e);
        },
    };
    if state.wallet().coins.as_biguint().lt(quote.total_cost.as_biguint()) {
        return Err(DomainError::InsufficientCoins);
    }
    let ghost sels = selection_views(selections@);
    let ghost sv = state@;
    let ghost ls = quote@.lines;
    proof {
        use_type_invariant(state);
        use_type_invariant(content);
        lemma_quote_lines(sv, *content, sels, budget);
    }
    let (plant_vals, animal_vals, collection, discovered_plants, discovered_animals) = commit_lines(
        state,
        content,
        &quote.lines,
    );
    assert(plant_vals@.len() == plant_views(plant_vals@).len());
    assert(animal_vals@.len() == animal_views(animal_vals@).len());
    let next = state.rebuilt(
        Coins::from_biguint(state.wallet().coins.as_biguint().sub(quote.total_cost.as_biguint())),
        plant_vals,
        animal_vals,
        collection,
    );
    proof {
        use_type_invariant(&next);
        law_purchase_keeps_state_valid(sv, *content, sels, budget, next@);
    }
    match next.validate(content) {
        Err(e) => {
            return Err(DomainError::InvalidState(e));
        },
        Ok(()) => {},
    }
    let mut events: Vec<DomainEvent> = vec![DomainEvent::PurchaseBatchCommitted(quote.copy())];
    if discovered_plants.len() != 0 || discovered_animals.len() != 0 {
        let plants = dup_keys(&discovered_plants);
        let animals = dup_keys(&discovered_animals);
        assert(key_view(plants@) =~= key_view(discovered_plants@));
        assert(key_view(animals@) =~= key_view(discovered_animals@));
        events.push(DomainEvent::CollectionDiscovered { plants, animals });
    }
    let t = Transition {
        state: next,
        outcome: PurchaseReceipt { quote, discovered_plants, discovered_animals },
        events,
    };
    proof {
        let q = purchase_quote(sv, *content, sels, budget)->Ok_0;
        assert(t.outcome@.quote == q);
        assert(purchase_applied(sv, q.lines, q.total_cost, t.state@));
        assert(t.outcome@.discovered_plants == new_plant_ids(q.lines, sv.found_plants));
        assert(t.outcome@.discovered_animals == new_animal_ids(q.lines, sv.found_animals));
        assert(t.events@[0]@ == DomainEventView::PurchaseBatchCommitted(q));
    }
    Ok(t)
}

/// `apply_purchase_batch_with_budget` with the default budget.
pub fn apply_purchase_batch(state: &GameState, content: &ContentConfig, selections: &[PurchaseSelection]) -> (r:
    Result<Transition<PurchaseReceipt>, DomainError>)
    ensures
        match purchase_quote(
            state@,
            *content,
            selection_views(selections@),
            PurchasePricingBudget::default_spec(),
        ) {
            Err(e) => r matches Err(x) && x@ == e,
            Ok(q) => if state@.coins < q.total_cost {
                r matches Err(x) && x@ == DomainErrorView::InsufficientCoins
            } else {
                r matches Ok(t) && purchase_applied(state@, q.lines, q.total_cost, t.state@)
                    && state_valid(t.state@, *content) && t.outcome@.quote == q
                    && t.outcome@.discovered_plants == new_plant_ids(q.lines, state@.found_plants)
                    && t.outcome@.discovered_animals == new_animal_ids(q.lines, state@.found_animals)
                    && t.events@.len() == (if t.outcome@.discovered_plants.len() == 0
                    && t.outcome@.discovered_animals.len() == 0 {
                    1int
                } else {
                    2int
                }) && t.events@[0]@ == DomainEventView::PurchaseBatchCommitted(q) && (t.events@.len() == 2
                    ==> t.events@[1]@ == DomainEventView::CollectionDiscovered {
                    plants: t.outcome@.discovered_plants,
                    animals: t.outcome@.discovered_animals,
                })
            },
        },
{
    apply_purchase_batch_with_budget(state, content, selections, PurchasePricingBudget::default())
}

/// A committed purchase leaves a valid state valid.
pub proof fn law_purchase_keeps_state_valid(
    s: GameView,
    c: ContentConfig,
    sels: Seq<PurchaseSelectionView>,
    b: PurchasePricingBudget,
    t: GameView,
)
    requires
        c.wf(),
        game_view_shape(s),
        game_view_shape(t),
        purchase_quote(s, c, sels, b) is Ok,
        s.coins >= purchase_quote(s, c, sels, b)->Ok_0.total_cost,
        purchase_applied(s, purchase_quote(s, c, sels, b)->Ok_0.lines, purchase_quote(s, c, sels, b)->Ok_0.total_cost, t),
    ensures
        state_valid(t, c),
{
    lemma_quote_lines(s, c, sels, b);
    let q = purchase_quote(s, c, sels, b)->Ok_0;
    let ls = q.lines;
    lemma_state_valid(s, c);
    lemma_line_ids(ls);
    lemma_key_view_facts(c.plant_seq());
    lemma_key_view_facts(c.animal_seq());
    lemma_concat_contains(s.found_plants, line_plant_ids(ls));
    lemma_concat_contains(s.found_animals, line_animal_ids(ls));
    assert forall|j: int| 0 <= j < t.plants.len() implies (#[trigger] plant_state_check(t, j)) is None by {
        assert(plant_state_check(s, j) is None);
        let k = PurchaseKindView::Plant(s.plant_ids[j]);
        lemma_bought_witness(ls, k);
        if bought(ls, k) > 0 {
            let m = choose|m: int| 0 <= m < ls.len() && #[trigger] ls[m].kind == k;
            assert(line_plant_ids(ls).contains(s.plant_ids[j]));
        }
        assert(t.plant_ids[j] == s.plant_ids[j]);
    }
    assert forall|i: int| 0 <= i < t.animals.len() implies (#[trigger] animal_state_check(t, c.animal_seq(), i)) is None by {
        assert(animal_state_check(s, c.animal_seq(), i) is None);
        let k = PurchaseKindView::Animal(s.animal_ids[i]);
        lemma_bought_witness(ls, k);
        if bought(ls, k) > 0 {
            let m = choose|m: int| 0 <= m < ls.len() && #[trigger] ls[m].kind == k;
            assert(line_animal_ids(ls).contains(s.animal_ids[i]));
        }
        assert(t.animal_ids[i] == s.animal_ids[i]);
    }
    assert forall|j: int| 0 <= j < t.found_plants.len() implies key_view(c.plant_seq()).contains(#[trigger] t.found_plants[j]) by {
        let x = t.found_plants[j];
        assert(t.found_plants.contains(x));
        if s.found_plants.contains(x) {
            let m = choose|m: int| 0 <= m < s.found_plants.len() && s.found_plants[m] == x;
            assert(key_view(c.plant_seq()).contains(s.found_plants[m]));
        } else {
            assert(line_plant_ids(ls).contains(x));
            let m = choose|m: int| 0 <= m < ls.len() && #[trigger] ls[m].kind == PurchaseKindView::Plant(x);
            assert(kind_known(c, ls[m].kind));
        }
    }
    assert forall|j: int| 0 <= j < t.found_animals.len() implies key_view(c.animal_seq()).contains(#[trigger] t.found_animals[j]) by {
        let x = t.found_animals[j];
        assert(t.found_animals.contains(x));
        if s.found_animals.contains(x) {
            let m = choose|m: int| 0 <= m < s.found_animals.len() && s.found_animals[m] == x;
            assert(key_view(c.animal_seq()).contains(s.found_animals[m]));
        } else {
            assert(line_animal_ids(ls).contains(x));
            let m = choose|m: int| 0 <= m < ls.len() && #[trigger] ls[m].kind == PurchaseKindView::Animal(x);
            assert(kind_known(c, ls[m].kind));
        }
    }
    lemma_state_valid_intro(t, c);
}

/// Something bought or paid for comes from some line of that kind; paid never exceeds bought.
proof fn lemma_bought_witness(ls: Seq<PurchaseLineView>, k: PurchaseKindView)
    ensures
        bought(ls, k) > 0 ==> exists|m: int| 0 <= m < ls.len() && #[trigger] ls[m].kind == k,
        paid(ls, k) <= bought(ls, k),
    decreases ls.len(),
{
    if ls.len() > 0 {
        let d = ls.drop_last();
        lemma_bought_witness(d, k);
        if bought(d, k) > 0 {
            let m = choose|m: int| 0 <= m < d.len() && #[trigger] d[m].kind == k;
            assert(ls[m] == d[m]);
        }
        if ls.last().kind == k {
            assert(ls[ls.len() - 1].kind == k);
        }
    }
}

/// Only the emergency animal can be free, one of it, and only while the player owns no
/// animals and has fewer coins than the emergency threshold; every other animal line
/// costs its quantity times the species' fixed price, and no plant line is free.
pub proof fn law_only_the_emergency_animal_is_free(
    s: GameView,
    c: ContentConfig,
    sels: Seq<PurchaseSelectionView>,
    b: PurchasePricingBudget,
)
    requires
        purchase_quote(s, c, sels, b) is Ok,
    ensures
        ({
            let q = purchase_quote(s, c, sels, b)->Ok_0;
            forall|i: int|
                0 <= i < q.lines.len() ==> {
                    let l = #[trigger] q.lines[i];
                    &&& l.emergency_free ==> {
                        &&& l.kind == PurchaseKindView::Animal(c.rule().animal_id@)
                        &&& l.cost == 0
                        &&& l.quantity == 1
                        &&& total_count(s.animals) == 0
                        &&& s.coins < c.rule().trigger_below_coins@
                    }
                    &&& l.kind is Plant ==> !l.emergency_free
                    &&& l.kind matches PurchaseKindView::Animal(id) ==> id != c.rule().animal_id@ ==> {
                        &&& !l.emergency_free
                        &&& l.cost == l.quantity * c.animal_seq()[key_index(
                            c.animal_seq(),
                            id,
                        )].fixed_purchase_price_coins@
                    }
                }
        }),
{
    let out = normalize_result(sels)->Ok_0;
    let active = emergency_active(s, c);
    let q = purchase_quote(s, c, sels, b)->Ok_0;
    crate::error::lemma_first_some_none_all(line_checks(c, active, out), 0, out.len() as int);
    assert forall|i: int| 0 <= i < q.lines.len() implies {
        let l = #[trigger] q.lines[i];
        &&& l.emergency_free ==> {
            &&& l.kind == PurchaseKindView::Animal(c.rule().animal_id@)
            &&& l.cost == 0
            &&& l.quantity == 1
            &&& total_count(s.animals) == 0
            &&& s.coins < c.rule().trigger_below_coins@
        }
        &&& l.kind is Plant ==> !l.emergency_free
        &&& l.kind matches PurchaseKindView::Animal(id) ==> id != c.rule().animal_id@ ==> {
            &&& !l.emergency_free
            &&& l.cost == l.quantity * c.animal_seq()[key_index(c.animal_seq(), id)].fixed_purchase_price_coins@
        }
    } by {
        assert(q.lines[i] == quote_line(s, c, active, out[i]));
        assert(line_checks(c, active, out)(i) is None);
    }
}

} // verus!

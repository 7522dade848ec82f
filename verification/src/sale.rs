//! Selling animals.
use crate::amount::{Coins, EntityCount, GrowthCent};
use crate::bignat::BigNat;
use crate::config::{find_by_key, AnimalConfig, ContentConfig};
use crate::error::{first_some, lemma_first_some_step, DomainError, DomainErrorView};
use crate::event::{DomainEvent, DomainEventView};
use crate::ids::AnimalId;
use crate::keyed::{
    first_dup, has_key, is_dup_at, key_index, keys_increasing, lemma_first_dup_map,
    lemma_sort_by_key, lemma_sort_map, seq_less, sort_by_key, sort_distinct, str_less, Ranked,
    SortKey,
};
use crate::state::{
    animal_state_check, animal_views, game_view_shape, lemma_state_valid, lemma_state_valid_intro,
    plant_state_check, state_check, state_valid, AnimalState, AnimalStateView, FeedingProgress,
    GameState, GameView, Transition,
};
use vstd::prelude::*;
use vstd::string::StringExecFns;

verus! {

#[derive(Clone, Debug, PartialEq, Eq)]
pub struct SaleSelection {
    pub animal_id: AnimalId,
    pub quantity: EntityCount,
}

#[derive(Clone, Debug, PartialEq, Eq)]
pub struct SaleLine {
    pub animal_id: AnimalId,
    pub quantity: EntityCount,
    pub sold_growth_cent: GrowthCent,
    pub coins: Coins,
    pub sells_entire_group: bool,
}

#[derive(Clone, Debug, PartialEq, Eq)]
pub struct SaleQuote {
    pub lines: Vec<SaleLine>,
    pub total_coins: Coins,
}

#[derive(Clone, Debug, PartialEq, Eq)]
pub struct SaleReceipt {
    pub quote: SaleQuote,
}

pub struct SaleLineView {
    pub animal_id: Seq<char>,
    pub quantity: nat,
    pub sold_growth_cent: nat,
    pub coins: nat,
    pub sells_entire_group: bool,
}

pub struct SaleQuoteView {
    pub lines: Seq<SaleLineView>,
    pub total_coins: nat,
}

impl View for SaleLine {
    type V = SaleLineView;

    open spec fn view(&self) -> SaleLineView {
        SaleLineView {
            animal_id: self.animal_id@,
            quantity: self.quantity@,
            sold_growth_cent: self.sold_growth_cent@,
            coins: self.coins@,
            sells_entire_group: self.sells_entire_group,
        }
    }
}

impl View for SaleQuote {
    type V = SaleQuoteView;

    open spec fn view(&self) -> SaleQuoteView {
        SaleQuoteView {
            lines: Seq::new(self.lines@.len(), |i: int| self.lines@[i]@),
            total_coins: self.total_coins@,
        }
    }
}

impl SaleLine {
    pub fn copy(&self) -> (r: Self)
        ensures
            r@ == self@,
    {
        SaleLine {
            animal_id: self.animal_id.copy(),
            quantity: self.quantity.copy(),
            sold_growth_cent: self.sold_growth_cent.copy(),
            coins: self.coins.copy(),
            sells_entire_group: self.sells_entire_group,
        }
    }
}

impl SaleQuote {
    pub fn copy(&self) -> (r: Self)
        ensures
            r@ == self@,
    {
        let mut lines: Vec<SaleLine> = Vec::new();
        let mut i: usize = 0;
        while i < self.lines.len()
            invariant
                i <= self.lines@.len(),
                lines@.len() == i,
                forall|j: int| 0 <= j < i ==> #[trigger] lines@[j]@ == self.lines@[j]@,
            decreases self.lines@.len() - i,
        {
            lines.push(self.lines[i].copy());
            i = i + 1;
        }
        let r = SaleQuote { lines, total_coins: self.total_coins.copy() };
        assert(r@.lines =~= self@.lines);
        r
    }
}

pub struct SaleSelectionView {
    pub animal_id: Seq<char>,
    pub quantity: nat,
}

impl View for SaleSelection {
    type V = SaleSelectionView;

    open spec fn view(&self) -> SaleSelectionView {
        SaleSelectionView { animal_id: self.animal_id@, quantity: self.quantity@ }
    }
}

impl SaleSelection {
    pub fn copy(&self) -> (r: Self)
        ensures
            r@ == self@,
    {
        SaleSelection { animal_id: self.animal_id.copy(), quantity: self.quantity.copy() }
    }
}

impl SortKey for SaleSelectionView {
    open spec fn key(&self) -> Seq<char> {
        self.animal_id
    }
}

impl SortKey for SaleSelection {
    open spec fn key(&self) -> Seq<char> {
        self.animal_id@
    }
}

impl Ranked for SaleSelection {
    fn key_less(&self, other: &Self) -> (r: bool) {
        str_less(self.animal_id.as_str(), other.animal_id.as_str())
    }
}

/// How a sold species is named in messages: `animal:<id>`.
pub open spec fn animal_label(id: Seq<char>) -> Seq<char> {
    seq!['a', 'n', 'i', 'm', 'a', 'l', ':'] + id
}

fn sale_label(id: &AnimalId) -> (r: String)
    ensures
        r@ == animal_label(id@),
{
    let mut t = String::from_str("animal:");
    proof {
        reveal_strlit("animal:");
    }
    t.append(id.as_str());
    t
}

/// The views of a sequence of sale selections.
pub open spec fn sale_selection_views(s: Seq<SaleSelection>) -> Seq<SaleSelectionView> {
    Seq::new(s.len(), |i: int| s[i]@)
}

/// Sale selections that ask for at least one animal.
pub open spec fn sale_has_quantity() -> spec_fn(SaleSelectionView) -> bool {
    |x: SaleSelectionView| x.quantity != 0
}

/// The sale selections that ask for something, in id order.
pub open spec fn sale_normalized(s: Seq<SaleSelectionView>) -> Seq<SaleSelectionView> {
    sort_by_key(s).filter(sale_has_quantity())
}

/// The normalized sale selections, or the first repeated species, or an empty request.
pub open spec fn sale_normalize_result(s: Seq<SaleSelectionView>) -> Result<
    Seq<SaleSelectionView>,
    DomainErrorView,
> {
    match first_dup(s) {
        Some(i) => Err(DomainErrorView::DuplicateSelection(animal_label(s[i].animal_id))),
        None => if sale_normalized(s).len() == 0 {
            Err(DomainErrorView::EmptySelection)
        } else {
            Ok(sale_normalized(s))
        },
    }
}

fn normalize_sales(selections: &[SaleSelection]) -> (r: Result<Vec<SaleSelection>, DomainError>)
    ensures
        match sale_normalize_result(sale_selection_views(selections@)) {
            Ok(v) => r matches Ok(x) && sale_selection_views(x@) == v,
            Err(e) => r matches Err(x) && x@ == e,
        },
{
    let ghost sv = sale_selection_views(selections@);
    let mut copies: Vec<SaleSelection> = Vec::new();
    let mut i: usize = 0;
    while i < selections.len()
        invariant
            i <= selections@.len(),
            copies@.len() == i,
            forall|j: int| 0 <= j < i ==> #[trigger] copies@[j]@ == selections@[j]@,
        decreases selections@.len() - i,
    {
        copies.push(selections[i].copy());
        i = i + 1;
    }
    let ghost f = |x: SaleSelection| x@;
    proof {
        assert(copies@.map_values(f) =~= sv);
        assert forall|x: SaleSelection| #[trigger] f(x).key() == x.key() by {}
        lemma_first_dup_map(copies@, f);
    }
    let ghost cs = copies@;
    let sorted = match sort_distinct(copies) {
        Ok(v) => v,
        Err(x) => {
            proof {
                assert(first_dup(sv) == first_dup(cs));
                let i = first_dup(cs)->0;
                crate::keyed::lemma_first_dup_in_range(cs);
                assert(x == cs[i]);
                assert(sv[i] == cs[i]@);
            }
            return Err(DomainError::DuplicateSelection(sale_label(&x.animal_id)));
        },
    };
    proof {
        crate::error::lemma_first_some_none_all(
            |j: int| if is_dup_at(cs, j) { Some(j) } else { None },
            0,
            cs.len() as int,
        );
        assert forall|j: int| 0 <= j < cs.len() implies !is_dup_at(cs, j) by {
            let g = |j: int| if is_dup_at(cs, j) { Some(j) } else { None };
            assert(g(j) is None);
        }
        lemma_sort_map(cs, f);
    }
    let ghost sorted_views = sale_selection_views(sorted@);
    assert(sorted_views =~= sort_by_key(sv)) by {
        assert(sorted@.map_values(f) =~= sorted_views);
    }
    let mut out: Vec<SaleSelection> = Vec::new();
    let mut k: usize = 0;
    while k < sorted.len()
        invariant
            k <= sorted@.len(),
            sorted_views == sale_selection_views(sorted@),
            sale_selection_views(out@) == sorted_views.take(k as int).filter(sale_has_quantity()),
        decreases sorted@.len() - k,
    {
        let ghost before = sale_selection_views(out@);
        proof {
            reveal(Seq::filter);
            assert(sorted_views.take(k as int + 1).drop_last() =~= sorted_views.take(k as int));
        }
        if !sorted[k].quantity.is_zero() {
            out.push(sorted[k].copy());
            assert(sale_selection_views(out@) =~= before.push(sorted_views[k as int]));
        }
        k = k + 1;
    }
    assert(sorted_views.take(sorted@.len() as int) =~= sorted_views);
    if out.len() == 0 {
        return Err(DomainError::EmptySelection);
    }
    Ok(out)
}

/// Growth that selling `q` animals of group `a` takes: all of it when the whole group
/// goes, else the group's growth times `q / count`, rounded down.
pub open spec fn sold_growth(a: AnimalStateView, q: nat) -> nat {
    if q == a.count {
        a.growth_cent
    } else {
        a.growth_cent * q / a.count
    }
}

/// Coins paid for `q` animals of group `a`: the zero-growth price of each, plus one coin
/// per hundred cents of sold growth.
pub open spec fn sale_coins(a: AnimalStateView, cfg: AnimalConfig, q: nat) -> nat {
    q * cfg.zero_growth_sell_price_coins@ + sold_growth(a, q) / 100
}

/// Group `a` after selling `q` of its animals: an emptied group loses its growth and
/// progress; otherwise it keeps the growth that was not sold.
pub open spec fn after_sale(a: AnimalStateView, q: nat) -> AnimalStateView {
    if q == a.count {
        AnimalStateView { count: 0, growth_cent: 0, progress: 0, ..a }
    } else {
        AnimalStateView {
            count: (a.count - q) as nat,
            growth_cent: (a.growth_cent - sold_growth(a, q)) as nat,
            ..a
        }
    }
}

/// The check of one normalized sale selection.
pub open spec fn sale_line_check(s: GameView, c: ContentConfig, sel: SaleSelectionView) -> Option<
    DomainErrorView,
> {
    if !has_key(c.animal_seq(), sel.animal_id) {
        Some(DomainErrorView::UnknownAnimal(sel.animal_id))
    } else if sel.quantity > s.animals[key_index(c.animal_seq(), sel.animal_id)].count {
        Some(DomainErrorView::SaleQuantityExceedsOwned(sel.animal_id))
    } else {
        None
    }
}

pub open spec fn sale_line_checks(s: GameView, c: ContentConfig, out: Seq<SaleSelectionView>) -> spec_fn(
    int,
) -> Option<DomainErrorView> {
    |i: int| sale_line_check(s, c, out[i])
}

/// The quote line of one normalized sale selection.
pub open spec fn sale_line(s: GameView, c: ContentConfig, sel: SaleSelectionView) -> SaleLineView {
    let k = key_index(c.animal_seq(), sel.animal_id);
    let a = s.animals[k];
    SaleLineView {
        animal_id: sel.animal_id,
        quantity: sel.quantity,
        sold_growth_cent: sold_growth(a, sel.quantity),
        coins: sale_coins(a, c.animal_seq()[k], sel.quantity),
        sells_entire_group: sel.quantity == a.count,
    }
}

/// The sum of the coins of the lines.
pub open spec fn sale_lines_total(lines: Seq<SaleLineView>) -> nat
    decreases lines.len(),
{
    if lines.len() == 0 {
        0
    } else {
        sale_lines_total(lines.drop_last()) + lines.last().coins
    }
}

/// What `quote_sale_batch` gives.
pub open spec fn sale_quote(s: GameView, c: ContentConfig, sels: Seq<SaleSelectionView>) -> Result<
    SaleQuoteView,
    DomainErrorView,
> {
    match state_check(s, c) {
        Some(e) => Err(DomainErrorView::InvalidState(e)),
        None => match sale_normalize_result(sels) {
            Err(e) => Err(e),
            Ok(out) => match first_some(sale_line_checks(s, c, out), 0, out.len() as int) {
                Some(e) => Err(e),
                None => {
                    let lines = Seq::new(out.len(), |i: int| sale_line(s, c, out[i]));
                    Ok(SaleQuoteView { lines, total_coins: sale_lines_total(lines) })
                },
            },
        },
    }
}

/// The views of a sequence of sale lines.
pub open spec fn sale_line_views(s: Seq<SaleLine>) -> Seq<SaleLineView> {
    Seq::new(s.len(), |i: int| s[i]@)
}

/// The growth a sale of `q` of the `n` animals takes never exceeds the group's growth.
proof fn lemma_sold_growth_bounded(a: AnimalStateView, q: nat)
    requires
        q <= a.count,
    ensures
        sold_growth(a, q) <= a.growth_cent,
{
    if q != a.count {
        assert(a.growth_cent * q <= a.growth_cent * a.count) by (nonlinear_arith)
            requires
                q <= a.count,
        ;
        vstd::arithmetic::div_mod::lemma_div_is_ordered(
            (a.growth_cent * q) as int,
            (a.growth_cent * a.count) as int,
            a.count as int,
        );
        vstd::arithmetic::div_mod::lemma_div_multiples_vanish(a.growth_cent as int, a.count as int);
        assert(a.growth_cent * a.count == a.count * a.growth_cent) by (nonlinear_arith);
    }
}

/// Prices a sale without changing the state. Repeated species are refused, selections of
/// zero are dropped, and the rest is priced in id order.
pub fn quote_sale_batch(state: &GameState, content: &ContentConfig, selections: &[SaleSelection]) -> (r:
    Result<SaleQuote, DomainError>)
    ensures
        match sale_quote(state@, *content, sale_selection_views(selections@)) {
            Ok(q) => r matches Ok(x) && x@ == q,
            Err(e) => r matches Err(x) && x@ == e,
        },
{
    match state.validate(content) {
        Err(e) => {
            return Err(DomainError::InvalidState(e));
        },
        Ok(()) => {},
    }
    proof {
        use_type_invariant(state);
        use_type_invariant(content);
        lemma_state_valid(state@, *content);
    }
    let normalized = match normalize_sales(selections) {
        Ok(v) => v,
        Err(e) => {
            return Err(e);
        },
    };
    let ghost sv = state@;
    let ghost out = sale_selection_views(normalized@);
    let ghost checks = sale_line_checks(sv, *content, out);
    let animals = state.animal_values();
    let configs = content.animals();
    let hundred = BigNat::from_u64(100);
    let mut total = BigNat::zero();
    let mut lines: Vec<SaleLine> = Vec::new();
    let mut i: usize = 0;
    while i < normalized.len()
        invariant
            i <= normalized@.len(),
            out == sale_selection_views(normalized@),
            sv == state@,
            checks == sale_line_checks(sv, *content, out),
            sale_normalize_result(sale_selection_views(selections@)) == Ok::<Seq<SaleSelectionView>, DomainErrorView>(out),
            state_check(sv, *content) is None,
            animal_views(animals@) == sv.animals,
            configs@ == content.animal_seq(),
            hundred@ == 100,
            keys_increasing(content.animal_seq()),
            sv.animals.len() == content.animal_seq().len(),
            first_some(checks, 0, out.len() as int) == first_some(checks, i as int, out.len() as int),
            sale_line_views(lines@) == Seq::new(i as nat, |j: int| sale_line(sv, *content, out[j])),
            total@ == sale_lines_total(sale_line_views(lines@)),
        decreases normalized@.len() - i,
    {
        let selection = &normalized[i];
        assert(out[i as int] == selection@);
        let ghost before = sale_line_views(lines@);
        let k = match find_by_key(configs, selection.animal_id.as_str()) {
            Some(k) => k,
            None => {
                proof {
                    assert(checks(i as int) == Some(DomainErrorView::UnknownAnimal(selection.animal_id@)));
                    assert(first_some(checks, i as int, out.len() as int) == checks(i as int));
                }
                return Err(DomainError::UnknownAnimal(selection.animal_id.to_string()));
            },
        };
        let config = &configs[k];
        let animal = &animals[k];
        assert(animal@ == sv.animals[k as int]);
        if animal.count.as_biguint().lt(selection.quantity.as_biguint()) {
            proof {
                assert(checks(i as int) == Some(DomainErrorView::SaleQuantityExceedsOwned(selection.animal_id@)));
                assert(first_some(checks, i as int, out.len() as int) == checks(i as int));
            }
            return Err(DomainError::SaleQuantityExceedsOwned(selection.animal_id.to_string()));
        }
        proof {
            assert(checks(i as int) is None);
            lemma_first_some_step(checks, i as int, out.len() as int);
        }
        let sells_entire_group = selection.quantity.as_biguint().eq(animal.count.as_biguint());
        let sold_growth = if sells_entire_group {
            animal.total_growth_cent.as_biguint().copy()
        } else {
            animal.total_growth_cent.as_biguint().mul(selection.quantity.as_biguint()).div(
                animal.count.as_biguint(),
            )
        };
        let coins = selection.quantity.as_biguint().mul(config.zero_growth_sell_price_coins.as_biguint()).add(
            &sold_growth.div(&hundred),
        );
        total = total.add(&coins);
        lines.push(
            SaleLine {
                animal_id: selection.animal_id.copy(),
                quantity: selection.quantity.copy(),
                sold_growth_cent: GrowthCent::from_biguint(sold_growth),
                coins: Coins::from_biguint(coins),
                sells_entire_group,
            },
        );
        proof {
            assert(sale_line_views(lines@) =~= before.push(sale_line(sv, *content, out[i as int])));
            assert(sale_line_views(lines@).drop_last() =~= before);
            assert(sale_line_views(lines@) =~= Seq::new(
                (i + 1) as nat,
                |j: int| sale_line(sv, *content, out[j]),
            ));
        }
        i = i + 1;
    }
    proof {
        crate::error::lemma_first_some_none_iff(checks, out.len() as int, out.len() as int);
    }
    let quote = SaleQuote { lines, total_coins: Coins::from_biguint(total) };
    assert(quote@.lines =~= sale_line_views(quote.lines@));
    Ok(quote)
}

/// What a successful sale quote guarantees of its lines: species strictly in id order,
/// at most the owned count of each, at least one animal each, and a valid state.
pub open spec fn sale_lines_sound(s: GameView, c: ContentConfig, ls: Seq<SaleLineView>) -> bool {
    &&& forall|i: int, j: int| 0 <= i < j < ls.len() ==> seq_less(#[trigger] ls[i].animal_id, #[trigger] ls[j].animal_id)
    &&& forall|i: int|
        0 <= i < ls.len() ==> {
            let k = key_index(c.animal_seq(), (#[trigger] ls[i]).animal_id);
            &&& has_key(c.animal_seq(), ls[i].animal_id)
            &&& 0 < ls[i].quantity <= s.animals[k].count
            &&& ls[i].sold_growth_cent == sold_growth(s.animals[k], ls[i].quantity)
            &&& ls[i].sells_entire_group == (ls[i].quantity == s.animals[k].count)
        }
}

proof fn lemma_sale_quote_lines(s: GameView, c: ContentConfig, sels: Seq<SaleSelectionView>)
    requires
        sale_quote(s, c, sels) is Ok,
    ensures
        state_valid(s, c),
        sale_lines_sound(s, c, sale_quote(s, c, sels)->Ok_0.lines),
{
    let q = sale_quote(s, c, sels)->Ok_0;
    let out = sale_normalized(sels);
    let g = |i: int| if is_dup_at(sels, i) { Some(i) } else { None };
    crate::error::lemma_first_some_none_all(g, 0, sels.len() as int);
    assert forall|i: int| 0 <= i < sels.len() implies !is_dup_at(sels, i) by {
        assert(g(i) is None);
    }
    lemma_sort_by_key(sels);
    crate::keyed::lemma_filter_increasing(sort_by_key(sels), sale_has_quantity());
    crate::error::lemma_first_some_none_all(sale_line_checks(s, c, out), 0, out.len() as int);
    assert forall|i: int| 0 <= i < q.lines.len() implies {
        let k = key_index(c.animal_seq(), (#[trigger] q.lines[i]).animal_id);
        &&& has_key(c.animal_seq(), q.lines[i].animal_id)
        &&& 0 < q.lines[i].quantity <= s.animals[k].count
        &&& q.lines[i].sold_growth_cent == sold_growth(s.animals[k], q.lines[i].quantity)
        &&& q.lines[i].sells_entire_group == (q.lines[i].quantity == s.animals[k].count)
    } by {
        assert(out.contains(out[i]));
        assert(sale_line_checks(s, c, out)(i) is None);
    }
    assert forall|i: int, j: int| 0 <= i < j < q.lines.len() implies seq_less(
        #[trigger] q.lines[i].animal_id,
        #[trigger] q.lines[j].animal_id,
    ) by {
        assert(keys_increasing(out));
        assert(seq_less(out[i].key(), out[j].key()));
    }
}

/// Group `a` of species `id` after the sale lines.
pub open spec fn animal_after_lines(a: AnimalStateView, id: Seq<char>, lines: Seq<SaleLineView>) -> AnimalStateView
    decreases lines.len(),
{
    if lines.len() == 0 {
        a
    } else {
        let prev = animal_after_lines(a, id, lines.drop_last());
        if lines.last().animal_id == id {
            after_sale(prev, lines.last().quantity)
        } else {
            prev
        }
    }
}

/// The state after a quoted sale: the animals sold leave their groups and the coins are paid.
pub open spec fn sale_applied(s: GameView, q: SaleQuoteView) -> GameView {
    GameView {
        coins: s.coins + q.total_coins,
        animals: Seq::new(
            s.animals.len(),
            |i: int| animal_after_lines(s.animals[i], s.animal_ids[i], q.lines),
        ),
        ..s
    }
}

/// Lines that do not name a species leave its group as it is.
proof fn lemma_after_lines_untouched(a: AnimalStateView, id: Seq<char>, lines: Seq<SaleLineView>)
    requires
        forall|m: int| 0 <= m < lines.len() ==> (#[trigger] lines[m]).animal_id != id,
    ensures
        animal_after_lines(a, id, lines) == a,
    decreases lines.len(),
{
    if lines.len() > 0 {
        let d = lines.drop_last();
        assert forall|m: int| 0 <= m < d.len() implies (#[trigger] d[m]).animal_id != id by {
            assert(d[m] == lines[m]);
        }
        lemma_after_lines_untouched(a, id, d);
        assert(lines[lines.len() - 1].animal_id != id);
    }
}

pub struct SaleReceiptView {
    pub quote: SaleQuoteView,
}

impl View for SaleReceipt {
    type V = SaleReceiptView;

    open spec fn view(&self) -> SaleReceiptView {
        SaleReceiptView { quote: self.quote@ }
    }
}

/// Quotes a sale and commits it as one step: the animals leave their groups, taking the
/// growth the quote priced, and the coins are paid.
#[verifier::loop_isolation(false)]
pub fn apply_sale_batch(state: &GameState, content: &ContentConfig, selections: &[SaleSelection]) -> (r:
    Result<Transition<SaleReceipt>, DomainError>)
    ensures
        match sale_quote(state@, *content, sale_selection_views(selections@)) {
            Err(e) => r matches Err(x) && x@ == e,
            Ok(q) => r matches Ok(t) && t.state@ == sale_applied(state@, q) && state_valid(t.state@, *content)
                && t.outcome@.quote == q && t.events@.len() == 1 && t.events@[0]@
                == DomainEventView::AnimalsSoldBatch(q),
        },
{
    let quote = match quote_sale_batch(state, content, selections) {
        Ok(q) => q,
        Err(e) => {
            return Err(e);
        },
    };
    let ghost sv = state@;
    let ghost sels = sale_selection_views(selections@);
    let ghost ls = quote@.lines;
    proof {
        use_type_invariant(state);
        use_type_invariant(content);
        lemma_sale_quote_lines(sv, *content, sels);
        lemma_state_valid(sv, *content);
        crate::state::lemma_key_view_facts(content.animal_seq());
    }
    let configs = content.animals();
    let mut animal_vals = state.animal_values();
    let lines = &quote.lines;
    let mut i: usize = 0;
    proof {
        assert(ls.take(0) =~= Seq::<SaleLineView>::empty());
        assert(animal_views(animal_vals@) =~= Seq::new(
            sv.animals.len(),
            |j: int| animal_after_lines(sv.animals[j], sv.animal_ids[j], ls.take(0)),
        ));
    }
    while i < lines.len()
        invariant
            i <= ls.len(),
            ls == sale_line_views(lines@),
            animal_views(animal_vals@) == Seq::new(
                sv.animals.len(),
                |j: int| animal_after_lines(sv.animals[j], sv.animal_ids[j], ls.take(i as int)),
            ),
        decreases ls.len() - i,
    {
        let line = &lines[i];
        assert(ls[i as int] == line@);
        let ghost t0 = ls.take(i as int);
        let ghost t1 = ls.take(i as int + 1);
        assert(t1.drop_last() =~= t0);
        let ghost old_views = animal_views(animal_vals@);
        let k = match find_by_key(configs, line.animal_id.as_str()) {
            Some(k) => k,
            None => 0,
        };
        let ghost a0 = sv.animals[k as int];
        proof {
            assert(has_key(content.animal_seq(), line.animal_id@));
            assert(k == key_index(content.animal_seq(), line.animal_id@));
            assert(old_views[k as int] == animal_after_lines(sv.animals[k as int], sv.animal_ids[k as int], t0));
            assert(sv.animal_ids[k as int] == line.animal_id@);
            assert forall|m: int| 0 <= m < t0.len() implies (#[trigger] t0[m]).animal_id != line.animal_id@ by {
                assert(t0[m] == ls[m]);
                assert(seq_less(ls[m].animal_id, ls[i as int].animal_id));
                crate::keyed::lemma_seq_less_irreflexive(ls[i as int].animal_id);
            }
            lemma_after_lines_untouched(a0, line.animal_id@, t0);
            lemma_sold_growth_bounded(a0, line@.quantity);
        }
        let a = &animal_vals[k];
        assert(a@ == old_views[k as int]);
        assert(a@ == a0);
        let remaining = a.count.as_biguint().sub(line.quantity.as_biguint());
        let na = if line.sells_entire_group {
            AnimalState {
                count: EntityCount::from_biguint(remaining),
                total_growth_cent: GrowthCent::zero(),
                feeding_progress: FeedingProgress::default(),
                lifetime_paid_purchase_count: a.lifetime_paid_purchase_count.copy(),
            }
        } else {
            AnimalState {
                count: EntityCount::from_biguint(remaining),
                total_growth_cent: GrowthCent::from_biguint(
                    a.total_growth_cent.as_biguint().sub(line.sold_growth_cent.as_biguint()),
                ),
                feeding_progress: a.feeding_progress,
                lifetime_paid_purchase_count: a.lifetime_paid_purchase_count.copy(),
            }
        };
        let ghost na_view = na@;
        animal_vals.set(k, na);
        proof {
            assert(na_view == after_sale(a0, line@.quantity));
            assert forall|j: int| 0 <= j < sv.animals.len() && j != k implies sv.animal_ids[j] != line.animal_id@ by {
                if sv.animal_ids[j] == line.animal_id@ {
                    crate::keyed::lemma_key_index_unique(content.animal_seq(), j);
                }
            }
            assert(t1.last() == line@);
            let target = Seq::new(
                sv.animals.len(),
                |j: int| animal_after_lines(sv.animals[j], sv.animal_ids[j], t1),
            );
            assert forall|j: int| 0 <= j < sv.animals.len() implies animal_views(animal_vals@)[j] == target[j] by {
                if j == k {
                    assert(animal_views(animal_vals@)[j] == na_view);
                } else {
                    assert(animal_views(animal_vals@)[j] == old_views[j]);
                    assert(old_views[j] == animal_after_lines(sv.animals[j], sv.animal_ids[j], t0));
                }
            }
            assert(animal_views(animal_vals@) =~= target);
        }
        i = i + 1;
    }
    proof {
        assert(ls.take(ls.len() as int) =~= ls);
    }
    assert(animal_vals@.len() == animal_views(animal_vals@).len());
    let next = state.rebuilt(
        Coins::from_biguint(state.wallet().coins.as_biguint().add(quote.total_coins.as_biguint())),
        state.plant_values(),
        animal_vals,
        state.collection_copy(),
    );
    proof {
        assert(next@ =~= sale_applied(sv, quote@));
        use_type_invariant(&next);
        law_sale_keeps_state_valid(sv, *content, sels);
    }
    match next.validate(content) {
        Err(e) => {
            return Err(DomainError::InvalidState(e));
        },
        Ok(()) => {},
    }
    let events = vec![DomainEvent::AnimalsSoldBatch(quote.copy())];
    Ok(Transition { state: next, outcome: SaleReceipt { quote }, events })
}

/// A committed sale leaves a valid state valid.
pub proof fn law_sale_keeps_state_valid(s: GameView, c: ContentConfig, sels: Seq<SaleSelectionView>)
    requires
        c.wf(),
        game_view_shape(s),
        sale_quote(s, c, sels) is Ok,
    ensures
        state_valid(sale_applied(s, sale_quote(s, c, sels)->Ok_0), c),
{
    lemma_sale_quote_lines(s, c, sels);
    lemma_state_valid(s, c);
    let q = sale_quote(s, c, sels)->Ok_0;
    let ls = q.lines;
    let t = sale_applied(s, q);
    crate::state::lemma_key_view_facts(c.animal_seq());
    assert forall|i: int| 0 <= i < t.animals.len() implies (#[trigger] animal_state_check(t, c.animal_seq(), i)) is None by {
        assert(animal_state_check(s, c.animal_seq(), i) is None);
        let id = s.animal_ids[i];
        let a = s.animals[i];
        if exists|m: int| 0 <= m < ls.len() && (#[trigger] ls[m]).animal_id == id {
            let m = choose|m: int| 0 <= m < ls.len() && (#[trigger] ls[m]).animal_id == id;
            assert forall|m2: int| 0 <= m2 < ls.len() && m2 != m implies (#[trigger] ls[m2]).animal_id != id by {
                if m2 < m {
                    assert(seq_less(ls[m2].animal_id, ls[m].animal_id));
                } else {
                    assert(seq_less(ls[m].animal_id, ls[m2].animal_id));
                }
                crate::keyed::lemma_seq_less_irreflexive(id);
            }
            lemma_after_lines_one(a, id, ls, m);
            assert(c.animal_seq()[i].key() == id);
            crate::keyed::lemma_key_index_unique(c.animal_seq(), i);
            lemma_sold_growth_bounded(a, ls[m].quantity);
        } else {
            lemma_after_lines_untouched(a, id, ls);
        }
    }
    assert forall|j: int| 0 <= j < t.plants.len() implies (#[trigger] plant_state_check(t, j)) is None by {
        assert(plant_state_check(s, j) is None);
    }
    lemma_state_valid_intro(t, c);
}

/// With exactly one line naming a species, its group ends as that one sale leaves it.
proof fn lemma_after_lines_one(a: AnimalStateView, id: Seq<char>, lines: Seq<SaleLineView>, m: int)
    requires
        0 <= m < lines.len(),
        lines[m].animal_id == id,
        forall|m2: int| 0 <= m2 < lines.len() && m2 != m ==> (#[trigger] lines[m2]).animal_id != id,
    ensures
        animal_after_lines(a, id, lines) == after_sale(a, lines[m].quantity),
    decreases lines.len(),
{
    let d = lines.drop_last();
    if m == lines.len() - 1 {
        assert forall|m2: int| 0 <= m2 < d.len() implies (#[trigger] d[m2]).animal_id != id by {
            assert(d[m2] == lines[m2]);
        }
        lemma_after_lines_untouched(a, id, d);
    } else {
        assert forall|m2: int| 0 <= m2 < d.len() && m2 != m implies (#[trigger] d[m2]).animal_id != id by {
            assert(d[m2] == lines[m2]);
        }
        assert(d[m] == lines[m]);
        lemma_after_lines_one(a, id, d, m);
        assert(lines[lines.len() - 1].animal_id != id);
    }
}

/// A sale moves growth out of a group without creating or losing any: what stays plus
/// what is sold is what the group had.
pub proof fn law_sale_conserves_growth(a: AnimalStateView, q: nat)
    requires
        0 < q <= a.count,
    ensures
        after_sale(a, q).growth_cent + sold_growth(a, q) == a.growth_cent,
        after_sale(a, q).count + q == a.count,
{
    lemma_sold_growth_bounded(a, q);
}

/// `floor(x / m) <= floor(y / n)` whenever `x * n <= y * m`.
proof fn lemma_floor_ratio(x: nat, m: nat, y: nat, n: nat)
    requires
        m > 0,
        n > 0,
        x * n <= y * m,
    ensures
        x / m <= y / n,
{
    let f = x / m;
    vstd::arithmetic::div_mod::lemma_fundamental_div_mod(x as int, m as int);
    assert(f * m <= x) by (nonlinear_arith)
        requires
            x == m * f + x % m,
            x % m >= 0,
    ;
    assert(f * m * n <= x * n) by (nonlinear_arith)
        requires
            f * m <= x,
            n > 0,
    ;
    assert(f * n <= y) by (nonlinear_arith)
        requires
            f * m * n <= y * m,
            m > 0,
    ;
    vstd::arithmetic::div_mod::lemma_div_is_ordered((f * n) as int, y as int, n as int);
    vstd::arithmetic::div_mod::lemma_div_multiples_vanish(f as int, n as int);
    assert(f * n == n * f) by (nonlinear_arith);
}

/// Splitting a sale never sells more growth: selling `q1` animals and then `q2` more
/// takes at most the growth of selling `q1 + q2` at once.
proof fn lemma_split_sold_growth(a: AnimalStateView, q1: nat, q2: nat)
    requires
        0 < q1,
        0 < q2,
        q1 + q2 <= a.count,
    ensures
        sold_growth(a, q1) + sold_growth(after_sale(a, q1), q2) <= sold_growth(a, q1 + q2),
{
    let n = a.count;
    let g = a.growth_cent;
    let s1 = sold_growth(a, q1);
    assert(q1 != n);
    assert(s1 == g * q1 / n);
    lemma_sold_growth_bounded(a, q1);
    let a1 = after_sale(a, q1);
    let m = (n - q1) as nat;
    assert(a1.count == m);
    assert(a1.growth_cent == g - s1);
    if q2 == m {
        assert(sold_growth(a1, q2) == g - s1);
        assert(q1 + q2 == n);
    } else {
        let r = (g * q1) % n;
        vstd::arithmetic::div_mod::lemma_fundamental_div_mod((g * q1) as int, n as int);
        assert(g * q1 == n * s1 + r);
        let x = ((g - s1) * q2) as nat;
        let y = (r + g * q2) as nat;
        assert(x * n <= y * m) by (nonlinear_arith)
            requires
                g * q1 == n * s1 + r,
                0 <= r,
                q2 <= m,
                m == n - q1,
                s1 <= g,
                x == (g - s1) * q2,
                y == r + g * q2,
        ;
        lemma_floor_ratio(x, m, y, n);
        assert(sold_growth(a1, q2) == x / m);
        assert(g * (q1 + q2) == n * s1 + y) by (nonlinear_arith)
            requires
                g * q1 == n * s1 + r,
                y == r + g * q2,
        ;
        vstd::arithmetic::div_mod::lemma_fundamental_div_mod(y as int, n as int);
        let yq = y / n;
        let yr = y % n;
        assert(g * (q1 + q2) == (s1 + yq) * n + yr) by (nonlinear_arith)
            requires
                g * (q1 + q2) == n * s1 + y,
                y == n * yq + yr,
        ;
        vstd::arithmetic::div_mod::lemma_fundamental_div_mod_converse(
            (g * (q1 + q2)) as int,
            n as int,
            (s1 + y / n) as int,
            (y % n) as int,
        );
        assert(sold_growth(a, q1 + q2) == g * (q1 + q2) / n);
    }
}

/// Selling a group's animals in two sales never pays more than selling them in one:
/// the zero-growth prices add up, and the rounded-down growth coins of two sales are at
/// most those of one.
pub proof fn law_split_sale_pays_no_more(a: AnimalStateView, cfg: AnimalConfig, q1: nat, q2: nat)
    requires
        0 < q1,
        0 < q2,
        q1 + q2 <= a.count,
    ensures
        sale_coins(a, cfg, q1) + sale_coins(after_sale(a, q1), cfg, q2) <= sale_coins(a, cfg, q1 + q2),
{
    lemma_split_sold_growth(a, q1, q2);
    let s1 = sold_growth(a, q1);
    let s2 = sold_growth(after_sale(a, q1), q2);
    let s = sold_growth(a, q1 + q2);
    vstd::arithmetic::div_mod::lemma_fundamental_div_mod(s1 as int, 100);
    vstd::arithmetic::div_mod::lemma_fundamental_div_mod(s2 as int, 100);
    vstd::arithmetic::div_mod::lemma_fundamental_div_mod((s1 + s2) as int, 100);
    assert(s1 / 100 + s2 / 100 <= (s1 + s2) / 100);
    vstd::arithmetic::div_mod::lemma_div_is_ordered((s1 + s2) as int, s as int, 100);
    let p = cfg.zero_growth_sell_price_coins@;
    assert(q1 * p + q2 * p == (q1 + q2) * p) by (nonlinear_arith);
}

/// Coins paid for selling `k` animals of group `a` one at a time.
pub open spec fn unit_sales_coins(a: AnimalStateView, cfg: AnimalConfig, k: nat) -> nat
    decreases k,
{
    if k == 0 {
        0
    } else {
        sale_coins(a, cfg, 1) + unit_sales_coins(after_sale(a, 1), cfg, (k - 1) as nat)
    }
}

/// Group `a` after selling `k` of its animals one at a time.
pub open spec fn after_unit_sales(a: AnimalStateView, k: nat) -> AnimalStateView
    decreases k,
{
    if k == 0 {
        a
    } else {
        after_unit_sales(after_sale(a, 1), (k - 1) as nat)
    }
}

/// Selling animals one at a time never pays more than selling them together, and selling
/// a whole group one at a time leaves no growth behind.
pub proof fn law_unit_sales_pay_no_more(a: AnimalStateView, cfg: AnimalConfig, k: nat)
    requires
        0 < k <= a.count,
    ensures
        unit_sales_coins(a, cfg, k) <= sale_coins(a, cfg, k),
        k == a.count ==> after_unit_sales(a, k).growth_cent == 0,
    decreases k,
{
    let a1 = after_sale(a, 1);
    if k == 1 {
        assert(unit_sales_coins(a1, cfg, 0) == 0);
        assert(after_unit_sales(a1, 0) == a1);
    } else {
        assert(a1.count == a.count - 1);
        law_unit_sales_pay_no_more(a1, cfg, (k - 1) as nat);
        law_split_sale_pays_no_more(a, cfg, 1, (k - 1) as nat);
    }
}

/// Every line of a sale quote pays the zero-growth price of each animal sold plus one
/// coin per hundred cents of the growth it takes, whether or not it empties the group.
/// The growth taken is the group's share for the animals sold, rounded down, and all of
/// it when the whole group goes; the quote's total is the sum of its lines.
pub proof fn law_sale_line_pays_price_and_growth(s: GameView, c: ContentConfig, sels: Seq<SaleSelectionView>)
    requires
        sale_quote(s, c, sels) is Ok,
    ensures
        ({
            let q = sale_quote(s, c, sels)->Ok_0;
            &&& forall|i: int|
                0 <= i < q.lines.len() ==> {
                    let l = #[trigger] q.lines[i];
                    let k = key_index(c.animal_seq(), l.animal_id);
                    let a = s.animals[k];
                    &&& l.coins == l.quantity * c.animal_seq()[k].zero_growth_sell_price_coins@ + l.sold_growth_cent
                        / 100
                    &&& 0 < l.quantity <= a.count
                    &&& l.sold_growth_cent * a.count <= a.growth_cent * l.quantity
                    &&& a.growth_cent * l.quantity < (l.sold_growth_cent + 1) * a.count
                    &&& l.sells_entire_group == (l.quantity == a.count)
                    &&& l.sells_entire_group ==> l.sold_growth_cent == a.growth_cent
                }
            &&& q.total_coins == sale_lines_total(q.lines)
        }),
{
    lemma_sale_quote_lines(s, c, sels);
    let q = sale_quote(s, c, sels)->Ok_0;
    assert forall|i: int| 0 <= i < q.lines.len() implies {
        let l = #[trigger] q.lines[i];
        let k = key_index(c.animal_seq(), l.animal_id);
        let a = s.animals[k];
        &&& l.coins == l.quantity * c.animal_seq()[k].zero_growth_sell_price_coins@ + l.sold_growth_cent / 100
        &&& 0 < l.quantity <= a.count
        &&& l.sold_growth_cent * a.count <= a.growth_cent * l.quantity
        &&& a.growth_cent * l.quantity < (l.sold_growth_cent + 1) * a.count
        &&& l.sells_entire_group == (l.quantity == a.count)
        &&& l.sells_entire_group ==> l.sold_growth_cent == a.growth_cent
    } by {
        let l = q.lines[i];
        let k = key_index(c.animal_seq(), l.animal_id);
        let a = s.animals[k];
        let g = a.growth_cent;
        let n = a.count;
        let m = l.quantity;
        let sg = l.sold_growth_cent;
        if m == n {
            assert(sg == g);
            assert(sg * n <= g * m && g * m < (sg + 1) * n) by (nonlinear_arith)
                requires
                    sg == g,
                    m == n,
                    n > 0,
            ;
        } else {
            assert(sg == g * m / n);
            assert(sg * n <= g * m && g * m < (sg + 1) * n) by (nonlinear_arith)
                requires
                    sg == g * m / n,
                    n > 0,
            ;
        }
    }
}

} // verus!

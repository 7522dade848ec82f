//! Feeding from effective inputs.
use crate::amount::{GrowthCent, StockCent};
use crate::bignat::BigNat;
use crate::config::{
    find_by_key, food_index, lemma_pairing, pair_index, AnimalConfig, ContentConfig,
};
use crate::error::{DomainError, DomainErrorView};
use crate::event::{DomainEvent, DomainEventView};
use crate::ids::{AnimalId, PlantId};
use crate::keyed::{Keyed, SortKey};
use crate::state::{
    animal_state_check, lemma_state_valid, lemma_state_valid_intro, plant_state_check, state_check,
    state_valid, AnimalState, AnimalStateView, game_view_shape, FeedingProgress, GameState,
    GameView, PlantState, PlantStateView, Transition,
};
use vstd::prelude::*;

verus! {

#[derive(Clone, Debug, PartialEq, Eq)]
pub struct FeedingSettlement {
    pub animal_id: AnimalId,
    pub food_plant_id: PlantId,
    pub attempts: BigNat,
    pub successful_attempts: BigNat,
    pub failed_attempts: BigNat,
    pub consumed_cent: StockCent,
    pub growth_added_cent: GrowthCent,
    pub resulting_progress: FeedingProgress,
}

#[derive(Clone, Debug, PartialEq, Eq)]
pub struct InputSettlement {
    pub effective_input_count: BigNat,
    pub feeding: Vec<FeedingSettlement>,
}

pub struct FeedingSettlementView {
    pub animal_id: Seq<char>,
    pub food_plant_id: Seq<char>,
    pub attempts: nat,
    pub successful_attempts: nat,
    pub failed_attempts: nat,
    pub consumed_cent: nat,
    pub growth_added_cent: nat,
    pub resulting_progress: u8,
}

pub struct InputSettlementView {
    pub effective_input_count: nat,
    pub feeding: Seq<FeedingSettlementView>,
}

impl View for FeedingSettlement {
    type V = FeedingSettlementView;

    open spec fn view(&self) -> FeedingSettlementView {
        FeedingSettlementView {
            animal_id: self.animal_id@,
            food_plant_id: self.food_plant_id@,
            attempts: self.attempts@,
            successful_attempts: self.successful_attempts@,
            failed_attempts: self.failed_attempts@,
            consumed_cent: self.consumed_cent@,
            growth_added_cent: self.growth_added_cent@,
            resulting_progress: self.resulting_progress@,
        }
    }
}

impl View for InputSettlement {
    type V = InputSettlementView;

    open spec fn view(&self) -> InputSettlementView {
        InputSettlementView {
            effective_input_count: self.effective_input_count@,
            feeding: Seq::new(self.feeding@.len(), |i: int| self.feeding@[i]@),
        }
    }
}

impl FeedingSettlement {
    pub fn copy(&self) -> (r: Self)
        ensures
            r@ == self@,
    {
        FeedingSettlement {
            animal_id: self.animal_id.copy(),
            food_plant_id: self.food_plant_id.copy(),
            attempts: self.attempts.copy(),
            successful_attempts: self.successful_attempts.copy(),
            failed_attempts: self.failed_attempts.copy(),
            consumed_cent: self.consumed_cent.copy(),
            growth_added_cent: self.growth_added_cent.copy(),
            resulting_progress: self.resulting_progress,
        }
    }
}

impl InputSettlement {
    pub fn copy(&self) -> (r: Self)
        ensures
            r@ == self@,
    {
        let mut feeding: Vec<FeedingSettlement> = Vec::new();
        let mut i: usize = 0;
        while i < self.feeding.len()
            invariant
                i <= self.feeding@.len(),
                feeding@.len() == i,
                forall|j: int| 0 <= j < i ==> #[trigger] feeding@[j]@ == self.feeding@[j]@,
            decreases self.feeding@.len() - i,
        {
            feeding.push(self.feeding[i].copy());
            i = i + 1;
        }
        let r = InputSettlement { effective_input_count: self.effective_input_count.copy(), feeding };
        assert(r@.feeding =~= self@.feeding);
        r
    }
}

/// What one animal group's feeding over a number of effective inputs amounts to.
pub struct Feeding {
    pub attempts: nat,
    pub successful: nat,
    pub failed: nat,
    pub transferred: nat,
    pub progress: nat,
}

/// Feeding of group `a` of species `cfg` over `count` inputs, with `food_stock` cents of
/// its food plant on hand. Every `feeding_threshold` inputs make one attempt; an attempt
/// takes `count * bite_cent` cents, and attempts succeed while the stock lasts.
pub open spec fn feeding(a: AnimalStateView, cfg: AnimalConfig, food_stock: nat, count: nat) -> Feeding {
    let total = a.progress as nat + count;
    let threshold = cfg.feeding_threshold as nat;
    let attempts = total / threshold;
    let per = a.count * cfg.bite_cent@;
    let affordable = if per == 0 {
        0
    } else {
        food_stock / per
    };
    let successful = if attempts <= affordable {
        attempts
    } else {
        affordable
    };
    Feeding {
        attempts,
        successful,
        failed: (attempts - successful) as nat,
        transferred: successful * per,
        progress: total % threshold,
    }
}

/// The feeding of animal species `i` in state `s`.
pub open spec fn animal_feeding(s: GameView, c: ContentConfig, count: nat, i: int) -> Feeding {
    feeding(s.animals[i], c.animal_seq()[i], s.plants[food_index(c, i)].stock_cent, count)
}

/// Animal group `i` after feeding; a species with no animals is left as it is.
pub open spec fn fed_animal(s: GameView, c: ContentConfig, count: nat, i: int) -> AnimalStateView {
    let a = s.animals[i];
    if a.count == 0 {
        a
    } else {
        let f = animal_feeding(s, c, count, i);
        AnimalStateView { growth_cent: a.growth_cent + f.transferred, progress: f.progress as u8, ..a }
    }
}

/// Plant group `j` after its paired animals have eaten.
pub open spec fn fed_plant(s: GameView, c: ContentConfig, count: nat, j: int) -> PlantStateView {
    let p = s.plants[j];
    let k = pair_index(c, j);
    if s.animals[k].count == 0 {
        p
    } else {
        PlantStateView {
            stock_cent: (p.stock_cent - animal_feeding(s, c, count, k).transferred) as nat,
            ..p
        }
    }
}

/// The state after `count` effective inputs with no production between them.
pub open spec fn fed_view(s: GameView, c: ContentConfig, count: nat) -> GameView {
    GameView {
        plants: Seq::new(s.plants.len(), |j: int| fed_plant(s, c, count, j)),
        animals: Seq::new(s.animals.len(), |i: int| fed_animal(s, c, count, i)),
        ..s
    }
}

/// The receipt line of animal species `i`.
pub open spec fn feeding_line(s: GameView, c: ContentConfig, count: nat, i: int) -> FeedingSettlementView {
    let f = animal_feeding(s, c, count, i);
    FeedingSettlementView {
        animal_id: c.animal_seq()[i].id@,
        food_plant_id: c.animal_seq()[i].food_plant_id@,
        attempts: f.attempts,
        successful_attempts: f.successful,
        failed_attempts: f.failed,
        consumed_cent: f.transferred,
        growth_added_cent: f.transferred,
        resulting_progress: f.progress as u8,
    }
}

/// Receipt lines of the first `n` animal species, skipping those with no animals.
pub open spec fn feeding_lines(s: GameView, c: ContentConfig, count: nat, n: int) -> Seq<FeedingSettlementView>
    decreases n,
{
    if n <= 0 {
        Seq::empty()
    } else if s.animals[n - 1].count == 0 {
        feeding_lines(s, c, count, n - 1)
    } else {
        feeding_lines(s, c, count, n - 1).push(feeding_line(s, c, count, n - 1))
    }
}

/// The receipt of `apply_effective_inputs`.
pub open spec fn input_settlement_view(s: GameView, c: ContentConfig, count: nat) -> InputSettlementView {
    InputSettlementView {
        effective_input_count: count,
        feeding: feeding_lines(s, c, count, s.animals.len() as int),
    }
}

/// The successful attempts never take more than the stock.
proof fn lemma_transfer_bounded(a: AnimalStateView, cfg: AnimalConfig, food_stock: nat, count: nat)
    requires
        cfg.feeding_threshold > 0,
    ensures
        feeding(a, cfg, food_stock, count).transferred <= food_stock,
        feeding(a, cfg, food_stock, count).successful <= feeding(a, cfg, food_stock, count).attempts,
        feeding(a, cfg, food_stock, count).progress < cfg.feeding_threshold,
{
    let f = feeding(a, cfg, food_stock, count);
    let per = a.count * cfg.bite_cent@;
    if per != 0 {
        let q = food_stock / per;
        assert(f.successful <= q);
        assert(f.successful * per <= q * per) by (nonlinear_arith)
            requires
                f.successful <= q,
        ;
        vstd::arithmetic::div_mod::lemma_fundamental_div_mod(food_stock as int, per as int);
        assert(q * per <= food_stock) by (nonlinear_arith)
            requires
                q == food_stock / per,
                per > 0,
                food_stock == per * (food_stock / per) + food_stock % per,
                food_stock % per >= 0,
        ;
    } else {
        assert(f.transferred == f.successful * per);
        assert(f.successful * 0 == 0);
    }
}

/// The views of a sequence of receipt lines.
pub open spec fn line_views(s: Seq<FeedingSettlement>) -> Seq<FeedingSettlementView> {
    Seq::new(s.len(), |i: int| s[i]@)
}

/// Feeding keeps a valid state valid.
pub proof fn law_feeding_keeps_state_valid(s: GameView, c: ContentConfig, count: nat)
    requires
        c.wf(),
        game_view_shape(s),
        state_valid(s, c),
    ensures
        game_view_shape(fed_view(s, c, count)),
        state_valid(fed_view(s, c, count), c),
{
    lemma_state_valid(s, c);
    lemma_pairing(c);
    let nv = fed_view(s, c, count);
    assert forall|j: int| 0 <= j < nv.plants.len() implies (#[trigger] plant_state_check(nv, j)) is None by {
        assert(plant_state_check(s, j) is None);
        let k = pair_index(c, j);
        lemma_transfer_bounded(s.animals[k], c.animal_seq()[k], s.plants[j].stock_cent, count);
    }
    assert forall|i: int| 0 <= i < nv.animals.len() implies (#[trigger] animal_state_check(nv, c.animal_seq(), i)) is None by {
        assert(animal_state_check(s, c.animal_seq(), i) is None);
        lemma_transfer_bounded(s.animals[i], c.animal_seq()[i], s.plants[food_index(c, i)].stock_cent, count);
    }
    lemma_state_valid_intro(nv, c);
}

/// Applies a count of effective inputs with no production boundary between them.
///
/// Each animal species that has animals makes one feeding attempt per `feeding_threshold`
/// inputs, counting the progress it carried; the rest is carried on. An attempt takes
/// `count * bite_cent` cents of the food plant's stock into the group's growth, and
/// attempts succeed while the stock lasts. Applying a count at once is the same as
/// applying it in parts (`law_inputs_split`).
#[verifier::loop_isolation(false)]
pub fn apply_effective_inputs(state: &GameState, content: &ContentConfig, count: &BigNat) -> (r:
    Result<Transition<InputSettlement>, DomainError>)
    ensures
        match state_check(state@, *content) {
            Some(e) => r matches Err(x) && x@ == DomainErrorView::InvalidState(e),
            None => r matches Ok(t) && t.state@ == fed_view(state@, *content, count@)
                && state_valid(t.state@, *content)
                && t.outcome@ == input_settlement_view(state@, *content, count@)
                && t.events@.len() == 1 && t.events@[0]@ == DomainEventView::FeedingAttempted(t.outcome@),
        },
{
    match state.validate(content) {
        Err(e) => {
            return Err(DomainError::InvalidState(e));
        },
        Ok(()) => {},
    }
    proof {
        use_type_invariant(state);
        use_type_invariant(content);
        lemma_state_valid(state@, *content);
        lemma_pairing(*content);
    }
    let ghost sv = state@;
    let ghost c = *content;
    let ghost cnt = count@;
    let plant_configs = content.plants();
    let animal_configs = content.animals();
    let mut plant_vals = state.plant_values();
    let old_animals = state.animal_values();
    let m = old_animals.len();
    let ghost n = plant_vals@.len();
    let mut animal_vals: Vec<AnimalState> = Vec::new();
    let mut lines: Vec<FeedingSettlement> = Vec::new();
    let mut i: usize = 0;
    while i < m
        invariant
            i <= m,
            plant_vals@.len() == n,
            animal_vals@.len() == i,
            forall|k: int| 0 <= k < i ==> #[trigger] animal_vals@[k]@ == fed_animal(sv, c, cnt, k),
            forall|j: int|
                0 <= j < n ==> #[trigger] plant_vals@[j]@ == (if pair_index(c, j) < i {
                    fed_plant(sv, c, cnt, j)
                } else {
                    sv.plants[j]
                }),
            line_views(lines@) == feeding_lines(sv, c, cnt, i as int),
        decreases m - i,
    {
        let cfg = &animal_configs[i];
        let a = &old_animals[i];
        assert(a@ == sv.animals[i as int]);
        let ghost old_lines = line_views(lines@);
        if a.count.is_zero() {
            animal_vals.push(a.copy());
        } else {
            let ghost fi_spec = food_index(c, i as int);
            let fi = match find_by_key(plant_configs, cfg.food_plant_id.as_str()) {
                Some(x) => x,
                None => {
                    proof {
                        assert(plant_configs@[fi_spec].key() == cfg.food_plant_id@);
                    }
                    0
                },
            };
            assert(fi == fi_spec);
            let food = &plant_vals[fi];
            assert(food@ == sv.plants[fi_spec]);
            let ghost f = animal_feeding(sv, c, cnt, i as int);
            proof {
                lemma_transfer_bounded(sv.animals[i as int], c.animal_seq()[i as int], sv.plants[fi_spec].stock_cent, cnt);
            }
            let threshold = BigNat::from_u64(cfg.feeding_threshold as u64);
            let total = BigNat::from_u64(a.feeding_progress.value() as u64).add(count);
            let attempts = total.div(&threshold);
            let progress_big = total.rem(&threshold);
            let progress: u8 = match progress_big.to_u64() {
                Some(v) => v as u8,
                None => 0,
            };
            let per = a.count.as_biguint().mul(cfg.bite_cent.as_biguint());
            let affordable = if per.is_zero() {
                BigNat::zero()
            } else {
                food.stock_cent.as_biguint().div(&per)
            };
            let successful = if attempts.le(&affordable) {
                attempts.copy()
            } else {
                affordable
            };
            let failed = attempts.sub(&successful);
            let transferred = successful.mul(&per);
            let new_plant = PlantState {
                count: food.count.copy(),
                stock_cent: StockCent::from_biguint(food.stock_cent.as_biguint().sub(&transferred)),
                production_remainder_60: food.production_remainder_60,
            };
            plant_vals.set(fi, new_plant);
            animal_vals.push(
                AnimalState {
                    count: a.count.copy(),
                    total_growth_cent: GrowthCent::from_biguint(a.total_growth_cent.as_biguint().add(&transferred)),
                    feeding_progress: FeedingProgress::new_unchecked(progress),
                    lifetime_paid_purchase_count: a.lifetime_paid_purchase_count.copy(),
                },
            );
            lines.push(
                FeedingSettlement {
                    animal_id: cfg.id.copy(),
                    food_plant_id: cfg.food_plant_id.copy(),
                    attempts,
                    successful_attempts: successful,
                    failed_attempts: failed,
                    consumed_cent: StockCent::from_biguint(transferred.copy()),
                    growth_added_cent: GrowthCent::from_biguint(transferred),
                    resulting_progress: FeedingProgress::new_unchecked(progress),
                },
            );
            proof {
                assert(line_views(lines@) =~= old_lines.push(feeding_line(sv, c, cnt, i as int)));
            }
        }
        i = i + 1;
    }
    let next = state.rebuilt(
        state.wallet().coins.copy(),
        plant_vals,
        animal_vals,
        state.collection_copy(),
    );
    let outcome = InputSettlement { effective_input_count: count.copy(), feeding: lines };
    proof {
        assert(next@ =~= fed_view(sv, c, cnt));
        law_feeding_keeps_state_valid(sv, c, cnt);
        assert(outcome@.feeding =~= line_views(lines@));
    }
    let events = vec![DomainEvent::FeedingAttempted(outcome.copy())];
    Ok(Transition { state: next, outcome, events })
}

/// Feeding over `x` inputs and then `y` more takes what feeding over `x + y` takes, and
/// ends with the same progress.
proof fn lemma_feeding_split(
    a: AnimalStateView,
    cfg: AnimalConfig,
    stock: nat,
    x: nat,
    y: nat,
    a1: AnimalStateView,
)
    requires
        cfg.feeding_threshold > 0,
        a.count * cfg.bite_cent@ > 0,
        a1.count == a.count,
        a1.progress as nat == feeding(a, cfg, stock, x).progress,
    ensures
        feeding(a, cfg, stock, x).transferred <= stock,
        feeding(a, cfg, stock, x).transferred + feeding(
            a1,
            cfg,
            (stock - feeding(a, cfg, stock, x).transferred) as nat,
            y,
        ).transferred == feeding(a, cfg, stock, x + y).transferred,
        feeding(
            a1,
            cfg,
            (stock - feeding(a, cfg, stock, x).transferred) as nat,
            y,
        ).progress == feeding(a, cfg, stock, x + y).progress,
{
    let t = cfg.feeding_threshold as nat;
    let per = a.count * cfg.bite_cent@;
    let f1 = feeding(a, cfg, stock, x);
    lemma_transfer_bounded(a, cfg, stock, x);
    let s2 = (stock - f1.transferred) as nat;
    let f2 = feeding(a1, cfg, s2, y);
    let whole = feeding(a, cfg, stock, x + y);
    let total1 = a.progress as nat + x;
    crate::production::lemma_carry_split(total1, y, t);
    assert(a.progress as nat + (x + y) == total1 + y);
    assert(f2.attempts + f1.attempts == whole.attempts);
    let q = stock / per;
    vstd::arithmetic::div_mod::lemma_fundamental_div_mod(stock as int, per as int);
    let rr = stock % per;
    assert(s2 == per * (q - f1.successful) + rr) by (nonlinear_arith)
        requires
            stock == per * q + rr,
            f1.transferred == f1.successful * per,
            s2 == stock - f1.transferred,
    ;
    vstd::arithmetic::div_mod::lemma_fundamental_div_mod_converse(
        s2 as int,
        per as int,
        q - f1.successful,
        rr as int,
    );
    assert(f1.successful + f2.successful == whole.successful);
    assert(f1.successful * per + f2.successful * per == (f1.successful + f2.successful) * per)
        by (nonlinear_arith);
}

/// Applying `x` effective inputs and then `y` more, with no production between them, gives
/// the same state as applying `x + y` at once.
pub proof fn law_inputs_split(s: GameView, c: ContentConfig, x: nat, y: nat)
    requires
        c.wf(),
        game_view_shape(s),
        state_valid(s, c),
    ensures
        fed_view(fed_view(s, c, x), c, y) == fed_view(s, c, x + y),
{
    lemma_state_valid(s, c);
    lemma_pairing(c);
    let s1 = fed_view(s, c, x);
    let s2 = fed_view(s1, c, y);
    let w = fed_view(s, c, x + y);
    assert forall|i: int| 0 <= i < s.animals.len() implies s2.animals[i] == w.animals[i] by {
        let a = s.animals[i];
        if a.count != 0 {
            let cfg = c.animal_seq()[i];
            let fi = food_index(c, i);
            assert(cfg.bite_cent@ > 0);
            assert(a.count * cfg.bite_cent@ > 0) by (nonlinear_arith)
                requires
                    a.count > 0,
                    cfg.bite_cent@ > 0,
            ;
            lemma_transfer_bounded(a, cfg, s.plants[fi].stock_cent, x);
            assert(s1.plants[fi].stock_cent == s.plants[fi].stock_cent - feeding(a, cfg, s.plants[fi].stock_cent, x).transferred);
            lemma_feeding_split(a, cfg, s.plants[fi].stock_cent, x, y, s1.animals[i]);
        }
    }
    assert forall|j: int| 0 <= j < s.plants.len() implies s2.plants[j] == w.plants[j] by {
        let k = pair_index(c, j);
        let a = s.animals[k];
        if a.count != 0 {
            let cfg = c.animal_seq()[k];
            assert(cfg.bite_cent@ > 0);
            assert(a.count * cfg.bite_cent@ > 0) by (nonlinear_arith)
                requires
                    a.count > 0,
                    cfg.bite_cent@ > 0,
            ;
            lemma_transfer_bounded(a, cfg, s.plants[j].stock_cent, x);
            lemma_feeding_split(a, cfg, s.plants[j].stock_cent, x, y, s1.animals[k]);
        }
    }
    assert(s2.plants =~= w.plants);
    assert(s2.animals =~= w.animals);
    assert(s2 =~= w);
}

/// Feeding moves cents from a food plant's stock into its animals' growth one for one:
/// their sum is unchanged.
pub proof fn law_feeding_conserves_cents(s: GameView, c: ContentConfig, count: nat, i: int)
    requires
        c.wf(),
        game_view_shape(s),
        state_valid(s, c),
        0 <= i < s.animals.len(),
    ensures
        fed_view(s, c, count).plants[food_index(c, i)].stock_cent + fed_view(s, c, count).animals[i].growth_cent
            == s.plants[food_index(c, i)].stock_cent + s.animals[i].growth_cent,
{
    lemma_state_valid(s, c);
    lemma_pairing(c);
    let fi = food_index(c, i);
    lemma_transfer_bounded(s.animals[i], c.animal_seq()[i], s.plants[fi].stock_cent, count);
}

} // verus!

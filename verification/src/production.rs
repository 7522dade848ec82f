//! Plant production over productive time.
use crate::amount::StockCent;
use crate::bignat::BigNat;
use crate::config::{ContentConfig, PlantConfig};
use crate::error::{DomainError, DomainErrorView};
use crate::event::{DomainEvent, DomainEventView};
use crate::ids::PlantId;
use crate::state::{
    animal_state_check, lemma_state_valid, lemma_state_valid_intro, plant_state_check, plant_views,
    state_check, state_valid, GameState, GameView, PlantStateView,
    ProductionRemainder60, Transition,
};
use vstd::prelude::*;

verus! {

#[derive(Clone, Debug, PartialEq, Eq)]
pub struct PlantProduction {
    pub plant_id: PlantId,
    pub minted_cent: StockCent,
    pub resulting_remainder_60: ProductionRemainder60,
}

#[derive(Clone, Debug, PartialEq, Eq)]
pub struct ProductionSettlement {
    pub whole_seconds: BigNat,
    pub plants: Vec<PlantProduction>,
}

pub struct PlantProductionView {
    pub plant_id: Seq<char>,
    pub minted_cent: nat,
    pub remainder: u8,
}

pub struct ProductionSettlementView {
    pub whole_seconds: nat,
    pub plants: Seq<PlantProductionView>,
}

impl View for PlantProduction {
    type V = PlantProductionView;

    open spec fn view(&self) -> PlantProductionView {
        PlantProductionView {
            plant_id: self.plant_id@,
            minted_cent: self.minted_cent@,
            remainder: self.resulting_remainder_60@,
        }
    }
}

impl View for ProductionSettlement {
    type V = ProductionSettlementView;

    open spec fn view(&self) -> ProductionSettlementView {
        ProductionSettlementView {
            whole_seconds: self.whole_seconds@,
            plants: Seq::new(self.plants@.len(), |i: int| self.plants@[i]@),
        }
    }
}

impl ProductionSettlement {
    /// A copy of the settlement.
    pub fn copy(&self) -> (r: Self)
        ensures
            r@ == self@,
    {
        let mut plants: Vec<PlantProduction> = Vec::new();
        let mut i: usize = 0;
        while i < self.plants.len()
            invariant
                i <= self.plants@.len(),
                plants@.len() == i,
                forall|j: int| 0 <= j < i ==> #[trigger] plants@[j]@ == self.plants@[j]@,
            decreases self.plants@.len() - i,
        {
            let p = &self.plants[i];
            plants.push(
                PlantProduction {
                    plant_id: p.plant_id.copy(),
                    minted_cent: p.minted_cent.copy(),
                    resulting_remainder_60: p.resulting_remainder_60,
                },
            );
            i = i + 1;
        }
        let r = ProductionSettlement { whole_seconds: self.whole_seconds.copy(), plants };
        assert(r@.plants =~= self@.plants);
        r
    }
}

/// Sixtieths of a cent produced by a group over `secs` seconds, plus the carried remainder.
pub open spec fn production_numerator(p: PlantStateView, rate: nat, secs: nat) -> nat {
    p.remainder as nat + p.count * rate * secs
}

/// A plant group after `secs` productive seconds at `rate` cents per minute per plant.
pub open spec fn settled_plant(p: PlantStateView, rate: nat, secs: nat) -> PlantStateView {
    PlantStateView {
        count: p.count,
        stock_cent: p.stock_cent + production_numerator(p, rate, secs) / 60,
        remainder: (production_numerator(p, rate, secs) % 60) as u8,
    }
}

/// The state after `secs` productive seconds: every plant group produces; nothing else changes.
pub open spec fn settled_view(s: GameView, plants: Seq<PlantConfig>, secs: nat) -> GameView {
    GameView {
        plants: Seq::new(
            s.plants.len(),
            |i: int| settled_plant(s.plants[i], plants[i].rate_cent_per_minute@, secs),
        ),
        ..s
    }
}

/// The settlement record of `settle_production`.
pub open spec fn settlement_view(s: GameView, plants: Seq<PlantConfig>, secs: nat) -> ProductionSettlementView {
    ProductionSettlementView {
        whole_seconds: secs,
        plants: Seq::new(
            s.plants.len(),
            |i: int|
                PlantProductionView {
                    plant_id: plants[i].id@,
                    minted_cent: production_numerator(s.plants[i], plants[i].rate_cent_per_minute@, secs) / 60,
                    remainder: (production_numerator(s.plants[i], plants[i].rate_cent_per_minute@, secs) % 60) as u8,
                },
        ),
    }
}

/// Adds the production of `whole_seconds` productive seconds to every plant group: each
/// plant makes `rate_cent_per_minute` cents per minute, and the fraction of a cent that
/// does not yet fill a whole cent is carried in the remainder.
pub fn settle_production(state: &GameState, content: &ContentConfig, whole_seconds: &BigNat) -> (r:
    Result<Transition<ProductionSettlement>, DomainError>)
    ensures
        match state_check(state@, *content) {
            Some(e) => r matches Err(x) && x@ == DomainErrorView::InvalidState(e),
            None => r matches Ok(t) && t.state@ == settled_view(state@, content.plant_seq(), whole_seconds@)
                && state_valid(t.state@, *content)
                && t.outcome@ == settlement_view(state@, content.plant_seq(), whole_seconds@)
                && t.events@.len() == 1 && t.events@[0]@ == DomainEventView::ProductionSettled(t.outcome@),
        },
{
    match state.validate(content) {
        Err(e) => {
            return Err(DomainError::InvalidState(e));
        },
        Ok(()) => {},
    }
    proof {
        use_type_invariant(state);
        lemma_state_valid(state@, *content);
    }
    let configs = content.plants();
    let old_vals = state.plant_values();
    let n = old_vals.len();
    let sixty = BigNat::from_u64(60);
    let mut new_vals: Vec<crate::state::PlantState> = Vec::new();
    let mut settlements: Vec<PlantProduction> = Vec::new();
    let ghost sv = state@;
    let ghost secs = whole_seconds@;
    let mut i: usize = 0;
    while i < n
        invariant
            n == old_vals@.len(),
            plant_views(old_vals@) == sv.plants,
            configs@ == content.plant_seq(),
            configs@.len() == n,
            sixty@ == 60,
            secs == whole_seconds@,
            i <= n,
            new_vals@.len() == i,
            settlements@.len() == i,
            forall|j: int| 0 <= j < i ==> #[trigger] new_vals@[j]@ == settled_plant(sv.plants[j], configs@[j].rate_cent_per_minute@, secs),
            forall|j: int| 0 <= j < i ==> #[trigger] settlements@[j]@ == settlement_view(sv, configs@, secs).plants[j],
        decreases n - i,
    {
        let p = &old_vals[i];
        let config = &configs[i];
        assert(p@ == sv.plants[i as int]);
        let rem = BigNat::from_u64(p.production_remainder_60.value() as u64);
        let numerator = rem.add(
            &p.count.as_biguint().mul(config.rate_cent_per_minute.as_biguint()).mul(whole_seconds),
        );
        let minted = numerator.div(&sixty);
        let remainder_big = numerator.rem(&sixty);
        let remainder = match remainder_big.to_u64() {
            Some(v) => v as u8,
            None => {
                proof {
                    assert(false);
                }
                0
            },
        };
        let production_remainder_60 = match ProductionRemainder60::try_new(remainder) {
            Ok(x) => x,
            Err(_) => {
                proof {
                    assert(false);
                }
                ProductionRemainder60::default()
            },
        };
        new_vals.push(
            crate::state::PlantState {
                count: p.count.copy(),
                stock_cent: StockCent::from_biguint(p.stock_cent.as_biguint().add(&minted)),
                production_remainder_60,
            },
        );
        settlements.push(
            PlantProduction {
                plant_id: config.id.copy(),
                minted_cent: StockCent::from_biguint(minted),
                resulting_remainder_60: production_remainder_60,
            },
        );
        i = i + 1;
    }
    let next = state.rebuilt(
        state.wallet().coins.copy(),
        new_vals,
        state.animal_values(),
        state.collection_copy(),
    );
    let outcome = ProductionSettlement { whole_seconds: whole_seconds.copy(), plants: settlements };
    proof {
        assert(next@ =~= settled_view(state@, content.plant_seq(), whole_seconds@));
        use_type_invariant(&next);
        let nv = next@;
        assert forall|i: int| 0 <= i < nv.plants.len() implies (#[trigger] plant_state_check(nv, i)) is None by {
            assert(plant_state_check(state@, i) is None);
            let p = state@.plants[i];
            let rate = content.plant_seq()[i].rate_cent_per_minute@;
            assert(nv.plants[i] == settled_plant(p, rate, whole_seconds@));
            if p.count == 0 {
                let secs = whole_seconds@;
                assert(p.count * rate * secs == 0) by (nonlinear_arith)
                    requires
                        p.count == 0,
                ;
            }
            assert(production_numerator(p, rate, whole_seconds@) % 60 < 60);
            assert(nv.plant_ids[i] == state@.plant_ids[i]);
        }
        assert forall|i: int| 0 <= i < nv.animals.len() implies (#[trigger] animal_state_check(nv, content.animal_seq(), i)) is None by {
            assert(animal_state_check(state@, content.animal_seq(), i) is None);
        }
        lemma_state_valid_intro(nv, *content);
        assert(outcome@.plants =~= settlement_view(state@, content.plant_seq(), whole_seconds@).plants);
    }
    let events = vec![DomainEvent::ProductionSettled(outcome.copy())];
    Ok(Transition { state: next, outcome, events })
}

/// Carrying a remainder through two divisions by `d` loses nothing.
pub proof fn lemma_carry_split(n1: nat, y: nat, d: nat)
    requires
        d > 0,
    ensures
        n1 / d + (n1 % d + y) / d == (n1 + y) / d,
        (n1 % d + y) % d == (n1 + y) % d,
{
    let q1 = n1 / d;
    let r1 = n1 % d;
    vstd::arithmetic::div_mod::lemma_fundamental_div_mod(n1 as int, d as int);
    let q2 = (r1 + y) / d;
    let r2 = (r1 + y) % d;
    vstd::arithmetic::div_mod::lemma_fundamental_div_mod((r1 + y) as int, d as int);
    assert(n1 + y == (q1 + q2) * d + r2) by (nonlinear_arith)
        requires
            n1 == d * q1 + r1,
            r1 + y == d * q2 + r2,
    ;
    vstd::arithmetic::div_mod::lemma_fundamental_div_mod_converse(
        (n1 + y) as int,
        d as int,
        (q1 + q2) as int,
        r2 as int,
    );
}

/// Settling `a` seconds and then `b` seconds leaves a plant group exactly as settling
/// `a + b` seconds at once.
pub proof fn law_plant_settlement_splits(p: PlantStateView, rate: nat, a: nat, b: nat)
    ensures
        settled_plant(settled_plant(p, rate, a), rate, b) == settled_plant(p, rate, a + b),
{
    let n1 = production_numerator(p, rate, a);
    let y = p.count * rate * b;
    assert(p.count * rate * (a + b) == p.count * rate * a + p.count * rate * b) by (nonlinear_arith);
    lemma_carry_split(n1, y, 60);
    let q = settled_plant(p, rate, a);
    assert(q.remainder as nat == n1 % 60);
    assert(production_numerator(q, rate, b) == n1 % 60 + y);
    assert(production_numerator(p, rate, a + b) == n1 + y);
}

/// Production over one span of productive seconds equals production over any split of it
/// into two chunks: stocks and carried remainders come out the same.
pub proof fn law_production_splits(s: GameView, plants: Seq<PlantConfig>, a: nat, b: nat)
    requires
        s.plants.len() <= plants.len(),
    ensures
        settled_view(settled_view(s, plants, a), plants, b) == settled_view(s, plants, a + b),
{
    let two = settled_view(settled_view(s, plants, a), plants, b);
    let one = settled_view(s, plants, a + b);
    assert forall|i: int| 0 <= i < s.plants.len() implies two.plants[i] == one.plants[i] by {
        law_plant_settlement_splits(s.plants[i], plants[i].rate_cent_per_minute@, a, b);
    }
    assert(two =~= one);
}

} // verus!

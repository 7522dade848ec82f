//! The player's save state and its validity against a catalog.
use crate::amount::{Coins, EntityCount, GrowthCent, LifetimePurchaseCount, StockCent};
use crate::bignat::BigNat;
use crate::config::{lemma_catalog_facts, animal_check, AnimalConfig, ContentConfig, PlantConfig};
use crate::error::{
    first_some, lemma_first_some_none_all, lemma_first_some_none_iff, lemma_first_some_step, StateError, StateErrorView,
};
use crate::event::DomainEvent;
use crate::idmap::{key_view, IdMap, IdSet};
use crate::ids::{AnimalId, PlantId};
use crate::keyed::{has_key, keys_increasing, seq_less, Keyed, SortKey};
use vstd::prelude::*;

verus! {

/// Effective inputs counted towards the next feeding attempt.
#[derive(Clone, Copy, Debug, PartialEq, Eq)]
pub struct FeedingProgress(u8);

impl View for FeedingProgress {
    type V = u8;

    closed spec fn view(&self) -> u8 {
        self.0
    }
}

impl FeedingProgress {
    /// Wraps a value; validity against the threshold is checked by `GameState::validate`.
    pub fn new_unchecked(value: u8) -> (r: Self)
        ensures
            r@ == value,
    {
        FeedingProgress(value)
    }

    pub fn value(self) -> (r: u8)
        ensures
            r == self@,
    {
        self.0
    }
}

impl Default for FeedingProgress {
    fn default() -> (r: Self)
        ensures
            r@ == 0,
    {
        FeedingProgress(0)
    }
}

/// Production carried over between settlements, in sixtieths of a cent.
#[derive(Clone, Copy, Debug, PartialEq, Eq)]
pub struct ProductionRemainder60(u8);

impl View for ProductionRemainder60 {
    type V = u8;

    closed spec fn view(&self) -> u8 {
        self.0
    }
}

impl ProductionRemainder60 {
    /// Accepts values below 60.
    pub fn try_new(value: u8) -> (r: Result<Self, StateError>)
        ensures
            r is Ok <==> value < 60,
            r matches Ok(x) ==> x@ == value,
            r matches Err(e) ==> e@ == StateErrorView::InvalidProductionRemainder,
    {
        if value < 60 {
            Ok(ProductionRemainder60(value))
        } else {
            Err(StateError::InvalidProductionRemainder)
        }
    }

    pub fn value(self) -> (r: u8)
        ensures
            r == self@,
    {
        self.0
    }
}

impl Default for ProductionRemainder60 {
    fn default() -> (r: Self)
        ensures
            r@ == 0,
    {
        ProductionRemainder60(0)
    }
}

#[derive(Clone, Debug, PartialEq, Eq)]
pub struct Wallet {
    pub coins: Coins,
}

#[derive(Clone, Debug, PartialEq, Eq)]
pub struct PlantState {
    pub count: EntityCount,
    pub stock_cent: StockCent,
    pub production_remainder_60: ProductionRemainder60,
}

#[derive(Clone, Debug, PartialEq, Eq)]
pub struct AnimalState {
    pub count: EntityCount,
    pub total_growth_cent: GrowthCent,
    pub feeding_progress: FeedingProgress,
    pub lifetime_paid_purchase_count: LifetimePurchaseCount,
}

/// A plant group as numbers.
pub struct PlantStateView {
    pub count: nat,
    pub stock_cent: nat,
    pub remainder: u8,
}

/// An animal group as numbers.
pub struct AnimalStateView {
    pub count: nat,
    pub growth_cent: nat,
    pub progress: u8,
    pub lifetime_paid: nat,
}

impl View for PlantState {
    type V = PlantStateView;

    open spec fn view(&self) -> PlantStateView {
        PlantStateView {
            count: self.count@,
            stock_cent: self.stock_cent@,
            remainder: self.production_remainder_60@,
        }
    }
}

impl View for AnimalState {
    type V = AnimalStateView;

    open spec fn view(&self) -> AnimalStateView {
        AnimalStateView {
            count: self.count@,
            growth_cent: self.total_growth_cent@,
            progress: self.feeding_progress@,
            lifetime_paid: self.lifetime_paid_purchase_count@,
        }
    }
}

impl PlantState {
    /// A copy of the group.
    pub fn copy(&self) -> (r: Self)
        ensures
            r@ == self@,
    {
        PlantState {
            count: self.count.copy(),
            stock_cent: self.stock_cent.copy(),
            production_remainder_60: self.production_remainder_60,
        }
    }
}

impl AnimalState {
    /// A copy of the group.
    pub fn copy(&self) -> (r: Self)
        ensures
            r@ == self@,
    {
        AnimalState {
            count: self.count.copy(),
            total_growth_cent: self.total_growth_cent.copy(),
            feeding_progress: self.feeding_progress,
            lifetime_paid_purchase_count: self.lifetime_paid_purchase_count.copy(),
        }
    }
}

/// The species the player has ever owned.
#[derive(Clone, Debug, PartialEq, Eq)]
pub struct CollectionState {
    discovered_plants: IdSet<PlantId>,
    discovered_animals: IdSet<AnimalId>,
}

/// The ids a list of ids holds, in increasing order and without repeats.
pub open spec fn id_set_of(ids: Seq<Seq<char>>, from: Seq<Seq<char>>) -> bool {
    &&& ids_increasing(ids)
    &&& forall|x: Seq<char>| ids.contains(x) <==> from.contains(x)
}

/// Strictly increasing ids.
pub open spec fn ids_increasing(ids: Seq<Seq<char>>) -> bool {
    forall|i: int, j: int| 0 <= i < j < ids.len() ==> seq_less(#[trigger] ids[i], #[trigger] ids[j])
}

/// Two increasing id sequences that hold the same ids are the same sequence.
pub proof fn lemma_increasing_ids_equal(a: Seq<Seq<char>>, b: Seq<Seq<char>>)
    requires
        ids_increasing(a),
        ids_increasing(b),
        forall|x: Seq<char>| a.contains(x) <==> b.contains(x),
    ensures
        a == b,
    decreases a.len() + b.len(),
{
    if a.len() == 0 || b.len() == 0 {
        if a.len() > 0 {
            assert(a.contains(a[0]));
        }
        if b.len() > 0 {
            assert(b.contains(b[0]));
        }
        assert(a =~= b);
    } else {
        assert(a.contains(a[0]));
        assert(b.contains(b[0]));
        let i = choose|i: int| 0 <= i < b.len() && b[i] == a[0];
        let j = choose|j: int| 0 <= j < a.len() && a[j] == b[0];
        assert(a[0] == b[0]) by {
            if i > 0 {
                assert(seq_less(b[0], b[i]));
                if j > 0 {
                    assert(seq_less(a[0], a[j]));
                    crate::keyed::lemma_seq_less_asymmetric(a[0], b[0]);
                } else {
                    crate::keyed::lemma_seq_less_irreflexive(a[0]);
                }
            }
        }
        let a1 = a.drop_first();
        let b1 = b.drop_first();
        assert forall|x: Seq<char>| a1.contains(x) <==> b1.contains(x) by {
            if a1.contains(x) {
                let k = choose|k: int| 0 <= k < a1.len() && a1[k] == x;
                assert(a[k + 1] == x);
                assert(seq_less(a[0], x));
                crate::keyed::lemma_seq_less_irreflexive(x);
                assert(b.contains(x));
                let m = choose|m: int| 0 <= m < b.len() && b[m] == x;
                assert(m != 0);
                assert(b1[m - 1] == x);
            }
            if b1.contains(x) {
                let k = choose|k: int| 0 <= k < b1.len() && b1[k] == x;
                assert(b[k + 1] == x);
                assert(seq_less(b[0], x));
                crate::keyed::lemma_seq_less_irreflexive(x);
                assert(a.contains(x));
                let m = choose|m: int| 0 <= m < a.len() && a[m] == x;
                assert(m != 0);
                assert(a1[m - 1] == x);
            }
        }
        assert(ids_increasing(a1)) by {
            assert forall|p: int, q: int| 0 <= p < q < a1.len() implies seq_less(#[trigger] a1[p], #[trigger] a1[q]) by {
                assert(a1[p] == a[p + 1] && a1[q] == a[q + 1]);
            }
        }
        assert(ids_increasing(b1)) by {
            assert forall|p: int, q: int| 0 <= p < q < b1.len() implies seq_less(#[trigger] b1[p], #[trigger] b1[q]) by {
                assert(b1[p] == b[p + 1] && b1[q] == b[q + 1]);
            }
        }
        lemma_increasing_ids_equal(a1, b1);
        assert(a =~= seq![a[0]] + a1);
        assert(b =~= seq![b[0]] + b1);
    }
}

pub proof fn lemma_key_view_facts<K: Keyed>(s: Seq<K>)
    requires
        keys_increasing(s),
    ensures
        ids_increasing(key_view(s)),
        forall|x: Seq<char>| key_view(s).contains(x) <==> has_key(s, x),
{
    let kv = key_view(s);
    assert forall|x: Seq<char>| kv.contains(x) <==> has_key(s, x) by {
        if kv.contains(x) {
            let i = choose|i: int| 0 <= i < kv.len() && kv[i] == x;
            assert(s[i].key() == x);
        }
        if has_key(s, x) {
            let i = choose|i: int| 0 <= i < s.len() && #[trigger] s[i].key() == x;
            assert(kv[i] == x);
        }
    }
}

impl CollectionState {
    pub closed spec fn plant_ids(&self) -> Seq<Seq<char>> {
        key_view(self.discovered_plants.key_seq())
    }

    pub closed spec fn animal_ids(&self) -> Seq<Seq<char>> {
        key_view(self.discovered_animals.key_seq())
    }

    /// The collection holding these species, each once, in id order.
    pub fn from_discovered(plants: Vec<PlantId>, animals: Vec<AnimalId>) -> (r: Self)
        ensures
            id_set_of(r.plant_ids(), key_view(plants@)),
            id_set_of(r.animal_ids(), key_view(animals@)),
    {
        let discovered_plants = set_of(plants);
        let discovered_animals = set_of(animals);
        CollectionState { discovered_plants, discovered_animals }
    }

    /// The empty collection.
    pub fn empty() -> (r: Self)
        ensures
            r.plant_ids().len() == 0,
            r.animal_ids().len() == 0,
    {
        CollectionState { discovered_plants: IdSet::new(), discovered_animals: IdSet::new() }
    }

    /// The discovered plants, in id order.
    pub fn discovered_plants(&self) -> (r: &Vec<PlantId>)
        ensures
            key_view(r@) == self.plant_ids(),
    {
        self.discovered_plants.keys()
    }

    /// The discovered animals, in id order.
    pub fn discovered_animals(&self) -> (r: &Vec<AnimalId>)
        ensures
            key_view(r@) == self.animal_ids(),
    {
        self.discovered_animals.keys()
    }

    pub fn is_plant_discovered(&self, id: &PlantId) -> (r: bool)
        ensures
            r == self.plant_ids().contains(id@),
    {
        proof {
            use_type_invariant(&self.discovered_plants);
            lemma_key_view_facts(self.discovered_plants.key_seq());
        }
        self.discovered_plants.contains(id)
    }

    pub fn is_animal_discovered(&self, id: &AnimalId) -> (r: bool)
        ensures
            r == self.animal_ids().contains(id@),
    {
        proof {
            use_type_invariant(&self.discovered_animals);
            lemma_key_view_facts(self.discovered_animals.key_seq());
        }
        self.discovered_animals.contains(id)
    }

    /// Adds a plant; tells whether it was new.
    pub fn discover_plant(&mut self, id: PlantId) -> (r: bool)
        ensures
            r == !old(self).plant_ids().contains(id@),
            id_set_of(final(self).plant_ids(), old(self).plant_ids().push(id@)),
            final(self).animal_ids() == old(self).animal_ids(),
    {
        proof {
            use_type_invariant(&self.discovered_plants);
            lemma_key_view_facts(self.discovered_plants.key_seq());
        }
        let ghost old_ids = self.plant_ids();
        let ghost old_keys = self.discovered_plants.key_seq();
        let ghost idv = id@;
        let r = self.discovered_plants.insert(id);
        proof {
            use_type_invariant(&self.discovered_plants);
            lemma_key_view_facts(self.discovered_plants.key_seq());
            assert forall|x: Seq<char>| self.plant_ids().contains(x) <==> old_ids.push(idv).contains(x) by {
                assert(has_key(self.discovered_plants.key_seq(), x) <==> (has_key(old_keys, x) || x == idv));
                assert(old_ids.contains(x) <==> has_key(old_keys, x));
                assert(self.plant_ids().contains(x) <==> has_key(self.discovered_plants.key_seq(), x));
                if old_ids.push(idv).contains(x) {
                    let j = choose|j: int| 0 <= j < old_ids.push(idv).len() && old_ids.push(idv)[j] == x;
                    if j < old_ids.len() {
                        assert(old_ids.contains(x));
                    }
                }
                if old_ids.contains(x) {
                    let j = choose|j: int| 0 <= j < old_ids.len() && old_ids[j] == x;
                    assert(old_ids.push(idv)[j] == x);
                }
                assert(old_ids.push(idv)[old_ids.len() as int] == idv);
            }
        }
        r
    }

    /// Adds an animal; tells whether it was new.
    pub fn discover_animal(&mut self, id: AnimalId) -> (r: bool)
        ensures
            r == !old(self).animal_ids().contains(id@),
            id_set_of(final(self).animal_ids(), old(self).animal_ids().push(id@)),
            final(self).plant_ids() == old(self).plant_ids(),
    {
        proof {
            use_type_invariant(&self.discovered_animals);
            lemma_key_view_facts(self.discovered_animals.key_seq());
        }
        let ghost old_ids = self.animal_ids();
        let ghost old_keys = self.discovered_animals.key_seq();
        let ghost idv = id@;
        let r = self.discovered_animals.insert(id);
        proof {
            use_type_invariant(&self.discovered_animals);
            lemma_key_view_facts(self.discovered_animals.key_seq());
            assert forall|x: Seq<char>| self.animal_ids().contains(x) <==> old_ids.push(idv).contains(x) by {
                assert(has_key(self.discovered_animals.key_seq(), x) <==> (has_key(old_keys, x) || x == idv));
                assert(old_ids.contains(x) <==> has_key(old_keys, x));
                assert(self.animal_ids().contains(x) <==> has_key(self.discovered_animals.key_seq(), x));
                if old_ids.push(idv).contains(x) {
                    let j = choose|j: int| 0 <= j < old_ids.push(idv).len() && old_ids.push(idv)[j] == x;
                    if j < old_ids.len() {
                        assert(old_ids.contains(x));
                    }
                }
                if old_ids.contains(x) {
                    let j = choose|j: int| 0 <= j < old_ids.len() && old_ids[j] == x;
                    assert(old_ids.push(idv)[j] == x);
                }
                assert(old_ids.push(idv)[old_ids.len() as int] == idv);
            }
        }
        r
    }
}

fn set_of<K: Keyed>(v: Vec<K>) -> (r: IdSet<K>)
    ensures
        id_set_of(key_view(r.key_seq()), key_view(v@)),
{
    let ghost orig = v@;
    let mut rest = v;
    let mut set = IdSet::new();
    let n = rest.len();
    let mut i: usize = 0;
    proof {
        assert(orig.skip(0) =~= orig);
    }
    while i < n
        invariant
            n == orig.len(),
            orig == v@,
            i <= n,
            rest@ == orig.skip(i as int),
            forall|x: Seq<char>| has_key(set.key_seq(), x) <==> key_view(orig.take(i as int)).contains(x),
        decreases n - i,
    {
        let k = rest.remove(0);
        assert(k == orig[i as int]);
        proof {
            assert(orig.skip(i as int).drop_first() =~= orig.skip(i as int + 1));
        }
        set.insert(k);
        proof {
            let t0 = key_view(orig.take(i as int));
            let t1 = key_view(orig.take(i as int + 1));
            assert forall|x: Seq<char>| t1.contains(x) <==> (t0.contains(x) || x == orig[i as int].key()) by {
                if t1.contains(x) {
                    let j = choose|j: int| 0 <= j < t1.len() && t1[j] == x;
                    if j < i {
                        assert(t0[j] == x);
                    }
                }
                if t0.contains(x) {
                    let j = choose|j: int| 0 <= j < t0.len() && t0[j] == x;
                    assert(t1[j] == x);
                }
                if x == orig[i as int].key() {
                    assert(t1[i as int] == x);
                }
            }
        }
        i = i + 1;
    }
    proof {
        use_type_invariant(&set);
        lemma_key_view_facts(set.key_seq());
        assert(orig.take(n as int) =~= orig);
        assert forall|x: Seq<char>| key_view(set.key_seq()).contains(x) <==> key_view(orig).contains(x) by {
            assert(has_key(set.key_seq(), x) <==> key_view(orig.take(n as int)).contains(x));
        }
    }
    set
}

/// The whole save state as numbers and id sequences.
#[verifier::ext_equal]
pub struct GameView {
    pub version: Seq<char>,
    pub coins: nat,
    pub plant_ids: Seq<Seq<char>>,
    pub plants: Seq<PlantStateView>,
    pub animal_ids: Seq<Seq<char>>,
    pub animals: Seq<AnimalStateView>,
    pub found_plants: Seq<Seq<char>>,
    pub found_animals: Seq<Seq<char>>,
}

/// The player's state. Species appear in id order.
#[derive(Debug, PartialEq, Eq)]
pub struct GameState {
    content_version: String,
    wallet: Wallet,
    plants: IdMap<PlantId, PlantState>,
    animals: IdMap<AnimalId, AnimalState>,
    collection: CollectionState,
}

/// The views of a sequence of plant groups.
pub open spec fn plant_views(s: Seq<PlantState>) -> Seq<PlantStateView> {
    Seq::new(s.len(), |i: int| s[i]@)
}

/// The views of a sequence of animal groups.
pub open spec fn animal_views(s: Seq<AnimalState>) -> Seq<AnimalStateView> {
    Seq::new(s.len(), |i: int| s[i]@)
}

impl View for GameState {
    type V = GameView;

    closed spec fn view(&self) -> GameView {
        GameView {
            version: self.content_version@,
            coins: self.wallet.coins@,
            plant_ids: key_view(self.plants.key_seq()),
            plants: plant_views(self.plants.val_seq()),
            animal_ids: key_view(self.animals.key_seq()),
            animals: animal_views(self.animals.val_seq()),
            found_plants: self.collection.plant_ids(),
            found_animals: self.collection.animal_ids(),
        }
    }
}

/// The check of plant group `i`.
pub open spec fn plant_state_check(s: GameView, i: int) -> Option<StateErrorView> {
    let p = s.plants[i];
    let id = s.plant_ids[i];
    if p.remainder >= 60 {
        Some(StateErrorView::InvalidProductionRemainder)
    } else if p.count == 0 && p.remainder != 0 {
        Some(StateErrorView::EmptyPlantHasProductionRemainder(id))
    } else if p.count == 0 && p.stock_cent != 0 {
        Some(StateErrorView::EmptyPlantHasStock(id))
    } else if p.count != 0 && !s.found_plants.contains(id) {
        Some(StateErrorView::OwnedSpeciesUndiscovered(id))
    } else {
        None
    }
}

/// The check of animal group `i` against animal species `i` of the catalog.
pub open spec fn animal_state_check(s: GameView, animals: Seq<AnimalConfig>, i: int) -> Option<
    StateErrorView,
> {
    let a = s.animals[i];
    let id = s.animal_ids[i];
    let threshold = animals[i].feeding_threshold;
    if a.progress >= threshold {
        Some(StateErrorView::InvalidFeedingProgress { animal_id: id, threshold })
    } else if a.count == 0 && (a.growth_cent != 0 || a.progress != 0) {
        Some(StateErrorView::EmptyAnimalHasProgress(id))
    } else if (a.count != 0 || a.lifetime_paid != 0) && !s.found_animals.contains(id) {
        Some(StateErrorView::OwnedSpeciesUndiscovered(id))
    } else {
        None
    }
}

pub open spec fn plant_state_checks(s: GameView) -> spec_fn(int) -> Option<StateErrorView> {
    |i: int| plant_state_check(s, i)
}

pub open spec fn animal_state_checks(s: GameView, animals: Seq<AnimalConfig>) -> spec_fn(
    int,
) -> Option<StateErrorView> {
    |i: int| animal_state_check(s, animals, i)
}

/// All discovered species are in the catalog.
pub open spec fn collection_known(s: GameView, c: ContentConfig) -> bool {
    &&& forall|j: int|
        0 <= j < s.found_plants.len() ==> key_view(c.plant_seq()).contains(#[trigger] s.found_plants[j])
    &&& forall|j: int|
        0 <= j < s.found_animals.len() ==> key_view(c.animal_seq()).contains(
            #[trigger] s.found_animals[j],
        )
}

/// The first way in which `s` is invalid for catalog `c`, as `GameState::validate` checks it.
pub open spec fn state_check(s: GameView, c: ContentConfig) -> Option<StateErrorView> {
    if s.version != c.version_view() {
        Some(StateErrorView::ContentVersionMismatch { state: s.version, catalog: c.version_view() })
    } else if s.plant_ids != key_view(c.plant_seq()) || s.animal_ids != key_view(c.animal_seq()) {
        Some(StateErrorView::SpeciesSetMismatch)
    } else {
        let pe = first_some(plant_state_checks(s), 0, s.plants.len() as int);
        let ae = first_some(animal_state_checks(s, c.animal_seq()), 0, s.animals.len() as int);
        if pe is Some {
            pe
        } else if ae is Some {
            ae
        } else if !collection_known(s, c) {
            Some(StateErrorView::UnknownCollectionSpecies)
        } else {
            None
        }
    }
}

/// `s` is valid for catalog `c`.
pub open spec fn state_valid(s: GameView, c: ContentConfig) -> bool {
    state_check(s, c) is None
}

/// The shape every state has: ids and groups pair up, ids increase.
pub open spec fn game_view_shape(v: GameView) -> bool {
    &&& v.plant_ids.len() == v.plants.len()
    &&& v.animal_ids.len() == v.animals.len()
    &&& ids_increasing(v.plant_ids)
    &&& ids_increasing(v.animal_ids)
    &&& ids_increasing(v.found_plants)
    &&& ids_increasing(v.found_animals)
}

/// What a valid state gives, position by position.
pub proof fn lemma_state_valid(s: GameView, c: ContentConfig)
    requires
        state_valid(s, c),
        game_view_shape(s),
    ensures
        s.version == c.version_view(),
        s.plant_ids == key_view(c.plant_seq()),
        s.animal_ids == key_view(c.animal_seq()),
        s.plants.len() == c.plant_seq().len(),
        s.animals.len() == c.animal_seq().len(),
        forall|i: int| 0 <= i < s.plants.len() ==> (#[trigger] plant_state_check(s, i)) is None,
        forall|i: int|
            0 <= i < s.animals.len() ==> (#[trigger] animal_state_check(s, c.animal_seq(), i)) is None,
        collection_known(s, c),
{
    let f = plant_state_checks(s);
    let g = animal_state_checks(s, c.animal_seq());
    lemma_first_some_none_iff(f, 0, s.plants.len() as int);
    lemma_first_some_none_iff(g, 0, s.animals.len() as int);
    assert forall|i: int| 0 <= i < s.plants.len() implies (#[trigger] plant_state_check(s, i)) is None by {
        assert(f(i) is None);
    }
    assert forall|i: int|
        0 <= i < s.animals.len() implies (#[trigger] animal_state_check(s, c.animal_seq(), i)) is None by {
        assert(g(i) is None);
    }
}

/// A valid state from the per-position facts.
pub proof fn lemma_state_valid_intro(s: GameView, c: ContentConfig)
    requires
        game_view_shape(s),
        s.version == c.version_view(),
        s.plant_ids == key_view(c.plant_seq()),
        s.animal_ids == key_view(c.animal_seq()),
        forall|i: int| 0 <= i < s.plants.len() ==> (#[trigger] plant_state_check(s, i)) is None,
        forall|i: int|
            0 <= i < s.animals.len() ==> (#[trigger] animal_state_check(s, c.animal_seq(), i)) is None,
        collection_known(s, c),
    ensures
        state_valid(s, c),
{
    let f = plant_state_checks(s);
    let g = animal_state_checks(s, c.animal_seq());
    assert forall|i: int| 0 <= i < s.plants.len() implies (#[trigger] f(i)) is None by {
        assert(plant_state_check(s, i) is None);
    }
    assert forall|i: int| 0 <= i < s.animals.len() implies (#[trigger] g(i)) is None by {
        assert(animal_state_check(s, c.animal_seq(), i) is None);
    }
    lemma_first_some_none_iff(f, 0, s.plants.len() as int);
    lemma_first_some_none_iff(g, 0, s.animals.len() as int);
}

fn copy_plants(m: &IdMap<PlantId, PlantState>) -> (r: IdMap<PlantId, PlantState>)
    ensures
        key_view(r.key_seq()) == key_view(m.key_seq()),
        plant_views(r.val_seq()) == plant_views(m.val_seq()),
{
    proof {
        use_type_invariant(m);
    }
    let keys = m.keys();
    let vals = m.values();
    let mut k2: Vec<PlantId> = Vec::new();
    let mut v2: Vec<PlantState> = Vec::new();
    let mut i: usize = 0;
    while i < keys.len()
        invariant
            keys@ == m.key_seq(),
            vals@ == m.val_seq(),
            keys@.len() == vals@.len(),
            i <= keys@.len(),
            k2@.len() == i,
            v2@.len() == i,
            forall|j: int| 0 <= j < i ==> #[trigger] k2@[j]@ == keys@[j]@,
            forall|j: int| 0 <= j < i ==> #[trigger] v2@[j]@ == vals@[j]@,
        decreases keys@.len() - i,
    {
        k2.push(keys[i].copy());
        v2.push(vals[i].copy());
        i = i + 1;
    }
    proof {
        assert(key_view(k2@) =~= key_view(keys@));
        assert(plant_views(v2@) =~= plant_views(vals@));
        assert forall|a: int, b: int| 0 <= a < b < k2@.len() implies seq_less(#[trigger] k2@[a].key(), #[trigger] k2@[b].key()) by {
            assert(seq_less(keys@[a].key(), keys@[b].key()));
        }
    }
    IdMap::from_sorted(k2, v2)
}

fn copy_animals(m: &IdMap<AnimalId, AnimalState>) -> (r: IdMap<AnimalId, AnimalState>)
    ensures
        key_view(r.key_seq()) == key_view(m.key_seq()),
        animal_views(r.val_seq()) == animal_views(m.val_seq()),
{
    proof {
        use_type_invariant(m);
    }
    let keys = m.keys();
    let vals = m.values();
    let mut k2: Vec<AnimalId> = Vec::new();
    let mut v2: Vec<AnimalState> = Vec::new();
    let mut i: usize = 0;
    while i < keys.len()
        invariant
            keys@ == m.key_seq(),
            vals@ == m.val_seq(),
            keys@.len() == vals@.len(),
            i <= keys@.len(),
            k2@.len() == i,
            v2@.len() == i,
            forall|j: int| 0 <= j < i ==> #[trigger] k2@[j]@ == keys@[j]@,
            forall|j: int| 0 <= j < i ==> #[trigger] v2@[j]@ == vals@[j]@,
        decreases keys@.len() - i,
    {
        k2.push(keys[i].copy());
        v2.push(vals[i].copy());
        i = i + 1;
    }
    proof {
        assert(key_view(k2@) =~= key_view(keys@));
        assert(animal_views(v2@) =~= animal_views(vals@));
        assert forall|a: int, b: int| 0 <= a < b < k2@.len() implies seq_less(#[trigger] k2@[a].key(), #[trigger] k2@[b].key()) by {
            assert(seq_less(keys@[a].key(), keys@[b].key()));
        }
    }
    IdMap::from_sorted(k2, v2)
}

/// The count granted to `id`: the last grant for it, or zero.
pub open spec fn grant_count<K: View<V = Seq<char>>>(g: Seq<(K, EntityCount)>, id: Seq<char>) -> nat
    decreases g.len(),
{
    if g.len() == 0 {
        0
    } else if g.last().0@ == id {
        g.last().1@
    } else {
        grant_count(g.drop_last(), id)
    }
}

/// Some grant gives `id` a non-zero count.
pub open spec fn granted_nonzero<K: View<V = Seq<char>>>(g: Seq<(K, EntityCount)>, id: Seq<char>) -> bool {
    exists|j: int| 0 <= j < g.len() && #[trigger] g[j].0@ == id && g[j].1@ != 0
}

/// The check of plant grant `i`.
pub open spec fn plant_grant_check(c: ContentConfig, g: Seq<(PlantId, EntityCount)>, i: int) -> Option<
    StateErrorView,
> {
    let id = g[i].0@;
    if exists|j: int| 0 <= j < i && #[trigger] g[j].0@ == id {
        Some(StateErrorView::DuplicateInitialGrant(id))
    } else if !has_key(c.plant_seq(), id) {
        Some(StateErrorView::UnknownPlant(id))
    } else {
        None
    }
}

/// The check of animal grant `i`.
pub open spec fn animal_grant_check(c: ContentConfig, g: Seq<(AnimalId, EntityCount)>, i: int) -> Option<
    StateErrorView,
> {
    let id = g[i].0@;
    if exists|j: int| 0 <= j < i && #[trigger] g[j].0@ == id {
        Some(StateErrorView::DuplicateInitialGrant(id))
    } else if !has_key(c.animal_seq(), id) {
        Some(StateErrorView::UnknownAnimal(id))
    } else {
        None
    }
}

pub open spec fn plant_grant_checks(c: ContentConfig, g: Seq<(PlantId, EntityCount)>) -> spec_fn(
    int,
) -> Option<StateErrorView> {
    |i: int| plant_grant_check(c, g, i)
}

pub open spec fn animal_grant_checks(c: ContentConfig, g: Seq<(AnimalId, EntityCount)>) -> spec_fn(
    int,
) -> Option<StateErrorView> {
    |i: int| animal_grant_check(c, g, i)
}

/// The first rejected grant of `GameState::new`: plants first, then animals.
pub open spec fn grants_check(
    c: ContentConfig,
    gp: Seq<(PlantId, EntityCount)>,
    ga: Seq<(AnimalId, EntityCount)>,
) -> Option<StateErrorView> {
    let pe = first_some(plant_grant_checks(c, gp), 0, gp.len() as int);
    if pe is Some {
        pe
    } else {
        first_some(animal_grant_checks(c, ga), 0, ga.len() as int)
    }
}

proof fn lemma_grant_count_nonzero<K: View<V = Seq<char>>>(g: Seq<(K, EntityCount)>, id: Seq<char>)
    requires
        grant_count(g, id) != 0,
    ensures
        granted_nonzero(g, id),
    decreases g.len(),
{
    if g.last().0@ == id {
        assert(g[g.len() - 1].0@ == id);
    } else {
        lemma_grant_count_nonzero(g.drop_last(), id);
        let j = choose|j: int| 0 <= j < g.drop_last().len() && #[trigger] g.drop_last()[j].0@ == id && g.drop_last()[j].1@ != 0;
        assert(g[j].0@ == id);
    }
}

fn str_eq(a: &str, b: &str) -> (r: bool)
    ensures
        r == (a@ == b@),
{
    let x = a.to_owned();
    let y = b.to_owned();
    x == y
}

fn plant_ids_match(keys: &Vec<PlantId>, configs: &Vec<PlantConfig>) -> (r: bool)
    ensures
        r == (key_view(keys@) == key_view(configs@)),
{
    if keys.len() != configs.len() {
        assert(key_view(keys@).len() != key_view(configs@).len());
        return false;
    }
    let mut i: usize = 0;
    while i < keys.len()
        invariant
            keys@.len() == configs@.len(),
            i <= keys@.len(),
            forall|j: int| 0 <= j < i ==> keys@[j]@ == configs@[j].id@,
        decreases keys@.len() - i,
    {
        if !keys[i].same(&configs[i].id) {
            assert(key_view(keys@)[i as int] != key_view(configs@)[i as int]);
            return false;
        }
        i = i + 1;
    }
    assert(key_view(keys@) =~= key_view(configs@));
    true
}

fn animal_ids_match(keys: &Vec<AnimalId>, configs: &Vec<AnimalConfig>) -> (r: bool)
    ensures
        r == (key_view(keys@) == key_view(configs@)),
{
    if keys.len() != configs.len() {
        assert(key_view(keys@).len() != key_view(configs@).len());
        return false;
    }
    let mut i: usize = 0;
    while i < keys.len()
        invariant
            keys@.len() == configs@.len(),
            i <= keys@.len(),
            forall|j: int| 0 <= j < i ==> keys@[j]@ == configs@[j].id@,
        decreases keys@.len() - i,
    {
        if !keys[i].same(&configs[i].id) {
            assert(key_view(keys@)[i as int] != key_view(configs@)[i as int]);
            return false;
        }
        i = i + 1;
    }
    assert(key_view(keys@) =~= key_view(configs@));
    true
}

/// The sum of the animal counts.
pub open spec fn total_count(s: Seq<AnimalStateView>) -> nat
    decreases s.len(),
{
    if s.len() == 0 {
        0
    } else {
        total_count(s.drop_last()) + s.last().count
    }
}

/// The state `GameState::new` builds from these grants.
pub open spec fn new_state_view(
    v: GameView,
    c: ContentConfig,
    coins: nat,
    gp: Seq<(PlantId, EntityCount)>,
    ga: Seq<(AnimalId, EntityCount)>,
) -> bool {
    &&& v.version == c.version_view()
    &&& v.coins == coins
    &&& v.plant_ids == key_view(c.plant_seq())
    &&& v.plants.len() == c.plant_seq().len()
    &&& forall|k: int|
        0 <= k < v.plants.len() ==> #[trigger] v.plants[k] == (PlantStateView {
            count: grant_count(gp, v.plant_ids[k]),
            stock_cent: 0,
            remainder: 0,
        })
    &&& v.animal_ids == key_view(c.animal_seq())
    &&& v.animals.len() == c.animal_seq().len()
    &&& forall|k: int|
        0 <= k < v.animals.len() ==> #[trigger] v.animals[k] == (AnimalStateView {
            count: grant_count(ga, v.animal_ids[k]),
            growth_cent: 0,
            progress: 0,
            lifetime_paid: 0,
        })
    &&& ids_increasing(v.found_plants)
    &&& forall|x: Seq<char>| v.found_plants.contains(x) <==> granted_nonzero(gp, x)
    &&& ids_increasing(v.found_animals)
    &&& forall|x: Seq<char>| v.found_animals.contains(x) <==> granted_nonzero(ga, x)
}

/// Two sequences with the same keys have the same keys.
pub proof fn lemma_key_view_has_key<A: Keyed, B: Keyed>(a: Seq<A>, b: Seq<B>, x: Seq<char>)
    requires
        key_view(a) == key_view(b),
    ensures
        has_key(a, x) <==> has_key(b, x),
{
    assert(key_view(a).len() == a.len());
    assert(key_view(b).len() == b.len());
    if has_key(a, x) {
        let i = choose|i: int| 0 <= i < a.len() && #[trigger] a[i].key() == x;
        assert(key_view(a)[i] == x);
        assert(key_view(b)[i] == b[i].key());
        assert(b[i].key() == x);
    }
    if has_key(b, x) {
        let i = choose|i: int| 0 <= i < b.len() && #[trigger] b[i].key() == x;
        assert(key_view(b)[i] == x);
        assert(key_view(a)[i] == a[i].key());
        assert(a[i].key() == x);
    }
}

proof fn lemma_has_key_view<A: Keyed>(a: Seq<A>, x: Seq<char>)
    requires
        has_key(a, x),
    ensures
        key_view(a).contains(x),
{
    let i = choose|i: int| 0 <= i < a.len() && #[trigger] a[i].key() == x;
    assert(key_view(a)[i] == x);
}

proof fn lemma_new_state_valid(
    v: GameView,
    c: ContentConfig,
    coins: nat,
    gp: Seq<(PlantId, EntityCount)>,
    ga: Seq<(AnimalId, EntityCount)>,
)
    requires
        new_state_view(v, c, coins, gp, ga),
        game_view_shape(v),
        c.wf(),
        grants_check(c, gp, ga) is None,
    ensures
        state_valid(v, c),
{
    lemma_catalog_facts(c.plant_seq(), c.animal_seq(), c.rule());
    let f = plant_grant_checks(c, gp);
    let g = animal_grant_checks(c, ga);
    assert(first_some(f, 0, gp.len() as int) is None);
    lemma_first_some_none_all(f, 0, gp.len() as int);
    assert(first_some(g, 0, ga.len() as int) is None);
    lemma_first_some_none_all(g, 0, ga.len() as int);
    assert forall|i: int| 0 <= i < v.plants.len() implies (#[trigger] plant_state_check(v, i)) is None by {
        let id = v.plant_ids[i];
        if grant_count(gp, id) != 0 {
            lemma_grant_count_nonzero(gp, id);
        }
    }
    assert forall|i: int|
        0 <= i < v.animals.len() implies (#[trigger] animal_state_check(v, c.animal_seq(), i)) is None by {
        let id = v.animal_ids[i];
        assert(animal_check(c.plant_seq(), c.animal_seq(), i) is None);
        if grant_count(ga, id) != 0 {
            lemma_grant_count_nonzero(ga, id);
        }
    }
    assert forall|j: int| 0 <= j < v.found_plants.len() implies key_view(c.plant_seq()).contains(
        #[trigger] v.found_plants[j],
    ) by {
        let x = v.found_plants[j];
        assert(v.found_plants.contains(x));
        assert(granted_nonzero(gp, x));
        let q = choose|q: int| 0 <= q < gp.len() && #[trigger] gp[q].0@ == x && gp[q].1@ != 0;
        assert(first_some(f, 0, gp.len() as int) is None);
        assert(f(q) is None);
        lemma_has_key_view(c.plant_seq(), x);
    }
    assert forall|j: int| 0 <= j < v.found_animals.len() implies key_view(c.animal_seq()).contains(
        #[trigger] v.found_animals[j],
    ) by {
        let x = v.found_animals[j];
        assert(v.found_animals.contains(x));
        assert(granted_nonzero(ga, x));
        let q = choose|q: int| 0 <= q < ga.len() && #[trigger] ga[q].0@ == x && ga[q].1@ != 0;
        assert(first_some(g, 0, ga.len() as int) is None);
        assert(g(q) is None);
        lemma_has_key_view(c.animal_seq(), x);
    }
    lemma_state_valid_intro(v, c);
}

fn zero_plants(content: &ContentConfig) -> (r: IdMap<PlantId, PlantState>)
    ensures
        key_view(r.key_seq()) == key_view(content.plant_seq()),
        r.val_seq().len() == content.plant_seq().len(),
        forall|k: int| 0 <= k < r.val_seq().len() ==> #[trigger] r.val_seq()[k]@ == (PlantStateView {
            count: 0,
            stock_cent: 0,
            remainder: 0,
        }),
{
    proof {
        use_type_invariant(content);
    }
    let configs = content.plants();
    let mut keys: Vec<PlantId> = Vec::new();
    let mut vals: Vec<PlantState> = Vec::new();
    let mut i: usize = 0;
    while i < configs.len()
        invariant
            configs@ == content.plant_seq(),
            i <= configs@.len(),
            keys@.len() == i,
            vals@.len() == i,
            forall|j: int| 0 <= j < i ==> #[trigger] keys@[j]@ == configs@[j].id@,
            forall|j: int| 0 <= j < i ==> #[trigger] vals@[j]@ == (PlantStateView {
                count: 0,
                stock_cent: 0,
                remainder: 0,
            }),
        decreases configs@.len() - i,
    {
        keys.push(configs[i].id.copy());
        vals.push(
            PlantState {
                count: EntityCount::zero(),
                stock_cent: StockCent::zero(),
                production_remainder_60: ProductionRemainder60::default(),
            },
        );
        i = i + 1;
    }
    proof {
        assert(key_view(keys@) =~= key_view(configs@));
        assert forall|a: int, b: int| 0 <= a < b < keys@.len() implies seq_less(#[trigger] keys@[a].key(), #[trigger] keys@[b].key()) by {
            assert(seq_less(configs@[a].key(), configs@[b].key()));
        }
    }
    IdMap::from_sorted(keys, vals)
}

fn zero_animals(content: &ContentConfig) -> (r: IdMap<AnimalId, AnimalState>)
    ensures
        key_view(r.key_seq()) == key_view(content.animal_seq()),
        r.val_seq().len() == content.animal_seq().len(),
        forall|k: int| 0 <= k < r.val_seq().len() ==> #[trigger] r.val_seq()[k]@ == (AnimalStateView {
            count: 0,
            growth_cent: 0,
            progress: 0,
            lifetime_paid: 0,
        }),
{
    proof {
        use_type_invariant(content);
    }
    let configs = content.animals();
    let mut keys: Vec<AnimalId> = Vec::new();
    let mut vals: Vec<AnimalState> = Vec::new();
    let mut i: usize = 0;
    while i < configs.len()
        invariant
            configs@ == content.animal_seq(),
            i <= configs@.len(),
            keys@.len() == i,
            vals@.len() == i,
            forall|j: int| 0 <= j < i ==> #[trigger] keys@[j]@ == configs@[j].id@,
            forall|j: int| 0 <= j < i ==> #[trigger] vals@[j]@ == (AnimalStateView {
                count: 0,
                growth_cent: 0,
                progress: 0,
                lifetime_paid: 0,
            }),
        decreases configs@.len() - i,
    {
        keys.push(configs[i].id.copy());
        vals.push(
            AnimalState {
                count: EntityCount::zero(),
                total_growth_cent: GrowthCent::zero(),
                feeding_progress: FeedingProgress::default(),
                lifetime_paid_purchase_count: LifetimePurchaseCount::zero(),
            },
        );
        i = i + 1;
    }
    proof {
        assert(key_view(keys@) =~= key_view(configs@));
        assert forall|a: int, b: int| 0 <= a < b < keys@.len() implies seq_less(#[trigger] keys@[a].key(), #[trigger] keys@[b].key()) by {
            assert(seq_less(configs@[a].key(), configs@[b].key()));
        }
    }
    IdMap::from_sorted(keys, vals)
}

impl GameState {
    /// Every state has this shape.
    #[verifier::type_invariant]
    pub open spec fn wf(&self) -> bool {
        game_view_shape(self@)
    }

    /// A state from its parts.
    pub fn assemble(
        content_version: String,
        wallet: Wallet,
        plants: IdMap<PlantId, PlantState>,
        animals: IdMap<AnimalId, AnimalState>,
        collection: CollectionState,
    ) -> (r: Self)
        ensures
            r@ == (GameView {
                version: content_version@,
                coins: wallet.coins@,
                plant_ids: key_view(plants.key_seq()),
                plants: plant_views(plants.val_seq()),
                animal_ids: key_view(animals.key_seq()),
                animals: animal_views(animals.val_seq()),
                found_plants: collection.plant_ids(),
                found_animals: collection.animal_ids(),
            }),
    {
        proof {
            use_type_invariant(&plants);
            use_type_invariant(&animals);
            use_type_invariant(&collection.discovered_plants);
            use_type_invariant(&collection.discovered_animals);
            lemma_key_view_facts(plants.key_seq());
            lemma_key_view_facts(animals.key_seq());
            lemma_key_view_facts(collection.discovered_plants.key_seq());
            lemma_key_view_facts(collection.discovered_animals.key_seq());
        }
        GameState { content_version, wallet, plants, animals, collection }
    }

    /// This state with the given coins, groups and collection; ids and version are kept.
    pub fn rebuilt(
        &self,
        coins: Coins,
        plants: Vec<PlantState>,
        animals: Vec<AnimalState>,
        collection: CollectionState,
    ) -> (r: Self)
        requires
            plants@.len() == self@.plants.len(),
            animals@.len() == self@.animals.len(),
        ensures
            r@ == (GameView {
                version: self@.version,
                coins: coins@,
                plant_ids: self@.plant_ids,
                plants: plant_views(plants@),
                animal_ids: self@.animal_ids,
                animals: animal_views(animals@),
                found_plants: collection.plant_ids(),
                found_animals: collection.animal_ids(),
            }),
    {
        proof {
            use_type_invariant(self);
            use_type_invariant(&self.plants);
            use_type_invariant(&self.animals);
        }
        let pk = copy_plants(&self.plants);
        let ak = copy_animals(&self.animals);
        proof {
            use_type_invariant(&pk);
            use_type_invariant(&ak);
        }
        let plant_map = IdMap::from_sorted(pk.keys_owned(), plants);
        let animal_map = IdMap::from_sorted(ak.keys_owned(), animals);
        GameState::assemble(
            self.content_version.clone(),
            Wallet { coins },
            plant_map,
            animal_map,
            collection,
        )
    }

    /// Copies of the plant groups, in id order.
    pub fn plant_values(&self) -> (r: Vec<PlantState>)
        ensures
            plant_views(r@) == self@.plants,
    {
        copy_plants(&self.plants).values_owned()
    }

    /// Copies of the animal groups, in id order.
    pub fn animal_values(&self) -> (r: Vec<AnimalState>)
        ensures
            animal_views(r@) == self@.animals,
    {
        copy_animals(&self.animals).values_owned()
    }

    /// A copy of the collection.
    pub fn collection_copy(&self) -> (r: CollectionState)
        ensures
            r.plant_ids() == self@.found_plants,
            r.animal_ids() == self@.found_animals,
    {
        CollectionState {
            discovered_plants: self.collection.discovered_plants.copy(),
            discovered_animals: self.collection.discovered_animals.copy(),
        }
    }

    /// A copy of the state.
    pub fn copy(&self) -> (r: Self)
        ensures
            r@ == self@,
    {
        let collection = CollectionState {
            discovered_plants: self.collection.discovered_plants.copy(),
            discovered_animals: self.collection.discovered_animals.copy(),
        };
        GameState::assemble(
            self.content_version.clone(),
            Wallet { coins: self.wallet.coins.copy() },
            copy_plants(&self.plants),
            copy_animals(&self.animals),
            collection,
        )
    }

    /// Checks this state against the catalog; the first failed check is the error.
    pub fn validate(&self, content: &ContentConfig) -> (r: Result<(), StateError>)
        ensures
            match state_check(self@, *content) {
                Some(e) => r matches Err(x) && x@ == e,
                None => r is Ok,
            },
    {
        proof {
            use_type_invariant(self);
            use_type_invariant(content);
            lemma_key_view_facts(content.plant_seq());
            lemma_key_view_facts(content.animal_seq());
        }
        if !str_eq(self.content_version.as_str(), content.content_version()) {
            return Err(
                StateError::ContentVersionMismatch {
                    state: self.content_version.clone(),
                    catalog: content.content_version().to_owned(),
                },
            );
        }
        if !plant_ids_match(self.plants.keys(), content.plants()) || !animal_ids_match(
            self.animals.keys(),
            content.animals(),
        ) {
            return Err(StateError::SpeciesSetMismatch);
        }
        let ghost sv = self@;
        let keys = self.plants.keys();
        let vals = self.plants.values();
        let ghost f = plant_state_checks(sv);
        let n = keys.len();
        let mut i: usize = 0;
        while i < n
            invariant
                sv == self@,
                n == keys@.len(),
                keys@ == self.plants.key_seq(),
                vals@ == self.plants.val_seq(),
                game_view_shape(sv),
                sv.version == content.version_view(),
                sv.plant_ids == key_view(content.plant_seq()),
                sv.animal_ids == key_view(content.animal_seq()),
                i <= n,
                f == plant_state_checks(sv),
                first_some(f, 0, n as int) == first_some(f, i as int, n as int),
            decreases n - i,
        {
            let id = &keys[i];
            let p = &vals[i];
            assert(sv.plant_ids[i as int] == id@);
            assert(sv.plants[i as int] == p@);
            let rem = p.production_remainder_60.value();
            assert(f(i as int) is Some ==> first_some(f, i as int, n as int) == f(i as int));
            if rem >= 60 {
                return Err(StateError::InvalidProductionRemainder);
            }
            let empty = p.count.is_zero();
            if empty && rem != 0 {
                return Err(StateError::EmptyPlantHasProductionRemainder(id.to_string()));
            }
            if empty && !p.stock_cent.is_zero() {
                return Err(StateError::EmptyPlantHasStock(id.to_string()));
            }
            if !empty && !self.collection.is_plant_discovered(id) {
                return Err(StateError::OwnedSpeciesUndiscovered(id.to_string()));
            }
            proof {
                assert(f(i as int) is None);
                lemma_first_some_step(f, i as int, n as int);
            }
            i = i + 1;
        }
        let akeys = self.animals.keys();
        let avals = self.animals.values();
        let configs = content.animals();
        let ghost g = animal_state_checks(sv, content.animal_seq());
        let m = akeys.len();
        let mut i: usize = 0;
        while i < m
            invariant
                sv == self@,
                m == akeys@.len(),
                akeys@ == self.animals.key_seq(),
                avals@ == self.animals.val_seq(),
                configs@ == content.animal_seq(),
                sv.animal_ids == key_view(content.animal_seq()),
                sv.version == content.version_view(),
                sv.plant_ids == key_view(content.plant_seq()),
                first_some(f, 0, n as int) is None,
                f == plant_state_checks(sv),
                n == sv.plants.len(),
                game_view_shape(sv),
                i <= m,
                g == animal_state_checks(sv, content.animal_seq()),
                first_some(g, 0, m as int) == first_some(g, i as int, m as int),
            decreases m - i,
        {
            let id = &akeys[i];
            let a = &avals[i];
            assert(sv.animal_ids[i as int] == id@);
            assert(sv.animals[i as int] == a@);
            assert(key_view(content.animal_seq()).len() == configs@.len());
            let threshold = configs[i].feeding_threshold;
            assert(g(i as int) is Some ==> first_some(g, i as int, m as int) == g(i as int));
            let progress = a.feeding_progress.value();
            if progress >= threshold {
                return Err(
                    StateError::InvalidFeedingProgress { animal_id: id.to_string(), threshold },
                );
            }
            let empty = a.count.is_zero();
            if empty && (!a.total_growth_cent.is_zero() || progress != 0) {
                return Err(StateError::EmptyAnimalHasProgress(id.to_string()));
            }
            if (!empty || !a.lifetime_paid_purchase_count.is_zero())
                && !self.collection.is_animal_discovered(id) {
                return Err(StateError::OwnedSpeciesUndiscovered(id.to_string()));
            }
            proof {
                assert(g(i as int) is None);
                lemma_first_some_step(g, i as int, m as int);
            }
            i = i + 1;
        }
        proof {
            lemma_first_some_none_iff(f, n as int, n as int);
            lemma_first_some_none_iff(g, m as int, m as int);
        }
        let found = self.collection.discovered_plants();
        let mut i: usize = 0;
        while i < found.len()
            invariant
                key_view(found@) == sv.found_plants,
                sv == self@,
                i <= found@.len(),
                forall|j: int| 0 <= j < i ==> key_view(content.plant_seq()).contains(#[trigger] sv.found_plants[j]),
                forall|x: Seq<char>| key_view(content.plant_seq()).contains(x) <==> has_key(content.plant_seq(), x),
                sv.version == content.version_view(),
                sv.plant_ids == key_view(content.plant_seq()),
                sv.animal_ids == key_view(content.animal_seq()),
                first_some(f, 0, n as int) is None,
                first_some(g, 0, m as int) is None,
                n == sv.plants.len(),
                m == sv.animals.len(),
                f == plant_state_checks(sv),
                g == animal_state_checks(sv, content.animal_seq()),
            decreases found@.len() - i,
        {
            if content.plant(&found[i]).is_none() {
                assert(key_view(found@)[i as int] == found@[i as int]@);
                return Err(StateError::UnknownCollectionSpecies);
            }
            i = i + 1;
        }
        let found = self.collection.discovered_animals();
        let mut i: usize = 0;
        while i < found.len()
            invariant
                key_view(found@) == sv.found_animals,
                sv == self@,
                i <= found@.len(),
                forall|j: int| 0 <= j < i ==> key_view(content.animal_seq()).contains(#[trigger] sv.found_animals[j]),
                forall|x: Seq<char>| key_view(content.animal_seq()).contains(x) <==> has_key(content.animal_seq(), x),
                sv.version == content.version_view(),
                sv.plant_ids == key_view(content.plant_seq()),
                sv.animal_ids == key_view(content.animal_seq()),
                first_some(f, 0, n as int) is None,
                first_some(g, 0, m as int) is None,
                n == sv.plants.len(),
                m == sv.animals.len(),
                f == plant_state_checks(sv),
                g == animal_state_checks(sv, content.animal_seq()),
            decreases found@.len() - i,
        {
            if content.animal(&found[i]).is_none() {
                assert(key_view(found@)[i as int] == found@[i as int]@);
                return Err(StateError::UnknownCollectionSpecies);
            }
            i = i + 1;
        }
        Ok(())
    }

    /// A new state: the given coins, every catalog species with the granted count (zero
    /// when not granted), no stock or growth, and the granted species discovered.
    /// Repeated and unknown grants are rejected.
    pub fn new(
        content: &ContentConfig,
        coins: Coins,
        initial_plants: Vec<(PlantId, EntityCount)>,
        initial_animals: Vec<(AnimalId, EntityCount)>,
    ) -> (r: Result<Self, StateError>)
        ensures
            match grants_check(*content, initial_plants@, initial_animals@) {
                Some(e) => r matches Err(x) && x@ == e,
                None => r matches Ok(s) && new_state_view(s@, *content, coins@, initial_plants@, initial_animals@)
                    && state_valid(s@, *content),
            },
    {
        proof {
            use_type_invariant(content);
            lemma_catalog_facts(content.plant_seq(), content.animal_seq(), content.rule());
        }
        let ghost gp = initial_plants@;
        let ghost ga = initial_animals@;
        let mut plants = zero_plants(content);
        let mut animals = zero_animals(content);
        let mut collection = CollectionState::empty();
        // plant grants
        let mut seen: IdSet<PlantId> = IdSet::new();
        let mut rest = initial_plants;
        let n = rest.len();
        let ghost f = plant_grant_checks(*content, gp);
        let mut i: usize = 0;
        proof {
            assert(gp.skip(0) =~= gp);
            assert(gp.take(0) =~= Seq::<(PlantId, EntityCount)>::empty());
        }
        while i < n
            invariant
                n == gp.len(),
                gp == initial_plants@,
                ga == initial_animals@,
                i <= n,
                rest@ == gp.skip(i as int),
                f == plant_grant_checks(*content, gp),
                first_some(f, 0, n as int) == first_some(f, i as int, n as int),
                forall|j: int| 0 <= j < i ==> (#[trigger] f(j)) is None,
                forall|x: Seq<char>| has_key(seen.key_seq(), x) <==> (exists|j: int| 0 <= j < i && #[trigger] gp[j].0@ == x),
                key_view(plants.key_seq()) == key_view(content.plant_seq()),
                forall|k: int| 0 <= k < plants.val_seq().len() ==> #[trigger] plants.val_seq()[k]@ == (PlantStateView {
                    count: grant_count(gp.take(i as int), key_view(content.plant_seq())[k]),
                    stock_cent: 0,
                    remainder: 0,
                }),
                forall|x: Seq<char>| collection.plant_ids().contains(x) <==> granted_nonzero(gp.take(i as int), x),
                collection.animal_ids().len() == 0,
                keys_increasing(content.plant_seq()),
            decreases n - i,
        {
            let (id, count) = rest.remove(0);
            proof {
                assert(gp[i as int] == (id, count));
                assert(gp.skip(i as int).drop_first() =~= gp.skip(i as int + 1));
                assert(gp.take(i as int + 1).drop_last() =~= gp.take(i as int));
                assert(f(i as int) is Some ==> first_some(f, i as int, n as int) == f(i as int));
                use_type_invariant(&plants);
            }
            if !seen.insert(id.copy()) {
                assert(exists|j: int| 0 <= j < i && #[trigger] gp[j].0@ == gp[i as int].0@);
                return Err(StateError::DuplicateInitialGrant(id.to_string()));
            }
            let found = crate::config::find_by_key(plants.keys(), id.as_str());
            let k = match found {
                None => {
                    proof {
                        crate::state::lemma_key_view_has_key(plants.key_seq(), content.plant_seq(), id@);
                    }
                    return Err(StateError::UnknownPlant(id.to_string()));
                },
                Some(k) => k,
            };
            proof {
                crate::state::lemma_key_view_has_key(plants.key_seq(), content.plant_seq(), id@);
                assert(f(i as int) is None);
                lemma_first_some_step(f, i as int, n as int);
            }
            let ghost old_vals = plants.val_seq();
            let ghost old_found = collection.plant_ids();
            let nonzero = !count.is_zero();
            plants.set_value(
                k,
                PlantState {
                    count,
                    stock_cent: StockCent::zero(),
                    production_remainder_60: ProductionRemainder60::default(),
                },
            );
            if nonzero {
                collection.discover_plant(id);
            }
            proof {
                let t1 = gp.take(i as int + 1);
                let t0 = gp.take(i as int);
                assert forall|q: int| 0 <= q < plants.val_seq().len() implies #[trigger] plants.val_seq()[q]@ == (PlantStateView {
                    count: grant_count(t1, key_view(content.plant_seq())[q]),
                    stock_cent: 0,
                    remainder: 0,
                }) by {
                    assert(key_view(plants.key_seq())[q] == key_view(content.plant_seq())[q]);
                    if q != k {
                        assert(plants.key_seq()[q].key() != plants.key_seq()[k as int].key()) by {
                            if q < k {
                                crate::keyed::lemma_seq_less_irreflexive(plants.key_seq()[q].key());
                            } else {
                                crate::keyed::lemma_seq_less_irreflexive(plants.key_seq()[q].key());
                            }
                        }
                        assert(key_view(plants.key_seq())[q] != gp[i as int].0@);
                    }
                }
                assert forall|x: Seq<char>| collection.plant_ids().contains(x) <==> granted_nonzero(t1, x) by {
                    if granted_nonzero(t1, x) {
                        let j = choose|j: int| 0 <= j < t1.len() && #[trigger] t1[j].0@ == x && t1[j].1@ != 0;
                        if j < i {
                            assert(t0[j].0@ == x);
                            assert(granted_nonzero(t0, x));
                        }
                    }
                    if granted_nonzero(t0, x) {
                        let j = choose|j: int| 0 <= j < t0.len() && #[trigger] t0[j].0@ == x && t0[j].1@ != 0;
                        assert(t1[j].0@ == x);
                    }
                    if nonzero {
                        assert(old_found.push(id@).contains(x) <==> (old_found.contains(x) || x == id@)) by {
                            if old_found.push(id@).contains(x) {
                                let m = choose|m: int| 0 <= m < old_found.push(id@).len() && old_found.push(id@)[m] == x;
                                if m < old_found.len() {
                                    assert(old_found[m] == x);
                                }
                            }
                            if old_found.contains(x) {
                                let m = choose|m: int| 0 <= m < old_found.len() && old_found[m] == x;
                                assert(old_found.push(id@)[m] == x);
                            }
                            assert(old_found.push(id@)[old_found.len() as int] == id@);
                        }
                        if x == id@ {
                            assert(t1[i as int].0@ == x);
                        }
                    }
                }
                assert forall|x: Seq<char>| has_key(seen.key_seq(), x) <==> (exists|j: int| 0 <= j < i + 1 && #[trigger] gp[j].0@ == x) by {
                    if x == gp[i as int].0@ {
                        assert(gp[i as int].0@ == x);
                    }
                }
            }
            i = i + 1;
        }
        proof {
            assert(gp.take(n as int) =~= gp);
            lemma_first_some_none_iff(f, n as int, n as int);
            use_type_invariant(&plants);
            assert(key_view(plants.key_seq()).len() == plants.key_seq().len());
        }
        // animal grants
        let ghost found_p = collection.plant_ids();
        let mut seen: IdSet<AnimalId> = IdSet::new();
        let mut rest = initial_animals;
        let m = rest.len();
        let ghost g = animal_grant_checks(*content, ga);
        let mut i: usize = 0;
        proof {
            assert(ga.skip(0) =~= ga);
            assert(ga.take(0) =~= Seq::<(AnimalId, EntityCount)>::empty());
        }
        while i < m
            invariant
                m == ga.len(),
                gp == initial_plants@,
                ga == initial_animals@,
                first_some(f, 0, n as int) is None,
                f == plant_grant_checks(*content, gp),
                n == gp.len(),
                key_view(plants.key_seq()) == key_view(content.plant_seq()),
                plants.val_seq().len() == content.plant_seq().len(),
                forall|k: int| 0 <= k < plants.val_seq().len() ==> #[trigger] plants.val_seq()[k]@ == (PlantStateView {
                    count: grant_count(gp, key_view(content.plant_seq())[k]),
                    stock_cent: 0,
                    remainder: 0,
                }),
                i <= m,
                rest@ == ga.skip(i as int),
                g == animal_grant_checks(*content, ga),
                first_some(g, 0, m as int) == first_some(g, i as int, m as int),
                forall|j: int| 0 <= j < i ==> (#[trigger] g(j)) is None,
                forall|x: Seq<char>| has_key(seen.key_seq(), x) <==> (exists|j: int| 0 <= j < i && #[trigger] ga[j].0@ == x),
                key_view(animals.key_seq()) == key_view(content.animal_seq()),
                forall|k: int| 0 <= k < animals.val_seq().len() ==> #[trigger] animals.val_seq()[k]@ == (AnimalStateView {
                    count: grant_count(ga.take(i as int), key_view(content.animal_seq())[k]),
                    growth_cent: 0,
                    progress: 0,
                    lifetime_paid: 0,
                }),
                forall|x: Seq<char>| collection.animal_ids().contains(x) <==> granted_nonzero(ga.take(i as int), x),
                collection.plant_ids() == found_p,
                forall|x: Seq<char>| found_p.contains(x) <==> granted_nonzero(gp, x),
                keys_increasing(content.animal_seq()),
            decreases m - i,
        {
            let (id, count) = rest.remove(0);
            proof {
                assert(ga[i as int] == (id, count));
                assert(ga.skip(i as int).drop_first() =~= ga.skip(i as int + 1));
                assert(ga.take(i as int + 1).drop_last() =~= ga.take(i as int));
                assert(g(i as int) is Some ==> first_some(g, i as int, m as int) == g(i as int));
                use_type_invariant(&animals);
            }
            if !seen.insert(id.copy()) {
                assert(exists|j: int| 0 <= j < i && #[trigger] ga[j].0@ == ga[i as int].0@);
                return Err(StateError::DuplicateInitialGrant(id.to_string()));
            }
            let found = crate::config::find_by_key(animals.keys(), id.as_str());
            let k = match found {
                None => {
                    proof {
                        crate::state::lemma_key_view_has_key(animals.key_seq(), content.animal_seq(), id@);
                    }
                    return Err(StateError::UnknownAnimal(id.to_string()));
                },
                Some(k) => k,
            };
            proof {
                crate::state::lemma_key_view_has_key(animals.key_seq(), content.animal_seq(), id@);
                assert(g(i as int) is None);
                lemma_first_some_step(g, i as int, m as int);
            }
            let ghost old_found = collection.animal_ids();
            let nonzero = !count.is_zero();
            animals.set_value(
                k,
                AnimalState {
                    count,
                    total_growth_cent: GrowthCent::zero(),
                    feeding_progress: FeedingProgress::default(),
                    lifetime_paid_purchase_count: LifetimePurchaseCount::zero(),
                },
            );
            if nonzero {
                collection.discover_animal(id);
            }
            proof {
                let t1 = ga.take(i as int + 1);
                let t0 = ga.take(i as int);
                assert forall|q: int| 0 <= q < animals.val_seq().len() implies #[trigger] animals.val_seq()[q]@ == (AnimalStateView {
                    count: grant_count(t1, key_view(content.animal_seq())[q]),
                    growth_cent: 0,
                    progress: 0,
                    lifetime_paid: 0,
                }) by {
                    assert(key_view(animals.key_seq())[q] == key_view(content.animal_seq())[q]);
                    if q != k {
                        assert(animals.key_seq()[q].key() != animals.key_seq()[k as int].key()) by {
                            crate::keyed::lemma_seq_less_irreflexive(animals.key_seq()[q].key());
                        }
                        assert(key_view(animals.key_seq())[q] != ga[i as int].0@);
                    }
                }
                assert forall|x: Seq<char>| collection.animal_ids().contains(x) <==> granted_nonzero(t1, x) by {
                    if granted_nonzero(t1, x) {
                        let j = choose|j: int| 0 <= j < t1.len() && #[trigger] t1[j].0@ == x && t1[j].1@ != 0;
                        if j < i {
                            assert(t0[j].0@ == x);
                            assert(granted_nonzero(t0, x));
                        }
                    }
                    if granted_nonzero(t0, x) {
                        let j = choose|j: int| 0 <= j < t0.len() && #[trigger] t0[j].0@ == x && t0[j].1@ != 0;
                        assert(t1[j].0@ == x);
                    }
                    if nonzero {
                        assert(old_found.push(id@).contains(x) <==> (old_found.contains(x) || x == id@)) by {
                            if old_found.push(id@).contains(x) {
                                let q = choose|q: int| 0 <= q < old_found.push(id@).len() && old_found.push(id@)[q] == x;
                                if q < old_found.len() {
                                    assert(old_found[q] == x);
                                }
                            }
                            if old_found.contains(x) {
                                let q = choose|q: int| 0 <= q < old_found.len() && old_found[q] == x;
                                assert(old_found.push(id@)[q] == x);
                            }
                            assert(old_found.push(id@)[old_found.len() as int] == id@);
                        }
                        if x == id@ {
                            assert(t1[i as int].0@ == x);
                        }
                    }
                }
                assert forall|x: Seq<char>| has_key(seen.key_seq(), x) <==> (exists|j: int| 0 <= j < i + 1 && #[trigger] ga[j].0@ == x) by {
                    if x == ga[i as int].0@ {
                        assert(ga[i as int].0@ == x);
                    }
                }
            }
            i = i + 1;
        }
        proof {
            assert(ga.take(m as int) =~= ga);
            lemma_first_some_none_iff(g, m as int, m as int);
        }
        proof {
            use_type_invariant(&animals);
            use_type_invariant(&plants);
            assert(key_view(animals.key_seq()).len() == animals.key_seq().len());
            assert(key_view(plants.key_seq()).len() == plants.key_seq().len());
            assert(ga.take(m as int) =~= ga);
        }
        let state = GameState::assemble(
            content.content_version().to_owned(),
            Wallet { coins },
            plants,
            animals,
            collection,
        );
        proof {
            use_type_invariant(&state);
            let v = state@;
            assert forall|k: int| 0 <= k < v.plants.len() implies #[trigger] v.plants[k] == (PlantStateView {
                count: grant_count(gp, v.plant_ids[k]),
                stock_cent: 0,
                remainder: 0,
            }) by {
            }
            lemma_new_state_valid(state@, *content, coins@, gp, ga);
        }
        state.validate(content)?;
        Ok(state)
    }

    /// Restores a state from its parts, checked against the catalog.
    pub fn try_from_parts(
        content_version: String,
        wallet: Wallet,
        plants: IdMap<PlantId, PlantState>,
        animals: IdMap<AnimalId, AnimalState>,
        collection: CollectionState,
        content: &ContentConfig,
    ) -> (r: Result<Self, StateError>)
        ensures
            ({
                let v = GameView {
                    version: content_version@,
                    coins: wallet.coins@,
                    plant_ids: key_view(plants.key_seq()),
                    plants: plant_views(plants.val_seq()),
                    animal_ids: key_view(animals.key_seq()),
                    animals: animal_views(animals.val_seq()),
                    found_plants: collection.plant_ids(),
                    found_animals: collection.animal_ids(),
                };
                match state_check(v, *content) {
                    Some(e) => r matches Err(x) && x@ == e,
                    None => r matches Ok(s) && s@ == v,
                }
            }),
    {
        let state = GameState::assemble(content_version, wallet, plants, animals, collection);
        state.validate(content)?;
        Ok(state)
    }

    pub fn content_version(&self) -> (r: &str)
        ensures
            r@ == self@.version,
    {
        self.content_version.as_str()
    }

    pub fn wallet(&self) -> (r: &Wallet)
        ensures
            r.coins@ == self@.coins,
    {
        &self.wallet
    }

    pub fn plants(&self) -> (r: &IdMap<PlantId, PlantState>)
        ensures
            key_view(r.key_seq()) == self@.plant_ids,
            plant_views(r.val_seq()) == self@.plants,
    {
        &self.plants
    }

    pub fn animals(&self) -> (r: &IdMap<AnimalId, AnimalState>)
        ensures
            key_view(r.key_seq()) == self@.animal_ids,
            animal_views(r.val_seq()) == self@.animals,
    {
        &self.animals
    }

    pub fn collection(&self) -> (r: &CollectionState)
        ensures
            r.plant_ids() == self@.found_plants,
            r.animal_ids() == self@.found_animals,
    {
        &self.collection
    }

    /// The number of animals of all species.
    pub fn total_animal_count(&self) -> (r: BigNat)
        ensures
            r@ == total_count(self@.animals),
    {
        let vals = self.animals.values();
        let ghost s = self@.animals;
        let mut total = BigNat::zero();
        let mut i: usize = 0;
        assert(animal_views(vals@).take(0) =~= Seq::<AnimalStateView>::empty());
        while i < vals.len()
            invariant
                s == animal_views(vals@),
                i <= vals@.len(),
                total@ == total_count(s.take(i as int)),
            decreases vals@.len() - i,
        {
            total = total.add(vals[i].count.as_biguint());
            assert(s.take(i as int + 1).drop_last() =~= s.take(i as int));
            i = i + 1;
        }
        assert(s.take(vals@.len() as int) =~= s);
        total
    }
}

/// The result of a command: the next state, the command's outcome, and its events.
#[derive(Debug, PartialEq, Eq)]
pub struct Transition<T> {
    pub state: GameState,
    pub outcome: T,
    pub events: Vec<DomainEvent>,
}

} // verus!

//! Maps and sets keyed by species id, kept in id order.
use crate::keyed::{
    has_key, key_index, key_position, keys_increasing, lemma_insert_keeps_increasing,
    lemma_key_index_unique, seq_less, lemma_seq_less_asymmetric, Keyed, SortKey,
};
use vstd::prelude::*;

verus! {

/// The keys of `s`.
pub open spec fn key_view<K: Keyed>(s: Seq<K>) -> Seq<Seq<char>> {
    Seq::new(s.len(), |i: int| s[i].key())
}

/// Each key of `ks` to the value at its position in `vs`.
pub open spec fn map_of<K: Keyed, V>(ks: Seq<K>, vs: Seq<V>) -> Map<Seq<char>, V> {
    Map::new(|x: Seq<char>| has_key(ks, x), |x: Seq<char>| vs[key_index(ks, x)])
}

/// Storing under a key, in place or at its sorted position, is an insert into the map.
proof fn lemma_map_of_insert<K: Keyed, V>(
    ok: Seq<K>,
    ov: Seq<V>,
    nk: Seq<K>,
    nv: Seq<V>,
    k: K,
    v: V,
    p: int,
)
    requires
        keys_increasing(ok),
        keys_increasing(nk),
        ok.len() == ov.len(),
        has_key(ok, k.key()) ==> nk == ok && nv == ov.update(key_index(ok, k.key()), v),
        !has_key(ok, k.key()) ==> 0 <= p <= ok.len() && nk == ok.insert(p, k) && nv == ov.insert(p, v),
    ensures
        map_of(nk, nv) == map_of(ok, ov).insert(k.key(), v),
{
    let m = map_of(ok, ov).insert(k.key(), v);
    let n = map_of(nk, nv);
    if has_key(ok, k.key()) {
        let i = key_index(ok, k.key());
        assert forall|x: Seq<char>| n.dom().contains(x) implies n[x] == m[x] by {
            let j = key_index(ok, x);
            lemma_key_index_unique(ok, j);
            if x != k.key() {
                assert(j != i);
            }
        }
    } else {
        assert forall|x: Seq<char>| #[trigger] n.dom().contains(x) <==> m.dom().contains(x) by {
            if has_key(nk, x) {
                let j = choose|j: int| 0 <= j < nk.len() && #[trigger] nk[j].key() == x;
                if j < p {
                    assert(ok[j] == nk[j]);
                } else if j > p {
                    assert(ok[j - 1] == nk[j]);
                }
            }
            if has_key(ok, x) {
                let j = choose|j: int| 0 <= j < ok.len() && #[trigger] ok[j].key() == x;
                if j < p {
                    assert(nk[j] == ok[j]);
                } else {
                    assert(nk[j + 1] == ok[j]);
                }
            }
            if x == k.key() {
                assert(nk[p] == k);
            }
        }
        assert forall|x: Seq<char>| n.dom().contains(x) implies n[x] == m[x] by {
            let j = key_index(nk, x);
            lemma_key_index_unique(nk, j);
            if j < p {
                assert(ok[j] == nk[j]);
                lemma_key_index_unique(ok, j);
            } else if j > p {
                assert(ok[j - 1] == nk[j]);
                lemma_key_index_unique(ok, j - 1);
            } else {
                assert(nk[p] == k);
            }
        }
    }
    assert(n =~= m);
}

/// In an increasing key sequence, the map holds exactly the listed keys, and the key at
/// position `j` maps to the value at `j`.
pub proof fn lemma_map_of_positions<K: Keyed, V>(ks: Seq<K>, vs: Seq<V>)
    requires
        keys_increasing(ks),
    ensures
        forall|x: Seq<char>| #[trigger] map_of(ks, vs).dom().contains(x) <==> key_view(ks).contains(x),
        forall|j: int| 0 <= j < ks.len() ==> map_of(ks, vs)[#[trigger] key_view(ks)[j]] == vs[j],
{
    assert forall|x: Seq<char>| #[trigger] map_of(ks, vs).dom().contains(x) <==> key_view(ks).contains(x) by {
        if key_view(ks).contains(x) {
            let j = choose|j: int| 0 <= j < key_view(ks).len() && key_view(ks)[j] == x;
            assert(ks[j].key() == x);
        }
        if has_key(ks, x) {
            let j = choose|j: int| 0 <= j < ks.len() && #[trigger] ks[j].key() == x;
            assert(key_view(ks)[j] == x);
        }
    }
    assert forall|j: int| 0 <= j < ks.len() implies map_of(ks, vs)[#[trigger] key_view(ks)[j]] == vs[j] by {
        lemma_key_index_unique(ks, j);
    }
}

/// A map from species id to a value, in id order.
#[derive(Debug, PartialEq, Eq)]
pub struct IdMap<K: Keyed, V> {
    keys: Vec<K>,
    vals: Vec<V>,
}

impl<K: Keyed, V> IdMap<K, V> {
    pub closed spec fn key_seq(&self) -> Seq<K> {
        self.keys@
    }

    pub closed spec fn val_seq(&self) -> Seq<V> {
        self.vals@
    }

    /// Each key to its value.
    pub open spec fn as_map(&self) -> Map<Seq<char>, V> {
        map_of(self.key_seq(), self.val_seq())
    }

    /// Keys and values pair up, and the keys strictly increase.
    #[verifier::type_invariant]
    pub open spec fn wf(&self) -> bool {
        &&& self.key_seq().len() == self.val_seq().len()
        &&& keys_increasing(self.key_seq())
    }

    pub fn new() -> (r: Self)
        ensures
            r.key_seq().len() == 0,
            r.val_seq().len() == 0,
    {
        IdMap { keys: Vec::new(), vals: Vec::new() }
    }

    /// The map with these entries; `keys` must increase.
    pub fn from_sorted(keys: Vec<K>, vals: Vec<V>) -> (r: Self)
        requires
            keys@.len() == vals@.len(),
            keys_increasing(keys@),
        ensures
            r.key_seq() == keys@,
            r.val_seq() == vals@,
    {
        IdMap { keys, vals }
    }

    pub fn len(&self) -> (r: usize)
        ensures
            r == self.key_seq().len(),
            r == self.val_seq().len(),
    {
        proof {
            use_type_invariant(self);
        }
        self.keys.len()
    }

    /// The keys, in increasing order.
    pub fn keys(&self) -> (r: &Vec<K>)
        ensures
            r@ == self.key_seq(),
    {
        &self.keys
    }

    /// The values, in the order of their keys.
    pub fn values(&self) -> (r: &Vec<V>)
        ensures
            r@ == self.val_seq(),
    {
        &self.vals
    }

    /// The keys, taken out of the map.
    pub fn keys_owned(self) -> (r: Vec<K>)
        ensures
            r@ == self.key_seq(),
    {
        self.keys
    }

    /// The values, taken out of the map.
    pub fn values_owned(self) -> (r: Vec<V>)
        ensures
            r@ == self.val_seq(),
    {
        self.vals
    }

    /// The value stored under the key of `k`, if any.
    pub fn get(&self, k: &K) -> (r: Option<&V>)
        ensures
            r is Some <==> has_key(self.key_seq(), k.key()),
            r matches Some(v) ==> *v == self.val_seq()[key_index(self.key_seq(), k.key())],
    {
        proof {
            use_type_invariant(self);
        }
        let (pos, found) = key_position(&self.keys, k.key_str());
        if found {
            proof {
                lemma_key_index_unique(self.keys@, pos as int);
            }
            Some(&self.vals[pos])
        } else {
            None
        }
    }

    pub fn contains_key(&self, k: &K) -> (r: bool)
        ensures
            r == has_key(self.key_seq(), k.key()),
    {
        proof {
            use_type_invariant(self);
        }
        key_position(&self.keys, k.key_str()).1
    }

    /// Stores `v` under the key of `k`; gives back the value it replaces, if any.
    pub fn insert(&mut self, k: K, v: V) -> (r: Option<V>)
        ensures
            has_key(old(self).key_seq(), k.key()) ==> {
                let i = key_index(old(self).key_seq(), k.key());
                &&& final(self).key_seq() == old(self).key_seq()
                &&& final(self).val_seq() == old(self).val_seq().update(i, v)
                &&& r == Some(old(self).val_seq()[i])
            },
            !has_key(old(self).key_seq(), k.key()) ==> {
                let p = crate::keyed::insert_pos(old(self).key_seq(), k);
                &&& final(self).key_seq() == old(self).key_seq().insert(p, k)
                &&& final(self).val_seq() == old(self).val_seq().insert(p, v)
                &&& r is None
            },
            final(self).as_map() == old(self).as_map().insert(k.key(), v),
    {
        proof {
            use_type_invariant(&*self);
        }
        let ghost ok = self.keys@;
        let ghost ov = self.vals@;
        let ghost kk = k;
        let ghost vv = v;
        let ghost pp = crate::keyed::insert_pos(ok, kk);
        let mut tmp = IdMap::new();
        std::mem::swap(self, &mut tmp);
        let IdMap { mut keys, mut vals } = tmp;
        let (pos, found) = key_position(&keys, k.key_str());
        if found {
            proof {
                lemma_key_index_unique(keys@, pos as int);
            }
            let mut v2 = v;
            std::mem::swap(&mut vals[pos], &mut v2);
            *self = IdMap { keys, vals };
            proof {
                use_type_invariant(&*self);
                lemma_map_of_insert(ok, ov, self.keys@, self.vals@, kk, vv, pp);
            }
            Some(v2)
        } else {
            proof {
                assert forall|j: int| pos <= j < keys@.len() implies !seq_less(
                    #[trigger] keys@[j].key(),
                    k.key(),
                ) by {
                    lemma_seq_less_asymmetric(keys@[j].key(), k.key());
                }
                assert(crate::keyed::is_split(keys@, k, pos as int));
                crate::keyed::lemma_insert_pos_unique(keys@, k, pos as int);
                lemma_insert_keeps_increasing(keys@, pos as int, k);
            }
            keys.insert(pos, k);
            vals.insert(pos, v);
            *self = IdMap { keys, vals };
            proof {
                use_type_invariant(&*self);
                lemma_map_of_insert(ok, ov, self.keys@, self.vals@, kk, vv, pp);
            }
            None
        }
    }

    /// Replaces the value at position `i`.
    pub fn set_value(&mut self, i: usize, v: V)
        requires
            i < old(self).val_seq().len(),
        ensures
            final(self).key_seq() == old(self).key_seq(),
            final(self).val_seq() == old(self).val_seq().update(i as int, v),
    {
        proof {
            use_type_invariant(&*self);
        }
        let mut tmp = IdMap::new();
        std::mem::swap(self, &mut tmp);
        let IdMap { keys, mut vals } = tmp;
        vals.set(i, v);
        *self = IdMap { keys, vals };
    }
}

pub fn dup_keys<K: Keyed>(keys: &Vec<K>) -> (r: Vec<K>)
    ensures
        r@.len() == keys@.len(),
        forall|i: int| 0 <= i < keys@.len() ==> #[trigger] r@[i].key() == keys@[i].key(),
{
    let mut r: Vec<K> = Vec::new();
    let mut i: usize = 0;
    while i < keys.len()
        invariant
            i <= keys@.len(),
            r@.len() == i,
            forall|j: int| 0 <= j < i ==> #[trigger] r@[j].key() == keys@[j].key(),
        decreases keys@.len() - i,
    {
        r.push(keys[i].dup());
        i = i + 1;
    }
    r
}

impl<K: Keyed, V: Clone> Clone for IdMap<K, V> {
    fn clone(&self) -> (r: Self) {
        proof {
            use_type_invariant(self);
        }
        let keys = dup_keys(&self.keys);
        let vals = self.vals.clone();
        IdMap { keys, vals }
    }
}

impl<K: Keyed> Clone for IdSet<K> {
    fn clone(&self) -> (r: Self) {
        proof {
            use_type_invariant(self);
        }
        IdSet { keys: dup_keys(&self.keys) }
    }
}

/// A set of species ids, in id order.
#[derive(Debug, PartialEq, Eq)]
pub struct IdSet<K: Keyed> {
    keys: Vec<K>,
}

impl<K: Keyed> IdSet<K> {
    pub closed spec fn key_seq(&self) -> Seq<K> {
        self.keys@
    }

    /// The keys strictly increase.
    #[verifier::type_invariant]
    pub open spec fn wf(&self) -> bool {
        keys_increasing(self.key_seq())
    }

    pub fn new() -> (r: Self)
        ensures
            r.key_seq().len() == 0,
    {
        IdSet { keys: Vec::new() }
    }

    pub fn len(&self) -> (r: usize)
        ensures
            r == self.key_seq().len(),
    {
        self.keys.len()
    }

    /// A copy of the set.
    pub fn copy(&self) -> (r: Self)
        ensures
            key_view(r.key_seq()) == key_view(self.key_seq()),
    {
        proof {
            use_type_invariant(self);
        }
        let keys = dup_keys(&self.keys);
        assert(key_view(keys@) =~= key_view(self.keys@));
        IdSet { keys }
    }

    /// The members, in increasing order.
    pub fn keys(&self) -> (r: &Vec<K>)
        ensures
            r@ == self.key_seq(),
    {
        &self.keys
    }

    pub fn contains(&self, k: &K) -> (r: bool)
        ensures
            r == has_key(self.key_seq(), k.key()),
    {
        proof {
            use_type_invariant(self);
        }
        key_position(&self.keys, k.key_str()).1
    }

    /// Adds the key of `k`; tells whether it was new.
    pub fn insert(&mut self, k: K) -> (r: bool)
        ensures
            r == !has_key(old(self).key_seq(), k.key()),
            r ==> final(self).key_seq() == old(self).key_seq().insert(
                crate::keyed::insert_pos(old(self).key_seq(), k),
                k,
            ),
            !r ==> final(self).key_seq() == old(self).key_seq(),
            forall|x: Seq<char>| has_key(final(self).key_seq(), x) <==> (has_key(old(self).key_seq(), x) || x == k.key()),
    {
        proof {
            use_type_invariant(&*self);
        }
        let mut tmp = IdSet::new();
        std::mem::swap(self, &mut tmp);
        let IdSet { mut keys } = tmp;
        let ghost old_keys = keys@;
        let (pos, found) = key_position(&keys, k.key_str());
        if found {
            *self = IdSet { keys };
            false
        } else {
            proof {
                assert forall|j: int| pos <= j < keys@.len() implies !seq_less(
                    #[trigger] keys@[j].key(),
                    k.key(),
                ) by {
                    lemma_seq_less_asymmetric(keys@[j].key(), k.key());
                }
                assert(crate::keyed::is_split(keys@, k, pos as int));
                crate::keyed::lemma_insert_pos_unique(keys@, k, pos as int);
                lemma_insert_keeps_increasing(keys@, pos as int, k);
            }
            keys.insert(pos, k);
            proof {
                old_keys.insert_ensures(pos as int, k);
                assert forall|x: Seq<char>| has_key(keys@, x) <==> (has_key(old_keys, x) || x == k.key()) by {
                    if has_key(keys@, x) {
                        let m = choose|m: int| 0 <= m < keys@.len() && #[trigger] keys@[m].key() == x;
                        if m < pos {
                            assert(old_keys[m].key() == x);
                        } else if m > pos {
                            assert(old_keys[m - 1].key() == x);
                        }
                    }
                    if has_key(old_keys, x) {
                        let m = choose|m: int| 0 <= m < old_keys.len() && #[trigger] old_keys[m].key() == x;
                        if m < pos {
                            assert(keys@[m].key() == x);
                        } else {
                            assert(keys@[m + 1].key() == x);
                        }
                    }
                    if x == k.key() {
                        assert(keys@[pos as int].key() == x);
                    }
                }
            }
            *self = IdSet { keys };
            true
        }
    }
}

} // verus!

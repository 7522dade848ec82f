//! Lexicographic order on character sequences, and values ordered by such a key.
use crate::error::{
    first_some, lemma_first_some_agree, lemma_first_some_none_iff, lemma_first_some_step,
};
use vstd::prelude::*;

verus! {

/// Lexicographic order by code point, which is the order of Rust's `String`
/// (UTF-8 byte order agrees with code-point order).
pub open spec fn seq_less(a: Seq<char>, b: Seq<char>) -> bool
    decreases a.len(),
{
    if a.len() == 0 {
        b.len() > 0
    } else if b.len() == 0 {
        false
    } else if a[0] != b[0] {
        a[0] < b[0]
    } else {
        seq_less(a.drop_first(), b.drop_first())
    }
}

pub proof fn lemma_seq_less_irreflexive(a: Seq<char>)
    ensures
        !seq_less(a, a),
    decreases a.len(),
{
    if a.len() > 0 {
        lemma_seq_less_irreflexive(a.drop_first());
    }
}

pub proof fn lemma_seq_less_asymmetric(a: Seq<char>, b: Seq<char>)
    ensures
        !(seq_less(a, b) && seq_less(b, a)),
    decreases a.len(),
{
    if a.len() > 0 && b.len() > 0 && a[0] == b[0] {
        lemma_seq_less_asymmetric(a.drop_first(), b.drop_first());
    }
}

pub proof fn lemma_seq_less_transitive(a: Seq<char>, b: Seq<char>, c: Seq<char>)
    requires
        seq_less(a, b),
        seq_less(b, c),
    ensures
        seq_less(a, c),
    decreases a.len(),
{
    if a.len() > 0 && b.len() > 0 && c.len() > 0 && a[0] == b[0] && b[0] == c[0] {
        lemma_seq_less_transitive(a.drop_first(), b.drop_first(), c.drop_first());
    }
}

pub proof fn lemma_seq_less_total(a: Seq<char>, b: Seq<char>)
    ensures
        a == b || seq_less(a, b) || seq_less(b, a),
    decreases a.len(),
{
    if a.len() > 0 && b.len() > 0 && a[0] == b[0] {
        lemma_seq_less_total(a.drop_first(), b.drop_first());
        if a.drop_first() == b.drop_first() {
            assert(a =~= seq![a[0]] + a.drop_first());
            assert(b =~= seq![b[0]] + b.drop_first());
        }
    } else if a.len() > 0 && b.len() > 0 {
        assert(a[0] < b[0] || b[0] < a[0]);
    } else if a.len() == 0 && b.len() == 0 {
        assert(a =~= b);
    }
}

/// `seq_less` on suffixes that follow a common prefix.
proof fn lemma_seq_less_skip(a: Seq<char>, b: Seq<char>, i: int)
    requires
        0 <= i < a.len(),
        i < b.len(),
        a[i] == b[i],
    ensures
        seq_less(a.skip(i), b.skip(i)) == seq_less(a.skip(i + 1), b.skip(i + 1)),
{
    assert(a.skip(i).drop_first() =~= a.skip(i + 1));
    assert(b.skip(i).drop_first() =~= b.skip(i + 1));
}

/// Compares two strings by the order of `String`.
pub fn str_less(a: &str, b: &str) -> (r: bool)
    ensures
        r == seq_less(a@, b@),
{
    let la = a.unicode_len();
    let lb = b.unicode_len();
    let mut i: usize = 0;
    assert(a@.skip(0) =~= a@);
    assert(b@.skip(0) =~= b@);
    while i < la && i < lb
        invariant
            la == a@.len(),
            lb == b@.len(),
            i <= la,
            i <= lb,
            seq_less(a@, b@) == seq_less(a@.skip(i as int), b@.skip(i as int)),
        decreases la - i,
    {
        let ca = a.get_char(i);
        let cb = b.get_char(i);
        if ca != cb {
            assert(a@.skip(i as int)[0] == ca);
            assert(b@.skip(i as int)[0] == cb);
            return ca < cb;
        }
        proof {
            lemma_seq_less_skip(a@, b@, i as int);
        }
        i = i + 1;
    }
    i == la && i < lb
}

/// A value ordered by a character-sequence key.
pub trait SortKey: Sized {
    spec fn key(&self) -> Seq<char>;
}

/// A value whose key is held as a string.
pub trait Keyed: SortKey {
    fn key_str(&self) -> (r: &str)
        ensures
            r@ == self.key(),
    ;

    /// A copy with the same key.
    fn dup(&self) -> (r: Self)
        ensures
            r.key() == self.key(),
    ;
}

/// The keys of `s` strictly increase.
pub open spec fn keys_increasing<T: SortKey>(s: Seq<T>) -> bool {
    forall|i: int, j: int| 0 <= i < j < s.len() ==> seq_less(#[trigger] s[i].key(), #[trigger] s[j].key())
}

/// Some element of `s` has key `k`.
pub open spec fn has_key<T: SortKey>(s: Seq<T>, k: Seq<char>) -> bool {
    exists|i: int| 0 <= i < s.len() && #[trigger] s[i].key() == k
}

/// The position in the strictly increasing `v` where key `k` stands or belongs,
/// and whether an element with that key is present.
pub fn key_position<T: Keyed>(v: &Vec<T>, k: &str) -> (r: (usize, bool))
    requires
        keys_increasing(v@),
    ensures
        r.0 <= v@.len(),
        forall|j: int| 0 <= j < r.0 ==> seq_less(#[trigger] v@[j].key(), k@),
        r.1 ==> r.0 < v@.len() && v@[r.0 as int].key() == k@,
        !r.1 ==> forall|j: int| r.0 <= j < v@.len() ==> seq_less(k@, #[trigger] v@[j].key()),
        r.1 == has_key(v@, k@),
{
    let mut i: usize = 0;
    while i < v.len()
        invariant
            i <= v@.len(),
            keys_increasing(v@),
            forall|j: int| 0 <= j < i ==> seq_less(#[trigger] v@[j].key(), k@),
        decreases v@.len() - i,
    {
        let ki = v[i].key_str();
        if str_less(ki, k) {
            i = i + 1;
        } else {
            proof {
                lemma_seq_less_total(v@[i as int].key(), k@);
            }
            if !str_less(k, ki) {
                assert(v@[i as int].key() == k@);
                return (i, true);
            }
            assert forall|j: int| i <= j < v@.len() implies seq_less(k@, #[trigger] v@[j].key()) by {
                if j > i {
                    lemma_seq_less_transitive(k@, v@[i as int].key(), v@[j].key());
                }
            }
            assert forall|j: int| 0 <= j < v@.len() implies #[trigger] v@[j].key() != k@ by {
                if j < i {
                    lemma_seq_less_irreflexive(k@);
                } else {
                    lemma_seq_less_irreflexive(k@);
                }
            }
            return (i, false);
        }
    }
    assert forall|j: int| 0 <= j < v@.len() implies #[trigger] v@[j].key() != k@ by {
        lemma_seq_less_irreflexive(k@);
    }
    (i, false)
}

/// Inserting at a position that keeps the keys increasing.
pub proof fn lemma_insert_keeps_increasing<T: SortKey>(s: Seq<T>, pos: int, x: T)
    requires
        keys_increasing(s),
        0 <= pos <= s.len(),
        forall|j: int| 0 <= j < pos ==> seq_less(#[trigger] s[j].key(), x.key()),
        forall|j: int| pos <= j < s.len() ==> seq_less(x.key(), #[trigger] s[j].key()),
    ensures
        keys_increasing(s.insert(pos, x)),
{
    let t = s.insert(pos, x);
    assert forall|i: int, j: int| 0 <= i < j < t.len() implies seq_less(#[trigger] t[i].key(), #[trigger] t[j].key()) by {
        if i < pos && j == pos {
        } else if i < pos && j > pos {
            assert(t[j] == s[j - 1]);
        } else if i == pos {
            assert(t[j] == s[j - 1]);
        } else if i > pos {
            assert(t[i] == s[i - 1]);
            assert(t[j] == s[j - 1]);
        }
    }
}

/// Where `x` belongs in the key-ordered `s`: after exactly the elements whose key is smaller.
pub open spec fn insert_pos<T: SortKey>(s: Seq<T>, x: T) -> int {
    choose|p: int| is_split(s, x, p)
}

/// Position `p` of `s` has the elements with smaller key than `x` before it, and only those.
pub open spec fn is_split<T: SortKey>(s: Seq<T>, x: T, p: int) -> bool {
    &&& 0 <= p <= s.len()
    &&& forall|j: int| 0 <= j < p ==> seq_less(#[trigger] s[j].key(), x.key())
    &&& forall|j: int| p <= j < s.len() ==> !seq_less(#[trigger] s[j].key(), x.key())
}

/// `s` with `x` inserted in key order.
pub open spec fn insert_by_key<T: SortKey>(s: Seq<T>, x: T) -> Seq<T> {
    s.insert(insert_pos(s, x), x)
}

/// Insertion sort by key: the elements of `s` in key order.
pub open spec fn sort_by_key<T: SortKey>(s: Seq<T>) -> Seq<T>
    decreases s.len(),
{
    if s.len() == 0 {
        s
    } else {
        insert_by_key(sort_by_key(s.drop_last()), s.last())
    }
}

/// Sorting a sequence without repeated keys keeps its length and makes its keys increase.
pub proof fn lemma_sort_by_key_len<T: SortKey>(s: Seq<T>)
    requires
        first_dup(s) is None,
    ensures
        sort_by_key(s).len() == s.len(),
        keys_increasing(sort_by_key(s)),
{
    let f = |i: int| if is_dup_at(s, i) { Some(i) } else { None };
    lemma_first_some_none_iff(f, 0, s.len() as int);
    assert forall|i: int| 0 <= i < s.len() implies !is_dup_at(s, i) by {
        assert(f(i) is None);
    }
    lemma_sort_by_key(s);
}

/// The first position whose key occurs at an earlier position.
pub open spec fn first_dup<T: SortKey>(s: Seq<T>) -> Option<int> {
    first_some(|i: int| if is_dup_at(s, i) { Some(i) } else { None }, 0, s.len() as int)
}

/// The key at position `i` occurs earlier in `s`.
pub open spec fn is_dup_at<T: SortKey>(s: Seq<T>, i: int) -> bool {
    exists|j: int| 0 <= j < i && #[trigger] s[j].key() == s[i].key()
}

/// In an increasing sequence, a position with the right split property is `insert_pos`.
pub proof fn lemma_insert_pos_unique<T: SortKey>(s: Seq<T>, x: T, p: int)
    requires
        keys_increasing(s),
        0 <= p <= s.len(),
        forall|j: int| 0 <= j < p ==> seq_less(#[trigger] s[j].key(), x.key()),
        forall|j: int| p <= j < s.len() ==> !seq_less(#[trigger] s[j].key(), x.key()),
    ensures
        insert_pos(s, x) == p,
{
    assert(is_split(s, x, p));
    let q = insert_pos(s, x);
    assert(is_split(s, x, q));
    if q < p {
        assert(seq_less(s[q].key(), x.key()));
    } else if p < q {
        assert(seq_less(s[p].key(), x.key()));
    }
}

/// The index of the element with key `k`, in a sequence with distinct keys.
pub open spec fn key_index<T: SortKey>(s: Seq<T>, k: Seq<char>) -> int {
    choose|j: int| 0 <= j < s.len() && #[trigger] s[j].key() == k
}

/// In an increasing sequence, the position holding key `k` is `key_index`.
pub proof fn lemma_key_index_unique<T: SortKey>(s: Seq<T>, i: int)
    requires
        keys_increasing(s),
        0 <= i < s.len(),
    ensures
        key_index(s, s[i].key()) == i,
        has_key(s, s[i].key()),
{
    let k = s[i].key();
    assert(s[i].key() == k);
    let j = key_index(s, k);
    assert(0 <= j < s.len() && s[j].key() == k);
    if j < i {
        lemma_seq_less_irreflexive(k);
    } else if i < j {
        lemma_seq_less_irreflexive(k);
    }
}

/// Sorting a sequence without repeated keys gives increasing keys and the same keys.
pub proof fn lemma_sort_by_key<T: SortKey>(s: Seq<T>)
    requires
        forall|i: int| 0 <= i < s.len() ==> !is_dup_at(s, i),
    ensures
        keys_increasing(sort_by_key(s)),
        sort_by_key(s).len() == s.len(),
        forall|k: Seq<char>| has_key(sort_by_key(s), k) <==> has_key(s, k),
        forall|x: T| sort_by_key(s).contains(x) <==> s.contains(x),
    decreases s.len(),
{
    if s.len() > 0 {
        let t = s.drop_last();
        assert forall|i: int| 0 <= i < t.len() implies !is_dup_at(t, i) by {
            if is_dup_at(t, i) {
                let j = choose|j: int| 0 <= j < i && #[trigger] t[j].key() == t[i].key();
                assert(s[j].key() == s[i].key());
                assert(is_dup_at(s, i));
            }
        }
        lemma_sort_by_key(t);
        let st = sort_by_key(t);
        let x = s.last();
        let p = insert_pos(st, x);
        // x's key is new.
        assert(!is_dup_at(s, s.len() - 1));
        assert forall|j: int| 0 <= j < st.len() implies #[trigger] st[j].key() != x.key() by {
            if st[j].key() == x.key() {
                assert(has_key(st, x.key()));
                assert(has_key(t, x.key()));
                let m = choose|m: int| 0 <= m < t.len() && #[trigger] t[m].key() == x.key();
                assert(s[m].key() == s[s.len() - 1].key());
            }
        }
        // the split position exists: it is the first element with a larger key.
        lemma_split_exists(st, x);
        assert(is_split(st, x, p));
        assert forall|j: int| p <= j < st.len() implies seq_less(x.key(), #[trigger] st[j].key()) by {
            lemma_seq_less_total(x.key(), st[j].key());
        }
        lemma_insert_keeps_increasing(st, p, x);
        let r = st.insert(p, x);
        assert forall|k: Seq<char>| has_key(r, k) <==> has_key(s, k) by {
            if has_key(r, k) {
                let m = choose|m: int| 0 <= m < r.len() && #[trigger] r[m].key() == k;
                if m == p {
                    assert(s[s.len() - 1].key() == k);
                } else if m < p {
                    assert(r[m] == st[m]);
                    assert(has_key(st, k));
                    assert(has_key(t, k));
                    let n = choose|n: int| 0 <= n < t.len() && #[trigger] t[n].key() == k;
                    assert(t[n] == s[n]);
                    assert(s[n].key() == k);
                } else {
                    assert(r[m] == st[m - 1]);
                    assert(has_key(st, k));
                    assert(has_key(t, k));
                    let n = choose|n: int| 0 <= n < t.len() && #[trigger] t[n].key() == k;
                    assert(t[n] == s[n]);
                    assert(s[n].key() == k);
                }
            }
            if has_key(s, k) {
                let m = choose|m: int| 0 <= m < s.len() && #[trigger] s[m].key() == k;
                if m == s.len() - 1 {
                    assert(r[p].key() == k);
                } else {
                    assert(t[m].key() == k);
                    assert(has_key(t, k));
                    assert(has_key(st, k));
                    let n = choose|n: int| 0 <= n < st.len() && #[trigger] st[n].key() == k;
                    if n < p {
                        assert(r[n] == st[n]);
                    } else {
                        assert(r[n + 1] == st[n]);
                    }
                }
            }
        }
        assert forall|y: T| r.contains(y) <==> s.contains(y) by {
            if r.contains(y) {
                let m = choose|m: int| 0 <= m < r.len() && r[m] == y;
                if m == p {
                    assert(s[s.len() - 1] == y);
                } else if m < p {
                    assert(st.contains(y));
                    assert(t.contains(y));
                    let n = choose|n: int| 0 <= n < t.len() && t[n] == y;
                    assert(s[n] == y);
                } else {
                    assert(r[m] == st[m - 1]);
                    assert(st.contains(y));
                    assert(t.contains(y));
                    let n = choose|n: int| 0 <= n < t.len() && t[n] == y;
                    assert(s[n] == y);
                }
            }
            if s.contains(y) {
                let m = choose|m: int| 0 <= m < s.len() && s[m] == y;
                if m == s.len() - 1 {
                    assert(r[p] == y);
                } else {
                    assert(t[m] == y);
                    assert(t.contains(y));
                    assert(st.contains(y));
                    let n = choose|n: int| 0 <= n < st.len() && st[n] == y;
                    if n < p {
                        assert(r[n] == st[n]);
                    } else {
                        assert(r[n + 1] == st[n]);
                    }
                }
            }
        }
    }
}

/// In an increasing sequence some position splits the smaller keys from the others.
pub proof fn lemma_split_exists<T: SortKey>(s: Seq<T>, x: T)
    requires
        keys_increasing(s),
    ensures
        exists|q: int| is_split(s, x, q),
    decreases s.len(),
{
    if s.len() == 0 {
        assert(is_split(s, x, 0));
    } else {
        let t = s.drop_last();
        assert forall|i: int, j: int| 0 <= i < j < t.len() implies seq_less(#[trigger] t[i].key(), #[trigger] t[j].key()) by {
            assert(t[i] == s[i] && t[j] == s[j]);
        }
        lemma_split_exists(t, x);
        let q = choose|q: int| is_split(t, x, q);
        if q == t.len() && seq_less(s.last().key(), x.key()) {
            assert forall|j: int| 0 <= j < s.len() implies seq_less(#[trigger] s[j].key(), x.key()) by {
                if j < t.len() {
                    assert(t[j] == s[j]);
                }
            }
            assert(is_split(s, x, s.len() as int));
        } else {
            assert forall|j: int| 0 <= j < q implies seq_less(#[trigger] s[j].key(), x.key()) by {
                assert(t[j] == s[j]);
            }
            assert forall|j: int| q <= j < s.len() implies !seq_less(#[trigger] s[j].key(), x.key()) by {
                if j < t.len() {
                    assert(t[j] == s[j]);
                } else if q < t.len() {
                    assert(!seq_less(t[q].key(), x.key()));
                    assert(seq_less(s[q].key(), s[j].key()));
                    if seq_less(s[j].key(), x.key()) {
                        lemma_seq_less_total(s[q].key(), x.key());
                        if s[q].key() == x.key() {
                            lemma_seq_less_asymmetric(s[j].key(), x.key());
                        } else {
                            lemma_seq_less_transitive(x.key(), s[q].key(), s[j].key());
                            lemma_seq_less_asymmetric(s[j].key(), x.key());
                        }
                    }
                }
            }
            assert(is_split(s, x, q));
        }
    }
}

/// Sorts the elements of `v` by key, failing on the first element whose key was already seen.
pub fn sort_unique<T: Keyed>(v: Vec<T>) -> (r: Result<Vec<T>, T>)
    ensures
        match first_dup(v@) {
            Some(i) => r matches Err(x) && x == v@[i],
            None => r matches Ok(s) && s@ == sort_by_key(v@) && keys_increasing(s@),
        },
{
    let ghost orig = v@;
    assert(orig == v@);
    let ghost f = |i: int| if is_dup_at(orig, i) { Some(i) } else { None };
    let mut rest = v;
    let mut sorted: Vec<T> = Vec::new();
    let mut i: usize = 0;
    let n = rest.len();
    assert(orig.take(0) =~= Seq::<T>::empty());
    assert(orig.skip(0) =~= orig);
    while i < n
        invariant
            n == orig.len(),
            orig == v@,
            i <= n,
            rest@ == orig.skip(i as int),
            sorted@ == sort_by_key(orig.take(i as int)),
            keys_increasing(sorted@),
            forall|j: int| 0 <= j < i ==> !is_dup_at(orig, j),
            forall|k: Seq<char>| has_key(sorted@, k) <==> has_key(orig.take(i as int), k),
            first_dup(orig) == first_some(f, i as int, n as int),
            f == (|j: int| if is_dup_at(orig, j) { Some(j) } else { None }),
        decreases n - i,
    {
        let x = rest.remove(0);
        assert(x == orig[i as int]);
        let (pos, found) = key_position(&sorted, x.key_str());
        if found {
            proof {
                let m = choose|m: int| 0 <= m < i && #[trigger] orig.take(i as int)[m].key() == x.key();
                assert(orig[m].key() == orig[i as int].key());
                assert(is_dup_at(orig, i as int));
                assert(f(i as int) == Some(i as int));
                assert(first_some(f, i as int, n as int) == Some(i as int));
            }
            return Err(x);
        }
        proof {
            assert(!is_dup_at(orig, i as int)) by {
                if is_dup_at(orig, i as int) {
                    let m = choose|m: int| 0 <= m < i && #[trigger] orig[m].key() == orig[i as int].key();
                    assert(orig.take(i as int)[m].key() == x.key());
                    assert(has_key(orig.take(i as int), x.key()));
                }
            }
            assert(f(i as int) is None);
            lemma_first_some_step(f, i as int, n as int);
            assert(orig.take(i as int + 1).drop_last() =~= orig.take(i as int));
            assert forall|j: int| pos <= j < sorted@.len() implies !seq_less(#[trigger] sorted@[j].key(), x.key()) by {
                lemma_seq_less_asymmetric(sorted@[j].key(), x.key());
            }
            assert(is_split(sorted@, x, pos as int));
            lemma_insert_pos_unique(sorted@, x, pos as int);
            lemma_insert_keeps_increasing(sorted@, pos as int, x);
            assert(orig.skip(i as int).drop_first() =~= orig.skip(i as int + 1));
        }
        let ghost old_sorted = sorted@;
        sorted.insert(pos, x);
        proof {
            assert(sorted@ == old_sorted.insert(pos as int, orig[i as int]));
            old_sorted.insert_ensures(pos as int, orig[i as int]);
            assert forall|k: Seq<char>| has_key(sorted@, k) <==> has_key(orig.take(i as int + 1), k) by {
                let t1 = orig.take(i as int + 1);
                if has_key(sorted@, k) {
                    let m = choose|m: int| 0 <= m < sorted@.len() && #[trigger] sorted@[m].key() == k;
                    if m == pos {
                        assert(t1[i as int].key() == k);
                    } else {
                        let mm = if m < pos { m } else { m - 1 };
                        assert(old_sorted[mm].key() == k);
                        assert(has_key(old_sorted, k));
                        let n2 = choose|n2: int| 0 <= n2 < i && #[trigger] orig.take(i as int)[n2].key() == k;
                        assert(t1[n2].key() == k);
                    }
                }
                if has_key(t1, k) {
                    let m = choose|m: int| 0 <= m < t1.len() && #[trigger] t1[m].key() == k;
                    if m == i {
                        assert(sorted@[pos as int].key() == k);
                    } else {
                        assert(orig.take(i as int)[m].key() == k);
                        assert(has_key(orig.take(i as int), k));
                        assert(has_key(old_sorted, k));
                        let n2 = choose|n2: int| 0 <= n2 < old_sorted.len() && #[trigger] old_sorted[n2].key() == k;
                        if n2 < pos {
                            assert(sorted@[n2] == old_sorted[n2]);
                            assert(sorted@[n2].key() == k);
                        } else {
                            assert(sorted@[n2 + 1] == old_sorted[n2]);
                            assert(sorted@[n2 + 1].key() == k);
                        }
                    }
                }
            }
        }
        i = i + 1;
    }
    proof {
        assert(orig.take(n as int) =~= orig);
        lemma_first_some_none_iff(f, n as int, n as int);
    }
    Ok(sorted)
}

/// A value whose keys can be compared directly.
pub trait Ranked: SortKey {
    fn key_less(&self, other: &Self) -> (r: bool)
        ensures
            r == seq_less(self.key(), other.key()),
    ;
}

/// The position in the strictly increasing `v` where the key of `x` stands or belongs,
/// and whether an element with that key is present.
pub fn rank_position<T: Ranked>(v: &Vec<T>, x: &T) -> (r: (usize, bool))
    requires
        keys_increasing(v@),
    ensures
        r.0 <= v@.len(),
        forall|j: int| 0 <= j < r.0 ==> seq_less(#[trigger] v@[j].key(), x.key()),
        r.1 ==> r.0 < v@.len() && v@[r.0 as int].key() == x.key(),
        !r.1 ==> forall|j: int| r.0 <= j < v@.len() ==> seq_less(x.key(), #[trigger] v@[j].key()),
        r.1 == has_key(v@, x.key()),
{
    let mut i: usize = 0;
    while i < v.len()
        invariant
            i <= v@.len(),
            keys_increasing(v@),
            forall|j: int| 0 <= j < i ==> seq_less(#[trigger] v@[j].key(), x.key()),
        decreases v@.len() - i,
    {
        if v[i].key_less(x) {
            i = i + 1;
        } else {
            proof {
                lemma_seq_less_total(v@[i as int].key(), x.key());
            }
            if !x.key_less(&v[i]) {
                assert(v@[i as int].key() == x.key());
                return (i, true);
            }
            assert forall|j: int| i <= j < v@.len() implies seq_less(x.key(), #[trigger] v@[j].key()) by {
                if j > i {
                    lemma_seq_less_transitive(x.key(), v@[i as int].key(), v@[j].key());
                }
            }
            assert forall|j: int| 0 <= j < v@.len() implies #[trigger] v@[j].key() != x.key() by {
                if j < i {
                    lemma_seq_less_irreflexive(x.key());
                } else {
                    lemma_seq_less_irreflexive(x.key());
                }
            }
            return (i, false);
        }
    }
    assert forall|j: int| 0 <= j < v@.len() implies #[trigger] v@[j].key() != x.key() by {
        lemma_seq_less_irreflexive(x.key());
    }
    (i, false)
}

/// Insertion sort by key of values compared directly; the first repeated key is refused.
pub fn sort_distinct<T: Ranked>(v: Vec<T>) -> (r: Result<Vec<T>, T>)
    ensures
        match first_dup(v@) {
            Some(i) => r matches Err(x) && x == v@[i],
            None => r matches Ok(s) && s@ == sort_by_key(v@) && keys_increasing(s@),
        },
{
    let ghost orig = v@;
    assert(orig == v@);
    let ghost f = |i: int| if is_dup_at(orig, i) { Some(i) } else { None };
    let mut rest = v;
    let mut sorted: Vec<T> = Vec::new();
    let mut i: usize = 0;
    let n = rest.len();
    assert(orig.take(0) =~= Seq::<T>::empty());
    assert(orig.skip(0) =~= orig);
    while i < n
        invariant
            n == orig.len(),
            orig == v@,
            i <= n,
            rest@ == orig.skip(i as int),
            sorted@ == sort_by_key(orig.take(i as int)),
            keys_increasing(sorted@),
            forall|j: int| 0 <= j < i ==> !is_dup_at(orig, j),
            forall|k: Seq<char>| has_key(sorted@, k) <==> has_key(orig.take(i as int), k),
            first_dup(orig) == first_some(f, i as int, n as int),
            f == (|j: int| if is_dup_at(orig, j) { Some(j) } else { None }),
        decreases n - i,
    {
        let x = rest.remove(0);
        assert(x == orig[i as int]);
        let (pos, found) = rank_position(&sorted, &x);
        if found {
            proof {
                let m = choose|m: int| 0 <= m < i && #[trigger] orig.take(i as int)[m].key() == x.key();
                assert(orig[m].key() == orig[i as int].key());
                assert(is_dup_at(orig, i as int));
                assert(f(i as int) == Some(i as int));
                assert(first_some(f, i as int, n as int) == Some(i as int));
            }
            return Err(x);
        }
        proof {
            assert(!is_dup_at(orig, i as int)) by {
                if is_dup_at(orig, i as int) {
                    let m = choose|m: int| 0 <= m < i && #[trigger] orig[m].key() == orig[i as int].key();
                    assert(orig.take(i as int)[m].key() == x.key());
                    assert(has_key(orig.take(i as int), x.key()));
                }
            }
            assert(f(i as int) is None);
            lemma_first_some_step(f, i as int, n as int);
            assert(orig.take(i as int + 1).drop_last() =~= orig.take(i as int));
            assert forall|j: int| pos <= j < sorted@.len() implies !seq_less(#[trigger] sorted@[j].key(), x.key()) by {
                lemma_seq_less_asymmetric(sorted@[j].key(), x.key());
            }
            assert(is_split(sorted@, x, pos as int));
            lemma_insert_pos_unique(sorted@, x, pos as int);
            lemma_insert_keeps_increasing(sorted@, pos as int, x);
            assert(orig.skip(i as int).drop_first() =~= orig.skip(i as int + 1));
        }
        let ghost old_sorted = sorted@;
        sorted.insert(pos, x);
        proof {
            assert(sorted@ == old_sorted.insert(pos as int, orig[i as int]));
            old_sorted.insert_ensures(pos as int, orig[i as int]);
            assert forall|k: Seq<char>| has_key(sorted@, k) <==> has_key(orig.take(i as int + 1), k) by {
                let t1 = orig.take(i as int + 1);
                if has_key(sorted@, k) {
                    let m = choose|m: int| 0 <= m < sorted@.len() && #[trigger] sorted@[m].key() == k;
                    if m == pos {
                        assert(t1[i as int].key() == k);
                    } else {
                        let mm = if m < pos { m } else { m - 1 };
                        assert(old_sorted[mm].key() == k);
                        assert(has_key(old_sorted, k));
                        let n2 = choose|n2: int| 0 <= n2 < i && #[trigger] orig.take(i as int)[n2].key() == k;
                        assert(t1[n2].key() == k);
                    }
                }
                if has_key(t1, k) {
                    let m = choose|m: int| 0 <= m < t1.len() && #[trigger] t1[m].key() == k;
                    if m == i {
                        assert(sorted@[pos as int].key() == k);
                    } else {
                        assert(orig.take(i as int)[m].key() == k);
                        assert(has_key(orig.take(i as int), k));
                        assert(has_key(old_sorted, k));
                        let n2 = choose|n2: int| 0 <= n2 < old_sorted.len() && #[trigger] old_sorted[n2].key() == k;
                        if n2 < pos {
                            assert(sorted@[n2] == old_sorted[n2]);
                            assert(sorted@[n2].key() == k);
                        } else {
                            assert(sorted@[n2 + 1] == old_sorted[n2]);
                            assert(sorted@[n2 + 1].key() == k);
                        }
                    }
                }
            }
        }
        i = i + 1;
    }
    proof {
        assert(orig.take(n as int) =~= orig);
        lemma_first_some_none_iff(f, n as int, n as int);
    }
    Ok(sorted)
}

/// A map that keeps every key keeps the repeated positions.
pub proof fn lemma_first_dup_map<T: SortKey, U: SortKey>(s: Seq<T>, f: spec_fn(T) -> U)
    requires
        forall|x: T| #[trigger] f(x).key() == x.key(),
    ensures
        first_dup(s.map_values(f)) == first_dup(s),
{
    let m = s.map_values(f);
    let fm = |i: int| if is_dup_at(m, i) { Some(i) } else { None };
    let fs = |i: int| if is_dup_at(s, i) { Some(i) } else { None };
    assert forall|i: int| 0 <= i < s.len() implies #[trigger] fm(i) == fs(i) by {
        if is_dup_at(m, i) {
            let j = choose|j: int| 0 <= j < i && #[trigger] m[j].key() == m[i].key();
            assert(f(s[j]).key() == s[j].key());
            assert(f(s[i]).key() == s[i].key());
            assert(s[j].key() == s[i].key());
        }
        if is_dup_at(s, i) {
            let j = choose|j: int| 0 <= j < i && #[trigger] s[j].key() == s[i].key();
            assert(f(s[j]).key() == s[j].key());
            assert(f(s[i]).key() == s[i].key());
            assert(m[j].key() == m[i].key());
        }
    }
    lemma_first_some_agree(fm, fs, 0, s.len() as int);
}

/// A map that keeps every key commutes with sorting a sequence without repeated keys.
pub proof fn lemma_sort_map<T: SortKey, U: SortKey>(s: Seq<T>, f: spec_fn(T) -> U)
    requires
        forall|x: T| #[trigger] f(x).key() == x.key(),
        forall|i: int| 0 <= i < s.len() ==> !is_dup_at(s, i),
    ensures
        sort_by_key(s.map_values(f)) == sort_by_key(s).map_values(f),
    decreases s.len(),
{
    if s.len() > 0 {
        let d = s.drop_last();
        let x = s.last();
        assert forall|i: int| 0 <= i < d.len() implies !is_dup_at(d, i) by {
            if is_dup_at(d, i) {
                let j = choose|j: int| 0 <= j < i && #[trigger] d[j].key() == d[i].key();
                assert(s[j].key() == s[i].key());
                assert(!is_dup_at(s, i));
            }
        }
        lemma_sort_map(d, f);
        let m = s.map_values(f);
        assert(m.drop_last() =~= d.map_values(f));
        assert(m.last() == f(x));
        let t = sort_by_key(d);
        lemma_sort_by_key(d);
        lemma_split_exists(t, x);
        let p = choose|q: int| is_split(t, x, q);
        lemma_insert_pos_unique(t, x, p);
        let tm = t.map_values(f);
        assert forall|i: int, j: int| 0 <= i < j < tm.len() implies seq_less(#[trigger] tm[i].key(), #[trigger] tm[j].key()) by {
            assert(f(t[i]).key() == t[i].key());
            assert(f(t[j]).key() == t[j].key());
        }
        assert forall|j: int| 0 <= j < p implies seq_less(#[trigger] tm[j].key(), f(x).key()) by {
            assert(f(t[j]).key() == t[j].key());
            assert(f(x).key() == x.key());
        }
        assert forall|j: int| p <= j < tm.len() implies !seq_less(#[trigger] tm[j].key(), f(x).key()) by {
            assert(f(t[j]).key() == t[j].key());
            assert(f(x).key() == x.key());
        }
        lemma_insert_pos_unique(tm, f(x), p);
        assert(sort_by_key(s) == t.insert(p, x));
        assert(sort_by_key(m) == tm.insert(p, f(x)));
        assert(t.insert(p, x).map_values(f) =~= tm.insert(p, f(x)));
    } else {
        assert(s.map_values(f) =~= s.map_values(f));
    }
}

proof fn lemma_first_dup_from<T: SortKey>(s: Seq<T>, from: int)
    requires
        0 <= from,
    ensures
        first_some(|i: int| if is_dup_at(s, i) { Some(i) } else { None }, from, s.len() as int) matches Some(i)
            ==> from <= i < s.len() && is_dup_at(s, i),
    decreases s.len() - from,
{
    if from < s.len() {
        lemma_first_dup_from(s, from + 1);
    }
}

/// The first repeated position is a position of `s` whose key occurred before.
pub proof fn lemma_first_dup_in_range<T: SortKey>(s: Seq<T>)
    ensures
        first_dup(s) matches Some(i) ==> 0 <= i < s.len() && is_dup_at(s, i),
{
    lemma_first_dup_from(s, 0);
}

/// Filtering keeps only elements of the sequence, and keeps increasing keys increasing.
pub proof fn lemma_filter_increasing<T: SortKey>(s: Seq<T>, pred: spec_fn(T) -> bool)
    ensures
        forall|x: T| s.filter(pred).contains(x) ==> s.contains(x) && pred(x),
        keys_increasing(s) ==> keys_increasing(s.filter(pred)),
    decreases s.len(),
{
    reveal(Seq::filter);
    if s.len() > 0 {
        let d = s.drop_last();
        lemma_filter_increasing(d, pred);
        let fd = d.filter(pred);
        let f = s.filter(pred);
        if pred(s.last()) {
            assert(f == fd.push(s.last()));
        } else {
            assert(f == fd);
        }
        assert forall|x: T| f.contains(x) implies s.contains(x) && pred(x) by {
            let i = choose|i: int| 0 <= i < f.len() && f[i] == x;
            if i < fd.len() {
                assert(fd[i] == x);
                assert(fd.contains(x));
                assert(d.contains(x));
                let j = choose|j: int| 0 <= j < d.len() && d[j] == x;
                assert(d[j] == s[j]);
                assert(s[j] == x);
            } else {
                assert(x == s.last());
                assert(s[s.len() - 1] == x);
            }
        }
        if keys_increasing(s) {
            assert forall|i: int, j: int| 0 <= i < j < d.len() implies seq_less(#[trigger] d[i].key(), #[trigger] d[j].key()) by {
                assert(d[i] == s[i] && d[j] == s[j]);
            }
            if pred(s.last()) {
                assert forall|i: int, j: int| 0 <= i < j < f.len() implies seq_less(#[trigger] f[i].key(), #[trigger] f[j].key()) by {
                    if j == f.len() - 1 {
                        assert(f[i] == fd[i]);
                        assert(fd.contains(fd[i]));
                        assert(d.contains(fd[i]));
                        let m = choose|m: int| 0 <= m < d.len() && d[m] == fd[i];
                        assert(d[m] == s[m]);
                        assert(f[j] == s[s.len() - 1]);
                        assert(seq_less(s[m].key(), s[s.len() - 1].key()));
                    } else {
                        assert(f[i] == fd[i] && f[j] == fd[j]);
                    }
                }
            }
        }
    }
}

} // verus!

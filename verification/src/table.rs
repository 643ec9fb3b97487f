//! An association list with unique keys, kept in insertion order.

use vstd::prelude::*;

verus! {

/// A value that can be copied into an identical value.
pub trait Duplicate: Sized {
    fn duplicate(&self) -> (r: Self)
        ensures
            r == *self,
    ;
}

impl Duplicate for String {
    fn duplicate(&self) -> (r: Self) {
        self.clone()
    }
}

impl<T: Duplicate> Duplicate for Option<T> {
    fn duplicate(&self) -> (r: Self) {
        match self {
            Some(x) => Some(x.duplicate()),
            None => None,
        }
    }
}

/// A key that can be compared by its view.
pub trait TableKey: View + Sized {
    fn key_eq(&self, other: &Self) -> (r: bool)
        ensures
            r == (self@ == other@),
    ;

    fn key_clone(&self) -> (r: Self)
        ensures
            r@ == self@,
    ;
}

impl TableKey for String {
    fn key_eq(&self, other: &Self) -> (r: bool) {
        *self == *other
    }

    fn key_clone(&self) -> (r: Self) {
        self.clone()
    }
}

/// Whether no key occurs twice in an association sequence.
pub open spec fn keys_unique<K, V>(s: Seq<(K, V)>) -> bool {
    forall|i: int, j: int| 0 <= i < s.len() && 0 <= j < s.len() && i != j ==> s[i].0 != s[j].0
}

/// Whether `k` is a key of `s`.
pub open spec fn has_key<K, V>(s: Seq<(K, V)>, k: K) -> bool {
    exists|i: int| 0 <= i < s.len() && s[i].0 == k
}

/// The position of key `k` in `s` (meaningful when `has_key(s, k)`).
pub open spec fn key_pos<K, V>(s: Seq<(K, V)>, k: K) -> int {
    choose|i: int| 0 <= i < s.len() && s[i].0 == k
}

/// The value stored under `k`, if any.
pub open spec fn lookup<K, V>(s: Seq<(K, V)>, k: K) -> Option<V> {
    if has_key(s, k) {
        Some(s[key_pos(s, k)].1)
    } else {
        None
    }
}

/// `s` with `k` bound to `v`: replaced in place if present, appended otherwise.
pub open spec fn assoc_insert<K, V>(s: Seq<(K, V)>, k: K, v: V) -> Seq<(K, V)> {
    if has_key(s, k) {
        s.update(key_pos(s, k), (k, v))
    } else {
        s.push((k, v))
    }
}

/// `s` with the entry for `k` removed, if any, keeping the order of the rest.
pub open spec fn assoc_remove<K, V>(s: Seq<(K, V)>, k: K) -> Seq<(K, V)> {
    if has_key(s, k) {
        s.remove(key_pos(s, k))
    } else {
        s
    }
}

/// `s` with `k` bound to `v` only when `k` is not yet a key.
pub open spec fn assoc_insert_absent<K, V>(s: Seq<(K, V)>, k: K, v: V) -> Seq<(K, V)> {
    if has_key(s, k) {
        s
    } else {
        s.push((k, v))
    }
}

/// The keys of an association sequence, in order.
pub open spec fn keys_of<K, V>(s: Seq<(K, V)>) -> Seq<K> {
    s.map_values(|e: (K, V)| e.0)
}

pub proof fn lemma_key_pos<K, V>(s: Seq<(K, V)>, i: int)
    requires
        keys_unique(s),
        0 <= i < s.len(),
    ensures
        has_key(s, s[i].0),
        key_pos(s, s[i].0) == i,
        lookup(s, s[i].0) == Some(s[i].1),
{
}

pub proof fn lemma_insert_unique<K, V>(s: Seq<(K, V)>, k: K, v: V)
    requires
        keys_unique(s),
    ensures
        keys_unique(assoc_insert(s, k, v)),
        keys_unique(assoc_insert_absent(s, k, v)),
        lookup(assoc_insert(s, k, v), k) == Some(v),
        forall|k2: K| k2 != k ==> lookup(assoc_insert(s, k, v), k2) == lookup(s, k2),
        has_key(s, k) ==> lookup(assoc_insert_absent(s, k, v), k) == lookup(s, k),
        !has_key(s, k) ==> lookup(assoc_insert_absent(s, k, v), k) == Some(v),
        forall|k2: K| k2 != k ==> lookup(assoc_insert_absent(s, k, v), k2) == lookup(s, k2),
{
    let t = assoc_insert(s, k, v);
    if has_key(s, k) {
        let p = key_pos(s, k);
        assert(t[p].0 == k);
        assert forall|k2: K| k2 != k implies lookup(t, k2) == lookup(s, k2) by {
            if has_key(s, k2) {
                let q = key_pos(s, k2);
                assert(t[q] == s[q]);
                lemma_key_pos(t, q);
            }
            if has_key(t, k2) {
                let q = key_pos(t, k2);
                assert(s[q] == t[q]);
            }
        }
        lemma_key_pos(t, p);
    } else {
        let n = s.len() as int;
        assert(t[n].0 == k);
        lemma_key_pos(t, n);
        assert forall|k2: K| k2 != k implies lookup(t, k2) == lookup(s, k2) by {
            if has_key(s, k2) {
                let q = key_pos(s, k2);
                assert(t[q] == s[q]);
                lemma_key_pos(t, q);
            }
            if has_key(t, k2) {
                let q = key_pos(t, k2);
                assert(s[q] == t[q]);
            }
        }
    }
}

pub proof fn lemma_remove_unique<K, V>(s: Seq<(K, V)>, k: K)
    requires
        keys_unique(s),
    ensures
        keys_unique(assoc_remove(s, k)),
        lookup(assoc_remove(s, k), k) is None,
        forall|k2: K| k2 != k ==> lookup(assoc_remove(s, k), k2) == lookup(s, k2),
        assoc_remove(s, k).len() == if has_key(s, k) { s.len() - 1 } else { s.len() as int },
{
    let t = assoc_remove(s, k);
    if has_key(s, k) {
        let p = key_pos(s, k);
        assert forall|i: int, j: int| 0 <= i < t.len() && 0 <= j < t.len() && i != j implies t[i].0 != t[j].0 by {
            let i2 = if i < p { i } else { i + 1 };
            let j2 = if j < p { j } else { j + 1 };
            assert(t[i] == s[i2]);
            assert(t[j] == s[j2]);
        }
        assert forall|k2: K| k2 != k implies lookup(t, k2) == lookup(s, k2) by {
            if has_key(s, k2) {
                let q = key_pos(s, k2);
                let q2 = if q < p { q } else { q - 1 };
                assert(q != p);
                assert(t[q2] == s[q]);
                lemma_key_pos(t, q2);
            }
            if has_key(t, k2) {
                let q = key_pos(t, k2);
                let q2 = if q < p { q } else { q + 1 };
                assert(s[q2] == t[q]);
            }
        }
        if has_key(t, k) {
            let q = key_pos(t, k);
            let q2 = if q < p { q } else { q + 1 };
            assert(s[q2] == t[q]);
        }
    }
}

/// Whether every value of an association sequence is below `n`.
pub open spec fn vals_below<K>(s: Seq<(K, usize)>, n: int) -> bool {
    forall|i: int| 0 <= i < s.len() ==> #[trigger] s[i].1 < n
}

pub proof fn lemma_vals_below<K>(s: Seq<(K, usize)>, k: K, v: usize, n: int, m: int)
    requires
        vals_below(s, n),
        n <= m,
        v < m,
    ensures
        vals_below(s, m),
        vals_below(assoc_insert(s, k, v), m),
        vals_below(assoc_insert_absent(s, k, v), m),
        vals_below(assoc_remove(s, k), m),
{
    let t = assoc_remove(s, k);
    if has_key(s, k) {
        let p = key_pos(s, k);
        assert forall|i: int| 0 <= i < t.len() implies #[trigger] t[i].1 < m by {
            let i2 = if i < p { i } else { i + 1 };
            assert(t[i] == s[i2]);
        }
    }
}

pub proof fn lemma_lookup_below<K>(s: Seq<(K, usize)>, k: K, n: int)
    requires
        vals_below(s, n),
    ensures
        lookup(s, k) matches Some(v) ==> v < n,
{
    if has_key(s, k) {
        let p = key_pos(s, k);
        assert(s[p].1 < n);
    }
}

/// An association list with unique keys in insertion order.
#[derive(Debug)]
pub struct Table<K: TableKey, V> {
    entries: Vec<(K, V)>,
}

impl<K: TableKey, V> View for Table<K, V> {
    type V = Seq<(K::V, V)>;

    closed spec fn view(&self) -> Seq<(K::V, V)> {
        self.entries@.map_values(|e: (K, V)| (e.0@, e.1))
    }
}

impl<K: TableKey, V> Table<K, V> {
    /// Every table's keys are unique.
    #[verifier::type_invariant]
    pub open spec fn wf(&self) -> bool {
        keys_unique(self@)
    }

    /// An empty table.
    pub fn new() -> (r: Self)
        ensures
            r@ == Seq::<(K::V, V)>::empty(),
    {
        let r = Table { entries: Vec::new() };
        assert(r@ =~= Seq::<(K::V, V)>::empty());
        r
    }

    /// A copy of the table with the same contents.
    pub fn duplicate(&self) -> (r: Self)
        where
            V: Duplicate,
        ensures
            r@ == self@,
    {
        proof {
            use_type_invariant(self);
        }
        let mut entries: Vec<(K, V)> = Vec::new();
        let mut i: usize = 0;
        while i < self.entries.len()
            invariant
                i <= self.entries@.len(),
                entries@.len() == i,
                forall|j: int|
                    0 <= j < i ==> (#[trigger] entries@[j]).0@ == self.entries@[j].0@
                        && entries@[j].1 == self.entries@[j].1,
            decreases self.entries@.len() - i,
        {
            let e = &self.entries[i];
            entries.push((e.0.key_clone(), e.1.duplicate()));
            i = i + 1;
        }
        assert(entries@.map_values(|e: (K, V)| (e.0@, e.1)) =~= self@);
        Table { entries }
    }

    /// Number of entries.
    pub fn len(&self) -> (r: usize)
        ensures
            r == self@.len(),
    {
        self.entries.len()
    }

    /// Whether the table has no entry.
    pub fn is_empty(&self) -> (r: bool)
        ensures
            r == (self@.len() == 0),
    {
        self.entries.len() == 0
    }

    /// The position of `key`, if present.
    fn position(&self, key: &K) -> (r: Option<usize>)
        ensures
            r is None <==> !has_key(self@, key@),
            r matches Some(i) ==> i < self@.len() && self@[i as int].0 == key@ && key_pos(self@, key@) == i,
    {
        proof {
            use_type_invariant(self);
        }
        let mut i: usize = 0;
        while i < self.entries.len()
            invariant
                i <= self.entries@.len(),
                keys_unique(self@),
                self@.len() == self.entries@.len(),
                forall|j: int| 0 <= j < i ==> self@[j].0 != key@,
            decreases self.entries@.len() - i,
        {
            assert(self@[i as int].0 == self.entries@[i as int].0@);
            if self.entries[i].0.key_eq(key) {
                proof {
                    lemma_key_pos(self@, i as int);
                }
                return Some(i);
            }
            i = i + 1;
        }
        None
    }

    /// The value stored under `key`, if any.
    pub fn get(&self, key: &K) -> (r: Option<&V>)
        ensures
            match r {
                Some(v) => lookup(self@, key@) == Some(*v),
                None => lookup(self@, key@) is None,
            },
    {
        match self.position(key) {
            Some(i) => {
                proof {
                    use_type_invariant(self);
                    lemma_key_pos(self@, i as int);
                    assert(self@[i as int].1 == self.entries@[i as int].1);
                }
                Some(&self.entries[i].1)
            },
            None => None,
        }
    }

    /// Whether `key` is present.
    pub fn contains_key(&self, key: &K) -> (r: bool)
        ensures
            r == has_key(self@, key@),
    {
        self.position(key).is_some()
    }

    /// The key and value at position `i`.
    pub fn entry_at(&self, i: usize) -> (r: (&K, &V))
        requires
            i < self@.len(),
        ensures
            r.0@ == self@[i as int].0,
            *r.1 == self@[i as int].1,
    {
        let e = &self.entries[i];
        (&e.0, &e.1)
    }

    /// Binds `key` to `value`, replacing a previous value in place.
    pub fn insert(&mut self, key: K, value: V)
        ensures
            final(self)@ == assoc_insert(old(self)@, key@, value),
    {
        proof {
            use_type_invariant(&*self);
            lemma_insert_unique(self@, key@, value);
        }
        let pos = self.position(&key);
        let mut entries: Vec<(K, V)> = Vec::new();
        std::mem::swap(&mut entries, &mut self.entries);
        match pos {
            Some(i) => {
                entries.set(i, (key, value));
            },
            None => {
                entries.push((key, value));
            },
        }
        assert(entries@.map_values(|e: (K, V)| (e.0@, e.1)) =~= assoc_insert(old(self)@, key@, value));
        self.entries = entries;
    }

    /// Binds `key` to `value` only if `key` is not yet present.
    pub fn insert_absent(&mut self, key: K, value: V)
        ensures
            final(self)@ == assoc_insert_absent(old(self)@, key@, value),
    {
        proof {
            use_type_invariant(&*self);
            lemma_insert_unique(self@, key@, value);
        }
        if self.position(&key).is_none() {
            let mut entries: Vec<(K, V)> = Vec::new();
            std::mem::swap(&mut entries, &mut self.entries);
            entries.push((key, value));
            assert(entries@.map_values(|e: (K, V)| (e.0@, e.1)) =~= assoc_insert_absent(
                old(self)@,
                key@,
                value,
            ));
            self.entries = entries;
        }
    }

    /// Removes the entry for `key`, returning its value.
    pub fn remove(&mut self, key: &K) -> (r: Option<V>)
        ensures
            final(self)@ == assoc_remove(old(self)@, key@),
            r == lookup(old(self)@, key@),
    {
        proof {
            use_type_invariant(&*self);
            lemma_remove_unique(self@, key@);
        }
        match self.position(key) {
            Some(i) => {
                proof {
                    lemma_key_pos(self@, i as int);
                }
                let mut entries: Vec<(K, V)> = Vec::new();
                std::mem::swap(&mut entries, &mut self.entries);
                let e = entries.remove(i);
                assert(entries@.map_values(|e: (K, V)| (e.0@, e.1)) =~= assoc_remove(
                    old(self)@,
                    key@,
                ));
                self.entries = entries;
                Some(e.1)
            },
            None => None,
        }
    }
}

impl<K: TableKey, V: Clone> Clone for Table<K, V> {
    /// A copy with the same keys; the values are copied by their own `clone`.
    fn clone(&self) -> (r: Self)
        ensures
            r@.len() == self@.len(),
            forall|i: int| 0 <= i < self@.len() ==> (#[trigger] r@[i]).0 == self@[i].0,
    {
        proof {
            use_type_invariant(self);
        }
        let mut entries: Vec<(K, V)> = Vec::new();
        let mut i: usize = 0;
        while i < self.entries.len()
            invariant
                i <= self.entries@.len(),
                entries@.len() == i,
                forall|j: int| 0 <= j < i ==> (#[trigger] entries@[j]).0@ == self.entries@[j].0@,
            decreases self.entries@.len() - i,
        {
            let e = &self.entries[i];
            entries.push((e.0.key_clone(), e.1.clone()));
            i = i + 1;
        }
        let ghost v = entries@.map_values(|e: (K, V)| (e.0@, e.1));
        assert(keys_unique(v)) by {
            assert forall|a: int, b: int| 0 <= a < v.len() && 0 <= b < v.len() && a != b implies v[a].0 != v[b].0 by {
                assert(v[a].0 == self@[a].0);
                assert(v[b].0 == self@[b].0);
            }
        }
        Table { entries }
    }
}

} // verus!

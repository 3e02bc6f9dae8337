//! Keyed tables: sequences of key/value pairs in which no key occurs twice.
//!
//! A table keeps its entries in the order in which their keys were first
//! inserted. Its view is the sequence of the entries' views.

use vstd::prelude::*;

verus! {

/// A value that can be copied, deep view for deep view.
pub trait Stored: DeepView + Sized {
    fn duplicate(&self) -> (r: Self)
        ensures
            r.deep_view() == self.deep_view(),
    ;
}

/// A value that can stand as a table key: equality is equality of deep views.
pub trait Key: Stored {
    fn same_as(&self, other: &Self) -> (b: bool)
        ensures
            b == (self.deep_view() == other.deep_view()),
    ;
}

impl Stored for u64 {
    fn duplicate(&self) -> (r: Self) {
        *self
    }
}

impl Key for u64 {
    fn same_as(&self, other: &Self) -> (b: bool) {
        *self == *other
    }
}

impl Stored for u128 {
    fn duplicate(&self) -> (r: Self) {
        *self
    }
}

impl Stored for bool {
    fn duplicate(&self) -> (r: Self) {
        *self
    }
}

impl<T: Stored> Stored for Option<T> {
    fn duplicate(&self) -> (r: Self) {
        match self {
            Some(t) => Some(t.duplicate()),
            None => None,
        }
    }
}

impl<T: Stored> Stored for Vec<T> {
    fn duplicate(&self) -> (r: Self) {
        let mut out: Vec<T> = Vec::new();
        let mut i: usize = 0;
        while i < self.len()
            invariant
                i <= self@.len(),
                out@.len() == i,
                forall|j: int|
                    0 <= j < i ==> (#[trigger] out@[j]).deep_view() == self@[j].deep_view(),
            decreases self@.len() - i,
        {
            out.push(self[i].duplicate());
            i += 1;
        }
        assert(out.deep_view() =~= self.deep_view());
        out
    }
}

impl Stored for String {
    fn duplicate(&self) -> (r: Self) {
        self.clone()
    }
}

impl Key for String {
    fn same_as(&self, other: &Self) -> (b: bool) {
        *self == *other
    }
}

impl<A: Stored, B: Stored> Stored for (A, B) {
    fn duplicate(&self) -> (r: Self) {
        (self.0.duplicate(), self.1.duplicate())
    }
}

impl<A: Key, B: Key> Key for (A, B) {
    fn same_as(&self, other: &Self) -> (b: bool) {
        self.0.same_as(&other.0) && self.1.same_as(&other.1)
    }
}

impl<A: Stored, B: Stored, C: Stored> Stored for (A, B, C) {
    fn duplicate(&self) -> (r: Self) {
        (self.0.duplicate(), self.1.duplicate(), self.2.duplicate())
    }
}

impl<A: Key, B: Key, C: Key> Key for (A, B, C) {
    fn same_as(&self, other: &Self) -> (b: bool) {
        self.0.same_as(&other.0) && self.1.same_as(&other.1) && self.2.same_as(&other.2)
    }
}

/// Some entry of `s` has key `k`.
pub open spec fn has_key<K, V>(s: Seq<(K, V)>, k: K) -> bool {
    exists|i: int| 0 <= i < s.len() && (#[trigger] s[i]).0 == k
}

/// An index at which `s` holds key `k`, where there is one.
pub open spec fn position<K, V>(s: Seq<(K, V)>, k: K) -> int {
    choose|i: int| 0 <= i < s.len() && (#[trigger] s[i]).0 == k
}

/// The value stored under `k`.
pub open spec fn lookup<K, V>(s: Seq<(K, V)>, k: K) -> Option<V> {
    if has_key(s, k) {
        Some(s[position(s, k)].1)
    } else {
        None
    }
}

/// No key occurs twice.
pub open spec fn distinct_keys<K, V>(s: Seq<(K, V)>) -> bool {
    forall|i: int, j: int|
        0 <= i < s.len() && 0 <= j < s.len() && (#[trigger] s[i]).0 == (#[trigger] s[j]).0 ==> i
            == j
}

/// `s` with `v` stored under `k`: in place where the key is present, at the
/// end where it is new.
pub open spec fn put<K, V>(s: Seq<(K, V)>, k: K, v: V) -> Seq<(K, V)> {
    if has_key(s, k) {
        s.update(position(s, k), (k, v))
    } else {
        s.push((k, v))
    }
}

/// In a sequence with distinct keys, the position of a key is the one index
/// that holds it.
pub proof fn lemma_position_unique<K, V>(s: Seq<(K, V)>, i: int)
    requires
        distinct_keys(s),
        0 <= i < s.len(),
    ensures
        has_key(s, s[i].0),
        position(s, s[i].0) == i,
        lookup(s, s[i].0) == Some(s[i].1),
{
    let k = s[i].0;
    assert(0 <= i < s.len() && s[i].0 == k);
    let p = position(s, k);
    assert(0 <= p < s.len() && s[p].0 == k);
}

/// Storing keeps keys distinct and is seen by `lookup` under the stored key
/// only.
pub proof fn lemma_put<K, V>(s: Seq<(K, V)>, k: K, v: V)
    requires
        distinct_keys(s),
    ensures
        distinct_keys(put(s, k, v)),
        has_key(put(s, k, v), k),
        lookup(put(s, k, v), k) == Some(v),
        forall|other: K| other != k ==> has_key(put(s, k, v), other) == has_key(s, other),
        forall|other: K| other != k ==> lookup(put(s, k, v), other) == lookup(s, other),
{
    let t = put(s, k, v);
    if has_key(s, k) {
        let p = position(s, k);
        assert(t[p] == (k, v));
        assert forall|i: int, j: int|
            0 <= i < t.len() && 0 <= j < t.len() && (#[trigger] t[i]).0 == (#[trigger] t[j]).0
            implies i == j by {
            assert(s[i].0 == t[i].0);
            assert(s[j].0 == t[j].0);
        }
        lemma_position_unique(t, p);
        assert forall|other: K| other != k implies has_key(t, other) == has_key(s, other)
            && lookup(t, other) == lookup(s, other) by {
            if has_key(s, other) {
                let q = position(s, other);
                assert(t[q] == s[q]);
                lemma_position_unique(t, q);
            }
            if has_key(t, other) {
                let q = position(t, other);
                assert(t[q] == s[q]);
                lemma_position_unique(s, q);
            }
        }
    } else {
        let n = s.len() as int;
        assert(t[n] == (k, v));
        assert forall|i: int, j: int|
            0 <= i < t.len() && 0 <= j < t.len() && (#[trigger] t[i]).0 == (#[trigger] t[j]).0
            implies i == j by {
            if i < n {
                assert(s[i].0 == t[i].0);
            }
            if j < n {
                assert(s[j].0 == t[j].0);
            }
        }
        lemma_position_unique(t, n);
        assert forall|other: K| other != k implies has_key(t, other) == has_key(s, other)
            && lookup(t, other) == lookup(s, other) by {
            if has_key(s, other) {
                let q = position(s, other);
                assert(t[q] == s[q]);
                lemma_position_unique(t, q);
            }
            if has_key(t, other) {
                let q = position(t, other);
                assert(t[q] == s[q]);
                lemma_position_unique(s, q);
            }
        }
    }
}

/// `s` without the entries that `drop` marks, in order.
pub open spec fn without<K, V>(s: Seq<(K, V)>, drop: spec_fn((K, V)) -> bool) -> Seq<(K, V)>
    decreases s.len(),
{
    if s.len() == 0 {
        s
    } else if drop(s.last()) {
        without(s.drop_last(), drop)
    } else {
        without(s.drop_last(), drop).push(s.last())
    }
}

/// What is left after dropping entries are entries of the sequence, none of
/// them marked, and their keys stay distinct.
pub proof fn lemma_without<K, V>(s: Seq<(K, V)>, drop: spec_fn((K, V)) -> bool)
    requires
        distinct_keys(s),
    ensures
        distinct_keys(without(s, drop)),
        forall|j: int|
            0 <= j < without(s, drop).len() ==> !drop(#[trigger] without(s, drop)[j]) && has_key(
                s,
                without(s, drop)[j].0,
            ) && lookup(s, without(s, drop)[j].0) == Some(without(s, drop)[j].1),
        forall|i: int|
            0 <= i < s.len() && !drop(#[trigger] s[i]) ==> lookup(without(s, drop), s[i].0)
                == Some(s[i].1),
        forall|k: K| has_key(without(s, drop), k) ==> has_key(s, k),
    decreases s.len(),
{
    let t = without(s, drop);
    if s.len() > 0 {
        let p = s.drop_last();
        let n = s.len() - 1;
        assert forall|i: int, j: int|
            0 <= i < p.len() && 0 <= j < p.len() && (#[trigger] p[i]).0 == (#[trigger] p[j]).0
            implies i == j by {
            assert(s[i].0 == s[j].0);
        }
        lemma_without(p, drop);
        let u = without(p, drop);
        assert forall|k: K| has_key(p, k) implies has_key(s, k) && lookup(s, k) == lookup(
            p,
            k,
        ) by {
            let q = position(p, k);
            assert(s[q] == p[q]);
            lemma_position_unique(s, q);
            lemma_position_unique(p, q);
        }
        if !drop(s.last()) {
            assert(t == u.push(s.last()));
            if has_key(u, s.last().0) {
                let q = position(p, s.last().0);
                assert(s[q].0 == s[n].0);
            }
            assert forall|i: int, j: int|
                0 <= i < t.len() && 0 <= j < t.len() && (#[trigger] t[i]).0 == (
                #[trigger] t[j]).0 implies i == j by {
                if i < u.len() {
                    assert(t[i] == u[i]);
                }
                if j < u.len() {
                    assert(t[j] == u[j]);
                }
            }
            lemma_position_unique(s, n);
            lemma_position_unique(t, u.len() as int);
            assert forall|j: int| 0 <= j < t.len() implies !drop(#[trigger] t[j]) && has_key(
                s,
                t[j].0,
            ) && lookup(s, t[j].0) == Some(t[j].1) by {
                if j < u.len() {
                    assert(t[j] == u[j]);
                }
            }
            assert forall|i: int| 0 <= i < s.len() && !drop(#[trigger] s[i]) implies lookup(
                t,
                s[i].0,
            ) == Some(s[i].1) by {
                if i < n {
                    assert(s[i] == p[i]);
                    assert(has_key(u, p[i].0));
                    let q = position(u, p[i].0);
                    assert(t[q] == u[q]);
                    lemma_position_unique(t, q);
                    lemma_position_unique(u, q);
                }
            }
            assert forall|k: K| has_key(t, k) implies has_key(s, k) by {
                let q = position(t, k);
                if q < u.len() {
                    assert(t[q] == u[q]);
                }
            }
        } else {
            assert forall|i: int| 0 <= i < s.len() && !drop(#[trigger] s[i]) implies lookup(
                t,
                s[i].0,
            ) == Some(s[i].1) by {
                assert(s[i] == p[i]);
            }
        }
    }
}

/// A keyed table held as a vector of entries.
#[derive(Clone, Debug, PartialEq, Eq)]
pub struct Table<K, V> {
    pub entries: Vec<(K, V)>,
}

impl<K: Key, V: Stored> View for Table<K, V> {
    type V = Seq<(K::V, V::V)>;

    open spec fn view(&self) -> Seq<(K::V, V::V)> {
        Seq::new(
            self.entries@.len(),
            |i: int| (self.entries@[i].0.deep_view(), self.entries@[i].1.deep_view()),
        )
    }
}

impl<K: Key, V: Stored> DeepView for Table<K, V> {
    type V = Seq<(K::V, V::V)>;

    open spec fn deep_view(&self) -> Seq<(K::V, V::V)> {
        self@
    }
}

impl<K: Key, V: Stored> Stored for Table<K, V> {
    fn duplicate(&self) -> (t: Self) {
        let mut entries: Vec<(K, V)> = Vec::new();
        let mut i: usize = 0;
        while i < self.entries.len()
            invariant
                i <= self.entries@.len(),
                entries@.len() == i,
                forall|j: int|
                    0 <= j < i ==> (#[trigger] entries@[j]).0.deep_view()
                        == self.entries@[j].0.deep_view() && entries@[j].1.deep_view()
                        == self.entries@[j].1.deep_view(),
            decreases self.entries@.len() - i,
        {
            entries.push((self.entries[i].0.duplicate(), self.entries[i].1.duplicate()));
            i += 1;
        }
        let t = Table { entries };
        assert(t@ =~= self@);
        t
    }
}

impl<K: Key, V: Stored> Table<K, V> {
    /// The table's invariant: no key occurs twice.
    pub open spec fn wf(&self) -> bool {
        distinct_keys(self@)
    }

    /// An empty table.
    pub fn new() -> (t: Self)
        ensures
            t.wf(),
            t@ == Seq::<(K::V, V::V)>::empty(),
    {
        let t = Table { entries: Vec::new() };
        t
    }

    /// Whether the table keeps its invariant.
    pub fn is_wf(&self) -> (b: bool)
        ensures
            b == self.wf(),
    {
        let mut i: usize = 0;
        while i < self.entries.len()
            invariant
                i <= self.entries@.len(),
                forall|a: int, b: int|
                    0 <= a < i && 0 <= b < a ==> (#[trigger] self@[a]).0 != (#[trigger] self@[b]).0,
            decreases self.entries@.len() - i,
        {
            let mut j: usize = 0;
            while j < i
                invariant
                    i < self.entries@.len(),
                    j <= i,
                    forall|b: int| 0 <= b < j ==> (#[trigger] self@[b]).0 != self@[i as int].0,
                decreases i - j,
            {
                if self.entries[j].0.same_as(&self.entries[i].0) {
                    assert(self@[j as int].0 == self@[i as int].0);
                    return false;
                }
                j += 1;
            }
            i += 1;
        }
        assert forall|a: int, b: int|
            0 <= a < self@.len() && 0 <= b < self@.len() && (#[trigger] self@[a]).0 == (
            #[trigger] self@[b]).0 implies a == b by {
            if a < b {
                assert(self@[b].0 != self@[a].0);
            }
        }
        true
    }

    /// Number of entries.
    pub fn len(&self) -> (n: usize)
        ensures
            n == self@.len(),
    {
        self.entries.len()
    }

    /// The index of the entry under `key`.
    pub fn find(&self, key: &K) -> (r: Option<usize>)
        requires
            self.wf(),
        ensures
            r is Some <==> has_key(self@, key.deep_view()),
            r is Some ==> r->0 == position(self@, key.deep_view()),
    {
        let mut i: usize = 0;
        while i < self.entries.len()
            invariant
                i <= self.entries@.len(),
                self.wf(),
                forall|j: int| 0 <= j < i ==> (#[trigger] self@[j]).0 != key.deep_view(),
            decreases self.entries@.len() - i,
        {
            if self.entries[i].0.same_as(key) {
                proof {
                    lemma_position_unique(self@, i as int);
                }
                return Some(i);
            }
            i += 1;
        }
        None
    }

    /// Whether an entry is stored under `key`.
    pub fn contains(&self, key: &K) -> (b: bool)
        requires
            self.wf(),
        ensures
            b == has_key(self@, key.deep_view()),
    {
        self.find(key).is_some()
    }

    /// The value stored under `key`.
    pub fn get(&self, key: &K) -> (r: Option<&V>)
        requires
            self.wf(),
        ensures
            r is Some <==> has_key(self@, key.deep_view()),
            r is Some ==> Some(r->0.deep_view()) == lookup(self@, key.deep_view()),
            r is None ==> lookup(self@, key.deep_view()) is None,
    {
        match self.find(key) {
            Some(i) => {
                Some(&self.entries[i].1)
            },
            None => None,
        }
    }

    /// The key of the entry at `i`.
    pub fn key_at(&self, i: usize) -> (k: &K)
        requires
            i < self@.len(),
        ensures
            k.deep_view() == self@[i as int].0,
    {
        &self.entries[i].0
    }

    /// The value of the entry at `i`.
    pub fn value_at(&self, i: usize) -> (v: &V)
        requires
            i < self@.len(),
        ensures
            v.deep_view() == self@[i as int].1,
    {
        &self.entries[i].1
    }

    /// Stores `value` under `key`, replacing what was stored there.
    pub fn insert(&mut self, key: K, value: V)
        requires
            old(self).wf(),
        ensures
            final(self).wf(),
            final(self)@ == put(old(self)@, key.deep_view(), value.deep_view()),
    {
        proof {
            lemma_put(self@, key.deep_view(), value.deep_view());
        }
        match self.find(&key) {
            Some(i) => {
                self.entries.set(i, (key, value));
                assert(self@ =~= put(old(self)@, key.deep_view(), value.deep_view()));
            },
            None => {
                self.entries.push((key, value));
                assert(self@ =~= put(old(self)@, key.deep_view(), value.deep_view()));
            },
        }
    }
}

} // verus!

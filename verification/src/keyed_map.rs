//! A small map kept as a vector of entries, for keys that are compared by value
//! (integers, byte strings, strings).
use vstd::prelude::*;

verus! {

/// A key that can be compared and copied, with a mathematical value that
/// decides equality.
pub trait MapKey: Sized {
    type KeyView;

    spec fn key_view(&self) -> Self::KeyView;

    fn key_eq(&self, other: &Self) -> (r: bool)
        ensures
            r == (self.key_view() == other.key_view()),
    ;

    fn key_clone(&self) -> (r: Self)
        ensures
            r.key_view() == self.key_view(),
    ;
}

impl MapKey for u32 {
    type KeyView = u32;

    open spec fn key_view(&self) -> u32 {
        *self
    }

    fn key_eq(&self, other: &Self) -> (r: bool) {
        *self == *other
    }

    fn key_clone(&self) -> (r: Self) {
        *self
    }
}

impl MapKey for Vec<u8> {
    type KeyView = Seq<u8>;

    open spec fn key_view(&self) -> Seq<u8> {
        self@
    }

    fn key_eq(&self, other: &Self) -> (r: bool) {
        if self.len() != other.len() {
            return false;
        }
        let mut i: usize = 0;
        while i < self.len()
            invariant
                self.len() == other.len(),
                i <= self.len(),
                forall|j: int| 0 <= j < i ==> self@[j] == other@[j],
            decreases self.len() - i,
        {
            if self[i] != other[i] {
                return false;
            }
            i = i + 1;
        }
        assert(self@ =~= other@);
        true
    }

    fn key_clone(&self) -> (r: Self) {
        let mut r: Vec<u8> = Vec::new();
        let mut i: usize = 0;
        while i < self.len()
            invariant
                i <= self.len(),
                r@ == self@.take(i as int),
            decreases self.len() - i,
        {
            r.push(self[i]);
            i = i + 1;
            assert(r@ =~= self@.take(i as int));
        }
        assert(self@.take(self.len() as int) =~= self@);
        r
    }
}

impl MapKey for String {
    type KeyView = Seq<char>;

    open spec fn key_view(&self) -> Seq<char> {
        self@
    }

    fn key_eq(&self, other: &Self) -> (r: bool) {
        *self == *other
    }

    fn key_clone(&self) -> (r: Self) {
        self.clone()
    }
}

/// A map from keys to values, kept as a vector of entries with distinct keys.
pub struct KeyedMap<K, Val> {
    entries: Vec<(K, Val)>,
}

impl<K: MapKey, Val> View for KeyedMap<K, Val> {
    type V = Map<K::KeyView, Val>;

    closed spec fn view(&self) -> Map<K::KeyView, Val> {
        Map::new(
            |kv: K::KeyView| exists|i: int| 0 <= i < self.entries@.len() && #[trigger] self.entries@[i].0.key_view() == kv,
            |kv: K::KeyView| self.entries@[self.index_of(kv)].1,
        )
    }
}

impl<K: MapKey, Val> KeyedMap<K, Val> {
    /// The position of the entry with key `kv`.
    pub closed spec fn index_of(&self, kv: K::KeyView) -> int {
        choose|i: int| 0 <= i < self.entries@.len() && #[trigger] self.entries@[i].0.key_view() == kv
    }

    /// The entries, in the order in which they are kept.
    pub closed spec fn entry_seq(&self) -> Seq<(K, Val)> {
        self.entries@
    }

    /// No two entries have the same key.
    pub closed spec fn wf(&self) -> bool {
        forall|i: int, j: int|
            0 <= i < j < self.entries@.len() ==> #[trigger] self.entries@[i].0.key_view()
                != #[trigger] self.entries@[j].0.key_view()
    }

    proof fn lemma_entry_in_view(&self, i: int)
        requires
            self.wf(),
            0 <= i < self.entries@.len(),
        ensures
            self@.contains_key(self.entries@[i].0.key_view()),
            self@[self.entries@[i].0.key_view()] == self.entries@[i].1,
            self.index_of(self.entries@[i].0.key_view()) == i,
    {
        let kv = self.entries@[i].0.key_view();
        assert(self@.contains_key(kv));
        let j = self.index_of(kv);
        assert(self.entries@[j].0.key_view() == kv);
        if j < i {
            assert(self.entries@[j].0.key_view() != self.entries@[i].0.key_view());
        } else if j > i {
            assert(self.entries@[i].0.key_view() != self.entries@[j].0.key_view());
        }
    }

    /// The entries describe the map: each entry is in it, and each key of it
    /// has an entry.
    pub proof fn lemma_entries(&self)
        requires
            self.wf(),
        ensures
            forall|i: int|
                0 <= i < self.entry_seq().len() ==> #[trigger] self@.contains_key(
                    self.entry_seq()[i].0.key_view(),
                ) && self@[self.entry_seq()[i].0.key_view()] == self.entry_seq()[i].1,
            forall|kv: K::KeyView| #[trigger]
                self@.contains_key(kv) ==> exists|i: int|
                    0 <= i < self.entry_seq().len() && #[trigger] self.entry_seq()[i].0.key_view()
                        == kv,
            self@.dom().finite(),
            self@.len() == self.entry_seq().len(),
    {
        assert forall|i: int| 0 <= i < self.entry_seq().len() implies #[trigger] self@.contains_key(
            self.entry_seq()[i].0.key_view(),
        ) && self@[self.entry_seq()[i].0.key_view()] == self.entry_seq()[i].1 by {
            self.lemma_entry_in_view(i);
        }
        assert forall|kv: K::KeyView| #[trigger] self@.contains_key(kv) implies exists|i: int|
            0 <= i < self.entry_seq().len() && #[trigger] self.entry_seq()[i].0.key_view() == kv by {
            let i = self.index_of(kv);
            assert(self.entry_seq()[i].0.key_view() == kv);
        }
        self.lemma_dom_len();
    }

    proof fn lemma_dom_len(&self)
        requires
            self.wf(),
        ensures
            self@.dom().finite(),
            self@.len() == self.entries@.len(),
        decreases self.entries@.len(),
    {
        let keys = self.entries@.map_values(|e: (K, Val)| e.0.key_view());
        assert forall|i: int, j: int| 0 <= i < keys.len() && 0 <= j < keys.len() && i != j implies keys[i]
            != keys[j] by {
            if i < j {
                assert(self.entries@[i].0.key_view() != self.entries@[j].0.key_view());
            } else {
                assert(self.entries@[j].0.key_view() != self.entries@[i].0.key_view());
            }
        }
        assert(keys.no_duplicates());
        keys.unique_seq_to_set();
        assert(self@.dom() =~= keys.to_set()) by {
            assert forall|kv: K::KeyView| self@.dom().contains(kv) implies keys.to_set().contains(kv) by {
                let i = self.index_of(kv);
                assert(keys[i] == kv);
            }
            assert forall|kv: K::KeyView| keys.to_set().contains(kv) implies self@.dom().contains(kv) by {
                let i = choose|i: int| 0 <= i < keys.len() && keys[i] == kv;
                assert(self.entries@[i].0.key_view() == kv);
            }
        }
    }

    /// An empty map.
    pub fn new() -> (m: Self)
        ensures
            m.wf(),
            m@ == Map::<K::KeyView, Val>::empty(),
            m.entry_seq().len() == 0,
    {
        let m = KeyedMap { entries: Vec::new() };
        assert(m@ =~= Map::<K::KeyView, Val>::empty());
        m
    }

    /// The entries, in the order in which they are kept.
    pub fn entries(&self) -> (r: &Vec<(K, Val)>)
        ensures
            r@ == self.entry_seq(),
    {
        &self.entries
    }

    /// The number of entries.
    pub fn len(&self) -> (n: usize)
        requires
            self.wf(),
        ensures
            n == self@.len(),
            n == self.entry_seq().len(),
    {
        proof {
            self.lemma_dom_len();
        }
        self.entries.len()
    }

    fn find(&self, k: &K) -> (r: Option<usize>)
        requires
            self.wf(),
        ensures
            match r {
                Some(i) => i < self.entries@.len() && self.entries@[i as int].0.key_view()
                    == k.key_view(),
                None => !self@.contains_key(k.key_view()),
            },
    {
        let mut i: usize = 0;
        while i < self.entries.len()
            invariant
                i <= self.entries@.len(),
                forall|j: int| 0 <= j < i ==> self.entries@[j].0.key_view() != k.key_view(),
            decreases self.entries@.len() - i,
        {
            if self.entries[i].0.key_eq(k) {
                return Some(i);
            }
            i = i + 1;
        }
        None
    }

    /// Whether `k` has an entry.
    pub fn contains_key(&self, k: &K) -> (b: bool)
        requires
            self.wf(),
        ensures
            b == self@.contains_key(k.key_view()),
    {
        match self.find(k) {
            Some(i) => {
                proof {
                    self.lemma_entry_in_view(i as int);
                }
                true
            },
            None => false,
        }
    }

    /// The value of `k`, if it has one.
    pub fn get(&self, k: &K) -> (r: Option<&Val>)
        requires
            self.wf(),
        ensures
            match r {
                Some(v) => self@.contains_key(k.key_view()) && self@[k.key_view()] == *v,
                None => !self@.contains_key(k.key_view()),
            },
    {
        match self.find(k) {
            Some(i) => {
                proof {
                    self.lemma_entry_in_view(i as int);
                }
                Some(&self.entries[i].1)
            },
            None => None,
        }
    }

    /// Sets the value of `k` to `v`.
    pub fn insert(&mut self, k: K, v: Val)
        requires
            old(self).wf(),
        ensures
            final(self).wf(),
            final(self)@ == old(self)@.insert(k.key_view(), v),
    {
        let ghost kv = k.key_view();
        match self.find(&k) {
            Some(i) => {
                let ghost before = self.entries@;
                self.entries.set(i, (k, v));
                proof {
                    assert(self.entries@ == before.update(i as int, (k, v)));
                    assert forall|a: int, b: int| 0 <= a < b < self.entries@.len() implies #[trigger] self.entries@[a].0.key_view()
                        != #[trigger] self.entries@[b].0.key_view() by {
                        assert(before[a].0.key_view() != before[b].0.key_view());
                    }
                    assert forall|x: K::KeyView| #[trigger] self@.contains_key(x) == old(self)@.insert(kv, v).contains_key(x) by {
                        if old(self)@.contains_key(x) {
                            let j = old(self).index_of(x);
                            assert(self.entries@[j].0.key_view() == x);
                        }
                        if self@.contains_key(x) {
                            let j = self.index_of(x);
                            if j != i {
                                assert(before[j].0.key_view() == x);
                            }
                        }
                    }
                    assert forall|x: K::KeyView| #[trigger] self@.contains_key(x) implies self@[x] == old(self)@.insert(kv, v)[x] by {
                        let j = self.index_of(x);
                        self.lemma_entry_in_view(j);
                        if j != i {
                            assert(before[j].0.key_view() == x);
                            old(self).lemma_entry_in_view(j);
                        }
                    }
                    assert(self@ =~= old(self)@.insert(kv, v));
                }
            },
            None => {
                let ghost before = self.entries@;
                self.entries.push((k, v));
                proof {
                    let n = before.len() as int;
                    assert forall|a: int, b: int| 0 <= a < b < self.entries@.len() implies #[trigger] self.entries@[a].0.key_view()
                        != #[trigger] self.entries@[b].0.key_view() by {
                        if b < n {
                            assert(before[a].0.key_view() != before[b].0.key_view());
                        } else {
                            assert(before[a] == self.entries@[a]);
                            if before[a].0.key_view() == kv {
                                assert(old(self)@.contains_key(kv));
                            }
                        }
                    }
                    assert forall|x: K::KeyView| #[trigger] self@.contains_key(x) == old(self)@.insert(kv, v).contains_key(x) by {
                        if old(self)@.contains_key(x) {
                            let j = old(self).index_of(x);
                            assert(self.entries@[j].0.key_view() == x);
                        }
                        if x == kv {
                            assert(self.entries@[n].0.key_view() == x);
                        }
                        if self@.contains_key(x) && x != kv {
                            let j = self.index_of(x);
                            assert(before[j].0.key_view() == x);
                        }
                    }
                    assert forall|x: K::KeyView| #[trigger] self@.contains_key(x) implies self@[x] == old(self)@.insert(kv, v)[x] by {
                        let j = self.index_of(x);
                        self.lemma_entry_in_view(j);
                        if j != n {
                            assert(before[j].0.key_view() == x);
                            old(self).lemma_entry_in_view(j);
                        }
                    }
                    assert(self@ =~= old(self)@.insert(kv, v));
                }
            },
        }
    }

    /// Removes the entry of `k`, returning its value if it had one.
    pub fn remove(&mut self, k: &K) -> (r: Option<Val>)
        requires
            old(self).wf(),
        ensures
            final(self).wf(),
            final(self)@ == old(self)@.remove(k.key_view()),
            match r {
                Some(v) => old(self)@.contains_key(k.key_view()) && old(self)@[k.key_view()] == v,
                None => !old(self)@.contains_key(k.key_view()),
            },
    {
        let ghost kv = k.key_view();
        match self.find(k) {
            Some(i) => {
                let ghost before = self.entries@;
                proof {
                    self.lemma_entry_in_view(i as int);
                }
                let (_, v) = self.entries.remove(i);
                proof {
                    assert(self.entries@ == before.remove(i as int));
                    assert forall|a: int, b: int| 0 <= a < b < self.entries@.len() implies #[trigger] self.entries@[a].0.key_view()
                        != #[trigger] self.entries@[b].0.key_view() by {
                        let a2 = if a < i { a } else { a + 1 };
                        let b2 = if b < i { b } else { b + 1 };
                        assert(before[a2].0.key_view() != before[b2].0.key_view());
                    }
                    assert forall|x: K::KeyView| #[trigger] self@.contains_key(x) == old(self)@.remove(kv).contains_key(x) by {
                        if old(self)@.contains_key(x) && x != kv {
                            let j = old(self).index_of(x);
                            let j2 = if j < i { j } else { j - 1 };
                            assert(self.entries@[j2].0.key_view() == x);
                        }
                        if self@.contains_key(x) {
                            let j = self.index_of(x);
                            let j2 = if j < i { j } else { j + 1 };
                            assert(before[j2].0.key_view() == x);
                            assert(j2 != i);
                        }
                    }
                    assert forall|x: K::KeyView| #[trigger] self@.contains_key(x) implies self@[x] == old(self)@.remove(kv)[x] by {
                        let j = self.index_of(x);
                        self.lemma_entry_in_view(j);
                        let j2 = if j < i { j } else { j + 1 };
                        assert(before[j2].0.key_view() == x);
                        old(self).lemma_entry_in_view(j2);
                    }
                    assert(self@ =~= old(self)@.remove(kv));
                }
                Some(v)
            },
            None => {
                proof {
                    assert(self@ =~= old(self)@.remove(kv));
                }
                None
            },
        }
    }
}

} // verus!

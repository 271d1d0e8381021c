//! A small map that keeps its entries in the order of their arrival.
use vstd::prelude::*;

verus! {

/// A key of a table: something with a mathematical value that can be
/// compared.
pub trait TableKey: Sized {
    /// The value that two equal keys share.
    type Model;

    /// The value of this key.
    spec fn model(&self) -> Self::Model;

    /// Whether two keys have the same value.
    fn same(&self, other: &Self) -> (same: bool)
        ensures
            same == (self.model() == other.model()),
    ;
}

impl TableKey for String {
    type Model = Seq<char>;

    open spec fn model(&self) -> Seq<char> {
        self@
    }

    fn same(&self, other: &Self) -> (same: bool) {
        *self == *other
    }
}

impl TableKey for u64 {
    type Model = u64;

    open spec fn model(&self) -> u64 {
        *self
    }

    fn same(&self, other: &Self) -> (same: bool) {
        *self == *other
    }
}

impl TableKey for [u8; 32] {
    type Model = Seq<u8>;

    open spec fn model(&self) -> Seq<u8> {
        self@
    }

    fn same(&self, other: &Self) -> (same: bool) {
        let mut i: usize = 0;
        while i < 32
            invariant
                i <= 32,
                forall|j: int| 0 <= j < i ==> self@[j] == other@[j],
            decreases 32 - i,
        {
            if self[i] != other[i] {
                assert(self@[i as int] != other@[i as int]);
                return false;
            }
            i = i + 1;
        }
        assert(self@ =~= other@);
        true
    }
}

/// Entries with distinct keys.
pub struct Table<K, V> {
    entries: Vec<(K, V)>,
}

impl<K: TableKey, V> View for Table<K, V> {
    type V = Map<K::Model, V>;

    closed spec fn view(&self) -> Map<K::Model, V> {
        Map::new(|k: K::Model| self.holds(k), |k: K::Model| self.entries@[self.position(k)].1)
    }
}

impl<K: TableKey, V> Table<K, V> {
    /// Whether some entry has the key `k`.
    spec fn holds(&self, k: K::Model) -> bool {
        exists|i: int| 0 <= i < self.entries@.len() && #[trigger] self.entries@[i].0.model() == k
    }

    /// An entry with the key `k`.
    spec fn position(&self, k: K::Model) -> int {
        choose|i: int| 0 <= i < self.entries@.len() && #[trigger] self.entries@[i].0.model() == k
    }

    /// No key occurs twice.
    pub closed spec fn wf(&self) -> bool {
        forall|i: int, j: int|
            0 <= i < j < self.entries@.len() ==> #[trigger] self.entries@[i].0.model()
                != #[trigger] self.entries@[j].0.model()
    }

    /// The keys, in the order of their arrival.
    pub closed spec fn order(&self) -> Seq<K::Model> {
        Seq::new(self.entries@.len(), |i: int| self.entries@[i].0.model())
    }

    /// An entry is found under its key, and under no other position.
    proof fn entry_found(&self, i: int)
        requires
            self.wf(),
            0 <= i < self.entries@.len(),
        ensures
            self@.dom().contains(self.entries@[i].0.model()),
            self@[self.entries@[i].0.model()] == self.entries@[i].1,
    {
        let k = self.entries@[i].0.model();
        assert(self.holds(k));
        let p = self.position(k);
        assert(0 <= p < self.entries@.len() && self.entries@[p].0.model() == k);
    }

    /// The order lists every key exactly once.
    pub proof fn order_is_complete(&self)
        requires
            self.wf(),
        ensures
            self.order().no_duplicates(),
            forall|k: K::Model| self.order().contains(k) <==> #[trigger] self@.dom().contains(k),
            self.order().len() == 0 <==> self@ == Map::<K::Model, V>::empty(),
            self.order().len() == self@.len(),
    {
        assert forall|k: K::Model| self.order().contains(k) <==> #[trigger] self@.dom().contains(
            k,
        ) by {
            if self.order().contains(k) {
                let i = choose|i: int| 0 <= i < self.order().len() && self.order()[i] == k;
                self.entry_found(i);
            }
            if self@.dom().contains(k) {
                let p = self.position(k);
                assert(self.order()[p] == k);
            }
        }
        self.order().unique_seq_to_set();
        assert(self.order().to_set() =~= self@.dom());
        if self.order().len() == 0 {
            assert(self@ =~= Map::<K::Model, V>::empty());
        } else {
            self.entry_found(0);
        }
    }

    /// A table without entries.
    pub fn new() -> (table: Self)
        ensures
            table.wf(),
            table@ == Map::<K::Model, V>::empty(),
            table.order() == Seq::<K::Model>::empty(),
    {
        let table = Table { entries: Vec::new() };
        assert(table@ =~= Map::<K::Model, V>::empty());
        assert(table.order() =~= Seq::<K::Model>::empty());
        table
    }

    /// The number of entries.
    pub fn len(&self) -> (len: usize)
        ensures
            len == self.order().len(),
    {
        self.entries.len()
    }

    /// The key of the entry at a position.
    pub fn key_at(&self, index: usize) -> (key: &K)
        requires
            index < self.order().len(),
        ensures
            key.model() == self.order()[index as int],
    {
        &self.entries[index].0
    }

    /// The value of the entry at a position.
    pub fn value_at(&self, index: usize) -> (value: &V)
        requires
            self.wf(),
            index < self.order().len(),
        ensures
            self@.dom().contains(self.order()[index as int]),
            *value == self@[self.order()[index as int]],
    {
        proof {
            self.entry_found(index as int);
        }
        &self.entries[index].1
    }

    /// The position of the entry with a key.
    fn find(&self, key: &K) -> (index: Option<usize>)
        requires
            self.wf(),
        ensures
            match index {
                Some(i) => i < self.entries@.len() && self.entries@[i as int].0.model()
                    == key.model(),
                None => !self@.dom().contains(key.model()),
            },
    {
        let mut i: usize = 0;
        while i < self.entries.len()
            invariant
                i <= self.entries@.len(),
                forall|j: int|
                    0 <= j < i ==> #[trigger] self.entries@[j].0.model() != key.model(),
            decreases self.entries@.len() - i,
        {
            if self.entries[i].0.same(key) {
                return Some(i);
            }
            i = i + 1;
        }
        None
    }

    /// Whether a key has an entry.
    pub fn contains_key(&self, key: &K) -> (found: bool)
        requires
            self.wf(),
        ensures
            found == self@.dom().contains(key.model()),
    {
        match self.find(key) {
            Some(i) => {
                proof {
                    self.entry_found(i as int);
                }
                true
            },
            None => false,
        }
    }

    /// The value of a key.
    pub fn get(&self, key: &K) -> (value: Option<&V>)
        requires
            self.wf(),
        ensures
            match value {
                Some(v) => self@.dom().contains(key.model()) && *v == self@[key.model()],
                None => !self@.dom().contains(key.model()),
            },
    {
        match self.find(key) {
            Some(i) => {
                proof {
                    self.entry_found(i as int);
                }
                Some(&self.entries[i].1)
            },
            None => None,
        }
    }

    /// Takes the entry at a position out of the table.
    pub fn remove_at(&mut self, index: usize) -> (value: V)
        requires
            old(self).wf(),
            index < old(self).order().len(),
        ensures
            final(self).wf(),
            final(self).order() == old(self).order().remove(index as int),
            old(self)@.dom().contains(old(self).order()[index as int]),
            value == old(self)@[old(self).order()[index as int]],
            final(self)@ == old(self)@.remove(old(self).order()[index as int]),
    {
        let ghost before = *self;
        let ghost i = index as int;
        let ghost k = before.order()[i];
        proof {
            before.entry_found(i);
        }
        let (_, value) = self.entries.remove(index);
        proof {
            assert(self.entries@ == before.entries@.remove(i));
            assert(self.order() =~= before.order().remove(i));
            assert(self.wf()) by {
                assert forall|a: int, b: int|
                    0 <= a < b < self.entries@.len() implies #[trigger] self.entries@[a].0.model()
                    != #[trigger] self.entries@[b].0.model() by {
                    let a0 = if a < i { a } else { a + 1 };
                    let b0 = if b < i { b } else { b + 1 };
                    assert(self.entries@[a] == before.entries@[a0]);
                    assert(self.entries@[b] == before.entries@[b0]);
                }
            }
            assert forall|x: K::Model| #[trigger] self@.dom().contains(x) <==> before@.remove(
                k,
            ).dom().contains(x) by {
                if self@.dom().contains(x) {
                    let p = self.position(x);
                    let p0 = if p < i { p } else { p + 1 };
                    assert(self.entries@[p] == before.entries@[p0]);
                    before.entry_found(p0);
                }
                if before@.remove(k).dom().contains(x) {
                    let p0 = before.position(x);
                    let p = if p0 < i { p0 } else { p0 - 1 };
                    assert(self.entries@[p] == before.entries@[p0]);
                    self.entry_found(p);
                }
            }
            assert forall|x: K::Model| self@.dom().contains(x) implies #[trigger] self@[x]
                == before@.remove(k)[x] by {
                let p = self.position(x);
                let p0 = if p < i { p } else { p + 1 };
                assert(self.entries@[p] == before.entries@[p0]);
                before.entry_found(p0);
            }
            assert(self@ =~= before@.remove(k));
        }
        value
    }

    /// Takes the entry of a key out of the table.
    pub fn remove(&mut self, key: &K) -> (value: Option<V>)
        requires
            old(self).wf(),
        ensures
            final(self).wf(),
            match value {
                Some(v) => {
                    &&& old(self)@.dom().contains(key.model())
                    &&& v == old(self)@[key.model()]
                    &&& final(self)@ == old(self)@.remove(key.model())
                },
                None => !old(self)@.dom().contains(key.model()) && *final(self) == *old(self),
            },
    {
        match self.find(key) {
            Some(i) => Some(self.remove_at(i)),
            None => None,
        }
    }

    /// Sets the value of a key, replacing the one it had.
    pub fn insert(&mut self, key: K, value: V)
        requires
            old(self).wf(),
        ensures
            final(self).wf(),
            final(self)@ == old(self)@.insert(key.model(), value),
    {
        let ghost before = *self;
        let ghost k = key.model();
        let _ = self.remove(&key);
        let ghost middle = *self;
        assert(middle@ =~= before@.remove(k));
        self.entries.push((key, value));
        proof {
            let last = self.entries@.len() - 1;
            assert forall|j: int| 0 <= j < last implies #[trigger] self.entries@[j].0.model()
                != k by {
                assert(self.entries@[j] == middle.entries@[j]);
                middle.entry_found(j);
            }
            assert(self.wf()) by {
                assert forall|a: int, b: int|
                    0 <= a < b < self.entries@.len() implies #[trigger] self.entries@[a].0.model()
                    != #[trigger] self.entries@[b].0.model() by {
                    assert(self.entries@[a] == middle.entries@[a]);
                    if b < last {
                        assert(self.entries@[b] == middle.entries@[b]);
                    }
                }
            }
            self.entry_found(last);
            assert forall|x: K::Model| #[trigger] self@.dom().contains(x) <==> before@.insert(
                k,
                value,
            ).dom().contains(x) by {
                if self@.dom().contains(x) && x != k {
                    let p = self.position(x);
                    assert(self.entries@[p] == middle.entries@[p]);
                    middle.entry_found(p);
                }
                if middle@.dom().contains(x) {
                    let p = middle.position(x);
                    assert(self.entries@[p] == middle.entries@[p]);
                    self.entry_found(p);
                }
            }
            assert forall|x: K::Model| self@.dom().contains(x) implies #[trigger] self@[x]
                == before@.insert(k, value)[x] by {
                if x != k {
                    let p = self.position(x);
                    assert(self.entries@[p] == middle.entries@[p]);
                    middle.entry_found(p);
                }
            }
            assert(self@ =~= before@.insert(k, value));
        }
    }
}

} // verus!

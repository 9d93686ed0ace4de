use vstd::prelude::*;
use crate::address::Address;

verus! {

/// One record of a table: what is stored at an address.
#[derive(Debug)]
pub struct Entry<V> {
    pub key: Address,
    pub value: V,
}

/// Records kept by address, each address at most once.
#[derive(Debug)]
pub struct Table<V> {
    pub entries: Vec<Entry<V>>,
}

/// No address occurs twice among `s`.
pub open spec fn distinct<V>(s: Seq<Entry<V>>) -> bool {
    forall|i: int, j: int| 0 <= i < j < s.len() ==> (#[trigger] s[i]).key != (#[trigger] s[j]).key
}

/// Some record of `s` is stored at `k`.
pub open spec fn stored<V>(s: Seq<Entry<V>>, k: Address) -> bool {
    exists|i: int| 0 <= i < s.len() && (#[trigger] s[i]).key == k
}

/// Where in `s` the record of `k` stands.
pub open spec fn slot<V>(s: Seq<Entry<V>>, k: Address) -> int {
    choose|i: int| 0 <= i < s.len() && (#[trigger] s[i]).key == k
}

/// The records of `s` as a map from address to value.
pub open spec fn map_of<V>(s: Seq<Entry<V>>) -> Map<Address, V> {
    Map::new(|k: Address| stored(s, k), |k: Address| s[slot(s, k)].value)
}

/// Where keys are distinct, the record at place `i` is the one that the map
/// has under its key.
pub proof fn lemma_lookup<V>(s: Seq<Entry<V>>, i: int)
    requires
        distinct(s),
        0 <= i < s.len(),
    ensures
        stored(s, s[i].key),
        slot(s, s[i].key) == i,
        map_of(s).contains_key(s[i].key),
        map_of(s)[s[i].key] == s[i].value,
{
}

/// Writing a value into the record at place `i` is an insert under its key.
pub proof fn lemma_update<V>(s: Seq<Entry<V>>, i: int, v: V)
    requires
        distinct(s),
        0 <= i < s.len(),
    ensures
        distinct(s.update(i, Entry { key: s[i].key, value: v })),
        map_of(s.update(i, Entry { key: s[i].key, value: v })) == map_of(s).insert(s[i].key, v),
{
    let k = s[i].key;
    let t = s.update(i, Entry { key: k, value: v });
    assert forall|q: Address| stored(t, q) == stored(s, q) by {
        if stored(s, q) {
            assert(t[slot(s, q)].key == q);
        }
    }
    assert forall|q: Address| stored(t, q) implies #[trigger] map_of(t)[q] == map_of(s).insert(k, v)[q] by {
        let j = slot(t, q);
        lemma_lookup(t, j);
        lemma_lookup(s, j);
    }
}

/// Appending a record under a key that is not stored is an insert.
pub proof fn lemma_push<V>(s: Seq<Entry<V>>, e: Entry<V>)
    requires
        distinct(s),
        !stored(s, e.key),
    ensures
        distinct(s.push(e)),
        map_of(s.push(e)) == map_of(s).insert(e.key, e.value),
{
    let t = s.push(e);
    assert forall|q: Address| stored(t, q) == (stored(s, q) || q == e.key) by {
        if stored(s, q) {
            assert(t[slot(s, q)].key == q);
        }
        if q == e.key {
            assert(t[s.len() as int].key == q);
        }
    }
    assert forall|q: Address| stored(t, q) implies #[trigger] map_of(t)[q] == map_of(s).insert(
        e.key,
        e.value,
    )[q] by {
        let j = slot(t, q);
        lemma_lookup(t, j);
        if j < s.len() {
            lemma_lookup(s, j);
        }
    }
}

/// Taking the record at place `i` away is a removal of its key.
pub proof fn lemma_remove<V>(s: Seq<Entry<V>>, i: int)
    requires
        distinct(s),
        0 <= i < s.len(),
    ensures
        distinct(s.remove(i)),
        map_of(s.remove(i)) == map_of(s).remove(s[i].key),
{
    let k = s[i].key;
    let t = s.remove(i);
    assert forall|a: int| 0 <= a < t.len() implies #[trigger] t[a] == s[if a < i {
        a
    } else {
        a + 1
    }] by {}
    lemma_lookup(s, i);
    assert forall|q: Address| stored(t, q) == (stored(s, q) && q != k) by {
        if stored(s, q) && q != k {
            let j = slot(s, q);
            assert(t[if j < i { j } else { j - 1 }] == s[j]);
        }
        if stored(t, q) && q == k {
            let j = slot(t, q);
            lemma_lookup(s, if j < i { j } else { j + 1 });
        }
    }
    assert forall|q: Address| stored(t, q) implies #[trigger] map_of(t)[q] == map_of(s).remove(k)[q] by {
        let j = slot(t, q);
        lemma_lookup(t, j);
        lemma_lookup(s, if j < i { j } else { j + 1 });
    }
}

impl<V: Copy> Table<V> {
    /// No address is stored twice.
    pub open spec fn wf(&self) -> bool {
        distinct(self.entries@)
    }

    /// What is stored, by address.
    pub open spec fn map(&self) -> Map<Address, V> {
        map_of(self.entries@)
    }

    /// A table without records.
    pub fn new() -> (t: Table<V>)
        ensures
            t.wf(),
            t.entries@ == Seq::<Entry<V>>::empty(),
            t.map() == Map::<Address, V>::empty(),
    {
        Table { entries: Vec::new() }
    }

    /// The place of the record stored at `k`, if there is one.
    pub fn find(&self, k: &Address) -> (r: Option<usize>)
        requires
            self.wf(),
        ensures
            r is Some <==> self.map().contains_key(*k),
            r matches Some(i) ==> i < self.entries@.len() && self.entries@[i as int].key == *k
                && self.map()[*k] == self.entries@[i as int].value,
    {
        let mut i: usize = 0;
        while i < self.entries.len()
            invariant
                i <= self.entries@.len(),
                self.wf(),
                forall|j: int| 0 <= j < i ==> (#[trigger] self.entries@[j]).key != *k,
            decreases self.entries@.len() - i,
        {
            if self.entries[i].key == *k {
                proof {
                    lemma_lookup(self.entries@, i as int);
                }
                return Some(i);
            }
            i = i + 1;
        }
        None
    }

    /// What is stored at `k`, if anything is.
    pub fn get(&self, k: &Address) -> (r: Option<V>)
        requires
            self.wf(),
        ensures
            r == (if self.map().contains_key(*k) {
                Some(self.map()[*k])
            } else {
                None
            }),
    {
        match self.find(k) {
            Some(i) => Some(self.entries[i].value),
            None => None,
        }
    }

    /// Stores `v` in the record at place `i`, under the address it has.
    pub fn set_at(&mut self, i: usize, v: V)
        requires
            old(self).wf(),
            i < old(self).entries@.len(),
        ensures
            final(self).wf(),
            final(self).entries@ == old(self).entries@.update(
                i as int,
                Entry { key: old(self).entries@[i as int].key, value: v },
            ),
            final(self).map() == old(self).map().insert(old(self).entries@[i as int].key, v),
    {
        proof {
            lemma_update(self.entries@, i as int, v);
        }
        let key = self.entries[i].key;
        self.entries.set(i, Entry { key, value: v });
    }

    /// A second table with the same records.
    pub fn duplicate(&self) -> (t: Table<V>)
        ensures
            t.entries@ == self.entries@,
    {
        let mut entries: Vec<Entry<V>> = Vec::new();
        let mut i: usize = 0;
        while i < self.entries.len()
            invariant
                i <= self.entries@.len(),
                entries@ == self.entries@.subrange(0, i as int),
            decreases self.entries@.len() - i,
        {
            entries.push(Entry { key: self.entries[i].key, value: self.entries[i].value });
            i = i + 1;
        }
        Table { entries }
    }

    /// Stores `v` at `k`, in place of what was there.
    pub fn put(&mut self, k: Address, v: V)
        requires
            old(self).wf(),
        ensures
            final(self).wf(),
            final(self).map() == old(self).map().insert(k, v),
            old(self).map().contains_key(k) ==> exists|i: int|
                0 <= i < old(self).entries@.len() && (#[trigger] old(self).entries@[i]).key == k
                    && final(self).entries@ == old(self).entries@.update(
                    i,
                    Entry { key: k, value: v },
                ),
            !old(self).map().contains_key(k) ==> final(self).entries@ == old(self).entries@.push(
                Entry { key: k, value: v },
            ),
    {
        match self.find(&k) {
            Some(i) => {
                proof {
                    lemma_update(self.entries@, i as int, v);
                }
                self.entries.set(i, Entry { key: k, value: v });
            },
            None => {
                proof {
                    lemma_push(self.entries@, Entry { key: k, value: v });
                }
                self.entries.push(Entry { key: k, value: v });
            },
        }
    }

    /// Drops the record stored at `k`, if there is one.
    pub fn remove(&mut self, k: &Address)
        requires
            old(self).wf(),
        ensures
            final(self).wf(),
            final(self).map() == old(self).map().remove(*k),
    {
        if let Some(i) = self.find(k) {
            proof {
                lemma_remove(self.entries@, i as int);
            }
            self.entries.remove(i);
        }
    }
}

} // verus!

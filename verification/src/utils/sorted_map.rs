//! A map kept in order of its keys.
use crate::utils::ordered_key::{before_is_irreflexive, before_is_transitive, OrderedKey};
use vstd::prelude::*;

verus! {

broadcast use {before_is_irreflexive, before_is_transitive};

pub struct Entry<K, V> {
    pub key: K,
    pub value: V,
}

/// Entries in strictly increasing order of their keys, so that no key occurs twice.
pub open spec fn ordered<K: OrderedKey, V>(entries: Seq<Entry<K, V>>) -> bool {
    forall|i: int, j: int|
        #![trigger entries[i], entries[j]]
        0 <= i < j < entries.len() ==> entries[i].key.before(entries[j].key)
}

pub open spec fn holds_key<K: OrderedKey, V>(entries: Seq<Entry<K, V>>, key: K) -> bool {
    exists|i: int| 0 <= i < entries.len() && (#[trigger] entries[i]).key == key
}

/// The position of `key`.
pub open spec fn position<K: OrderedKey, V>(entries: Seq<Entry<K, V>>, key: K) -> int {
    choose|i: int| 0 <= i < entries.len() && (#[trigger] entries[i]).key == key
}

/// The map that a sequence of entries stands for.
pub open spec fn entries_map<K: OrderedKey, V>(entries: Seq<Entry<K, V>>) -> Map<K, V> {
    Map::new(|key: K| holds_key(entries, key), |key: K| entries[position(entries, key)].value)
}

pub struct SortedMap<K, V> {
    pub entries: Vec<Entry<K, V>>,
}

impl<K: OrderedKey, V> View for SortedMap<K, V> {
    type V = Map<K, V>;

    open spec fn view(&self) -> Map<K, V> {
        entries_map(self.entries@)
    }
}

proof fn lemma_entry<K: OrderedKey, V>(entries: Seq<Entry<K, V>>, i: int)
    requires
        ordered(entries),
        0 <= i < entries.len(),
    ensures
        entries_map(entries).contains_key(entries[i].key),
        entries_map(entries)[entries[i].key] == entries[i].value,
{
    let key = entries[i].key;
    assert(holds_key(entries, key));
    let j = position(entries, key);
    assert(entries[j].key == key);
    if i < j {
        assert(entries[i].key.before(entries[j].key));
    } else if j < i {
        assert(entries[j].key.before(entries[i].key));
    }
}

proof fn lemma_inserted<K: OrderedKey, V>(entries: Seq<Entry<K, V>>, at: int, entry: Entry<K, V>)
    requires
        ordered(entries),
        0 <= at <= entries.len(),
        forall|i: int| 0 <= i < at ==> (#[trigger] entries[i]).key.before(entry.key),
        forall|i: int| at <= i < entries.len() ==> entry.key.before((#[trigger] entries[i]).key),
    ensures
        ordered(entries.insert(at, entry)),
        entries_map(entries.insert(at, entry)) == entries_map(entries).insert(
            entry.key,
            entry.value,
        ),
{
    let new = entries.insert(at, entry);
    assert(ordered(new));
    lemma_entry(new, at);
    assert forall|key: K|
        entries_map(new).contains_key(key) == entries_map(entries).insert(
            entry.key,
            entry.value,
        ).contains_key(key) by {
        if holds_key(entries, key) {
            let i = position(entries, key);
            if i < at {
                assert(new[i].key == key);
            } else {
                assert(new[i + 1].key == key);
            }
        }
        if holds_key(new, key) && key != entry.key {
            let i = position(new, key);
            if i < at {
                assert(entries[i].key == key);
            } else {
                assert(entries[i - 1].key == key);
            }
        }
    }
    assert forall|key: K| entries_map(new).contains_key(key) implies entries_map(new)[key]
        == entries_map(entries).insert(entry.key, entry.value)[key] by {
        if key != entry.key {
            let i = position(new, key);
            let k = if i < at { i } else { i - 1 };
            assert(entries[k] == new[i]);
            lemma_entry(entries, k);
        }
    }
    assert(entries_map(new) =~= entries_map(entries).insert(entry.key, entry.value));
}

proof fn lemma_replaced<K: OrderedKey, V>(entries: Seq<Entry<K, V>>, at: int, entry: Entry<K, V>)
    requires
        ordered(entries),
        0 <= at < entries.len(),
        entries[at].key == entry.key,
    ensures
        ordered(entries.update(at, entry)),
        entries_map(entries.update(at, entry)) == entries_map(entries).insert(
            entry.key,
            entry.value,
        ),
{
    let new = entries.update(at, entry);
    assert(ordered(new));
    lemma_entry(new, at);
    assert forall|key: K|
        entries_map(new).contains_key(key) == entries_map(entries).insert(
            entry.key,
            entry.value,
        ).contains_key(key) by {
        if holds_key(entries, key) {
            let i = position(entries, key);
            assert(new[i].key == key);
        }
        if holds_key(new, key) {
            let i = position(new, key);
            assert(entries[i].key == key);
        }
    }
    assert forall|key: K| entries_map(new).contains_key(key) implies entries_map(new)[key]
        == entries_map(entries).insert(entry.key, entry.value)[key] by {
        if key != entry.key {
            let i = position(new, key);
            assert(entries[i] == new[i]);
            lemma_entry(entries, i);
        }
    }
    assert(entries_map(new) =~= entries_map(entries).insert(entry.key, entry.value));
}

proof fn lemma_removed<K: OrderedKey, V>(entries: Seq<Entry<K, V>>, at: int)
    requires
        ordered(entries),
        0 <= at < entries.len(),
    ensures
        ordered(entries.remove(at)),
        entries_map(entries.remove(at)) == entries_map(entries).remove(entries[at].key),
{
    let new = entries.remove(at);
    let gone = entries[at].key;
    assert(ordered(new));
    assert forall|key: K|
        entries_map(new).contains_key(key) == entries_map(entries).remove(gone).contains_key(key) by {
        if holds_key(entries, key) && key != gone {
            let i = position(entries, key);
            if i < at {
                assert(new[i].key == key);
            } else {
                assert(new[i - 1].key == key);
            }
        }
        if holds_key(new, key) {
            let i = position(new, key);
            let k = if i < at { i } else { i + 1 };
            assert(entries[k].key == key);
            if k < at {
                assert(entries[k].key.before(entries[at].key));
            } else {
                assert(entries[at].key.before(entries[k].key));
            }
        }
    }
    assert forall|key: K| entries_map(new).contains_key(key) implies entries_map(new)[key]
        == entries_map(entries).remove(gone)[key] by {
        let i = position(new, key);
        let k = if i < at { i } else { i + 1 };
        assert(entries[k] == new[i]);
        lemma_entry(entries, k);
    }
    assert(entries_map(new) =~= entries_map(entries).remove(gone));
}

/// Every entry is in the map under its key, and the map holds as many keys as there are entries.
pub proof fn lemma_entries<K: OrderedKey, V>(entries: Seq<Entry<K, V>>)
    requires
        ordered(entries),
    ensures
        entries_map(entries).dom().finite(),
        entries_map(entries).dom().len() == entries.len(),
        forall|i: int|
            0 <= i < entries.len() ==> entries_map(entries).contains_pair(
                (#[trigger] entries[i]).key,
                entries[i].value,
            ),
{
    assert forall|i: int| 0 <= i < entries.len() implies entries_map(entries).contains_pair(
        (#[trigger] entries[i]).key,
        entries[i].value,
    ) by {
        lemma_entry(entries, i);
    }
    let keys = entries.map_values(|e: Entry<K, V>| e.key);
    assert(keys.no_duplicates()) by {
        assert forall|i: int, j: int| 0 <= i < keys.len() && 0 <= j < keys.len() && i != j implies keys[i]
            != keys[j] by {
            if i < j {
                assert(entries[i].key.before(entries[j].key));
            } else {
                assert(entries[j].key.before(entries[i].key));
            }
        }
    }
    keys.unique_seq_to_set();
    assert(keys.to_set() =~= entries_map(entries).dom()) by {
        assert forall|key: K| entries_map(entries).dom().contains(key) implies #[trigger] keys.contains(
            key,
        ) by {
            let i = position(entries, key);
            assert(entries[i].key == key);
            assert(keys[i] == key);
        }
        assert forall|key: K| #[trigger] keys.contains(key) implies entries_map(entries).dom().contains(key) by {
            let i = choose|i: int| 0 <= i < keys.len() && keys[i] == key;
            assert(entries[i].key == key);
        }
    }
}

impl<K: OrderedKey, V> SortedMap<K, V> {
    pub open spec fn wf(&self) -> bool {
        ordered(self.entries@)
    }

    pub fn new() -> (r: Self)
        ensures
            r.wf(),
            r@ == Map::<K, V>::empty(),
    {
        let r = SortedMap { entries: Vec::new() };
        assert(r@ =~= Map::<K, V>::empty());
        r
    }

    /// The position of the first entry that does not come before `key`.
    fn lower_bound(&self, key: &K) -> (r: usize)
        requires
            self.wf(),
        ensures
            r <= self.entries@.len(),
            forall|i: int| 0 <= i < r ==> (#[trigger] self.entries@[i]).key.before(*key),
            forall|i: int|
                r <= i < self.entries@.len() ==> !(#[trigger] self.entries@[i]).key.before(*key),
    {
        let mut i: usize = 0;
        while i < self.entries.len() && self.entries[i].key.is_before(key)
            invariant
                i <= self.entries@.len(),
                forall|j: int| 0 <= j < i ==> (#[trigger] self.entries@[j]).key.before(*key),
            decreases self.entries@.len() - i,
        {
            i = i + 1;
        }
        i
    }

    pub fn get(&self, key: K) -> (r: Option<&V>)
        requires
            self.wf(),
        ensures
            match r {
                Some(v) => self@.contains_key(key) && self@[key] == *v,
                None => !self@.contains_key(key),
            },
    {
        let i: usize = self.lower_bound(&key);
        if i < self.entries.len() && self.entries[i].key.is_same(&key) {
            proof {
                lemma_entry(self.entries@, i as int);
            }
            Some(&self.entries[i].value)
        } else {
            proof {
                if holds_key(self.entries@, key) {
                    let j = position(self.entries@, key);
                    assert(self.entries@[j].key == key);
                    if i < j {
                        assert(self.entries@[i as int].key.before(self.entries@[j].key));
                    }
                }
            }
            None
        }
    }

    pub fn insert(&mut self, key: K, value: V)
        requires
            old(self).wf(),
        ensures
            final(self).wf(),
            final(self)@ == old(self)@.insert(key, value),
    {
        let i: usize = self.lower_bound(&key);
        let found = i < self.entries.len() && self.entries[i].key.is_same(&key);
        let entry = Entry { key, value };
        if found {
            proof {
                lemma_replaced(self.entries@, i as int, entry);
            }
            self.entries.set(i, entry);
        } else {
            proof {
                assert forall|j: int| i <= j < self.entries@.len() implies key.before((#[trigger] self.entries@[j]).key) by {
                    K::order_laws(key, self.entries@[i as int].key, self.entries@[j].key);
                    if i < j {
                        assert(self.entries@[i as int].key.before(self.entries@[j].key));
                    }
                }
                lemma_inserted(self.entries@, i as int, entry);
            }
            self.entries.insert(i, entry);
        }
    }

    /// Takes the entry out, if it is there.
    pub fn remove(&mut self, key: K) -> (r: Option<V>)
        requires
            old(self).wf(),
        ensures
            final(self).wf(),
            final(self)@ == old(self)@.remove(key),
            match r {
                Some(v) => old(self)@.contains_key(key) && old(self)@[key] == v,
                None => !old(self)@.contains_key(key),
            },
    {
        let i: usize = self.lower_bound(&key);
        if i < self.entries.len() && self.entries[i].key.is_same(&key) {
            proof {
                lemma_removed(self.entries@, i as int);
                lemma_entry(self.entries@, i as int);
            }
            let entry = self.entries.remove(i);
            Some(entry.value)
        } else {
            proof {
                if holds_key(self.entries@, key) {
                    let j = position(self.entries@, key);
                    assert(self.entries@[j].key == key);
                    if i < j {
                        assert(self.entries@[i as int].key.before(self.entries@[j].key));
                    }
                }
                assert(self@.remove(key) =~= self@);
            }
            None
        }
    }
}

pub open spec fn increasing<K: OrderedKey>(keys: Seq<K>) -> bool {
    forall|i: int, j: int|
        #![trigger keys[i], keys[j]]
        0 <= i < j < keys.len() ==> keys[i].before(keys[j])
}

/// The keys of a finite set in order.
pub open spec fn in_order<K: OrderedKey>(keys: Set<K>) -> Seq<K> {
    choose|s: Seq<K>| increasing(s) && s.to_set() == keys
}

/// There is only one way to put keys in order.
pub proof fn lemma_order_is_unique<K: OrderedKey>(a: Seq<K>, b: Seq<K>)
    requires
        increasing(a),
        increasing(b),
        a.to_set() == b.to_set(),
    ensures
        a == b,
    decreases a.len(),
{
    if a.len() == 0 {
        if b.len() > 0 {
            assert(b.to_set().contains(b[0]));
        }
        assert(a =~= b);
    } else {
        assert(a.to_set().contains(a[0]));
        assert(b.contains(a[0]));
        let x = a.last();
        let y = b.last();
        assert(b.contains(x)) by {
            assert(a.to_set().contains(a[a.len() - 1]));
        }
        assert(a.contains(y)) by {
            assert(b.to_set().contains(b[b.len() - 1]));
        }
        assert(x == y) by {
            let i = choose|i: int| 0 <= i < b.len() && b[i] == x;
            let j = choose|j: int| 0 <= j < a.len() && a[j] == y;
            if x != y {
                assert(b[i].before(b[b.len() - 1]));
                assert(a[j].before(a[a.len() - 1]));
            }
        }
        let c = a.drop_last();
        let d = b.drop_last();
        assert(c.to_set() =~= d.to_set()) by {
            assert forall|k: K| c.contains(k) implies #[trigger] d.contains(k) by {
                let i = choose|i: int| 0 <= i < c.len() && c[i] == k;
                assert(a[i] == k);
                assert(a.to_set().contains(k));
                let j = choose|j: int| 0 <= j < b.len() && b[j] == k;
                assert(a[i].before(a[a.len() - 1]));
                assert(j < b.len() - 1);
                assert(d[j] == k);
            }
            assert forall|k: K| d.contains(k) implies #[trigger] c.contains(k) by {
                let i = choose|i: int| 0 <= i < d.len() && d[i] == k;
                assert(b[i] == k);
                assert(b.to_set().contains(k));
                let j = choose|j: int| 0 <= j < a.len() && a[j] == k;
                assert(b[i].before(b[b.len() - 1]));
                assert(j < a.len() - 1);
                assert(c[j] == k);
            }
        }
        lemma_order_is_unique(c, d);
        assert(a =~= c.push(x));
        assert(b =~= d.push(y));
    }
}

/// A sequence that is in order is the order of its own keys.
pub proof fn lemma_in_order<K: OrderedKey>(keys: Seq<K>)
    requires
        increasing(keys),
    ensures
        in_order(keys.to_set()) == keys,
{
    lemma_order_is_unique(in_order(keys.to_set()), keys);
}

pub open spec fn keys_of<K, V>(entries: Seq<Entry<K, V>>) -> Seq<K> {
    Seq::new(entries.len(), |i: int| entries[i].key)
}

/// The entries of a map are in the order of its keys.
pub proof fn lemma_keys_in_order<K: OrderedKey, V>(entries: Seq<Entry<K, V>>)
    requires
        ordered(entries),
    ensures
        increasing(keys_of(entries)),
        keys_of(entries).to_set() == entries_map(entries).dom(),
        in_order(entries_map(entries).dom()) == keys_of(entries),
{
    let keys = keys_of(entries);
    assert(keys.to_set() =~= entries_map(entries).dom()) by {
        assert forall|k: K| entries_map(entries).dom().contains(k) implies #[trigger] keys.contains(k) by {
            let i = position(entries, k);
            assert(keys[i] == k);
        }
        assert forall|k: K| #[trigger] keys.contains(k) implies entries_map(entries).dom().contains(k) by {
            let i = choose|i: int| 0 <= i < keys.len() && keys[i] == k;
            assert(entries[i].key == k);
        }
    }
    lemma_in_order(keys);
}

impl<K: OrderedKey, V> SortedMap<K, V> {
    pub fn contains(&self, key: K) -> (r: bool)
        requires
            self.wf(),
        ensures
            r == self@.contains_key(key),
    {
        self.get(key).is_some()
    }
}

impl<V> SortedMap<u32, V> {
    /// All keys in order.
    pub fn keys(&self) -> (r: Vec<u32>)
        requires
            self.wf(),
        ensures
            r@ == in_order(self@.dom()),
    {
        let mut out: Vec<u32> = Vec::new();
        let mut i: usize = 0;
        while i < self.entries.len()
            invariant
                i <= self.entries@.len(),
                out@.len() == i,
                forall|j: int| 0 <= j < i ==> (#[trigger] out@[j]) == self.entries@[j].key,
            decreases self.entries@.len() - i,
        {
            out.push(self.entries[i].key);
            i = i + 1;
        }
        proof {
            lemma_keys_in_order(self.entries@);
            assert(out@ =~= keys_of(self.entries@));
        }
        out
    }
}

} // verus!

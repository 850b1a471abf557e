//! A map that is kept as a list of entries with distinct keys.

use vstd::prelude::*;

use crate::model;
use crate::text;

verus! {

/// Keys that can be compared for equality.
pub trait TableKey: View + Sized {
    /// Whether two keys are the same.
    fn same_key(&self, other: &Self) -> (same: bool)
        ensures
            same == (self@ == other@),
    ;
}

impl TableKey for String {
    fn same_key(&self, other: &String) -> (same: bool) {
        text::same_text(self.as_str(), other.as_str())
    }
}

impl TableKey for usize {
    fn same_key(&self, other: &usize) -> (same: bool) {
        *self == *other
    }
}

/// A map from keys to values. Its view maps the views of the keys to the views
/// of the values.
pub struct Table<K: TableKey, V: View> {
    entries: Vec<(K, V)>,
}

/// The views of the keys of a list of entries.
pub open spec fn keys_of<K: View, V: View>(entries: Seq<(K, V)>) -> Seq<K::V> {
    Seq::new(entries.len(), |i: int| entries[i].0@)
}

/// The map that a list of entries with distinct keys stands for.
pub open spec fn map_of<K: View, V: View>(entries: Seq<(K, V)>) -> Map<K::V, V::V> {
    Map::new(
        |k: K::V| keys_of(entries).contains(k),
        |k: K::V| entries[keys_of(entries).index_of(k)].1@,
    )
}

impl<K: TableKey, V: View> View for Table<K, V> {
    type V = Map<K::V, V::V>;

    closed spec fn view(&self) -> Map<K::V, V::V> {
        map_of(self.entries@)
    }
}

proof fn lemma_map_of<K: View, V: View>(entries: Seq<(K, V)>)
    requires
        keys_of(entries).no_duplicates(),
    ensures
        forall|i: int|
            0 <= i < entries.len() ==> map_of(entries).contains_key(#[trigger] entries[i].0@)
                && map_of(entries)[entries[i].0@] == entries[i].1@,
        forall|k: K::V| #[trigger]
            map_of(entries).contains_key(k) ==> exists|i: int|
                0 <= i < entries.len() && #[trigger] keys_of(entries)[i] == k,
{
    let keys = keys_of(entries);
    assert forall|i: int| 0 <= i < entries.len() implies map_of(entries).contains_key(
        #[trigger] entries[i].0@,
    ) && map_of(entries)[entries[i].0@] == entries[i].1@ by {
        assert(keys[i] == entries[i].0@);
        assert(keys.contains(keys[i]));
        assert(keys.index_of(keys[i]) == i);
    }
}

impl<K: TableKey, V: View> Table<K, V> {
    /// No key occurs twice.
    #[verifier::type_invariant]
    spec fn keys_differ(self) -> bool {
        keys_of(self.entries@).no_duplicates()
    }

    /// A table without entries.
    pub fn new() -> (table: Self)
        ensures
            table@ == Map::<K::V, V::V>::empty(),
    {
        let table = Table { entries: Vec::new() };
        proof {
            assert(table@ =~= Map::<K::V, V::V>::empty());
        }
        table
    }

    /// Removes every entry.
    pub fn clear(&mut self)
        ensures
            final(self)@ == Map::<K::V, V::V>::empty(),
    {
        self.entries = Vec::new();
        proof {
            assert(self@ =~= Map::<K::V, V::V>::empty());
        }
    }

    /// Number of entries.
    pub fn len(&self) -> (n: usize)
        ensures
            self@.dom().finite(),
            n == self@.dom().len(),
    {
        proof {
            use_type_invariant(self);
            let keys = keys_of(self.entries@);
            keys.unique_seq_to_set();
            assert(self@.dom() =~= keys.to_set());
        }
        self.entries.len()
    }

    fn find(&self, key: &K) -> (found: Option<usize>)
        ensures
            match found {
                Some(i) => i < self.entries@.len() && self.entries@[i as int].0@ == key@,
                None => !keys_of(self.entries@).contains(key@),
            },
    {
        let mut i: usize = 0;
        while i < self.entries.len()
            invariant
                i <= self.entries@.len(),
                forall|j: int| 0 <= j < i ==> keys_of(self.entries@)[j] != key@,
            decreases self.entries@.len() - i,
        {
            if self.entries[i].0.same_key(key) {
                return Some(i);
            }
            i += 1;
        }
        None
    }

    /// Whether there is an entry for a key.
    pub fn contains_key(&self, key: &K) -> (found: bool)
        ensures
            found == self@.contains_key(key@),
    {
        proof {
            use_type_invariant(self);
            lemma_map_of(self.entries@);
        }
        self.find(key).is_some()
    }

    /// The value for a key.
    pub fn get(&self, key: &K) -> (value: Option<&V>)
        ensures
            match value {
                Some(v) => self@.contains_key(key@) && self@[key@] == v@,
                None => !self@.contains_key(key@),
            },
    {
        proof {
            use_type_invariant(self);
            lemma_map_of(self.entries@);
        }
        match self.find(key) {
            Some(i) => Some(&self.entries[i].1),
            None => None,
        }
    }

    /// Sets the value for a key.
    pub fn insert(&mut self, key: K, value: V)
        ensures
            final(self)@ == old(self)@.insert(key@, value@),
    {
        proof {
            use_type_invariant(&*self);
        }
        let ghost before = self.entries@;
        let ghost k = key@;
        let ghost v = value@;
        let found: Option<usize> = self.find(&key);
        let mut entries: Vec<(K, V)> = Vec::new();
        std::mem::swap(&mut self.entries, &mut entries);
        match found {
            Some(i) => {
                entries[i] = (key, value);
                proof {
                    assert(keys_of(entries@) =~= keys_of(before));
                    lemma_updated(before, entries@, i as int, k, v);
                }
            },
            None => {
                entries.push((key, value));
                proof {
                    assert(keys_of(entries@) =~= keys_of(before).push(k));
                    lemma_updated(before, entries@, before.len() as int, k, v);
                }
            },
        }
        self.entries = entries;
    }

    /// Keeps the entries whose keys are listed and removes the others.
    pub fn retain_keys(&mut self, keys: &Vec<K>)
        ensures
            final(self)@ == old(self)@.restrict(model::seq_view(keys@).to_set()),
    {
        proof {
            use_type_invariant(&*self);
        }
        let ghost wanted = model::seq_view(keys@).to_set();
        let ghost before = self.entries@;
        let mut entries: Vec<(K, V)> = Vec::new();
        std::mem::swap(&mut self.entries, &mut entries);
        let mut i: usize = 0;
        proof {
            lemma_map_of(before);
        }
        while i < entries.len()
            invariant
                i <= entries@.len(),
                wanted == model::seq_view(keys@).to_set(),
                keys_of(entries@).no_duplicates(),
                keys_of(before).no_duplicates(),
                forall|j: int| 0 <= j < i ==> wanted.contains(keys_of(entries@)[j]),
                map_of(entries@).restrict(wanted) == map_of(before).restrict(wanted),
            decreases entries@.len() - i,
        {
            if contains_same(keys, &entries[i].0) {
                proof {
                    assert(wanted.contains(keys_of(entries@)[i as int]));
                }
                i += 1;
            } else {
                let ghost prior = entries@;
                let _ = entries.remove(i);
                proof {
                    lemma_removed(prior, i as int);
                    assert(!wanted.contains(prior[i as int].0@));
                    assert(map_of(entries@).restrict(wanted) =~= map_of(prior).restrict(wanted));
                    assert forall|j: int| 0 <= j < i implies wanted.contains(
                        keys_of(entries@)[j],
                    ) by {
                        assert(keys_of(entries@)[j] == keys_of(prior)[j]);
                    }
                }
            }
        }
        proof {
            lemma_map_of(entries@);
            assert(map_of(entries@).restrict(wanted) =~= map_of(entries@));
        }
        self.entries = entries;
    }
}

/// Whether a key is listed.
fn contains_same<K: TableKey>(keys: &Vec<K>, key: &K) -> (found: bool)
    ensures
        found == model::seq_view(keys@).contains(key@),
{
    let mut i: usize = 0;
    while i < keys.len()
        invariant
            i <= keys@.len(),
            forall|j: int| 0 <= j < i ==> model::seq_view(keys@)[j] != key@,
        decreases keys@.len() - i,
    {
        if keys[i].same_key(key) {
            proof {
                assert(model::seq_view(keys@)[i as int] == key@);
            }
            return true;
        }
        i += 1;
    }
    false
}

proof fn lemma_updated<K: View, V: View>(
    before: Seq<(K, V)>,
    after: Seq<(K, V)>,
    i: int,
    k: K::V,
    v: V::V,
)
    requires
        keys_of(before).no_duplicates(),
        0 <= i <= before.len(),
        i < before.len() ==> after.len() == before.len() && keys_of(before)[i] == k,
        i == before.len() ==> after.len() == before.len() + 1 && !keys_of(before).contains(k),
        after[i].0@ == k,
        after[i].1@ == v,
        forall|j: int| 0 <= j < before.len() && j != i ==> #[trigger] after[j] == before[j],
    ensures
        keys_of(after).no_duplicates(),
        map_of(after) == map_of(before).insert(k, v),
{
    let ka = keys_of(after);
    let kb = keys_of(before);
    assert forall|a: int, b: int| 0 <= a < ka.len() && 0 <= b < ka.len() && a != b implies ka[a]
        != ka[b] by {
        if a < before.len() && a != i {
            assert(ka[a] == kb[a]);
        }
        if b < before.len() && b != i {
            assert(ka[b] == kb[b]);
        }
    }
    lemma_map_of(before);
    lemma_map_of(after);
    assert forall|q: K::V| map_of(after).contains_key(q) == map_of(before).insert(
        k,
        v,
    ).contains_key(q) by {
        if map_of(after).contains_key(q) {
            let j = choose|j: int| 0 <= j < after.len() && #[trigger] ka[j] == q;
            if j != i {
                assert(before[j].0@ == q);
            }
        }
        if map_of(before).contains_key(q) && q != k {
            let j = choose|j: int| 0 <= j < before.len() && #[trigger] kb[j] == q;
            assert(after[j].0@ == q);
        }
        assert(after[i].0@ == k);
    }
    assert forall|q: K::V| map_of(after).contains_key(q) implies map_of(after)[q] == map_of(
        before,
    ).insert(k, v)[q] by {
        let j = choose|j: int| 0 <= j < after.len() && #[trigger] ka[j] == q;
        assert(after[j].0@ == q);
        if j != i {
            assert(before[j].0@ == q);
            assert(ka[j] != ka[i]);
        }
    }
    assert(map_of(after) =~= map_of(before).insert(k, v));
}

proof fn lemma_removed<K: View, V: View>(before: Seq<(K, V)>, i: int)
    requires
        keys_of(before).no_duplicates(),
        0 <= i < before.len(),
    ensures
        keys_of(before.remove(i)).no_duplicates(),
        map_of(before.remove(i)) == map_of(before).remove(before[i].0@),
{
    let after = before.remove(i);
    let ka = keys_of(after);
    let kb = keys_of(before);
    assert forall|a: int| 0 <= a < ka.len() implies #[trigger] ka[a] == kb[if a < i { a } else { a + 1 }] by {
        assert(after[a] == before[if a < i { a } else { a + 1 }]);
    }
    assert(ka.no_duplicates());
    lemma_map_of(before);
    lemma_map_of(after);
    let k = before[i].0@;
    assert(kb[i] == k);
    assert forall|q: K::V| map_of(after).contains_key(q) == map_of(before).remove(k).contains_key(
        q,
    ) by {
        if map_of(after).contains_key(q) {
            let j = choose|j: int| 0 <= j < after.len() && #[trigger] ka[j] == q;
            let b = if j < i { j } else { j + 1 };
            assert(before[b].0@ == q);
            assert(kb[b] != kb[i]);
        }
        if map_of(before).contains_key(q) && q != k {
            let j = choose|j: int| 0 <= j < before.len() && #[trigger] kb[j] == q;
            let a = if j < i { j } else { j - 1 };
            assert(after[a].0@ == q);
        }
    }
    assert forall|q: K::V| map_of(after).contains_key(q) implies map_of(after)[q] == map_of(
        before,
    ).remove(k)[q] by {
        let j = choose|j: int| 0 <= j < after.len() && #[trigger] ka[j] == q;
        let b = if j < i { j } else { j + 1 };
        assert(after[j].0@ == q);
        assert(before[b].0@ == q);
        assert(before[b] == after[j]);
    }
    assert(map_of(after) =~= map_of(before).remove(k));
}

} // verus!

use vstd::prelude::*;
use crate::keys::StorageKey;

verus! {

/// One scope of the durable store: entries addressed by key.
///
/// Its view is the map from each key that was ever set to the value set
/// last under it.
pub struct Table<K, V> {
    entries: Vec<(K, V)>,
}

/// Whether `i` is the first position of `s` that holds `key`.
spec fn first_at<K, V>(s: Seq<(K, V)>, key: K, i: int) -> bool {
    &&& 0 <= i < s.len()
    &&& s[i].0 == key
    &&& forall|j: int| 0 <= j < i ==> s[j].0 != key
}

/// Whether some position of `s` holds `key`.
spec fn present<K, V>(s: Seq<(K, V)>, key: K) -> bool {
    exists|i: int| first_at(s, key, i)
}

/// The first position of `s` that holds `key`.
spec fn first_of<K, V>(s: Seq<(K, V)>, key: K) -> int {
    choose|i: int| first_at(s, key, i)
}

/// The map that a sequence of entries stands for.
spec fn as_map<K, V>(s: Seq<(K, V)>) -> Map<K, V> {
    Map::new(|key: K| present(s, key), |key: K| s[first_of(s, key)].1)
}

/// A key has one first position.
proof fn lemma_first_is_unique<K, V>(s: Seq<(K, V)>, key: K, i: int)
    requires
        first_at(s, key, i),
    ensures
        present(s, key),
        first_of(s, key) == i,
{
    let c = first_of(s, key);
    assert(first_at(s, key, c));
}

/// A key that stands at some position has a first position.
proof fn lemma_occurrence_is_present<K, V>(s: Seq<(K, V)>, key: K, i: int)
    requires
        0 <= i < s.len(),
        s[i].0 == key,
    ensures
        present(s, key),
        first_of(s, key) <= i,
    decreases i,
{
    if forall|j: int| 0 <= j < i ==> s[j].0 != key {
        lemma_first_is_unique(s, key, i);
    } else {
        let j = choose|j: int| 0 <= j < i && s[j].0 == key;
        lemma_occurrence_is_present(s, key, j);
    }
}

/// Writing a value at the first position of its key sets the key.
proof fn lemma_overwrite<K, V>(s: Seq<(K, V)>, i: int, key: K, value: V)
    requires
        first_at(s, key, i),
    ensures
        as_map(s.update(i, (key, value))) == as_map(s).insert(key, value),
{
    let t = s.update(i, (key, value));
    assert forall|k: K, j: int| first_at(s, k, j) <==> first_at(t, k, j) by {
        assert(forall|n: int| 0 <= n < s.len() ==> t[n].0 == s[n].0);
    }
    assert forall|k: K| present(t, k) == present(s, k) by {
        if present(s, k) {
            assert(first_at(t, k, first_of(s, k)));
        }
        if present(t, k) {
            assert(first_at(s, k, first_of(t, k)));
        }
    }
    assert forall|k: K| present(s, k) implies first_of(t, k) == first_of(s, k) by {
        lemma_first_is_unique(t, k, first_of(s, k));
    }
    lemma_first_is_unique(s, key, i);
    assert(as_map(t) =~= as_map(s).insert(key, value));
}

/// Appending a key that no position holds sets the key.
proof fn lemma_append<K, V>(s: Seq<(K, V)>, key: K, value: V)
    requires
        !present(s, key),
    ensures
        as_map(s.push((key, value))) == as_map(s).insert(key, value),
{
    let t = s.push((key, value));
    let n = s.len() as int;
    assert forall|j: int| 0 <= j < n implies s[j].0 != key by {
        if s[j].0 == key {
            lemma_occurrence_is_present(s, key, j);
        }
    }
    assert(forall|m: int| 0 <= m < n ==> t[m] == s[m]);
    lemma_first_is_unique(t, key, n);
    assert forall|k: K| k != key implies present(t, k) == present(s, k) && (present(s, k)
        ==> first_of(t, k) == first_of(s, k)) by {
        if present(s, k) {
            let j = first_of(s, k);
            assert(first_at(t, k, j));
            lemma_first_is_unique(t, k, j);
        }
        if present(t, k) {
            let j = first_of(t, k);
            assert(j != n);
            assert(first_at(s, k, j));
        }
    }
    assert(as_map(t) =~= as_map(s).insert(key, value));
}

impl<K, V> View for Table<K, V> {
    type V = Map<K, V>;

    closed spec fn view(&self) -> Map<K, V> {
        as_map(self.entries@)
    }
}

impl<K: StorageKey, V> Table<K, V> {
    /// A scope that holds nothing.
    pub fn new() -> (t: Self)
        ensures
            t@ == Map::<K, V>::empty(),
    {
        let t = Table { entries: Vec::new() };
        assert(t@ =~= Map::<K, V>::empty());
        t
    }

    /// The first position that holds `key`, if any does.
    fn position(&self, key: &K) -> (r: Option<usize>)
        ensures
            match r {
                Some(i) => first_at(self.entries@, *key, i as int),
                None => !present(self.entries@, *key),
            },
    {
        let mut i: usize = 0;
        while i < self.entries.len()
            invariant
                i <= self.entries.len(),
                forall|j: int| 0 <= j < i ==> self.entries@[j].0 != *key,
            decreases self.entries.len() - i,
        {
            if self.entries[i].0.same(key) {
                return Some(i);
            }
            i += 1;
        }
        None
    }

    /// Whether an entry exists under `key`.
    pub fn has(&self, key: &K) -> (r: bool)
        ensures
            r == self@.contains_key(*key),
    {
        match self.position(key) {
            Some(i) => {
                proof {
                    lemma_first_is_unique(self.entries@, *key, i as int);
                }
                true
            },
            None => false,
        }
    }

    /// The value stored under `key`, or nothing where the key is absent.
    pub fn get(&self, key: &K) -> (r: Option<&V>)
        ensures
            r == (if self@.contains_key(*key) {
                Some(&self@[*key])
            } else {
                None
            }),
    {
        match self.position(key) {
            Some(i) => {
                proof {
                    lemma_first_is_unique(self.entries@, *key, i as int);
                }
                Some(&self.entries[i].1)
            },
            None => None,
        }
    }

    /// Stores `value` under `key`, in place of what was there.
    pub fn set(&mut self, key: K, value: V)
        ensures
            final(self)@ == old(self)@.insert(key, value),
    {
        match self.position(&key) {
            Some(i) => {
                proof {
                    lemma_overwrite(self.entries@, i as int, key, value);
                }
                self.entries[i] = (key, value);
            },
            None => {
                proof {
                    lemma_append(self.entries@, key, value);
                }
                self.entries.push((key, value));
            },
        }
    }
}

} // verus!

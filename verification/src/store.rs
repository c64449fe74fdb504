//! A keyed store: the contract's persistent maps, held as a vector of entries
//! in which a later entry for a key shadows an earlier one.
use vstd::prelude::*;

verus! {

/// A key of a [`KeyMap`]: compared by its view.
pub trait MapKey: View + Sized {
    fn same_key(&self, other: &Self) -> (r: bool)
        ensures
            r == (self@ == other@),
    ;
}

impl MapKey for String {
    fn same_key(&self, other: &Self) -> (r: bool) {
        *self == *other
    }
}

impl MapKey for (String, String) {
    fn same_key(&self, other: &Self) -> (r: bool) {
        self.0 == other.0 && self.1 == other.1
    }
}

/// The map that a sequence of entries stands for: later entries win.
pub open spec fn entries_map<K: View, V>(s: Seq<(K, V)>) -> Map<K::V, V>
    decreases s.len(),
{
    if s.len() == 0 {
        Map::empty()
    } else {
        entries_map(s.drop_last()).insert(s.last().0@, s.last().1)
    }
}

/// A map with keys compared by value, stored as a vector of entries.
pub struct KeyMap<K, V> {
    /// The stored entries, oldest first; a later entry for a key shadows earlier ones.
    pub entries: Vec<(K, V)>,
}

impl<K: View, V> View for KeyMap<K, V> {
    type V = Map<K::V, V>;

    open spec fn view(&self) -> Map<K::V, V> {
        entries_map(self.entries@)
    }
}

/// A store holds finitely many keys.
pub proof fn lemma_entries_map_finite<K: View, V>(s: Seq<(K, V)>)
    ensures
        entries_map(s).dom().finite(),
    decreases s.len(),
{
    if s.len() > 0 {
        lemma_entries_map_finite(s.drop_last());
    }
}

/// The entry at `i` is the last one for its key.
pub open spec fn last_for_key<K: View, V>(s: Seq<(K, V)>, i: int) -> bool {
    &&& 0 <= i < s.len()
    &&& forall|j: int| i < j < s.len() ==> (#[trigger] s[j]).0@ != s[i].0@
}

/// No entry holds key `k`.
pub open spec fn key_absent<K: View, V>(s: Seq<(K, V)>, k: K::V) -> bool {
    forall|j: int| 0 <= j < s.len() ==> (#[trigger] s[j]).0@ != k
}

pub proof fn lemma_entries_map_last<K: View, V>(s: Seq<(K, V)>, i: int)
    requires
        last_for_key(s, i),
    ensures
        entries_map(s).contains_key(s[i].0@),
        entries_map(s)[s[i].0@] == s[i].1,
    decreases s.len(),
{
    if i < s.len() - 1 {
        let t = s.drop_last();
        assert(s[s.len() - 1].0@ != s[i].0@);
        assert forall|j: int| i < j < t.len() implies (#[trigger] t[j]).0@ != t[i].0@ by {
            assert(t[j] == s[j]);
        }
        lemma_entries_map_last(t, i);
    }
}

pub proof fn lemma_entries_map_absent<K: View, V>(s: Seq<(K, V)>, k: K::V)
    requires
        key_absent(s, k),
    ensures
        !entries_map(s).contains_key(k),
    decreases s.len(),
{
    if s.len() > 0 {
        let t = s.drop_last();
        assert forall|j: int| 0 <= j < t.len() implies (#[trigger] t[j]).0@ != k by {
            assert(t[j] == s[j]);
        }
        assert(s[s.len() - 1].0@ != k);
        lemma_entries_map_absent(t, k);
    }
}

proof fn lemma_entries_map_update<K: View, V>(s: Seq<(K, V)>, i: int, e: (K, V))
    requires
        last_for_key(s, i),
        e.0@ == s[i].0@,
    ensures
        entries_map(s.update(i, e)) =~= entries_map(s).insert(e.0@, e.1),
    decreases s.len(),
{
    let u = s.update(i, e);
    if i == s.len() - 1 {
        assert(u.drop_last() =~= s.drop_last());
        assert(u.last() == e);
    } else {
        let t = s.drop_last();
        assert(u.drop_last() =~= t.update(i, e));
        assert forall|j: int| i < j < t.len() implies (#[trigger] t[j]).0@ != t[i].0@ by {
            assert(t[j] == s[j]);
        }
        lemma_entries_map_update(t, i, e);
        assert(s[s.len() - 1].0@ != s[i].0@);
        assert(u.last() == s.last());
    }
}

/// A key of the map has a last entry.
pub proof fn lemma_entries_map_has_last<K: View, V>(s: Seq<(K, V)>, k: K::V)
    requires
        entries_map(s).contains_key(k),
    ensures
        exists|i: int| #[trigger] last_for_key(s, i) && s[i].0@ == k,
    decreases s.len(),
{
    let t = s.drop_last();
    if s.last().0@ == k {
        assert(last_for_key(s, s.len() - 1));
    } else {
        lemma_entries_map_has_last(t, k);
        let i = choose|i: int| #[trigger] last_for_key(t, i) && t[i].0@ == k;
        assert forall|j: int| i < j < s.len() implies (#[trigger] s[j]).0@ != s[i].0@ by {
            if j < t.len() {
                assert(t[j] == s[j]);
            }
        }
        assert(last_for_key(s, i));
    }
}

impl<K: MapKey, V> KeyMap<K, V> {
    /// An empty map.
    pub fn new() -> (m: Self)
        ensures
            m@ == Map::<K::V, V>::empty(),
    {
        KeyMap { entries: Vec::new() }
    }

    /// Index of the last entry with key `k`, if any.
    pub fn position(&self, k: &K) -> (r: Option<usize>)
        ensures
            match r {
                Some(i) => last_for_key(self.entries@, i as int) && self.entries@[i as int].0@ == k@,
                None => key_absent(self.entries@, k@),
            },
    {
        let mut i: usize = self.entries.len();
        while i > 0
            invariant
                i <= self.entries@.len(),
                forall|j: int| i <= j < self.entries@.len() ==> (#[trigger] self.entries@[j]).0@ != k@,
            decreases i,
        {
            if self.entries[i - 1].0.same_key(k) {
                return Some(i - 1);
            }
            i = i - 1;
        }
        None
    }

    /// The value stored under `k`, if any.
    pub fn get(&self, k: &K) -> (r: Option<&V>)
        ensures
            match r {
                Some(v) => self@.contains_key(k@) && *v == self@[k@],
                None => !self@.contains_key(k@),
            },
    {
        match self.position(k) {
            Some(i) => {
                proof {
                    lemma_entries_map_last(self.entries@, i as int);
                }
                Some(&self.entries[i].1)
            },
            None => {
                proof {
                    lemma_entries_map_absent(self.entries@, k@);
                }
                None
            },
        }
    }

    /// Whether entry `i` is the last one for its key, so that it holds the key's value.
    pub fn live(&self, i: usize) -> (r: bool)
        requires
            i < self.entries@.len(),
        ensures
            r == last_for_key(self.entries@, i as int),
    {
        let n = self.entries.len();
        let mut j: usize = i;
        while j < n - 1
            invariant
                n == self.entries@.len(),
                i <= j < n,
                forall|m: int| i < m <= j ==> (#[trigger] self.entries@[m]).0@ != self.entries@[i as int].0@,
            decreases n - j,
        {
            if self.entries[j + 1].0.same_key(&self.entries[i].0) {
                return false;
            }
            j = j + 1;
        }
        true
    }

    /// Whether a value is stored under `k`.
    pub fn contains(&self, k: &K) -> (r: bool)
        ensures
            r == self@.contains_key(k@),
    {
        self.get(k).is_some()
    }

    /// Stores `v` under `k`, replacing what was there.
    pub fn insert(&mut self, k: K, v: V)
        ensures
            final(self)@ == old(self)@.insert(k@, v),
    {
        match self.position(&k) {
            Some(i) => {
                proof {
                    lemma_entries_map_update(self.entries@, i as int, (k, v));
                }
                self.entries.set(i, (k, v));
            },
            None => {
                let ghost e = (k, v);
                self.entries.push((k, v));
                assert(self.entries@.drop_last() =~= old(self).entries@);
            },
        }
    }
}

} // verus!

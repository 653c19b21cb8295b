use vstd::prelude::*;

use crate::components::Entity;

verus! {

/// A map from entity names to components. The entries are kept in a list in
/// which no entity name occurs twice.
pub struct ComponentMap<V> {
    entries: Vec<(Entity, V)>,
}

spec fn keys_distinct<V>(s: Seq<(Entity, V)>) -> bool {
    forall|i: int, j: int|
        #![trigger s[i], s[j]]
        0 <= i < s.len() && 0 <= j < s.len() && i != j ==> s[i].0@ != s[j].0@
}

spec fn has_key<V>(s: Seq<(Entity, V)>, k: Seq<char>) -> bool {
    exists|i: int| 0 <= i < s.len() && #[trigger] s[i].0@ == k
}

spec fn index_of_key<V>(s: Seq<(Entity, V)>, k: Seq<char>) -> int {
    choose|i: int| 0 <= i < s.len() && #[trigger] s[i].0@ == k
}

spec fn entries_map<V>(s: Seq<(Entity, V)>) -> Map<Seq<char>, V> {
    Map::new(|k: Seq<char>| has_key(s, k), |k: Seq<char>| s[index_of_key(s, k)].1)
}

proof fn lemma_lookup<V>(s: Seq<(Entity, V)>, i: int)
    requires
        keys_distinct(s),
        0 <= i < s.len(),
    ensures
        entries_map(s).dom().contains(s[i].0@),
        entries_map(s)[s[i].0@] == s[i].1,
{
    assert(s[i].0@ == s[i].0@);
    assert(has_key(s, s[i].0@));
    let j = index_of_key(s, s[i].0@);
    assert(s[j].0@ == s[i].0@);
    assert(j == i);
}

/// The names of the entries, in order.
spec fn entry_names<V>(s: Seq<(Entity, V)>) -> Seq<Seq<char>> {
    s.map_values(|e: (Entity, V)| e.0@)
}

proof fn lemma_entries_map_len<V>(s: Seq<(Entity, V)>)
    requires
        keys_distinct(s),
    ensures
        entries_map(s).dom().finite(),
        entries_map(s).dom().len() == s.len(),
{
    let names = entry_names(s);
    assert(names.no_duplicates()) by {
        assert forall|i: int, j: int| 0 <= i < names.len() && 0 <= j < names.len() && i != j implies names[i]
            != names[j] by {
            assert(s[i].0@ != s[j].0@);
        }
    }
    assert(entries_map(s).dom() =~= names.to_set()) by {
        assert forall|k: Seq<char>| entries_map(s).dom().contains(k) == names.to_set().contains(k) by {
            if has_key(s, k) {
                let i = index_of_key(s, k);
                assert(names[i] == k);
            }
            if names.contains(k) {
                let i = choose|i: int| 0 <= i < names.len() && names[i] == k;
                assert(s[i].0@ == k);
            }
        }
    }
    names.unique_seq_to_set();
    vstd::seq_lib::seq_to_set_is_finite(names);
}

impl<V> View for ComponentMap<V> {
    type V = Map<Seq<char>, V>;

    closed spec fn view(&self) -> Map<Seq<char>, V> {
        entries_map(self.entries@)
    }
}

impl<V> ComponentMap<V> {
    /// No entity name occurs twice among the entries.
    pub closed spec fn wf(&self) -> bool {
        keys_distinct(self.entries@)
    }

    /// The entries in the order in which they are kept.
    pub closed spec fn entry_seq(&self) -> Seq<(Entity, V)> {
        self.entries@
    }

    /// Every entry is in the map, under its name, with its value.
    pub proof fn lemma_entry_in_map(&self, i: int)
        requires
            self.wf(),
            0 <= i < self.entry_seq().len(),
        ensures
            self@.dom().contains(self.entry_seq()[i].0@),
            self@[self.entry_seq()[i].0@] == self.entry_seq()[i].1,
    {
        lemma_lookup(self.entries@, i);
    }

    /// Every name in the map has an entry.
    pub proof fn lemma_map_has_entry(&self, k: Seq<char>)
        requires
            self@.dom().contains(k),
        ensures
            exists|i: int| 0 <= i < self.entry_seq().len() && #[trigger] self.entry_seq()[i].0@ == k,
    {
        let i = index_of_key(self.entries@, k);
        assert(self.entry_seq()[i].0@ == k);
    }


    /// Whether no entity name occurs twice among the entries.
    pub fn is_wf(&self) -> (ok: bool)
        ensures
            ok == self.wf(),
    {
        let n = self.entries.len();
        let mut i: usize = 0;
        while i < n
            invariant
                n == self.entries@.len(),
                i <= n,
                forall|a: int, b: int|
                    #![trigger self.entries@[a], self.entries@[b]]
                    0 <= a < i && 0 <= b < i && a != b ==> self.entries@[a].0@ != self.entries@[b].0@,
            decreases n - i,
        {
            let mut j: usize = 0;
            while j < i
                invariant
                    n == self.entries@.len(),
                    j <= i < n,
                    forall|a: int, b: int|
                        #![trigger self.entries@[a], self.entries@[b]]
                        0 <= a < i && 0 <= b < i && a != b ==> self.entries@[a].0@ != self.entries@[b].0@,
                    forall|b: int| 0 <= b < j ==> self.entries@[i as int].0@ != #[trigger] self.entries@[b].0@,
                decreases i - j,
            {
                if self.entries[i].0 == self.entries[j].0 {
                    assert(!keys_distinct(self.entries@)) by {
                        assert(self.entries@[i as int].0@ == self.entries@[j as int].0@);
                    }
                    return false;
                }
                j = j + 1;
            }
            i = i + 1;
        }
        true
    }

    pub fn new() -> (map: Self)
        ensures
            map.wf(),
            map@ == Map::<Seq<char>, V>::empty(),
            map.entry_seq().len() == 0,
    {
        let map = ComponentMap { entries: Vec::new() };
        assert(map@ =~= Map::<Seq<char>, V>::empty());
        map
    }

    /// The number of entries.
    pub fn len(&self) -> (n: usize)
        ensures
            n == self.entry_seq().len(),
            self.wf() ==> self@.dom().finite() && n == self@.dom().len(),
    {
        proof {
            if self.wf() {
                lemma_entries_map_len(self.entries@);
            }
        }
        self.entries.len()
    }

    /// The name and value of the entry at `index`.
    pub fn entry(&self, index: usize) -> (e: (&Entity, &V))
        requires
            index < self.entry_seq().len(),
        ensures
            *e.0 == self.entry_seq()[index as int].0,
            *e.1 == self.entry_seq()[index as int].1,
    {
        let entry = &self.entries[index];
        (&entry.0, &entry.1)
    }

    fn find(&self, key: &Entity) -> (index: Option<usize>)
        ensures
            match index {
                Some(i) => i < self.entries@.len() && self.entries@[i as int].0@ == key@,
                None => !has_key(self.entries@, key@),
            },
    {
        let mut i: usize = 0;
        while i < self.entries.len()
            invariant
                i <= self.entries@.len(),
                forall|j: int| 0 <= j < i ==> #[trigger] self.entries@[j].0@ != key@,
            decreases self.entries@.len() - i,
        {
            if self.entries[i].0 == *key {
                return Some(i);
            }
            i = i + 1;
        }
        None
    }

    pub fn contains_key(&self, key: &Entity) -> (found: bool)
        ensures
            found == self@.dom().contains(key@),
    {
        self.find(key).is_some()
    }

    pub fn get(&self, key: &Entity) -> (value: Option<&V>)
        requires
            self.wf(),
        ensures
            match value {
                Some(v) => self@.dom().contains(key@) && *v == self@[key@],
                None => !self@.dom().contains(key@),
            },
    {
        match self.find(key) {
            Some(i) => {
                proof {
                    lemma_lookup(self.entries@, i as int);
                }
                Some(&self.entries[i].1)
            },
            None => None,
        }
    }

    /// Puts `value` under `key`, replacing what was there.
    pub fn insert(&mut self, key: Entity, value: V)
        requires
            old(self).wf(),
        ensures
            final(self).wf(),
            final(self)@ == old(self)@.insert(key@, value),
    {
        let ghost old_s = self.entries@;
        let ghost k = key@;
        match self.find(&key) {
            Some(i) => {
                self.entries.set(i, (key, value));
                let ghost new_s = self.entries@;
                assert(keys_distinct(new_s)) by {
                    assert forall|a: int, b: int|
                        0 <= a < new_s.len() && 0 <= b < new_s.len() && a != b implies new_s[a].0@
                        != new_s[b].0@ by {
                        assert(old_s[a].0@ == new_s[a].0@);
                        assert(old_s[b].0@ == new_s[b].0@);
                    }
                }
                assert forall|q: Seq<char>| #[trigger]
                    entries_map(new_s).dom().contains(q) == entries_map(old_s).insert(
                        k,
                        value,
                    ).dom().contains(q) by {
                    if has_key(old_s, q) {
                        let j = index_of_key(old_s, q);
                        assert(new_s[j].0@ == q);
                    }
                    if has_key(new_s, q) {
                        let j = index_of_key(new_s, q);
                        assert(old_s[j].0@ == q);
                    }
                }
                assert forall|q: Seq<char>| #[trigger]
                    entries_map(new_s).dom().contains(q) implies entries_map(new_s)[q]
                    == entries_map(old_s).insert(k, value)[q] by {
                    let j = index_of_key(new_s, q);
                    lemma_lookup(new_s, j);
                    if j != i {
                        assert(old_s[j] == new_s[j]);
                        lemma_lookup(old_s, j);
                    }
                }
                assert(entries_map(new_s) =~= entries_map(old_s).insert(k, value));
            },
            None => {
                self.entries.push((key, value));
                let ghost new_s = self.entries@;
                assert(keys_distinct(new_s)) by {
                    assert forall|a: int, b: int|
                        0 <= a < new_s.len() && 0 <= b < new_s.len() && a != b implies new_s[a].0@
                        != new_s[b].0@ by {
                        if a < old_s.len() && b < old_s.len() {
                            assert(old_s[a] == new_s[a]);
                            assert(old_s[b] == new_s[b]);
                        } else if a < old_s.len() {
                            assert(old_s[a] == new_s[a]);
                        } else {
                            assert(old_s[b] == new_s[b]);
                        }
                    }
                }
                assert forall|q: Seq<char>| #[trigger]
                    entries_map(new_s).dom().contains(q) == entries_map(old_s).insert(
                        k,
                        value,
                    ).dom().contains(q) by {
                    if has_key(old_s, q) {
                        let j = index_of_key(old_s, q);
                        assert(new_s[j] == old_s[j]);
                    }
                    if has_key(new_s, q) {
                        let j = index_of_key(new_s, q);
                        if j < old_s.len() {
                            assert(old_s[j] == new_s[j]);
                        }
                    }
                    if q == k {
                        assert(new_s[old_s.len() as int].0@ == q);
                    }
                }
                assert forall|q: Seq<char>| #[trigger]
                    entries_map(new_s).dom().contains(q) implies entries_map(new_s)[q]
                    == entries_map(old_s).insert(k, value)[q] by {
                    let j = index_of_key(new_s, q);
                    lemma_lookup(new_s, j);
                    if j < old_s.len() {
                        assert(old_s[j] == new_s[j]);
                        lemma_lookup(old_s, j);
                    }
                }
                assert(entries_map(new_s) =~= entries_map(old_s).insert(k, value));
            },
        }
    }

    /// Takes the entry of `key` out of the map, if there is one.
    pub fn remove(&mut self, key: &Entity)
        requires
            old(self).wf(),
        ensures
            final(self).wf(),
            final(self)@ == old(self)@.remove(key@),
    {
        let ghost old_s = self.entries@;
        let ghost k = key@;
        match self.find(key) {
            Some(i) => {
                self.entries.remove(i);
                let ghost new_s = self.entries@;
                assert forall|j: int| 0 <= j < new_s.len() implies #[trigger] new_s[j] == (if j
                    < i {
                    old_s[j]
                } else {
                    old_s[j + 1]
                }) by {}
                assert(keys_distinct(new_s)) by {
                    assert forall|a: int, b: int|
                        0 <= a < new_s.len() && 0 <= b < new_s.len() && a != b implies new_s[a].0@
                        != new_s[b].0@ by {
                        let a2 = if a < i {
                            a
                        } else {
                            a + 1
                        };
                        let b2 = if b < i {
                            b
                        } else {
                            b + 1
                        };
                        assert(new_s[a] == old_s[a2]);
                        assert(new_s[b] == old_s[b2]);
                    }
                }
                assert forall|q: Seq<char>| #[trigger]
                    entries_map(new_s).dom().contains(q) == entries_map(old_s).remove(
                        k,
                    ).dom().contains(q) by {
                    if has_key(old_s, q) && q != k {
                        let j = index_of_key(old_s, q);
                        assert(j != i);
                        let j2 = if j < i {
                            j
                        } else {
                            j - 1
                        };
                        assert(new_s[j2] == old_s[j]);
                    }
                    if has_key(new_s, q) {
                        let j = index_of_key(new_s, q);
                        let j2 = if j < i {
                            j
                        } else {
                            j + 1
                        };
                        assert(new_s[j] == old_s[j2]);
                        assert(j2 != i);
                    }
                }
                assert forall|q: Seq<char>| #[trigger]
                    entries_map(new_s).dom().contains(q) implies entries_map(new_s)[q]
                    == entries_map(old_s).remove(k)[q] by {
                    let j = index_of_key(new_s, q);
                    lemma_lookup(new_s, j);
                    let j2 = if j < i {
                        j
                    } else {
                        j + 1
                    };
                    assert(new_s[j] == old_s[j2]);
                    lemma_lookup(old_s, j2);
                }
                assert(entries_map(new_s) =~= entries_map(old_s).remove(k));
            },
            None => {
                assert(entries_map(old_s) =~= entries_map(old_s).remove(k));
            },
        }
    }
}

} // verus!

//! A small map from strings to values that keeps its entries in insertion
//! order, for caches keyed by account.
use vstd::prelude::*;

verus! {

/// Entries with pairwise different keys.
#[derive(Debug)]
pub struct StringMap<V> {
    entries: Vec<(String, V)>,
}

pub open spec fn unique_keys<V>(s: Seq<(String, V)>) -> bool {
    forall|i: int, j: int| 0 <= i < j < s.len() ==> (#[trigger] s[i]).0@ != (#[trigger] s[j]).0@
}

/// The entries with keys and values taken by their views.
pub open spec fn view_entries<V: View>(s: Seq<(String, V)>) -> Seq<(Seq<char>, V::V)> {
    s.map_values(|e: (String, V)| (e.0@, e.1@))
}

/// The value stored under `key` among `entries`, looking from the front.
pub open spec fn lookup<V>(entries: Seq<(String, V)>, key: Seq<char>) -> Option<V>
    decreases entries.len(),
{
    if entries.len() == 0 {
        None
    } else if entries[0].0@ == key {
        Some(entries[0].1)
    } else {
        lookup(entries.drop_first(), key)
    }
}

/// The value of the last entry with this key.
pub open spec fn last_value<V>(entries: Seq<(String, V)>, key: Seq<char>) -> Option<V>
    decreases entries.len(),
{
    if entries.len() == 0 {
        None
    } else if entries.last().0@ == key {
        Some(entries.last().1)
    } else {
        last_value(entries.drop_last(), key)
    }
}

impl<V> StringMap<V> {
    #[verifier::type_invariant]
    spec fn keys_differ(&self) -> bool {
        unique_keys(self.entries@)
    }

    pub closed spec fn entries(&self) -> Seq<(String, V)> {
        self.entries@
    }

    /// The value stored under `key`.
    pub closed spec fn get_spec(&self, key: Seq<char>) -> Option<V> {
        lookup(self.entries@, key)
    }

    /// The keys, in the order they were first inserted.
    pub closed spec fn keys(&self) -> Seq<Seq<char>> {
        self.entries@.map_values(|e: (String, V)| e.0@)
    }

    pub fn new() -> (m: Self)
        ensures
            forall|k: Seq<char>| m.get_spec(k) is None,
            m.keys() == Seq::<Seq<char>>::empty(),
            m.entries() == Seq::<(String, V)>::empty(),
    {
        StringMap { entries: Vec::new() }
    }

    /// A map with exactly these entries, whose keys differ.
    pub fn from_unique(entries: Vec<(String, V)>) -> (m: Self)
        requires
            unique_keys(entries@),
        ensures
            m.entries() == entries@,
    {
        StringMap { entries }
    }

    /// Builds a map from entries; a later entry with a key already seen
    /// replaces the earlier value.
    pub fn from_entries(entries: Vec<(String, V)>) -> (m: Self)
        ensures
            forall|k: Seq<char>| #[trigger] m.get_spec(k) == last_value(entries@, k),
    {
        let ghost s = entries@;
        let mut m = Self::new();
        for e in it: entries.into_iter()
            invariant
                it.seq() == s,
                forall|k: Seq<char>| #[trigger] m.get_spec(k) == last_value(s.take(it.index() as int), k),
        {
            let ghost i = it.index();
            proof {
                assert(s.take(i + 1).drop_last() == s.take(i as int));
                assert(s.take(i + 1).last() == e);
            }
            let (k, v) = e;
            m.insert(k, v);
        }
        assert(s.take(s.len() as int) == s);
        m
    }

    /// The entries, in order; their keys differ.
    pub fn as_entries(&self) -> (r: &Vec<(String, V)>)
        ensures
            r@ == self.entries(),
            unique_keys(r@),
    {
        proof {
            use_type_invariant(self);
        }
        &self.entries
    }

    /// The entries, in order.
    pub fn into_entries(self) -> (r: Vec<(String, V)>)
        ensures
            r@ == self.entries(),
    {
        self.entries
    }

    pub fn len(&self) -> (n: usize)
        ensures
            n == self.keys().len(),
    {
        self.entries.len()
    }

    fn position(&self, key: &String) -> (r: Option<usize>)
        ensures
            match r {
                Some(i) => i < self.entries@.len() && self.entries@[i as int].0@ == key@
                    && lookup(self.entries@, key@) == Some(self.entries@[i as int].1),
                None => lookup(self.entries@, key@) is None && forall|j: int|
                    0 <= j < self.entries@.len() ==> (#[trigger] self.entries@[j]).0@ != key@,
            },
    {
        let mut i: usize = 0;
        assert(self.entries@.skip(0) == self.entries@);
        while i < self.entries.len()
            invariant
                0 <= i <= self.entries@.len(),
                lookup(self.entries@, key@) == lookup(self.entries@.skip(i as int), key@),
                forall|j: int| 0 <= j < i ==> (#[trigger] self.entries@[j]).0@ != key@,
            decreases self.entries@.len() - i,
        {
            assert(self.entries@.skip(i as int)[0] == self.entries@[i as int]);
            if self.entries[i].0 == *key {
                return Some(i);
            }
            assert(self.entries@.skip(i as int).drop_first() == self.entries@.skip(i + 1));
            i = i + 1;
        }
        None
    }

    /// The value stored under `key`.
    pub fn get(&self, key: &String) -> (r: Option<&V>)
        ensures
            match r {
                Some(v) => self.get_spec(key@) == Some(*v),
                None => self.get_spec(key@) is None,
            },
    {
        match self.position(key) {
            Some(i) => Some(&self.entries[i].1),
            None => None,
        }
    }

    /// Stores `value` under `key`, replacing what was there; a new key goes
    /// after the others.
    pub fn insert(&mut self, key: String, value: V)
        ensures
            final(self).get_spec(key@) == Some(value),
            forall|k: Seq<char>| k != key@ ==> final(self).get_spec(k) == old(self).get_spec(k),
            old(self).get_spec(key@) is Some ==> final(self).keys() == old(self).keys(),
            old(self).get_spec(key@) is None ==> final(self).keys() == old(self).keys().push(key@),
    {
        proof {
            use_type_invariant(&*self);
        }
        let ghost ks = key@;
        let pos = self.position(&key);
        let mut entries: Vec<(String, V)> = Vec::new();
        std::mem::swap(&mut entries, &mut self.entries);
        let ghost before = entries@;
        match pos {
            Some(i) => {
                entries.set(i, (key, value));
                proof {
                    lemma_lookup_update(before, i as int, entries@[i as int]);
                    assert(entries@.map_values(|e: (String, V)| e.0@) =~= before.map_values(
                        |e: (String, V)| e.0@,
                    ));
                    assert forall|a: int, b: int| 0 <= a < b < entries@.len() implies (
                    #[trigger] entries@[a]).0@ != (#[trigger] entries@[b]).0@ by {
                        assert(entries@[a].0@ == before[a].0@);
                        assert(entries@[b].0@ == before[b].0@);
                    }
                }
            },
            None => {
                entries.push((key, value));
                proof {
                    lemma_lookup_push(before, entries@.last());
                    assert(entries@.map_values(|e: (String, V)| e.0@) =~= before.map_values(
                        |e: (String, V)| e.0@,
                    ).push(ks));
                    assert forall|a: int, b: int| 0 <= a < b < entries@.len() implies (
                    #[trigger] entries@[a]).0@ != (#[trigger] entries@[b]).0@ by {
                        if b < before.len() {
                            assert(entries@[a] == before[a] && entries@[b] == before[b]);
                        } else {
                            assert(entries@[a] == before[a]);
                        }
                    }
                }
            },
        }
        self.entries = entries;
    }

    /// Removes every entry.
    pub fn clear(&mut self)
        ensures
            forall|k: Seq<char>| final(self).get_spec(k) is None,
            final(self).keys() == Seq::<Seq<char>>::empty(),
            final(self).entries() == Seq::<(String, V)>::empty(),
    {
        self.entries = Vec::new();
        assert(self.keys() =~= Seq::<Seq<char>>::empty());
    }
}

proof fn lemma_lookup_update<V>(s: Seq<(String, V)>, i: int, e: (String, V))
    requires
        0 <= i < s.len(),
        s[i].0@ == e.0@,
        forall|a: int, b: int| 0 <= a < b < s.len() ==> (#[trigger] s[a]).0@ != (#[trigger] s[b]).0@,
    ensures
        lookup(s.update(i, e), e.0@) == Some(e.1),
        forall|k: Seq<char>| k != e.0@ ==> lookup(s.update(i, e), k) == lookup(s, k),
    decreases s.len(),
{
    if i == 0 {
        assert(s.update(i, e).drop_first() == s.drop_first());
        assert forall|k: Seq<char>| k != e.0@ implies lookup(s.update(i, e), k) == lookup(s, k) by {
            assert(s.update(i, e)[0] == e);
        }
    } else {
        let t = s.drop_first();
        assert forall|a: int, b: int| 0 <= a < b < t.len() implies (#[trigger] t[a]).0@ != (
        #[trigger] t[b]).0@ by {
            assert(t[a] == s[a + 1] && t[b] == s[b + 1]);
        }
        lemma_lookup_update(t, i - 1, e);
        assert(s.update(i, e).drop_first() == t.update(i - 1, e));
        assert(s[0].0@ != s[i].0@);
        assert forall|k: Seq<char>| k != e.0@ implies lookup(s.update(i, e), k) == lookup(s, k) by {
            assert(s.update(i, e)[0] == s[0]);
            assert(lookup(t.update(i - 1, e), k) == lookup(t, k));
        }
    }
}

proof fn lemma_lookup_push<V>(s: Seq<(String, V)>, e: (String, V))
    requires
        forall|j: int| 0 <= j < s.len() ==> (#[trigger] s[j]).0@ != e.0@,
    ensures
        lookup(s.push(e), e.0@) == Some(e.1),
        forall|k: Seq<char>| k != e.0@ ==> lookup(s.push(e), k) == lookup(s, k),
    decreases s.len(),
{
    if s.len() > 0 {
        let t = s.drop_first();
        assert forall|j: int| 0 <= j < t.len() implies (#[trigger] t[j]).0@ != e.0@ by {
            assert(t[j] == s[j + 1]);
        }
        lemma_lookup_push(t, e);
        assert(s.push(e).drop_first() == t.push(e));
        assert forall|k: Seq<char>| k != e.0@ implies lookup(s.push(e), k) == lookup(s, k) by {
            assert(s.push(e)[0] == s[0]);
            assert(lookup(t.push(e), k) == lookup(t, k));
        }
    } else {
        assert forall|k: Seq<char>| k != e.0@ implies lookup(s.push(e), k) == lookup(s, k) by {
            reveal_with_fuel(lookup, 2);
            assert(s.push(e)[0] == e);
            assert(s.push(e).drop_first().len() == 0);
        }
    }
}

} // verus!

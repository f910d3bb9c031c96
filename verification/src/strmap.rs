//! A small map keyed by strings, kept as a list of entries with distinct keys.
use vstd::prelude::*;

verus! {

/// The map that a list of entries describes; a later entry for a key
/// overrides an earlier one.
pub open spec fn entries_map<V>(s: Seq<(String, V)>) -> Map<Seq<char>, V>
    decreases s.len(),
{
    if s.len() == 0 {
        Map::empty()
    } else {
        entries_map(s.drop_last()).insert(s.last().0@, s.last().1)
    }
}

/// No two entries share a key.
pub open spec fn distinct_keys<V>(s: Seq<(String, V)>) -> bool {
    forall|i: int, j: int| 0 <= i < s.len() && 0 <= j < s.len() && i != j ==> s[i].0@ != s[j].0@
}

pub proof fn lemma_entries_map_contains<V>(s: Seq<(String, V)>, k: Seq<char>)
    ensures
        entries_map(s).contains_key(k) <==> exists|i: int| 0 <= i < s.len() && s[i].0@ == k,
    decreases s.len(),
{
    if s.len() > 0 {
        lemma_entries_map_contains(s.drop_last(), k);
        if entries_map(s.drop_last()).contains_key(k) {
            let i = choose|i: int| 0 <= i < s.drop_last().len() && s.drop_last()[i].0@ == k;
            assert(s[i].0@ == k);
        }
        if exists|i: int| 0 <= i < s.len() && s[i].0@ == k {
            let i = choose|i: int| 0 <= i < s.len() && s[i].0@ == k;
            if i < s.len() - 1 {
                assert(s.drop_last()[i].0@ == k);
            }
        }
    }
}

pub proof fn lemma_entries_map_value<V>(s: Seq<(String, V)>, i: int)
    requires
        distinct_keys(s),
        0 <= i < s.len(),
    ensures
        entries_map(s).contains_key(s[i].0@),
        entries_map(s)[s[i].0@] == s[i].1,
    decreases s.len(),
{
    if i < s.len() - 1 {
        let t = s.drop_last();
        assert(distinct_keys(t));
        assert(t[i] == s[i]);
        lemma_entries_map_value(t, i);
        assert(s[i].0@ != s[s.len() - 1].0@);
    }
}

pub proof fn lemma_entries_map_len<V>(s: Seq<(String, V)>)
    requires
        distinct_keys(s),
    ensures
        entries_map(s).dom().finite(),
        entries_map(s).len() == s.len(),
    decreases s.len(),
{
    if s.len() > 0 {
        let t = s.drop_last();
        assert(distinct_keys(t));
        lemma_entries_map_len(t);
        lemma_entries_map_contains(t, s.last().0@);
        if entries_map(t).contains_key(s.last().0@) {
            let i = choose|i: int| 0 <= i < t.len() && t[i].0@ == s.last().0@;
            assert(s[i].0@ == s[s.len() - 1].0@);
        }
    }
}

pub proof fn lemma_entries_map_finite<V>(s: Seq<(String, V)>)
    ensures
        entries_map(s).dom().finite(),
    decreases s.len(),
{
    if s.len() > 0 {
        lemma_entries_map_finite(s.drop_last());
    }
}

/// A map from strings to values of type `V`.
#[derive(Debug)]
pub struct StrMap<V> {
    entries: Vec<(String, V)>,
}

impl<V> View for StrMap<V> {
    type V = Map<Seq<char>, V>;

    closed spec fn view(&self) -> Map<Seq<char>, V> {
        entries_map(self.entries@)
    }
}

impl<V> StrMap<V> {
    /// No two stored entries share a key.
    #[verifier::type_invariant]
    closed spec fn keys_distinct(self) -> bool {
        distinct_keys(self.entries@)
    }

    /// An empty map.
    pub fn new() -> (m: Self)
        ensures
            m@ == Map::<Seq<char>, V>::empty(),
    {
        StrMap { entries: Vec::new() }
    }

    /// The number of keys.
    pub fn len(&self) -> (n: usize)
        ensures
            self@.dom().finite(),
            n == self@.len(),
    {
        proof {
            use_type_invariant(self);
            lemma_entries_map_len(self.entries@);
        }
        self.entries.len()
    }

    /// Whether the map holds no key.
    pub fn is_empty(&self) -> (r: bool)
        ensures
            r <==> self@ == Map::<Seq<char>, V>::empty(),
    {
        proof {
            use_type_invariant(self);
            lemma_entries_map_len(self.entries@);
            if self.entries@.len() > 0 {
                lemma_entries_map_value(self.entries@, 0);
                assert(self@.contains_key(self.entries@[0].0@));
            } else {
                assert(self@ =~= Map::<Seq<char>, V>::empty());
            }
        }
        self.entries.len() == 0
    }

    fn position(&self, key: &String) -> (r: Option<usize>)
        ensures
            match r {
                Some(i) => i < self.entries@.len() && self.entries@[i as int].0@ == key@,
                None => forall|i: int|
                    0 <= i < self.entries@.len() ==> self.entries@[i].0@ != key@,
            },
    {
        let n = self.entries.len();
        for i in 0..n
            invariant
                n == self.entries@.len(),
                forall|j: int| 0 <= j < i ==> self.entries@[j].0@ != key@,
        {
            if self.entries[i].0 == *key {
                return Some(i);
            }
        }
        None
    }

    /// The value stored for `key`, if there is one.
    pub fn get(&self, key: &str) -> (r: Option<&V>)
        ensures
            match r {
                Some(v) => self@.contains_key(key@) && *v == self@[key@],
                None => !self@.contains_key(key@),
            },
    {
        proof {
            use_type_invariant(self);
        }
        let k = key.to_owned();
        match self.position(&k) {
            Some(i) => {
                proof {
                    lemma_entries_map_value(self.entries@, i as int);
                }
                Some(&self.entries[i].1)
            },
            None => {
                proof {
                    lemma_entries_map_contains(self.entries@, key@);
                }
                None
            },
        }
    }

    /// Whether `key` has a value.
    pub fn contains_key(&self, key: &str) -> (r: bool)
        ensures
            r == self@.contains_key(key@),
    {
        self.get(key).is_some()
    }

    /// Stores `value` for `key`, replacing any earlier value for it.
    pub fn insert(&mut self, key: String, value: V)
        ensures
            final(self)@ == old(self)@.insert(key@, value),
    {
        proof {
            use_type_invariant(&*self);
        }
        let ghost before = self.entries@;
        let found = self.position(&key);
        let mut entries: Vec<(String, V)> = Vec::new();
        std::mem::swap(&mut entries, &mut self.entries);
        match found {
            Some(i) => {
                let ghost k = key@;
                entries.set(i, (key, value));
                proof {
                    let after = entries@;
                    assert(distinct_keys(after));
                    assert forall|q: Seq<char>| #[trigger]
                        entries_map(after).contains_key(q) == entries_map(before).insert(
                            k,
                            value,
                        ).contains_key(q) by {
                        lemma_entries_map_contains(after, q);
                        lemma_entries_map_contains(before, q);
                        if q == k {
                            assert(after[i as int].0@ == q);
                        } else if entries_map(before).contains_key(q) {
                            let j = choose|j: int| 0 <= j < before.len() && before[j].0@ == q;
                            assert(after[j].0@ == q);
                        } else if entries_map(after).contains_key(q) {
                            let j = choose|j: int| 0 <= j < after.len() && after[j].0@ == q;
                            assert(before[j].0@ == q);
                        }
                    }
                    assert forall|q: Seq<char>| #[trigger]
                        entries_map(after).contains_key(q) implies entries_map(after)[q]
                        == entries_map(before).insert(k, value)[q] by {
                        lemma_entries_map_contains(after, q);
                        let j = choose|j: int| 0 <= j < after.len() && after[j].0@ == q;
                        lemma_entries_map_value(after, j);
                        if j != i {
                            assert(before[j] == after[j]);
                            lemma_entries_map_value(before, j);
                        }
                    }
                    assert(entries_map(after) =~= entries_map(before).insert(k, value));
                }
            },
            None => {
                entries.push((key, value));
                proof {
                    let after = entries@;
                    assert(after.drop_last() =~= before);
                    assert(distinct_keys(after));
                }
            },
        }
        self.entries = entries;
    }

    /// The stored entries: each key of the map once, with its value.
    pub fn entries(&self) -> (r: &[(String, V)])
        ensures
            r@.len() == self@.len(),
            distinct_keys(r@),
            forall|i: int|
                0 <= i < r@.len() ==> self@.contains_key(#[trigger] r@[i].0@) && self@[r@[i].0@]
                    == r@[i].1,
            forall|k: Seq<char>|
                self@.contains_key(k) ==> exists|i: int| 0 <= i < r@.len() && #[trigger] r@[i].0@ == k,
    {
        proof {
            use_type_invariant(self);
            lemma_entries_map_len(self.entries@);
            assert forall|i: int| 0 <= i < self.entries@.len() implies self@.contains_key(
                #[trigger] self.entries@[i].0@,
            ) && self@[self.entries@[i].0@] == self.entries@[i].1 by {
                lemma_entries_map_value(self.entries@, i);
            }
            assert forall|k: Seq<char>| self@.contains_key(k) implies exists|i: int|
                0 <= i < self.entries@.len() && #[trigger] self.entries@[i].0@ == k by {
                lemma_entries_map_contains(self.entries@, k);
            }
        }
        self.entries.as_slice()
    }
}

impl<V: Clone> Clone for StrMap<V> {
    /// A map with the same keys, each value cloned.
    fn clone(&self) -> (r: Self)
        ensures
            r@.dom() == self@.dom(),
            forall|k: Seq<char>| #[trigger] r@.contains_key(k) ==> cloned::<V>(self@[k], r@[k]),
    {
        proof {
            use_type_invariant(self);
        }
        let mut entries: Vec<(String, V)> = Vec::new();
        let n = self.entries.len();
        for i in 0..n
            invariant
                n == self.entries@.len(),
                entries@.len() == i,
                distinct_keys(self.entries@),
                forall|j: int|
                    0 <= j < i ==> (#[trigger] entries@[j]).0@ == self.entries@[j].0@ && cloned::<V>(
                        self.entries@[j].1,
                        entries@[j].1,
                    ),
        {
            let key = self.entries[i].0.clone();
            let value = self.entries[i].1.clone();
            entries.push((key, value));
        }
        let ghost src = self.entries@;
        let ghost dst = entries@;
        proof {
            assert(distinct_keys(dst)) by {
                assert forall|i: int, j: int|
                    0 <= i < dst.len() && 0 <= j < dst.len() && i != j implies dst[i].0@
                    != dst[j].0@ by {
                    assert(dst[i].0@ == src[i].0@);
                    assert(dst[j].0@ == src[j].0@);
                }
            }
            assert forall|k: Seq<char>|
                entries_map(dst).contains_key(k) == entries_map(src).contains_key(k) by {
                lemma_entries_map_contains(dst, k);
                lemma_entries_map_contains(src, k);
                if entries_map(src).contains_key(k) {
                    let j = choose|j: int| 0 <= j < src.len() && src[j].0@ == k;
                    assert(dst[j].0@ == k);
                }
                if entries_map(dst).contains_key(k) {
                    let j = choose|j: int| 0 <= j < dst.len() && dst[j].0@ == k;
                    assert(src[j].0@ == k);
                }
            }
            assert(entries_map(dst).dom() =~= entries_map(src).dom());
            assert forall|k: Seq<char>| #[trigger]
                entries_map(dst).contains_key(k) implies cloned::<V>(
                entries_map(src)[k],
                entries_map(dst)[k],
            ) by {
                lemma_entries_map_contains(dst, k);
                let j = choose|j: int| 0 <= j < dst.len() && dst[j].0@ == k;
                assert(src[j].0@ == k);
                lemma_entries_map_value(dst, j);
                lemma_entries_map_value(src, j);
                assert(dst[j] == entries@[j]);
            }
        }
        StrMap { entries }
    }
}

/// Reading a key after storing it gives the stored value; every other key
/// keeps its value; and the map grows by one key exactly when the key was
/// new.
pub proof fn law_read_after_write<V>(
    before: StrMap<V>,
    after: StrMap<V>,
    key: Seq<char>,
    value: V,
    other: Seq<char>,
)
    requires
        after@ == before@.insert(key, value),
    ensures
        after@.contains_key(key),
        after@[key] == value,
        other != key ==> (after@.contains_key(other) == before@.contains_key(other)),
        other != key && before@.contains_key(other) ==> after@[other] == before@[other],
        after@.len() == before@.len() + if before@.contains_key(key) {
            0int
        } else {
            1int
        },
{
    lemma_entries_map_finite(before.entries@);
    if before@.contains_key(key) {
        assert(after@.dom() =~= before@.dom());
    } else {
        assert(after@.dom() =~= before@.dom().insert(key));
    }
}

} // verus!

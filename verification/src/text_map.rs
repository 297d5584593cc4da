//! A map keyed by text, kept as a list of entries in the order of insertion.

use vstd::prelude::*;

verus! {

/// Whether two texts hold the same characters.
pub fn same_text(a: &str, b: &str) -> (r: bool)
    ensures
        r == (a@ == b@),
{
    a.to_owned() == b.to_owned()
}

/// The value of the first entry of `entries` whose key is `key`.
pub open spec fn lookup<V>(entries: Seq<(String, V)>, key: Seq<char>) -> Option<V>
    decreases entries.len(),
{
    if entries.len() == 0 {
        None
    } else if entries[0].0@ == key {
        Some(entries[0].1)
    } else {
        lookup(entries.drop_first(), key)
    }
}

/// `i` is the first index of `entries` that holds `key`.
pub open spec fn first_at<V>(entries: Seq<(String, V)>, key: Seq<char>, i: int) -> bool {
    &&& 0 <= i < entries.len()
    &&& entries[i].0@ == key
    &&& forall|j: int| 0 <= j < i ==> (#[trigger] entries[j]).0@ != key
}

/// No entry of `entries` holds `key`.
pub open spec fn absent<V>(entries: Seq<(String, V)>, key: Seq<char>) -> bool {
    forall|j: int| 0 <= j < entries.len() ==> (#[trigger] entries[j]).0@ != key
}

pub proof fn lemma_lookup_first<V>(entries: Seq<(String, V)>, key: Seq<char>, i: int)
    requires
        first_at(entries, key, i),
    ensures
        lookup(entries, key) == Some(entries[i].1),
    decreases entries.len(),
{
    if i > 0 {
        let rest = entries.drop_first();
        assert(entries[0].0@ != key);
        assert forall|j: int| 0 <= j < i - 1 implies (#[trigger] rest[j]).0@ != key by {
            assert(rest[j] == entries[j + 1]);
        }
        lemma_lookup_first(rest, key, i - 1);
    }
}

pub proof fn lemma_lookup_absent<V>(entries: Seq<(String, V)>, key: Seq<char>)
    requires
        absent(entries, key),
    ensures
        lookup(entries, key) is None,
    decreases entries.len(),
{
    if entries.len() > 0 {
        let rest = entries.drop_first();
        assert(entries[0].0@ != key);
        assert forall|j: int| 0 <= j < rest.len() implies (#[trigger] rest[j]).0@ != key by {
            assert(rest[j] == entries[j + 1]);
        }
        lemma_lookup_absent(rest, key);
    }
}

/// Replacing the value of the first entry that holds `key` changes what
/// `key` maps to and nothing else.
pub proof fn lemma_lookup_update<V>(
    entries: Seq<(String, V)>,
    i: int,
    entry: (String, V),
    other: Seq<char>,
)
    requires
        first_at(entries, entry.0@, i),
    ensures
        lookup(entries.update(i, entry), other) == if other == entry.0@ {
            Some(entry.1)
        } else {
            lookup(entries, other)
        },
    decreases entries.len(),
{
    let changed = entries.update(i, entry);
    if i == 0 {
        assert(changed.drop_first() == entries.drop_first());
    } else {
        let rest = entries.drop_first();
        assert(entries[0].0@ != entry.0@);
        assert(changed.drop_first() == rest.update(i - 1, entry));
        assert forall|j: int| 0 <= j < i - 1 implies (#[trigger] rest[j]).0@ != entry.0@ by {
            assert(rest[j] == entries[j + 1]);
        }
        lemma_lookup_update(rest, i - 1, entry, other);
    }
}

/// Adding an entry for a key that no entry holds changes what that key maps
/// to and nothing else.
pub proof fn lemma_lookup_push<V>(entries: Seq<(String, V)>, entry: (String, V), other: Seq<char>)
    requires
        absent(entries, entry.0@),
    ensures
        lookup(entries.push(entry), other) == if other == entry.0@ {
            Some(entry.1)
        } else {
            lookup(entries, other)
        },
    decreases entries.len(),
{
    let grown = entries.push(entry);
    if entries.len() == 0 {
        assert(grown.drop_first() == Seq::<(String, V)>::empty());
    } else {
        let rest = entries.drop_first();
        assert(grown.drop_first() == rest.push(entry));
        assert(entries[0].0@ != entry.0@);
        assert forall|j: int| 0 <= j < rest.len() implies (#[trigger] rest[j]).0@ != entry.0@ by {
            assert(rest[j] == entries[j + 1]);
        }
        lemma_lookup_push(rest, entry, other);
    }
}

/// Taking out the first entry that holds `key` leaves every other key as it was.
pub proof fn lemma_lookup_remove<V>(
    entries: Seq<(String, V)>,
    key: Seq<char>,
    i: int,
    other: Seq<char>,
)
    requires
        first_at(entries, key, i),
        other != key,
    ensures
        lookup(entries.remove(i), other) == lookup(entries, other),
    decreases entries.len(),
{
    let shorter = entries.remove(i);
    if i == 0 {
        assert(shorter == entries.drop_first());
    } else {
        let rest = entries.drop_first();
        assert(shorter.drop_first() == rest.remove(i - 1));
        assert(shorter[0] == entries[0]);
        assert forall|j: int| 0 <= j < i - 1 implies (#[trigger] rest[j]).0@ != key by {
            assert(rest[j] == entries[j + 1]);
        }
        lemma_lookup_remove(rest, key, i - 1, other);
    }
}

/// A map from texts to values of `V`.
pub struct TextMap<V> {
    entries: Vec<(String, V)>,
}

impl<V> View for TextMap<V> {
    type V = Map<Seq<char>, V>;

    closed spec fn view(&self) -> Map<Seq<char>, V> {
        Map::new(
            |k: Seq<char>| lookup(self.entries@, k) is Some,
            |k: Seq<char>| lookup(self.entries@, k)->0,
        )
    }
}

impl<V> TextMap<V> {
    /// The empty map.
    pub fn new() -> (r: Self)
        ensures
            r@ == Map::<Seq<char>, V>::empty(),
    {
        let r = TextMap { entries: Vec::new() };
        assert(r@ =~= Map::<Seq<char>, V>::empty());
        r
    }

    /// The index of the first entry that holds `key`.
    fn position(&self, key: &str) -> (r: Option<usize>)
        ensures
            match r {
                Some(i) => first_at(self.entries@, key@, i as int),
                None => absent(self.entries@, key@),
            },
    {
        let mut i: usize = 0;
        while i < self.entries.len()
            invariant
                i <= self.entries.len(),
                forall|j: int| 0 <= j < i ==> (#[trigger] self.entries@[j]).0@ != key@,
            decreases self.entries.len() - i,
        {
            if same_text(self.entries[i].0.as_str(), key) {
                return Some(i);
            }
            i += 1;
        }
        None
    }

    /// Whether `key` has a value.
    pub fn contains_key(&self, key: &str) -> (r: bool)
        ensures
            r == self@.contains_key(key@),
    {
        match self.position(key) {
            Some(i) => {
                proof {
                    lemma_lookup_first(self.entries@, key@, i as int);
                }
                true
            },
            None => {
                proof {
                    lemma_lookup_absent(self.entries@, key@);
                }
                false
            },
        }
    }

    /// The value of `key`.
    pub fn get(&self, key: &str) -> (r: Option<&V>)
        ensures
            match r {
                Some(v) => self@.contains_key(key@) && self@[key@] == *v,
                None => !self@.contains_key(key@),
            },
    {
        match self.position(key) {
            Some(i) => {
                proof {
                    lemma_lookup_first(self.entries@, key@, i as int);
                }
                Some(&self.entries[i].1)
            },
            None => {
                proof {
                    lemma_lookup_absent(self.entries@, key@);
                }
                None
            },
        }
    }

    /// Gives `key` the value `value`, in place of the one it had, if any.
    pub fn insert(&mut self, key: String, value: V)
        ensures
            final(self)@ == old(self)@.insert(key@, value),
    {
        let ghost before = self.entries@;
        let ghost entry = (key, value);
        match self.position(key.as_str()) {
            Some(i) => {
                self.entries.set(i, (key, value));
                proof {
                    assert forall|k: Seq<char>|
                        lookup(self.entries@, k) == if k == entry.0@ {
                            Some(entry.1)
                        } else {
                            lookup(before, k)
                        } by {
                        lemma_lookup_update(before, i as int, entry, k);
                    }
                }
            },
            None => {
                self.entries.push((key, value));
                proof {
                    assert forall|k: Seq<char>|
                        lookup(self.entries@, k) == if k == entry.0@ {
                            Some(entry.1)
                        } else {
                            lookup(before, k)
                        } by {
                        lemma_lookup_push(before, entry, k);
                    }
                }
            },
        }
        assert(self@ =~= old(self)@.insert(key@, value));
    }

    /// Takes the value of `key` away, if it has one.
    pub fn remove(&mut self, key: &str)
        ensures
            final(self)@ == old(self)@.remove(key@),
    {
        loop
            invariant
                forall|k: Seq<char>|
                    k != key@ ==> lookup(self.entries@, k) == lookup(old(self).entries@, k),
            ensures
                lookup(self.entries@, key@) is None,
            decreases self.entries.len(),
        {
            let ghost before = self.entries@;
            match self.position(key) {
                Some(i) => {
                    self.entries.remove(i);
                    proof {
                        assert forall|k: Seq<char>| k != key@ implies lookup(self.entries@, k)
                            == lookup(before, k) by {
                            lemma_lookup_remove(before, key@, i as int, k);
                        }
                    }
                },
                None => {
                    proof {
                        lemma_lookup_absent(self.entries@, key@);
                    }
                    break ;
                },
            }
        }
        assert(self@ =~= old(self)@.remove(key@));
    }
}

/// The map from each key of `m` to the text of its value.
pub open spec fn texts(m: Map<Seq<char>, String>) -> Map<Seq<char>, Seq<char>> {
    Map::new(|k: Seq<char>| m.contains_key(k), |k: Seq<char>| m[k]@)
}

pub proof fn lemma_texts_empty()
    ensures
        texts(Map::empty()) == Map::<Seq<char>, Seq<char>>::empty(),
{
    assert(texts(Map::empty()) =~= Map::<Seq<char>, Seq<char>>::empty());
}

pub proof fn lemma_texts_insert(m: Map<Seq<char>, String>, key: Seq<char>, value: String)
    ensures
        texts(m.insert(key, value)) == texts(m).insert(key, value@),
{
    assert(texts(m.insert(key, value)) =~= texts(m).insert(key, value@));
}

} // verus!

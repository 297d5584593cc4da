//! The cache of answers: what was stored under a key is handed back a few
//! times and then forgotten, so that a bad answer does not come back
//! for ever.

use vstd::prelude::*;
use crate::text_map::TextMap;

verus! {

/// How often one stored value is handed back.
pub const MAX_RETURNS: u32 = 3;

/// A stored value and how often it has been handed back.
pub struct CacheEntry {
    value: String,
    hits: u32,
}

/// What a cache holds: for each key the value and the number of times it has
/// been handed back.
pub type Stored = Map<Seq<char>, (Seq<char>, nat)>;

/// The value that a lookup of `key` hands back.
pub open spec fn answer(stored: Stored, key: Seq<char>) -> Option<Seq<char>> {
    if stored.contains_key(key) && stored[key].1 < MAX_RETURNS {
        Some(stored[key].0)
    } else {
        None
    }
}

/// What a cache holds after a lookup of `key`: a value that is handed back
/// is counted once more, one that has been handed back often enough leaves.
pub open spec fn after_lookup(stored: Stored, key: Seq<char>) -> Stored {
    if !stored.contains_key(key) {
        stored
    } else if stored[key].1 < MAX_RETURNS {
        stored.insert(key, (stored[key].0, stored[key].1 + 1))
    } else {
        stored.remove(key)
    }
}

/// What a cache holds after `value` was stored under `key`.
pub open spec fn after_store(stored: Stored, key: Seq<char>, value: Seq<char>) -> Stored {
    stored.insert(key, (value, 0))
}

/// The cache of answers.
pub struct Cache {
    cache: TextMap<CacheEntry>,
}

impl View for Cache {
    type V = Stored;

    closed spec fn view(&self) -> Stored {
        Map::new(
            |k: Seq<char>| self.cache@.contains_key(k),
            |k: Seq<char>| (self.cache@[k].value@, self.cache@[k].hits as nat),
        )
    }
}

impl Cache {
    /// The empty cache.
    pub fn new() -> (r: Cache)
        ensures
            r@ == Map::<Seq<char>, (Seq<char>, nat)>::empty(),
    {
        let r = Cache { cache: TextMap::new() };
        assert(r@ =~= Map::<Seq<char>, (Seq<char>, nat)>::empty());
        r
    }

    /// The value stored under `key`, while it has been handed back fewer than
    /// `MAX_RETURNS` times; the lookup after that takes the value out.
    pub fn get(&mut self, key: &str) -> (r: Option<&String>)
        ensures
            match r {
                Some(value) => answer(old(self)@, key@) == Some(value@),
                None => answer(old(self)@, key@) is None,
            },
            final(self)@ == after_lookup(old(self)@, key@),
    {
        let found = match self.cache.get(key) {
            Some(entry) => Some((entry.value.clone(), entry.hits)),
            None => None,
        };
        match found {
            None => {
                assert(self@ =~= after_lookup(old(self)@, key@));
                None
            },
            Some((value, hits)) => {
                if hits < MAX_RETURNS {
                    self.cache.insert(key.to_owned(), CacheEntry { value, hits: hits + 1 });
                    assert(self@ =~= after_lookup(old(self)@, key@));
                    match self.cache.get(key) {
                        Some(entry) => Some(&entry.value),
                        None => None,
                    }
                } else {
                    self.cache.remove(key);
                    assert(self@ =~= after_lookup(old(self)@, key@));
                    None
                }
            },
        }
    }

    /// Stores `value` under `key`, in place of what was stored there.
    pub fn set(&mut self, key: String, value: String)
        ensures
            final(self)@ == after_store(old(self)@, key@, value@),
    {
        self.cache.insert(key, CacheEntry { value, hits: 0 });
        assert(self@ =~= after_store(old(self)@, key@, value@));
    }
}

} // verus!

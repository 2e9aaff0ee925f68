//! The keys fetched during one download, by their address.

use vstd::prelude::*;
use crate::text::chars_of;
use crate::text::same;

verus! {

/// The keys fetched so far. An address occurs at most once; a key once put
/// in stays until the cache is dropped.
pub struct KeyCache {
    entries: Vec<(String, Vec<u8>)>,
}

/// `entries` holds `url` at index `i`.
pub open spec fn holds_at(entries: Seq<(String, Vec<u8>)>, url: Seq<char>, i: int) -> bool {
    0 <= i < entries.len() && entries[i].0@ == url
}

/// No address occurs twice in `entries`.
pub open spec fn distinct_addresses(entries: Seq<(String, Vec<u8>)>) -> bool {
    forall|i: int, j: int|
        0 <= i < entries.len() && 0 <= j < entries.len() && #[trigger] entries[i].0@
            == #[trigger] entries[j].0@ ==> i == j
}

/// The addresses in `entries`, each with its key.
pub open spec fn keys_of(entries: Seq<(String, Vec<u8>)>) -> Map<Seq<char>, Seq<u8>> {
    Map::new(
        |url: Seq<char>| exists|i: int| holds_at(entries, url, i),
        |url: Seq<char>| entries[choose|i: int| holds_at(entries, url, i)].1@,
    )
}

impl KeyCache {
    #[verifier::type_invariant]
    spec fn well_formed(self) -> bool {
        distinct_addresses(self.entries@)
    }

    /// The addresses in the cache, each with its key.
    pub closed spec fn view(&self) -> Map<Seq<char>, Seq<u8>> {
        keys_of(self.entries@)
    }

    /// A cache without keys.
    pub fn new() -> (cache: Self)
        ensures
            cache@ == Map::<Seq<char>, Seq<u8>>::empty(),
    {
        let cache = KeyCache { entries: Vec::new() };
        assert(cache@ =~= Map::<Seq<char>, Seq<u8>>::empty());
        cache
    }

    /// Where the cache holds `url`.
    fn position(&self, url: &str) -> (r: Option<usize>)
        ensures
            match r {
                Some(i) => holds_at(self.entries@, url@, i as int),
                None => forall|i: int| !holds_at(self.entries@, url@, i),
            },
    {
        let wanted = chars_of(url);
        let mut i: usize = 0;
        while i < self.entries.len()
            invariant
                i <= self.entries@.len(),
                wanted@ == url@,
                forall|j: int| 0 <= j < i ==> !holds_at(self.entries@, url@, j),
            decreases self.entries@.len() - i,
        {
            let found = chars_of(self.entries[i].0.as_str());
            if same(found.as_slice(), wanted.as_slice()) {
                return Some(i);
            }
            i += 1;
        }
        None
    }

    /// Whether the key of `url` is in the cache.
    pub fn contains(&self, url: &str) -> (r: bool)
        ensures
            r == self@.contains_key(url@),
    {
        self.position(url).is_some()
    }

    /// The key of `url`, if it is in the cache.
    pub fn get(&self, url: &str) -> (r: Option<&Vec<u8>>)
        ensures
            match r {
                Some(key) => self@.contains_key(url@) && self@[url@] == key@,
                None => !self@.contains_key(url@),
            },
    {
        proof {
            use_type_invariant(self);
        }
        match self.position(url) {
            Some(i) => {
                proof {
                    let k = choose|k: int| holds_at(self.entries@, url@, k);
                    assert(holds_at(self.entries@, url@, k));
                    assert(k == i);
                }
                Some(&self.entries[i].1)
            },
            None => None,
        }
    }

    /// Puts the key of `url` into the cache, in place of the one that it may
    /// hold for that address.
    pub fn insert(&mut self, url: String, key: Vec<u8>)
        ensures
            final(self)@ == old(self)@.insert(url@, key@),
    {
        proof {
            use_type_invariant(&*self);
        }
        let ghost before = self.entries@;
        let found = self.position(url.as_str());
        let mut taken = KeyCache { entries: Vec::new() };
        core::mem::swap(self, &mut taken);
        let mut entries = taken.entries;
        let ghost at: int;
        match found {
            Some(i) => {
                proof {
                    at = i as int;
                }
                entries.set(i, (url, key));
            },
            None => {
                proof {
                    at = before.len() as int;
                }
                entries.push((url, key));
            },
        }
        proof {
            lemma_entry_put(before, entries@, at, url@, key@);
        }
        *self = KeyCache { entries };
    }
}

/// Putting a key at its address: where `after` is `before` with the entry
/// at index `at` replaced or added, and that entry is the only one for
/// `url`, the addresses stay distinct and the keys are those of `before`
/// with `url` now at `key`.
pub proof fn lemma_entry_put(
    before: Seq<(String, Vec<u8>)>,
    after: Seq<(String, Vec<u8>)>,
    at: int,
    url: Seq<char>,
    key: Seq<u8>,
)
    requires
        distinct_addresses(before),
        0 <= at <= before.len(),
        at == before.len() ==> after.len() == before.len() + 1,
        at < before.len() ==> after.len() == before.len() && before[at].0@ == url,
        after[at].0@ == url,
        after[at].1@ == key,
        forall|j: int| 0 <= j < before.len() && j != at ==> after[j] == before[j],
        forall|j: int| holds_at(before, url, j) ==> j == at,
    ensures
        distinct_addresses(after),
        keys_of(after) == keys_of(before).insert(url, key),
{
    assert forall|a: int, b: int|
        0 <= a < after.len() && 0 <= b < after.len() && #[trigger] after[a].0@
            == #[trigger] after[b].0@ implies a == b by {
        if a != at && b != at {
            assert(after[a] == before[a] && after[b] == before[b]);
        } else if a != at {
            assert(after[a] == before[a]);
            assert(holds_at(before, url, a));
        } else if b != at {
            assert(after[b] == before[b]);
            assert(holds_at(before, url, b));
        }
    }
    assert(holds_at(after, url, at));
    assert forall|u: Seq<char>| #[trigger]
        keys_of(after).contains_key(u) == keys_of(before).insert(url, key).contains_key(u) by {
        if keys_of(after).contains_key(u) && u != url {
            let k = choose|k: int| holds_at(after, u, k);
            assert(holds_at(after, u, k));
            assert(after[k] == before[k]);
            assert(holds_at(before, u, k));
        }
        if keys_of(before).contains_key(u) && u != url {
            let k = choose|k: int| holds_at(before, u, k);
            assert(holds_at(before, u, k));
            assert(after[k] == before[k]);
            assert(holds_at(after, u, k));
        }
    }
    assert forall|u: Seq<char>| #[trigger] keys_of(after).contains_key(u) implies keys_of(
        after,
    )[u] == keys_of(before).insert(url, key)[u] by {
        let k = choose|k: int| holds_at(after, u, k);
        assert(holds_at(after, u, k));
        if u == url {
            assert(k == at);
        } else {
            assert(after[k] == before[k]);
            assert(holds_at(before, u, k));
            let m = choose|m: int| holds_at(before, u, m);
            assert(holds_at(before, u, m));
            assert(m == k);
        }
    }
    assert(keys_of(after) =~= keys_of(before).insert(url, key));
}

} // verus!

//! Carriers: the string key/value maps (such as request headers) through
//! which contexts travel between services.

use vstd::prelude::*;

use crate::text::str_eq;

verus! {

/// The text of each key and value.
pub open spec fn pairs_text(v: Seq<(String, String)>) -> Seq<(Seq<char>, Seq<char>)> {
    v.map_values(|e: (String, String)| (e.0@, e.1@))
}

/// `i` is the first position of `s` whose key is `k`.
pub open spec fn is_first_key(s: Seq<(Seq<char>, Seq<char>)>, k: Seq<char>, i: int) -> bool {
    &&& 0 <= i < s.len()
    &&& s[i].0 == k
    &&& forall|j: int| 0 <= j < i ==> (#[trigger] s[j]).0 != k
}

/// The value stored under `k`: that of the first entry with key `k`.
pub open spec fn lookup(s: Seq<(Seq<char>, Seq<char>)>, k: Seq<char>) -> Option<Seq<char>> {
    if exists|i: int| is_first_key(s, k, i) {
        Some(s[choose|i: int| is_first_key(s, k, i)].1)
    } else {
        None
    }
}

proof fn lemma_first_key_unique(s: Seq<(Seq<char>, Seq<char>)>, k: Seq<char>, i: int, j: int)
    requires
        is_first_key(s, k, i),
        is_first_key(s, k, j),
    ensures
        i == j,
{
    if i < j {
        assert(s[i].0 != k);
    } else if j < i {
        assert(s[j].0 != k);
    }
}

proof fn lemma_lookup_at(s: Seq<(Seq<char>, Seq<char>)>, k: Seq<char>, i: int)
    requires
        is_first_key(s, k, i),
    ensures
        lookup(s, k) == Some(s[i].1),
{
    let c = choose|i: int| is_first_key(s, k, i);
    lemma_first_key_unique(s, k, i, c);
}

proof fn lemma_lookup_same_keys(a: Seq<(Seq<char>, Seq<char>)>, b: Seq<(Seq<char>, Seq<char>)>, k: Seq<char>)
    requires
        a.len() == b.len(),
        forall|j: int| #![trigger a[j]] #![trigger b[j]] 0 <= j < a.len() ==> a[j].0 == b[j].0,
        forall|j: int| #![trigger a[j]] #![trigger b[j]] 0 <= j < a.len() && a[j].0 == k ==> a[j].1 == b[j].1,
    ensures
        lookup(a, k) == lookup(b, k),
{
    assert forall|m: int| #![trigger is_first_key(a, k, m)] #![trigger is_first_key(b, k, m)]
        is_first_key(a, k, m) <==> is_first_key(b, k, m) by {
    }
    if exists|m: int| is_first_key(a, k, m) {
        let m = choose|m: int| is_first_key(a, k, m);
        lemma_lookup_at(a, k, m);
        lemma_lookup_at(b, k, m);
    } else if exists|m: int| is_first_key(b, k, m) {
        let m = choose|m: int| is_first_key(b, k, m);
        assert(is_first_key(a, k, m));
    }
}

/// Writes values into a carrier.
pub trait Injector {
    /// Stores `value` under `key`.
    fn set(&mut self, key: &str, value: &str);
}

/// Reads values out of a carrier.
pub trait Extractor {
    /// The value stored under `key`, if any.
    fn get(&self, key: &str) -> Option<String>;
}

/// A carrier backed by an ordered list of key/value pairs; setting a key
/// that is present replaces its value.
#[derive(Debug, Clone, PartialEq, Eq)]
pub struct MapCarrier {
    entries: Vec<(String, String)>,
}

impl MapCarrier {
    /// The stored pairs, in order.
    pub closed spec fn spec_pairs(&self) -> Seq<(Seq<char>, Seq<char>)> {
        pairs_text(self.entries@)
    }

    /// The value stored under `key`.
    pub open spec fn spec_get(&self, key: Seq<char>) -> Option<Seq<char>> {
        lookup(self.spec_pairs(), key)
    }

    /// An empty carrier.
    pub fn new() -> (r: Self)
        ensures
            forall|k: Seq<char>| #[trigger] r.spec_get(k) is None,
    {
        let r = MapCarrier { entries: Vec::new() };
        assert(r.spec_pairs() =~= Seq::<(Seq<char>, Seq<char>)>::empty());
        r
    }

    /// Stores `value` under `key`, replacing any value already there; the
    /// values of other keys are unchanged.
    pub fn set(&mut self, key: &str, value: &str)
        ensures
            final(self).spec_get(key@) == Some(value@),
            forall|k: Seq<char>| k != key@ ==> #[trigger] final(self).spec_get(k) == old(self).spec_get(k),
    {
        let ghost old_pairs = pairs_text(self.entries@);
        let mut i: usize = 0;
        while i < self.entries.len()
            invariant
                i <= self.entries@.len(),
                old_pairs == pairs_text(self.entries@),
                old_pairs == pairs_text(old(self).entries@),
                forall|j: int| 0 <= j < i ==> (#[trigger] old_pairs[j]).0 != key@,
            decreases self.entries.len() - i,
        {
            if str_eq(self.entries[i].0.as_str(), key) {
                self.entries.set(i, (key.to_string(), value.to_string()));
                proof {
                    let np = pairs_text(self.entries@);
                    assert(np =~= old_pairs.update(i as int, (key@, value@)));
                    assert(is_first_key(np, key@, i as int));
                    lemma_lookup_at(np, key@, i as int);
                    assert forall|k: Seq<char>| k != key@ implies #[trigger] lookup(np, k) == lookup(old_pairs, k) by {
                        lemma_lookup_same_keys(np, old_pairs, k);
                    }
                }
                return;
            }
            i = i + 1;
        }
        self.entries.push((key.to_string(), value.to_string()));
        proof {
            let np = pairs_text(self.entries@);
            let n = old_pairs.len() as int;
            assert(np =~= old_pairs.push((key@, value@)));
            assert(is_first_key(np, key@, n));
            lemma_lookup_at(np, key@, n);
            assert forall|k: Seq<char>| k != key@ implies #[trigger] lookup(np, k) == lookup(old_pairs, k) by {
                assert forall|m: int| #![trigger is_first_key(np, k, m)] #![trigger is_first_key(old_pairs, k, m)]
                    is_first_key(np, k, m) <==> is_first_key(old_pairs, k, m) by {
                    if 0 <= m < n {
                        assert forall|j: int| #![trigger np[j]] #![trigger old_pairs[j]] 0 <= j < m implies
                            np[j] == old_pairs[j] by {
                        }
                    }
                }
                if exists|m: int| is_first_key(np, k, m) {
                    let m = choose|m: int| is_first_key(np, k, m);
                    lemma_lookup_at(np, k, m);
                    lemma_lookup_at(old_pairs, k, m);
                } else if exists|m: int| is_first_key(old_pairs, k, m) {
                    let m = choose|m: int| is_first_key(old_pairs, k, m);
                    assert(is_first_key(np, k, m));
                }
            }
        }
    }

    /// The value stored under `key`, if any.
    pub fn get(&self, key: &str) -> (r: Option<String>)
        ensures
            match self.spec_get(key@) {
                Some(v) => r matches Some(x) && x@ == v,
                None => r is None,
            },
    {
        let ghost pairs = pairs_text(self.entries@);
        let mut i: usize = 0;
        while i < self.entries.len()
            invariant
                i <= self.entries@.len(),
                pairs == pairs_text(self.entries@),
                forall|j: int| 0 <= j < i ==> (#[trigger] pairs[j]).0 != key@,
            decreases self.entries.len() - i,
        {
            if str_eq(self.entries[i].0.as_str(), key) {
                proof {
                    assert(is_first_key(pairs, key@, i as int));
                    lemma_lookup_at(pairs, key@, i as int);
                }
                return Some(self.entries[i].1.clone());
            }
            i = i + 1;
        }
        proof {
            if exists|m: int| is_first_key(pairs, key@, m) {
                let m = choose|m: int| is_first_key(pairs, key@, m);
                assert(pairs[m].0 == key@);
            }
        }
        None
    }
}

impl Injector for MapCarrier {
    fn set(&mut self, key: &str, value: &str)
        ensures
            final(self).spec_get(key@) == Some(value@),
            forall|k: Seq<char>| k != key@ ==> #[trigger] final(self).spec_get(k) == old(self).spec_get(k),
    {
        MapCarrier::set(self, key, value)
    }
}

impl Extractor for MapCarrier {
    fn get(&self, key: &str) -> (r: Option<String>)
        ensures
            match self.spec_get(key@) {
                Some(v) => r matches Some(x) && x@ == v,
                None => r is None,
            },
    {
        MapCarrier::get(self, key)
    }
}

impl Default for MapCarrier {
    fn default() -> (r: Self)
        ensures
            forall|k: Seq<char>| #[trigger] r.spec_get(k) is None,
    {
        MapCarrier::new()
    }
}

} // verus!

//! Values by key, each of which expires a fixed time after it was set.

use std::collections::HashMap;
use std::hash::Hash;
use std::time::{Duration, Instant};
use vstd::prelude::*;
use vstd::std_specs::hash::obeys_key_model;

use crate::clock::{duration_as_nanos, duration_nanos, elapsed_nanos, instant_now, MAX_DURATION_NANOS};

verus! {

broadcast use vstd::std_specs::hash::group_hash_axioms;

/// Values by key; a value reads as absent once more than `duration` has
/// passed since it was set.
///
/// What a hash map does is known only for key types whose `Eq` and `Hash`
/// agree with equality of values (`obeys_key_model`, which vstd grants the
/// integer types and `bool`); the contracts below speak of such keys.
pub struct Cache<K: Eq + Hash + Clone, V: Clone> {
    duration: u128,
    entries: HashMap<K, (Instant, V)>,
}

/// What a read of `key` finds, `age` nanoseconds after its value was set,
/// in a cache holding `values` whose values live for `lifetime`.
pub open spec fn spec_cache_read<K, V>(values: Map<K, V>, lifetime: nat, key: K, age: u128) -> Option<V> {
    if age > lifetime || !values.contains_key(key) {
        None
    } else {
        Some(values[key])
    }
}

impl<K: Eq + Hash + Clone, V: Clone> Cache<K, V> {
    /// The values set, by key.
    pub closed spec fn values(&self) -> Map<K, V> {
        self.entries@.map_values(|e: (Instant, V)| e.1)
    }

    /// How long, in nanoseconds, a value stays readable.
    pub closed spec fn lifetime(&self) -> nat {
        self.duration as nat
    }

    /// An empty cache whose values live for `duration`.
    pub fn new(duration: Duration) -> (cache: Self)
        ensures
            cache.values() == Map::<K, V>::empty(),
            cache.lifetime() == duration_as_nanos(duration),
    {
        let cache = Cache { duration: duration_nanos(&duration), entries: HashMap::new() };
        assert(cache.values() =~= Map::<K, V>::empty());
        cache
    }

    /// The value for `key`, read when `age` nanoseconds have passed since it
    /// was set: absent when no value was set or the age exceeds the
    /// lifetime, else a clone of the value.
    pub fn get_at_age(&self, key: &K, age: u128) -> (result: Option<V>)
        ensures
            obeys_key_model::<K>() ==> match spec_cache_read(self.values(), self.lifetime(), *key, age) {
                None => result is None,
                Some(v) => result is Some && cloned(v, result->0),
            },
    {
        if age > self.duration {
            return None;
        }
        match self.entries.get(key) {
            None => None,
            Some(entry) => Some(entry.1.clone()),
        }
    }

    /// The value for `key` unless none was set or it has expired. Whatever
    /// the clock reads, a value that comes back is a clone of the one set;
    /// whether it has expired is the clock's to say, except for a cache
    /// whose lifetime is the longest duration there is, whose values never
    /// expire.
    pub fn get(&self, key: K) -> (result: Option<V>)
        ensures
            obeys_key_model::<K>() ==> {
                &&& !self.values().contains_key(key) ==> result is None
                &&& result is Some ==> self.values().contains_key(key) && cloned(
                    self.values()[key],
                    result->0,
                )
                &&& self.values().contains_key(key) && self.lifetime() >= MAX_DURATION_NANOS
                    ==> result is Some
            },
    {
        let age = match self.entries.get(&key) {
            None => return None,
            Some(entry) => elapsed_nanos(&entry.0),
        };
        self.get_at_age(&key, age)
    }

    /// Sets the value for `key`, which from now on lives for the cache's
    /// lifetime.
    pub fn set(&mut self, key: K, value: V)
        ensures
            obeys_key_model::<K>() ==> final(self).values() == old(self).values().insert(key, value),
            final(self).lifetime() == old(self).lifetime(),
    {
        self.entries.insert(key, (instant_now(), value));
        proof {
            if obeys_key_model::<K>() {
                assert(self.values() =~= old(self).values().insert(key, value));
            }
        }
    }
}

/// Cache law: a value set under a key is what a read of that key finds
/// until its lifetime has passed, and nothing after; setting a key leaves
/// what every other key reads as it was.
pub proof fn law_read_after_set<K, V>(
    values: Map<K, V>,
    lifetime: nat,
    key: K,
    value: V,
    other: K,
    age: u128,
)
    ensures
        spec_cache_read(values.insert(key, value), lifetime, key, age) == if age <= lifetime {
            Some(value)
        } else {
            None
        },
        other != key ==> spec_cache_read(values.insert(key, value), lifetime, other, age)
            == spec_cache_read(values, lifetime, other, age),
{
}

} // verus!

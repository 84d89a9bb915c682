//! A single value that expires a fixed time after it was stored.

use std::time::{Duration, Instant};
use vstd::prelude::*;

use crate::clock::{duration_as_nanos, duration_nanos, elapsed_nanos, instant_now, MAX_DURATION_NANOS};

verus! {

/// Holds at most one value, which reads as absent once more than `duration`
/// has passed since it was set.
pub struct Cache<T: Clone> {
    duration: u128,
    instant: Instant,
    value: Option<T>,
}

/// What a read finds, `age` nanoseconds after the value was set, in a cache
/// holding `stored` whose value lives for `lifetime`.
pub open spec fn spec_value_read<T>(stored: Option<T>, lifetime: nat, age: u128) -> Option<T> {
    if age > lifetime {
        None
    } else {
        stored
    }
}

impl<T: Clone> Cache<T> {
    /// The value last stored, if any.
    pub closed spec fn stored(&self) -> Option<T> {
        self.value
    }

    /// How long, in nanoseconds, a stored value stays readable.
    pub closed spec fn lifetime(&self) -> nat {
        self.duration as nat
    }

    /// An empty cache whose values live for `duration`.
    pub fn new(duration: Duration) -> (cache: Self)
        ensures
            cache.stored() is None,
            cache.lifetime() == duration_as_nanos(duration),
    {
        Cache { duration: duration_nanos(&duration), instant: instant_now(), value: None }
    }

    /// The stored value, read when `age` nanoseconds have passed since it
    /// was set: absent once the age exceeds the lifetime, else a clone.
    pub fn get_at_age(&self, age: u128) -> (result: Option<T>)
        ensures
            match spec_value_read(self.stored(), self.lifetime(), age) {
                None => result is None,
                Some(v) => result is Some && cloned(v, result->0),
            },
    {
        if age > self.duration {
            return None;
        }
        match &self.value {
            None => None,
            Some(v) => Some(v.clone()),
        }
    }

    /// The stored value unless it has expired. Whatever the clock reads, a
    /// value that comes back is a clone of the stored one; whether it has
    /// expired is the clock's to say, except for a cache whose lifetime is
    /// the longest duration there is, whose value never expires.
    pub fn get(&self) -> (result: Option<T>)
        ensures
            result is Some ==> self.stored() is Some && cloned(self.stored()->0, result->0),
            self.stored() is Some && self.lifetime() >= MAX_DURATION_NANOS ==> result is Some,
    {
        let age = elapsed_nanos(&self.instant);
        self.get_at_age(age)
    }

    /// Stores `value`, which from now on lives for the cache's lifetime.
    pub fn set(&mut self, value: T)
        ensures
            final(self).stored() == Some(value),
            final(self).lifetime() == old(self).lifetime(),
    {
        self.value = Some(value);
        self.instant = instant_now();
    }
}

/// Cache law: a value set is what a read finds until its lifetime has
/// passed, and nothing after.
pub proof fn law_value_read_after_set<T>(value: T, lifetime: nat, age: u128)
    ensures
        spec_value_read(Some(value), lifetime, age) == if age <= lifetime {
            Some(value)
        } else {
            None
        },
{
}

} // verus!

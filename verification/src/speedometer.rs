//! A rate meter: values recorded over time, of which those younger than a
//! fixed interval count. The rate is their total over the interval; the
//! total can be remembered for a while so that frequent reads stay cheap.

use std::collections::VecDeque;
use std::time::{Duration, Instant};
use vstd::prelude::*;

use crate::clock::{duration_as_nanos, duration_nanos, instant_elapsed, instant_now, MAX_DURATION_NANOS};

verus! {

/// The total of the values of some events, each a time and a value.
pub open spec fn events_total(events: Seq<(u128, u64)>) -> nat
    decreases events.len(),
{
    if events.len() == 0 {
        0
    } else {
        (events_total(events.drop_last()) + events.last().1) as nat
    }
}

/// An event recorded at `time` is older than `interval` at `now`.
pub open spec fn is_stale(time: u128, now: u128, interval: u128) -> bool {
    now > time && now - time > interval
}

/// What remains of `events` once the oldest are dropped, one at a time, for
/// as long as the oldest is stale at `now`.
pub open spec fn drop_stale(events: Seq<(u128, u64)>, now: u128, interval: u128) -> Seq<(u128, u64)>
    decreases events.len(),
{
    if events.len() > 0 && is_stale(events[0].0, now, interval) {
        drop_stale(events.drop_first(), now, interval)
    } else {
        events
    }
}

/// The events recorded in order of time, none later than `now`.
pub open spec fn in_time_order(events: Seq<(u128, u64)>, now: u128) -> bool {
    &&& forall|i: int, j: int| 0 <= i <= j < events.len() ==> events[i].0 <= events[j].0
    &&& forall|i: int| 0 <= i < events.len() ==> events[i].0 <= now
}

/// How long before `now` a total taken at `stamp` was taken (0 if the stamp
/// is later).
pub open spec fn age_at(now: u128, stamp: u128) -> u128 {
    if now > stamp {
        (now - stamp) as u128
    } else {
        0
    }
}

/// A read of `meter` at `now` gives back its remembered total: totals are
/// remembered, one is, and it was taken less than the remembering time
/// before `now`.
pub open spec fn serves_remembered(meter: Speedometer, now: u128) -> bool {
    match (meter.caching(), meter.remembered()) {
        (Some(keep), Some((stamp, _))) => age_at(now, stamp) < keep,
        _ => false,
    }
}

/// The total of the values of those `events` that are not stale at `now`:
/// the events recorded at most `interval` before `now`.
pub open spec fn fresh_total(events: Seq<(u128, u64)>, now: u128, interval: u128) -> nat
    decreases events.len(),
{
    if events.len() == 0 {
        0
    } else {
        let last = events.last();
        let counted: nat = if is_stale(last.0, now, interval) {
            0
        } else {
            last.1 as nat
        };
        fresh_total(events.drop_last(), now, interval) + counted
    }
}

/// What reading a meter's total at `now` does: while a remembered total is
/// younger than the remembering time it is given back and nothing changes;
/// otherwise the events stale at `now` are dropped, the total of the rest is
/// given, and, if totals are remembered, it is remembered as taken at `now`.
pub open spec fn read_outcome(before: Speedometer, after: Speedometer, now: u128, total: u128) -> bool {
    if serves_remembered(before, now) {
        &&& total == (before.remembered()->0).1
        &&& after.events() == before.events()
        &&& after.remembered() == before.remembered()
    } else {
        &&& after.events() == drop_stale(before.events(), now, before.interval())
        &&& total == events_total(after.events())
        &&& after.remembered() == if before.caching() is Some {
            Some((now, total))
        } else {
            before.remembered()
        }
    }
}

pub struct Speedometer {
    base: Instant,
    storage: VecDeque<(u128, u64)>,
    interval: u128,
    cached: bool,
    cache_interval: u128,
    cache_stamp: Option<u128>,
    cache_total: u128,
    event_clock: Duration,
    read_clock: Duration,
}

impl Speedometer {
    /// The recorded events, oldest first, each with its time in nanoseconds
    /// since the meter was made.
    pub closed spec fn events(&self) -> Seq<(u128, u64)> {
        self.storage@
    }

    /// How long, in nanoseconds, an event counts.
    pub closed spec fn interval(&self) -> u128 {
        self.interval
    }

    /// Whether totals are remembered, and for how long.
    pub closed spec fn caching(&self) -> Option<u128> {
        if self.cached {
            Some(self.cache_interval)
        } else {
            None
        }
    }

    /// The clock reading, in nanoseconds since the meter was made, at which
    /// the latest event was recorded (0 before any).
    pub closed spec fn event_time(&self) -> nat {
        duration_as_nanos(self.event_clock)
    }

    /// The clock reading, in nanoseconds since the meter was made, at which
    /// the latest total was read (0 before any).
    pub closed spec fn read_time(&self) -> nat {
        duration_as_nanos(self.read_clock)
    }

    /// When the remembered total was taken, and its value.
    pub closed spec fn remembered(&self) -> Option<(u128, u128)> {
        match self.cache_stamp {
            Some(t) => Some((t, self.cache_total)),
            None => None,
        }
    }

    /// A meter without remembered totals, counting events younger than
    /// `interval`.
    pub fn init(interval: Duration) -> (meter: Self)
        ensures
            meter.events() == Seq::<(u128, u64)>::empty(),
            meter.interval() == duration_as_nanos(interval),
            meter.caching() is None,
            meter.remembered() is None,
            meter.event_time() == 0,
            meter.read_time() == 0,
    {
        Speedometer {
            base: instant_now(),
            storage: VecDeque::new(),
            interval: duration_nanos(&interval),
            cached: false,
            cache_interval: 0,
            cache_stamp: None,
            cache_total: 0,
            event_clock: Duration::from_secs(0),
            read_clock: Duration::from_secs(0),
        }
    }

    /// A meter counting events younger than `interval` that remembers each
    /// total it computes for `cache_interval`.
    pub fn init_with_cache(interval: Duration, cache_interval: Duration) -> (meter: Self)
        ensures
            meter.events() == Seq::<(u128, u64)>::empty(),
            meter.interval() == duration_as_nanos(interval),
            meter.caching() == Some(duration_as_nanos(cache_interval) as u128),
            meter.remembered() is None,
            meter.event_time() == 0,
            meter.read_time() == 0,
    {
        Speedometer {
            base: instant_now(),
            storage: VecDeque::new(),
            interval: duration_nanos(&interval),
            cached: true,
            cache_interval: duration_nanos(&cache_interval),
            cache_stamp: None,
            cache_total: 0,
            event_clock: Duration::from_secs(0),
            read_clock: Duration::from_secs(0),
        }
    }

    /// Drops the oldest events while they are stale at `now`.
    fn prune_at(&mut self, now: u128)
        ensures
            final(self).events() == drop_stale(old(self).events(), now, old(self).interval()),
            final(self).interval() == old(self).interval(),
            final(self).caching() == old(self).caching(),
            final(self).remembered() == old(self).remembered(),
            final(self).event_time() == old(self).event_time(),
            final(self).read_time() == old(self).read_time(),
    {
        let ghost target = drop_stale(self.storage@, now, self.interval);
        loop
            invariant_except_break
                drop_stale(self.storage@, now, self.interval) == target,
            invariant
                self.interval == old(self).interval,
                self.cached == old(self).cached,
                self.cache_interval == old(self).cache_interval,
                self.cache_stamp == old(self).cache_stamp,
                self.cache_total == old(self).cache_total,
                self.event_clock == old(self).event_clock,
                self.read_clock == old(self).read_clock,
            ensures
                self.storage@ == target,
                self.interval == old(self).interval,
                self.cached == old(self).cached,
                self.cache_interval == old(self).cache_interval,
                self.cache_stamp == old(self).cache_stamp,
                self.cache_total == old(self).cache_total,
                self.event_clock == old(self).event_clock,
                self.read_clock == old(self).read_clock,
            decreases self.storage@.len(),
        {
            let stale = if self.storage.len() > 0 {
                let time = self.storage[0].0;
                now > time && now - time > self.interval
            } else {
                false
            };
            if !stale {
                assert(self.storage@.len() > 0 ==> !is_stale(self.storage@[0].0, now, self.interval));
                assert(drop_stale(self.storage@, now, self.interval) == self.storage@);
                break;
            }
            let ghost before = self.storage@;
            self.storage.pop_front();
            assert(self.storage@ =~= before.drop_first());
        }
    }

    /// Records `value` at `now`, then drops the events stale at `now`.
    pub fn event_at(&mut self, now: u128, value: u64)
        ensures
            final(self).events() == drop_stale(
                old(self).events().push((now, value)),
                now,
                old(self).interval(),
            ),
            final(self).interval() == old(self).interval(),
            final(self).caching() == old(self).caching(),
            final(self).remembered() == old(self).remembered(),
            final(self).event_time() == old(self).event_time(),
            final(self).read_time() == old(self).read_time(),
    {
        self.storage.push_back((now, value));
        self.prune_at(now);
    }

    /// Records `value` at the clock's current reading, which becomes the
    /// meter's event time, then drops the events stale at that reading.
    pub fn event(&mut self, value: u64)
        ensures
            final(self).events() == drop_stale(
                old(self).events().push((final(self).event_time() as u128, value)),
                final(self).event_time() as u128,
                old(self).interval(),
            ),
            final(self).event_time() <= MAX_DURATION_NANOS,
            final(self).read_time() == old(self).read_time(),
            final(self).interval() == old(self).interval(),
            final(self).caching() == old(self).caching(),
            final(self).remembered() == old(self).remembered(),
    {
        let reading = instant_elapsed(&self.base);
        let now = duration_nanos(&reading);
        self.event_clock = reading;
        self.event_at(now, value);
    }

    /// The total of the recorded values.
    fn sum(&self) -> (total: u128)
        ensures
            total == events_total(self.events()),
    {
        let mut total: u128 = 0;
        let mut i: usize = 0;
        while i < self.storage.len()
            invariant
                i <= self.storage@.len(),
                total == events_total(self.storage@.subrange(0, i as int)),
                total <= i * 0x1_0000_0000_0000_0000,
            decreases self.storage@.len() - i,
        {
            let ghost prefix = self.storage@.subrange(0, i as int);
            assert(self.storage@.subrange(0, i + 1).drop_last() =~= prefix);
            let value = self.storage[i].1;
            assert(i < usize::MAX);
            total = total + value as u128;
            i = i + 1;
        }
        assert(self.storage@.subrange(0, i as int) =~= self.storage@);
        total
    }

    /// The total of the values that count at `now`: the remembered total if
    /// totals are remembered and the last was taken less than the remembering
    /// time before `now`; otherwise the stale events are dropped and the
    /// total of the rest is taken (and remembered, if totals are).
    pub fn window_total_at(&mut self, now: u128) -> (total: u128)
        ensures
            final(self).interval() == old(self).interval(),
            final(self).caching() == old(self).caching(),
            read_outcome(*old(self), *final(self), now, total),
            final(self).event_time() == old(self).event_time(),
            final(self).read_time() == old(self).read_time(),
    {
        if self.cached {
            if let Some(stamp) = self.cache_stamp {
                let age = if now > stamp {
                    now - stamp
                } else {
                    0
                };
                if age < self.cache_interval {
                    return self.cache_total;
                }
            }
        }
        self.prune_at(now);
        let total = self.sum();
        if self.cached {
            self.cache_stamp = Some(now);
            self.cache_total = total;
        }
        total
    }

    /// The total of the values that count at the clock's current reading,
    /// which becomes the meter's read time: read as `window_total_at` reads
    /// it at that time.
    pub fn window_total(&mut self) -> (total: u128)
        ensures
            final(self).interval() == old(self).interval(),
            final(self).caching() == old(self).caching(),
            final(self).read_time() <= MAX_DURATION_NANOS,
            final(self).event_time() == old(self).event_time(),
            read_outcome(*old(self), *final(self), final(self).read_time() as u128, total),
            !serves_remembered(*old(self), final(self).read_time() as u128) && in_time_order(
                old(self).events(),
                final(self).read_time() as u128,
            ) ==> total == fresh_total(old(self).events(), final(self).read_time() as u128, old(self).interval()),
            total == events_total(final(self).events()) || (old(self).remembered() matches Some(
                (_, remembered),
            ) && total == remembered),
            old(self).caching() is None ==> {
                &&& total == events_total(final(self).events())
                &&& final(self).remembered() == old(self).remembered()
                &&& final(self).events() == drop_stale(
                    old(self).events(),
                    final(self).read_time() as u128,
                    old(self).interval(),
                )
            },
    {
        let reading = instant_elapsed(&self.base);
        let now = duration_nanos(&reading);
        self.read_clock = reading;
        let total = self.window_total_at(now);
        proof {
            law_read_total(*old(self), *self, now, total);
        }
        total
    }

    /// Forgets every recorded event.
    pub fn reset(&mut self)
        ensures
            final(self).events() == Seq::<(u128, u64)>::empty(),
            final(self).interval() == old(self).interval(),
            final(self).caching() == old(self).caching(),
            final(self).remembered() == old(self).remembered(),
            final(self).event_time() == old(self).event_time(),
            final(self).read_time() == old(self).read_time(),
    {
        self.storage.clear();
    }
}

/// Rate-meter law: when events are recorded in order of time (as the
/// monotonic clock records them), dropping the stale ones leaves exactly the
/// events younger than the interval: a suffix of the events, every one of
/// them fresh, every dropped one stale.
pub proof fn law_window_holds_exactly_fresh_events(
    events: Seq<(u128, u64)>,
    now: u128,
    interval: u128,
)
    requires
        in_time_order(events, now),
    ensures
        ({
            let kept = drop_stale(events, now, interval);
            let dropped = events.len() - kept.len();
            &&& 0 <= dropped <= events.len()
            &&& kept == events.skip(dropped)
            &&& forall|i: int| 0 <= i < kept.len() ==> !is_stale(#[trigger] kept[i].0, now, interval)
            &&& forall|i: int| 0 <= i < dropped ==> is_stale(#[trigger] events[i].0, now, interval)
        }),
    decreases events.len(),
{
    if events.len() > 0 && is_stale(events[0].0, now, interval) {
        let rest = events.drop_first();
        assert(in_time_order(rest, now)) by {
            assert forall|i: int, j: int| 0 <= i <= j < rest.len() implies rest[i].0 <= rest[j].0 by {
                assert(rest[i] == events[i + 1] && rest[j] == events[j + 1]);
            }
        }
        law_window_holds_exactly_fresh_events(rest, now, interval);
        let kept = drop_stale(rest, now, interval);
        let d = rest.len() - kept.len();
        assert(rest.skip(d) =~= events.skip(d + 1));
        assert forall|i: int| 0 <= i < d + 1 implies is_stale(#[trigger] events[i].0, now, interval) by {
            if i > 0 {
                assert(events[i] == rest[i - 1]);
            }
        }
    } else {
        assert(events.skip(0) =~= events);
        assert forall|i: int| 0 <= i < events.len() implies !is_stale(#[trigger] events[i].0, now, interval) by {
            assert(events[0].0 <= events[i].0);
        }
    }
}

/// The fresh total of a non-empty list of events is what its first event
/// counts plus the fresh total of the rest.
proof fn lemma_fresh_total_first(events: Seq<(u128, u64)>, now: u128, interval: u128)
    requires
        events.len() > 0,
    ensures
        fresh_total(events, now, interval) == fresh_total(events.drop_first(), now, interval) + if is_stale(
            events[0].0,
            now,
            interval,
        ) {
            0nat
        } else {
            events[0].1 as nat
        },
    decreases events.len(),
{
    if events.len() > 1 {
        lemma_fresh_total_first(events.drop_last(), now, interval);
        assert(events.drop_last().drop_first() =~= events.drop_first().drop_last());
    } else {
        assert(events.drop_first() =~= Seq::<(u128, u64)>::empty());
        assert(events.drop_last() =~= Seq::<(u128, u64)>::empty());
    }
}

/// When no event is stale, the fresh total is the total.
proof fn lemma_fresh_total_all_fresh(events: Seq<(u128, u64)>, now: u128, interval: u128)
    requires
        forall|i: int| 0 <= i < events.len() ==> !is_stale(#[trigger] events[i].0, now, interval),
    ensures
        fresh_total(events, now, interval) == events_total(events),
    decreases events.len(),
{
    if events.len() > 0 {
        let rest = events.drop_last();
        assert forall|i: int| 0 <= i < rest.len() implies !is_stale(#[trigger] rest[i].0, now, interval) by {
            assert(rest[i] == events[i]);
        }
        lemma_fresh_total_all_fresh(rest, now, interval);
        assert(!is_stale(events[events.len() - 1].0, now, interval));
    }
}

/// Events stale at some time are stale at every later time, so dropping
/// them earlier changes no fresh total taken later.
proof fn lemma_earlier_drop_keeps_fresh_total(events: Seq<(u128, u64)>, earlier: u128, now: u128, interval: u128)
    requires
        earlier <= now,
    ensures
        fresh_total(drop_stale(events, earlier, interval), now, interval) == fresh_total(events, now, interval),
    decreases events.len(),
{
    if events.len() > 0 && is_stale(events[0].0, earlier, interval) {
        lemma_earlier_drop_keeps_fresh_total(events.drop_first(), earlier, now, interval);
        lemma_fresh_total_first(events, now, interval);
    }
}

/// Rate-meter law: when the events were recorded in order of time, none
/// later than `now`, the total left once the stale ones are dropped at
/// `now` is the total of exactly the events recorded at most the interval
/// before `now`.
pub proof fn law_pruned_total_is_fresh_total(events: Seq<(u128, u64)>, now: u128, interval: u128)
    requires
        in_time_order(events, now),
    ensures
        events_total(drop_stale(events, now, interval)) == fresh_total(events, now, interval),
    decreases events.len(),
{
    if events.len() > 0 && is_stale(events[0].0, now, interval) {
        let rest = events.drop_first();
        assert(in_time_order(rest, now)) by {
            assert forall|i: int, j: int| 0 <= i <= j < rest.len() implies rest[i].0 <= rest[j].0 by {
                assert(rest[i] == events[i + 1] && rest[j] == events[j + 1]);
            }
        }
        law_pruned_total_is_fresh_total(rest, now, interval);
        lemma_fresh_total_first(events, now, interval);
    } else {
        law_window_holds_exactly_fresh_events(events, now, interval);
        assert(events.skip(0) =~= events);
        lemma_fresh_total_all_fresh(events, now, interval);
    }
}

/// Rate-meter law: a read at `now` gives back the remembered total exactly
/// while totals are remembered and the remembered one was taken less than
/// the remembering time before `now`; otherwise, for events recorded in
/// order of time, it gives the total of the events recorded at most the
/// interval before `now`, and a meter that remembers totals then remembers
/// that one as taken at `now`.
pub proof fn law_read_total(before: Speedometer, after: Speedometer, now: u128, total: u128)
    requires
        read_outcome(before, after, now, total),
    ensures
        serves_remembered(before, now) ==> total == (before.remembered()->0).1,
        !serves_remembered(before, now) && in_time_order(before.events(), now) ==> total == fresh_total(
            before.events(),
            now,
            before.interval(),
        ),
        !serves_remembered(before, now) && before.caching() is Some ==> after.remembered() == Some(
            (now, total),
        ),
{
    if !serves_remembered(before, now) && in_time_order(before.events(), now) {
        law_pruned_total_is_fresh_total(before.events(), now, before.interval());
    }
}

/// Rate-meter law: a value recorded at `recorded` and read at `now`, no
/// earlier, counts in the total read, as does every earlier value recorded
/// at most the interval before `now`: the stale events dropped when the
/// value was recorded are stale at `now` too, and the total is the fresh
/// total of all the events, at least the value itself while it is younger
/// than the interval.
pub proof fn law_recorded_value_counts(
    events: Seq<(u128, u64)>,
    recorded: u128,
    value: u64,
    now: u128,
    interval: u128,
)
    requires
        in_time_order(events.push((recorded, value)), now),
    ensures
        events_total(drop_stale(drop_stale(events.push((recorded, value)), recorded, interval), now, interval))
            == fresh_total(events.push((recorded, value)), now, interval),
        now - recorded <= interval ==> fresh_total(events.push((recorded, value)), now, interval) >= value,
{
    let all = events.push((recorded, value));
    let kept = drop_stale(all, recorded, interval);
    assert(in_time_order(all, recorded)) by {
        assert forall|i: int| 0 <= i < all.len() implies all[i].0 <= recorded by {
            assert(all[i].0 <= all[all.len() - 1].0);
        }
    }
    law_window_holds_exactly_fresh_events(all, recorded, interval);
    let dropped = all.len() - kept.len();
    assert(in_time_order(kept, now)) by {
        assert forall|i: int, j: int| 0 <= i <= j < kept.len() implies kept[i].0 <= kept[j].0 by {
            assert(kept[i] == all[i + dropped] && kept[j] == all[j + dropped]);
        }
        assert forall|i: int| 0 <= i < kept.len() implies kept[i].0 <= now by {
            assert(kept[i] == all[i + dropped]);
        }
    }
    law_pruned_total_is_fresh_total(kept, now, interval);
    lemma_earlier_drop_keeps_fresh_total(all, recorded, now, interval);
    assert(all.drop_last() =~= events);
}

} // verus!

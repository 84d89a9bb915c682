use std::time::Duration;

use aleo_pool_server::cache::Cache as KeyedCache;
use aleo_pool_server::clock::MAX_DURATION_NANOS;
use aleo_pool_server::pool::cache::Cache;
use aleo_pool_server::pool::peer::{validator_step, PeerAction, PeerEvent};
use aleo_pool_server::speedometer::Speedometer;

const SECOND: u128 = 1_000_000_000;

#[test]
fn value_cache_reads_within_lifetime() {
    let mut c: Cache<u32> = Cache::new(Duration::from_secs(10));
    assert_eq!(c.get(), None);
    assert_eq!(c.get_at_age(0), None);
    c.set(7);
    assert_eq!(c.get(), Some(7));
    assert_eq!(c.get_at_age(10 * SECOND), Some(7));
    assert_eq!(c.get_at_age(10 * SECOND + 1), None);
}

#[test]
fn keyed_cache_reads_within_lifetime() {
    let mut c: KeyedCache<u64, String> = KeyedCache::new(Duration::from_secs(10));
    assert_eq!(c.get(1), None);
    c.set(1, "one".to_string());
    c.set(2, "two".to_string());
    c.set(1, "uno".to_string());
    assert_eq!(c.get(1), Some("uno".to_string()));
    assert_eq!(c.get(2), Some("two".to_string()));
    assert_eq!(c.get(3), None);
    assert_eq!(c.get_at_age(&2, 10 * SECOND), Some("two".to_string()));
    assert_eq!(c.get_at_age(&2, 11 * SECOND), None);
    assert_eq!(c.get_at_age(&3, 0), None);
}

#[test]
fn speedometer_window_drops_stale_events() {
    let mut m = Speedometer::init(Duration::from_secs(60));
    m.event_at(0, 5);
    m.event_at(30 * SECOND, 7);
    assert_eq!(m.window_total_at(60 * SECOND), 12);
    // the first event is more than 60 s old at 61 s
    assert_eq!(m.window_total_at(61 * SECOND), 7);
    m.event_at(95 * SECOND, 1);
    assert_eq!(m.window_total_at(95 * SECOND), 1);
}

#[test]
fn speedometer_cache_remembers_total() {
    let mut m = Speedometer::init_with_cache(Duration::from_secs(60), Duration::from_secs(30));
    m.event_at(0, 5);
    assert_eq!(m.window_total_at(SECOND), 5);
    m.event_at(2 * SECOND, 10);
    // within 30 s of the last total, the remembered total comes back
    assert_eq!(m.window_total_at(20 * SECOND), 5);
    // 30 s later a fresh total is taken
    assert_eq!(m.window_total_at(31 * SECOND), 15);
}

#[test]
fn speedometer_reset_and_clock() {
    let mut m = Speedometer::init(Duration::from_secs(60));
    m.event(3);
    m.event(4);
    assert_eq!(m.window_total(), 7);
    m.reset();
    assert_eq!(m.window_total(), 0);
}

#[test]
fn speedometer_large_totals_do_not_overflow() {
    let mut m = Speedometer::init(Duration::from_secs(60));
    m.event_at(0, u64::MAX);
    m.event_at(0, u64::MAX);
    assert_eq!(m.window_total_at(0), 2 * u64::MAX as u128);
}

#[test]
fn validator_link_steps() {
    let v = 10;
    assert_eq!(
        validator_step(&PeerEvent::ChallengeRequest { version: 9, beacon_or_validator: true }, v),
        PeerAction::Reconnect
    );
    assert_eq!(
        validator_step(&PeerEvent::ChallengeRequest { version: 10, beacon_or_validator: false }, v),
        PeerAction::Reconnect
    );
    assert_eq!(
        validator_step(&PeerEvent::ChallengeRequest { version: 11, beacon_or_validator: true }, v),
        PeerAction::SendChallengeResponse
    );
    assert_eq!(
        validator_step(&PeerEvent::ChallengeResponse { header_read: true, same_genesis: true }, v),
        PeerAction::SendPing
    );
    assert_eq!(
        validator_step(&PeerEvent::ChallengeResponse { header_read: true, same_genesis: false }, v),
        PeerAction::Reconnect
    );
    assert_eq!(
        validator_step(&PeerEvent::ChallengeResponse { header_read: false, same_genesis: true }, v),
        PeerAction::Reconnect
    );
    assert_eq!(validator_step(&PeerEvent::Ping, v), PeerAction::SendPong);
    assert_eq!(validator_step(&PeerEvent::Pong, v), PeerAction::RequestPuzzle);
    assert_eq!(
        validator_step(&PeerEvent::PuzzleResponse { block_read: true }, v),
        PeerAction::ForwardPuzzle
    );
    assert_eq!(
        validator_step(&PeerEvent::PuzzleResponse { block_read: false }, v),
        PeerAction::Reconnect
    );
    assert_eq!(validator_step(&PeerEvent::Disconnect, v), PeerAction::Reconnect);
    assert_eq!(validator_step(&PeerEvent::Other, v), PeerAction::Ignore);
}

#[test]
fn caches_of_the_longest_lifetime_never_expire() {
    assert_eq!(Duration::MAX.as_nanos(), MAX_DURATION_NANOS);
    let mut c: Cache<u32> = Cache::new(Duration::MAX);
    c.set(3);
    assert_eq!(c.get(), Some(3));
    assert_eq!(c.get_at_age(MAX_DURATION_NANOS), Some(3));
    let mut k: KeyedCache<u64, u32> = KeyedCache::new(Duration::MAX);
    k.set(1, 4);
    assert_eq!(k.get(1), Some(4));
    assert_eq!(k.get_at_age(&1, MAX_DURATION_NANOS), Some(4));
}

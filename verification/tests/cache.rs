use terustry::RegistryError;
use terustry::cache::{CacheAction, CacheCore, WaitOutcome};
use terustry::versions::version_cache_key;

#[test]
fn first_get_starts_upstream() {
    let mut c: CacheCore<Vec<String>> = CacheCore::new(5000);
    let k = version_cache_key("acme/widget");
    assert_eq!(c.on_get(&k, 0), CacheAction::StartUpstream);
}

#[test]
fn concurrent_getters_share_one_flight() {
    let mut c: CacheCore<Vec<String>> = CacheCore::new(5000);
    let k = version_cache_key("acme/widget");
    assert_eq!(c.on_get(&k, 0), CacheAction::StartUpstream);
    // Further callers arriving while the one upstream call is in flight
    // are told to wait for it, not to start their own.
    assert_eq!(c.on_get(&k, 1), CacheAction::AwaitPending);
    assert_eq!(c.on_get(&k, 2), CacheAction::AwaitPending);
}

#[test]
fn repeated_gets_within_ttl_hit_the_cache() {
    let mut c: CacheCore<Vec<String>> = CacheCore::new(5000);
    let k = version_cache_key("acme/widget");
    assert_eq!(c.on_get(&k, 0), CacheAction::StartUpstream);
    c.complete_ok(&k, vec!["v1.0.0".to_string()], 10);
    assert_eq!(c.on_get(&k, 11), CacheAction::UseCached);
    assert_eq!(c.on_get(&k, 5009), CacheAction::UseCached);
    assert_eq!(c.get_value(&k), Some(&vec!["v1.0.0".to_string()]));
}

#[test]
fn entries_expire_after_ttl() {
    let mut c: CacheCore<Vec<String>> = CacheCore::new(5000);
    let k = version_cache_key("acme/widget");
    assert_eq!(c.on_get(&k, 0), CacheAction::StartUpstream);
    c.complete_ok(&k, vec!["v1.0.0".to_string()], 10);
    // TTL runs from the write, not from later reads.
    assert_eq!(c.on_get(&k, 5010), CacheAction::StartUpstream);
}

#[test]
fn invalidate_forces_fresh_upstream_call_within_ttl() {
    let mut c: CacheCore<Vec<String>> = CacheCore::new(5000);
    let k = version_cache_key("acme/widget");
    assert_eq!(c.on_get(&k, 0), CacheAction::StartUpstream);
    c.complete_ok(&k, vec!["v1.0.0".to_string()], 10);
    assert_eq!(c.on_get(&k, 11), CacheAction::UseCached);
    c.invalidate(&k);
    // Well within the TTL, yet the next get must go upstream.
    assert_eq!(c.on_get(&k, 12), CacheAction::StartUpstream);
}

#[test]
fn failures_are_never_cached() {
    let mut c: CacheCore<Vec<String>> = CacheCore::new(5000);
    let k = version_cache_key("acme/widget");
    assert_eq!(c.on_get(&k, 0), CacheAction::StartUpstream);
    c.complete_err(&k, RegistryError::Upstream);
    assert_eq!(c.get_value(&k), None);
    assert_eq!(c.on_get(&k, 1), CacheAction::StartUpstream);
}

#[test]
fn every_waiter_receives_the_one_flights_error() {
    let mut c: CacheCore<Vec<String>> = CacheCore::new(5000);
    let k = version_cache_key("acme/widget");
    assert_eq!(c.on_get(&k, 0), CacheAction::StartUpstream);
    // Two waiters arrive while the flight is in the air.
    assert_eq!(c.on_get(&k, 1), CacheAction::AwaitPending);
    assert_eq!(c.on_get(&k, 1), CacheAction::AwaitPending);
    assert_eq!(c.await_pending(&k), WaitOutcome::KeepWaiting);
    c.complete_err(&k, RegistryError::Upstream);
    // Both waiters see the same error of the one flight.
    assert_eq!(c.await_pending(&k), WaitOutcome::FlightFailed(RegistryError::Upstream));
    assert_eq!(c.await_pending(&k), WaitOutcome::FlightFailed(RegistryError::Upstream));
    // A later caller is never served the failure: it starts afresh.
    assert_eq!(c.on_get(&k, 2), CacheAction::StartUpstream);
    assert_eq!(c.await_pending(&k), WaitOutcome::KeepWaiting);
}

#[test]
fn waiter_sees_the_value_when_the_flight_lands() {
    let mut c: CacheCore<Vec<String>> = CacheCore::new(5000);
    let k = version_cache_key("acme/widget");
    assert_eq!(c.on_get(&k, 0), CacheAction::StartUpstream);
    assert_eq!(c.on_get(&k, 1), CacheAction::AwaitPending);
    assert_eq!(c.await_pending(&k), WaitOutcome::KeepWaiting);
    c.complete_ok(&k, vec!["v1.0.0".to_string()], 2);
    assert_eq!(c.await_pending(&k), WaitOutcome::ValueReady);
    assert_eq!(c.get_value(&k), Some(&vec!["v1.0.0".to_string()]));
}

#[test]
fn waiter_is_told_when_the_slot_is_evicted() {
    let mut c: CacheCore<Vec<String>> = CacheCore::new(5000);
    let k = version_cache_key("acme/widget");
    assert_eq!(c.on_get(&k, 0), CacheAction::StartUpstream);
    c.invalidate(&k);
    assert_eq!(c.await_pending(&k), WaitOutcome::Gone);
}

#[test]
fn keys_are_independent() {
    let mut c: CacheCore<Vec<String>> = CacheCore::new(5000);
    let ka = version_cache_key("acme/widget");
    let kb = version_cache_key("acme/gadget");
    assert_eq!(c.on_get(&ka, 0), CacheAction::StartUpstream);
    assert_eq!(c.on_get(&kb, 0), CacheAction::StartUpstream);
    c.complete_ok(&ka, vec!["v1".to_string()], 1);
    c.complete_ok(&kb, vec!["v2".to_string()], 1);
    c.invalidate(&ka);
    assert_eq!(c.on_get(&kb, 2), CacheAction::UseCached);
    assert_eq!(c.on_get(&ka, 2), CacheAction::StartUpstream);
}

#[test]
fn cache_never_grows_past_its_capacity() {
    let mut c: CacheCore<Vec<String>> = CacheCore::new(5000);
    for i in 0..1100u32 {
        let k = version_cache_key(&format!("acme/widget-{}", i));
        assert_eq!(c.on_get(&k, 0), CacheAction::StartUpstream);
        c.complete_ok(&k, vec![format!("v{}", i)], 0);
    }
    assert_eq!(c.len(), 1000);
    // The most recently written key is still present...
    let newest = version_cache_key("acme/widget-1099");
    assert_eq!(c.on_get(&newest, 1), CacheAction::UseCached);
    // ...and the least recently written keys made room for it.
    let oldest = version_cache_key("acme/widget-0");
    assert_eq!(c.on_get(&oldest, 1), CacheAction::StartUpstream);
}

#[test]
fn version_cache_key_uses_raw_name() {
    assert_eq!(version_cache_key("acme/widget"), "get_version_acme/widget");
}

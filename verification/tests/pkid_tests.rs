use mqtt_broker::metadata::MetadataCache;
use mqtt_broker::pkid::{PacketIdState, PkidError, MAX_PKID};

#[test]
fn identifiers_count_up_from_one() {
    let mut state = PacketIdState::new();
    assert_eq!(state.live_count(), 0);
    assert_eq!(state.acquire(), Ok(1));
    assert_eq!(state.acquire(), Ok(2));
    assert_eq!(state.acquire(), Ok(3));
    assert_eq!(state.live_count(), 3);
    assert!(state.is_live(1) && state.is_live(2) && state.is_live(3));
    assert!(!state.is_live(0));
    assert!(!state.is_live(4));
}

#[test]
fn a_released_identifier_is_not_reused_before_its_turn() {
    let mut state = PacketIdState::new();
    assert_eq!(state.acquire(), Ok(1));
    assert_eq!(state.acquire(), Ok(2));
    state.release(1);
    assert!(!state.is_live(1));
    assert_eq!(state.acquire(), Ok(3));
    assert_eq!(state.live_count(), 2);
}

#[test]
fn release_is_idempotent() {
    let mut state = PacketIdState::new();
    assert_eq!(state.acquire(), Ok(1));
    state.release(1);
    state.release(1);
    state.release(0);
    state.release(40000);
    assert_eq!(state.live_count(), 0);
    assert_eq!(state.acquire(), Ok(2));
}

#[test]
fn identifiers_wrap_from_65535_to_1_and_skip_0() {
    let mut state = PacketIdState::new();
    for expected in 1..=MAX_PKID {
        assert_eq!(state.acquire(), Ok(expected));
        state.release(expected);
    }
    assert_eq!(state.live_count(), 0);
    assert_eq!(state.acquire(), Ok(1));
}

#[test]
fn the_probe_skips_live_identifiers() {
    let mut state = PacketIdState::new();
    for expected in 1..=MAX_PKID {
        assert_eq!(state.acquire(), Ok(expected));
    }
    state.release(7);
    state.release(9);
    assert_eq!(state.acquire(), Ok(7));
    assert_eq!(state.acquire(), Ok(9));
    assert_eq!(state.acquire(), Err(PkidError::Exhausted));
}

#[test]
fn exhausted_only_when_all_65535_are_live() {
    let mut state = PacketIdState::new();
    for _ in 0..65534 {
        assert!(state.acquire().is_ok());
    }
    assert_eq!(state.live_count(), 65534);
    assert_eq!(state.acquire(), Ok(65535));
    assert_eq!(state.acquire(), Err(PkidError::Exhausted));
    assert_eq!(state.live_count(), 65535);
    state.release(12345);
    assert_eq!(state.acquire(), Ok(12345));
}

#[test]
fn cache_resolves_connections() {
    let mut cache = MetadataCache::new();
    let a = "a".to_string();
    let b = "b".to_string();
    assert_eq!(cache.connect_id(&a), None);
    cache.set_connect_id(a.clone(), 41);
    cache.set_connect_id(b.clone(), 42);
    assert_eq!(cache.connect_id(&a), Some(41));
    assert_eq!(cache.connect_id(&b), Some(42));
    cache.set_connect_id(a.clone(), 43);
    assert_eq!(cache.connect_id(&a), Some(43));
    cache.remove_connect_id(&a);
    assert_eq!(cache.connect_id(&a), None);
    assert_eq!(cache.connect_id(&b), Some(42));
}

#[test]
fn cache_allocates_per_client() {
    let mut cache = MetadataCache::new();
    let a = "a".to_string();
    let b = "b".to_string();
    assert_eq!(cache.next_pkid(&a), Ok(1));
    assert_eq!(cache.next_pkid(&a), Ok(2));
    assert_eq!(cache.next_pkid(&b), Ok(1));
    assert_eq!(cache.live_pkids(&a), 2);
    assert_eq!(cache.live_pkids(&b), 1);
    cache.forget_pkid(&a, 1);
    cache.forget_pkid(&a, 1);
    assert_eq!(cache.live_pkids(&a), 1);
    assert_eq!(cache.live_pkids(&b), 1);
    assert_eq!(cache.next_pkid(&a), Ok(3));
    cache.forget_pkid(&"nobody".to_string(), 9);
    assert_eq!(cache.live_pkids(&"nobody".to_string()), 0);
}

#[test]
fn cache_reports_exhaustion_per_client() {
    let mut cache = MetadataCache::new();
    let a = "a".to_string();
    for expected in 1..=MAX_PKID {
        assert_eq!(cache.next_pkid(&a), Ok(expected));
    }
    assert_eq!(cache.next_pkid(&a), Err(PkidError::Exhausted));
    assert_eq!(cache.next_pkid(&"b".to_string()), Ok(1));
}

#[test]
fn ending_a_session_discards_identifiers_unless_they_persist() {
    let mut cache = MetadataCache::new();
    let a = "a".to_string();
    assert_eq!(cache.next_pkid(&a), Ok(1));
    assert_eq!(cache.next_pkid(&a), Ok(2));
    cache.end_session(&a, true);
    assert_eq!(cache.live_pkids(&a), 2);
    assert_eq!(cache.next_pkid(&a), Ok(3));
    cache.end_session(&a, false);
    assert_eq!(cache.live_pkids(&a), 0);
    assert_eq!(cache.next_pkid(&a), Ok(1));
}

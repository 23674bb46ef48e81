//! Connection state: subscription bookkeeping, rate limiting, and the
//! challenge-response authentication machine.

use nostr_relay::config::Settings;
use nostr_relay::conn::ClientConn;
use nostr_relay::error::Error;
use nostr_relay::event::Event;
use nostr_relay::subscription::{Close, ReqFilter, Subscription};
use nostr_relay::utils::unix_time;

fn pad64(prefix: &str) -> String {
    let mut s = String::from(prefix);
    while s.len() < 64 {
        s.push('0');
    }
    s
}

fn open_filter() -> ReqFilter {
    ReqFilter {
        ids: None,
        kinds: None,
        since: None,
        until: None,
        authors: None,
        limit: None,
        tags: None,
        force_no_match: false,
    }
}

fn sub(id: &str) -> Subscription {
    Subscription { id: String::from(id), filters: vec![open_filter()] }
}

fn auth_event(pk: &str, created_at: u64, kind: u64, nonce: &str, relay: &str) -> Event {
    let mut e = Event {
        id: pad64("aa"),
        pubkey: pad64(pk),
        delegated_by: None,
        created_at,
        kind,
        tags: vec![
            vec![String::from("challenge"), String::from(nonce)],
            vec![String::from("relay"), String::from(relay)],
        ],
        content: String::new(),
        sig: pad64("99"),
    };
    e.id = e.compute_id();
    e
}

#[test]
fn test_sub_id_length_bounds() {
    let mut conn = ClientConn::default();
    let ok_id: String = std::iter::repeat('x').take(256).collect();
    let long_id: String = std::iter::repeat('x').take(257).collect();
    assert!(conn.subscribe(Subscription { id: ok_id, filters: vec![open_filter()] }).is_ok());
    assert_eq!(
        conn.subscribe(Subscription { id: long_id, filters: vec![open_filter()] }),
        Err(Error::SubIdMaxLengthError)
    );
}

#[test]
fn test_empty_sub_id_rejected() {
    let mut conn = ClientConn::default();
    assert_eq!(
        conn.subscribe(Subscription { id: String::new(), filters: vec![open_filter()] }),
        Err(Error::SubIdMaxLengthError)
    );
    assert_eq!(conn.subscriptions().len(), 0);
}

#[test]
fn test_subscription_cap() {
    let mut conn = ClientConn::default();
    for i in 0..32 {
        assert!(conn.subscribe(sub(&format!("s{}", i))).is_ok());
    }
    assert_eq!(conn.subscriptions().len(), 32);
    assert_eq!(conn.subscribe(sub("one-too-many")), Err(Error::SubMaxExceededError));
    assert_eq!(conn.subscriptions().len(), 32);
}

#[test]
fn test_replacing_subscription_keeps_size() {
    let mut conn = ClientConn::default();
    for i in 0..32 {
        assert!(conn.subscribe(sub(&format!("s{}", i))).is_ok());
    }
    let mut replacement = sub("s7");
    replacement.filters[0].kinds = Some(vec![1]);
    assert!(conn.subscribe(replacement).is_ok());
    assert_eq!(conn.subscriptions().len(), 32);
    let stored = conn
        .subscriptions()
        .iter()
        .find(|s| s.id == "s7")
        .expect("replaced subscription is present");
    assert_eq!(stored.filters[0].kinds, Some(vec![1]));
    // a historical run for the replaced subscription answers the new
    // filter set, after which the stream would end with EOSE
    let mut store = nostr_relay::store::EventStore::new();
    let keep = Event {
        id: pad64("01"),
        pubkey: pad64("aa"),
        delegated_by: None,
        created_at: 10,
        kind: 1,
        tags: vec![],
        content: String::new(),
        sig: pad64("99"),
    };
    let drop_me = Event { id: pad64("02"), kind: 2, ..keep.clone() };
    assert_eq!(store.write_event(&keep), 1);
    assert_eq!(store.write_event(&drop_me), 1);
    let results = store.query_subscription(stored);
    assert_eq!(results.len(), 1);
    assert_eq!(results[0].id, pad64("01"));
}

#[test]
fn test_unsubscribe_removes() {
    let mut conn = ClientConn::default();
    assert!(conn.subscribe(sub("a")).is_ok());
    assert!(conn.subscribe(sub("b")).is_ok());
    conn.unsubscribe(&Close { id: String::from("a") });
    assert_eq!(conn.subscriptions().len(), 1);
    assert_eq!(conn.subscriptions()[0].id, "b");
    // absent ids are tolerated
    conn.unsubscribe(&Close { id: String::from("zzz") });
    assert_eq!(conn.subscriptions().len(), 1);
}

#[test]
fn test_has_subscription() {
    let mut conn = ClientConn::default();
    assert!(conn.subscribe(sub("a")).is_ok());
    assert!(conn.has_subscription(&sub("a")));
    assert!(!conn.has_subscription(&sub("b")));
    let mut different = sub("a");
    different.filters[0].kinds = Some(vec![4]);
    assert!(!conn.has_subscription(&different));
}

#[test]
fn test_client_prefix_shape() {
    let conn = ClientConn::default();
    assert_eq!(conn.get_client_prefix().len(), 8);
    assert_eq!(conn.ip(), "unknown");
}

#[test]
fn test_auth_requires_challenge() {
    let mut conn = ClientConn::default();
    let now = unix_time();
    let e = auth_event("bb", now, 22242, "n1", "wss://relay.example/");
    // no transition from the initial state straight to an authenticated key
    assert_eq!(
        conn.authenticate(&e, &String::from("wss://relay.example/"), true),
        Err(Error::AuthFailure)
    );
    assert!(conn.auth_pubkey().is_none());
    assert!(conn.auth_challenge().is_none());
}

#[test]
fn test_auth_success_and_replay() {
    let mut conn = ClientConn::default();
    conn.generate_auth_challenge();
    let nonce = conn.auth_challenge().expect("challenge pending").clone();
    let now = unix_time();
    let e = auth_event("bb", now, 22242, &nonce, "wss://relay.example/");
    let relay_url = String::from("wss://relay.example/");
    assert!(conn.authenticate_at(&e, &relay_url, now, true).is_ok());
    assert_eq!(conn.auth_pubkey(), Some(&pad64("bb")));
    // replays are no-op successes
    assert!(conn.authenticate_at(&e, &relay_url, now, true).is_ok());
    assert_eq!(conn.auth_pubkey(), Some(&pad64("bb")));
}

#[test]
fn test_auth_rejects_wrong_nonce_kind_and_host() {
    let relay_url = String::from("wss://relay.example/");
    let now = 1_000_000u64;

    let mut conn = ClientConn::default();
    conn.generate_auth_challenge();
    let nonce = conn.auth_challenge().unwrap().clone();

    let wrong_nonce = auth_event("bb", now, 22242, "not-the-nonce", "wss://relay.example/");
    assert_eq!(conn.authenticate_at(&wrong_nonce, &relay_url, now, true), Err(Error::AuthFailure));

    let wrong_kind = auth_event("bb", now, 1, &nonce, "wss://relay.example/");
    assert_eq!(conn.authenticate_at(&wrong_kind, &relay_url, now, true), Err(Error::AuthFailure));

    let wrong_host = auth_event("bb", now, 22242, &nonce, "wss://other.example/");
    assert_eq!(conn.authenticate_at(&wrong_host, &relay_url, now, true), Err(Error::AuthFailure));

    // the failures left the pending challenge in place
    assert_eq!(conn.auth_challenge().map(String::as_str), Some(nonce.as_str()));

    let good = auth_event("bb", now, 22242, &nonce, "wss://relay.example/");
    assert!(conn.authenticate_at(&good, &relay_url, now, true).is_ok());
}

#[test]
fn test_auth_requires_validated_event() {
    let relay_url = String::from("wss://relay.example/");
    let now = 1_000_000u64;

    // a fabricated id is rejected even when every protocol check passes
    let mut conn = ClientConn::default();
    conn.generate_auth_challenge();
    let nonce = conn.auth_challenge().unwrap().clone();
    let mut fabricated = auth_event("bb", now, 22242, &nonce, "wss://relay.example/");
    fabricated.id = pad64("aa");
    assert_eq!(conn.authenticate_at(&fabricated, &relay_url, now, true), Err(Error::AuthFailure));
    assert!(conn.auth_pubkey().is_none());

    // so is a reply whose signature check failed
    let unsigned = auth_event("bb", now, 22242, &nonce, "wss://relay.example/");
    assert_eq!(conn.authenticate_at(&unsigned, &relay_url, now, false), Err(Error::AuthFailure));
    assert!(conn.auth_pubkey().is_none());

    let good = auth_event("bb", now, 22242, &nonce, "wss://relay.example/");
    assert!(conn.authenticate_at(&good, &relay_url, now, true).is_ok());
    assert_eq!(conn.auth_pubkey(), Some(&pad64("bb")));
}

#[test]
fn test_auth_time_window_boundaries() {
    let relay_url = String::from("wss://relay.example/");
    let now = 1_000_000u64;
    let cases: [(u64, bool); 4] = [
        (now - 600, true),
        (now + 600, true),
        (now - 601, false),
        (now + 601, false),
    ];
    for (created_at, expect_ok) in cases.iter() {
        let mut conn = ClientConn::default();
        conn.generate_auth_challenge();
        let nonce = conn.auth_challenge().unwrap().clone();
        let e = auth_event("bb", *created_at, 22242, &nonce, "wss://relay.example/");
        let r = conn.authenticate_at(&e, &relay_url, now, true);
        assert_eq!(r.is_ok(), *expect_ok);
    }
}

#[test]
fn test_rate_limit() {
    // a non-whitelisted client gets a per-minute token bucket: a burst of
    // checks exhausts it, and only the passed submissions reach storage
    let mut conn = ClientConn::new(String::from("1.2.3.4"), &Settings::default());
    let mut relay = nostr_relay::db::Relay::new();
    let settings = Settings::default();
    let mut passed: usize = 0;
    for i in 0..100u64 {
        if conn.check_pub_rate_limit() {
            passed += 1;
            let e = Event {
                id: pad64(&format!("{:04x}", i)),
                pubkey: pad64("bb"),
                delegated_by: None,
                created_at: i,
                kind: 1,
                tags: vec![],
                content: String::new(),
                sig: pad64("99"),
            };
            assert_eq!(
                relay.submit_event(&e, &settings),
                nostr_relay::db::SubmitOutcome::Saved
            );
        }
    }
    assert!(passed < 100);
    assert!(passed >= 1);
    assert_eq!(relay.store().row_count(), passed);
}

#[test]
fn test_whitelisted_ip_has_no_limiter() {
    let mut settings = Settings::default();
    settings.limits.rate_limit_whitelist = vec![String::from("10.0.0.1")];
    let mut conn = ClientConn::new(String::from("10.0.0.1"), &settings);
    for _ in 0..200 {
        assert!(conn.check_pub_rate_limit());
    }
}

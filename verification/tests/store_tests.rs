//! Store and writer pipeline behavior: duplicates, replacement, deletion,
//! broadcast order, and the query engine.

use nostr_relay::config::Settings;
use nostr_relay::db::{Relay, SubmitOutcome};
use nostr_relay::event::Event;
use nostr_relay::store::EventStore;
use nostr_relay::subscription::{ReqFilter, Subscription, TagQuery};

fn pad64(prefix: &str) -> String {
    let mut s = String::from(prefix);
    while s.len() < 64 {
        s.push('0');
    }
    s
}

fn ev(id: &str, pk: &str, created_at: u64, kind: u64, tags: Vec<Vec<String>>) -> Event {
    Event {
        id: pad64(id),
        pubkey: pad64(pk),
        delegated_by: None,
        created_at,
        kind,
        tags,
        content: String::new(),
        sig: pad64("99"),
    }
}

fn open_filter() -> ReqFilter {
    ReqFilter {
        ids: None,
        kinds: None,
        since: None,
        until: None,
        authors: None,
        limit: None,
        tags: None,
        force_no_match: false,
    }
}

#[test]
fn test_duplicate_rejection() {
    let mut relay = Relay::new();
    let settings = Settings::default();
    let e = ev("aa01", "bb", 100, 1, vec![]);
    assert_eq!(relay.submit_event(&e, &settings), SubmitOutcome::Saved);
    assert_eq!(relay.submit_event(&e, &settings), SubmitOutcome::Duplicate);
    assert_eq!(relay.store().row_count(), 1);
}

#[test]
fn test_replaceable_overwrite() {
    let mut store = EventStore::new();
    let first = ev("01", "aa", 100, 0, vec![]);
    let second = ev("02", "aa", 200, 0, vec![]);
    assert_eq!(store.write_event(&first), 1);
    assert_eq!(store.write_event(&second), 1);
    let mut f = open_filter();
    f.authors = Some(vec![pad64("aa")]);
    f.kinds = Some(vec![0]);
    let results = store.query_filter(&f);
    assert_eq!(results.len(), 1);
    assert_eq!(results[0].created_at, 200);
    assert_eq!(results[0].id, pad64("02"));
}

#[test]
fn test_deletion_hides_target() {
    let mut store = EventStore::new();
    let e1 = ev("aa", "cc", 50, 1, vec![]);
    let d = ev("bb", "cc", 60, 5, vec![vec![String::from("e"), pad64("aa")]]);
    assert_eq!(store.write_event(&e1), 1);
    assert_eq!(store.write_event(&d), 1);
    let mut f = open_filter();
    f.ids = Some(vec![pad64("aa")]);
    let results = store.query_filter(&f);
    assert_eq!(results.len(), 0);
    assert_eq!(store.row_count(), 2);
    assert_eq!(store.hidden_of(&pad64("aa")), Some(true));
    assert_eq!(store.hidden_of(&pad64("bb")), Some(false));
}

#[test]
fn test_deletion_order_independent() {
    let e1 = ev("aa", "cc", 50, 1, vec![]);
    let d = ev("bb", "cc", 60, 5, vec![vec![String::from("e"), pad64("aa")]]);

    let mut forward = EventStore::new();
    assert_eq!(forward.write_event(&e1), 1);
    assert_eq!(forward.write_event(&d), 1);
    assert_eq!(forward.hidden_of(&pad64("aa")), Some(true));

    let mut backward = EventStore::new();
    assert_eq!(backward.write_event(&d), 1);
    // the event arrives after its deletion: stored hidden, nothing added
    assert_eq!(backward.write_event(&e1), 0);
    assert_eq!(backward.hidden_of(&pad64("aa")), Some(true));
}

#[test]
fn test_deletion_ignores_other_author() {
    let mut store = EventStore::new();
    let e1 = ev("aa", "cc", 50, 1, vec![]);
    let d = ev("bb", "dd", 60, 5, vec![vec![String::from("e"), pad64("aa")]]);
    assert_eq!(store.write_event(&e1), 1);
    assert_eq!(store.write_event(&d), 1);
    assert_eq!(store.hidden_of(&pad64("aa")), Some(false));
}

#[test]
fn test_prefix_author_search() {
    let mut store = EventStore::new();
    assert_eq!(store.write_event(&ev("01", "ab01", 1, 1, vec![])), 1);
    assert_eq!(store.write_event(&ev("02", "ab02", 2, 1, vec![])), 1);
    assert_eq!(store.write_event(&ev("03", "ac01", 3, 1, vec![])), 1);
    let mut f = open_filter();
    f.authors = Some(vec![String::from("ab")]);
    let results = store.query_filter(&f);
    assert_eq!(results.len(), 2);
    assert_eq!(results[0].pubkey, pad64("ab01"));
    assert_eq!(results[1].pubkey, pad64("ab02"));
    assert!(results[0].created_at <= results[1].created_at);
}

#[test]
fn test_single_nibble_author_prefix() {
    let mut store = EventStore::new();
    assert_eq!(store.write_event(&ev("01", "a1", 1, 1, vec![])), 1);
    assert_eq!(store.write_event(&ev("02", "af", 2, 1, vec![])), 1);
    assert_eq!(store.write_event(&ev("03", "91", 3, 1, vec![])), 1);
    let mut f = open_filter();
    f.authors = Some(vec![String::from("a")]);
    let results = store.query_filter(&f);
    assert!(results.iter().any(|e| e.pubkey == pad64("a1")));
    assert!(results.iter().any(|e| e.pubkey == pad64("af")));
    assert!(!results.iter().any(|e| e.pubkey == pad64("91")));
}

#[test]
fn test_tag_filter_query() {
    let mut store = EventStore::new();
    let tagged = ev(
        "01",
        "aa",
        1,
        1,
        vec![vec![String::from("t"), String::from("hello")]],
    );
    let plain = ev("02", "aa", 2, 1, vec![]);
    assert_eq!(store.write_event(&tagged), 1);
    assert_eq!(store.write_event(&plain), 1);
    let mut f = open_filter();
    f.tags = Some(vec![TagQuery { name: 't', values: vec![String::from("hello")] }]);
    let results = store.query_filter(&f);
    assert_eq!(results.len(), 1);
    assert_eq!(results[0].id, pad64("01"));
}

#[test]
fn test_tag_filter_hex_value() {
    let mut store = EventStore::new();
    let target = pad64("aa");
    let tagged = ev("01", "aa", 1, 7, vec![vec![String::from("e"), target.clone()]]);
    assert_eq!(store.write_event(&tagged), 1);
    let mut f = open_filter();
    f.tags = Some(vec![TagQuery { name: 'e', values: vec![target] }]);
    let results = store.query_filter(&f);
    assert_eq!(results.len(), 1);
}

#[test]
fn test_since_until_strict_bounds() {
    let mut store = EventStore::new();
    assert_eq!(store.write_event(&ev("01", "aa", 100, 1, vec![])), 1);
    assert_eq!(store.write_event(&ev("02", "aa", 150, 1, vec![])), 1);
    assert_eq!(store.write_event(&ev("03", "aa", 200, 1, vec![])), 1);
    let mut f = open_filter();
    f.since = Some(100);
    f.until = Some(200);
    let results = store.query_filter(&f);
    // both bounds are exclusive in the compiled query
    assert_eq!(results.len(), 1);
    assert_eq!(results[0].created_at, 150);
}

#[test]
fn test_limit_returns_newest_first() {
    let mut store = EventStore::new();
    assert_eq!(store.write_event(&ev("01", "aa", 1, 1, vec![])), 1);
    assert_eq!(store.write_event(&ev("02", "aa", 3, 1, vec![])), 1);
    assert_eq!(store.write_event(&ev("03", "aa", 2, 1, vec![])), 1);
    let mut f = open_filter();
    f.limit = Some(2);
    let results = store.query_filter(&f);
    assert_eq!(results.len(), 2);
    assert_eq!(results[0].created_at, 3);
    assert_eq!(results[1].created_at, 2);
}

#[test]
fn test_force_no_match_returns_nothing() {
    let mut store = EventStore::new();
    assert_eq!(store.write_event(&ev("01", "aa", 1, 1, vec![])), 1);
    let mut f = open_filter();
    f.force_no_match = true;
    assert_eq!(store.query_filter(&f).len(), 0);
}

#[test]
fn test_query_subscription_concatenates_filters() {
    let mut store = EventStore::new();
    assert_eq!(store.write_event(&ev("01", "aa", 1, 1, vec![])), 1);
    assert_eq!(store.write_event(&ev("02", "bb", 2, 2, vec![])), 1);
    let mut f1 = open_filter();
    f1.kinds = Some(vec![1]);
    let mut f2 = open_filter();
    f2.kinds = Some(vec![2]);
    let sub = Subscription { id: String::from("s"), filters: vec![f1, f2] };
    let results = store.query_subscription(&sub);
    assert_eq!(results.len(), 2);
    assert!(results.iter().any(|e| e.id == pad64("01")));
    assert!(results.iter().any(|e| e.id == pad64("02")));
}

#[test]
fn test_ephemeral_not_persisted() {
    let mut relay = Relay::new();
    let settings = Settings::default();
    let e = ev("aa", "bb", 100, 20001, vec![]);
    assert_eq!(relay.submit_event(&e, &settings), SubmitOutcome::Ephemeral);
    assert_eq!(relay.store().row_count(), 0);
    assert_eq!(relay.bus().len(), 1);
}

#[test]
fn test_whitelist_blocks_unknown_author() {
    let mut relay = Relay::new();
    let mut settings = Settings::default();
    settings.authorization.pubkey_whitelist = Some(vec![pad64("cc")]);
    let e = ev("aa", "bb", 100, 1, vec![]);
    assert_eq!(relay.submit_event(&e, &settings), SubmitOutcome::Blocked);
    assert_eq!(relay.store().row_count(), 0);
    let allowed = ev("ab", "cc", 100, 1, vec![]);
    assert_eq!(relay.submit_event(&allowed, &settings), SubmitOutcome::Saved);
}

#[test]
fn test_whitelisted_delegator_allowed() {
    let mut relay = Relay::new();
    let mut settings = Settings::default();
    settings.authorization.pubkey_whitelist = Some(vec![pad64("cc")]);
    let mut delegated = ev("aa", "bb", 100, 1, vec![]);
    delegated.delegated_by = Some(pad64("cc"));
    assert_eq!(relay.submit_event(&delegated, &settings), SubmitOutcome::Saved);
    let plain = ev("ab", "bb", 100, 1, vec![]);
    assert_eq!(relay.submit_event(&plain, &settings), SubmitOutcome::Blocked);
}

#[test]
fn test_broadcast_order_is_commit_order() {
    let mut relay = Relay::new();
    let settings = Settings::default();
    for i in 0..5u64 {
        let e = ev(&format!("{:02x}", i + 1), "aa", i, 1, vec![]);
        assert_eq!(relay.submit_event(&e, &settings), SubmitOutcome::Saved);
    }
    let bus = relay.bus();
    assert_eq!(bus.len(), 5);
    for i in 1..bus.len() {
        assert!(bus[i - 1].seq < bus[i].seq);
    }
    for (i, entry) in bus.iter().enumerate() {
        assert_eq!(entry.event.id, pad64(&format!("{:02x}", i + 1)));
    }
}

#[test]
fn test_duplicate_not_rebroadcast() {
    let mut relay = Relay::new();
    let settings = Settings::default();
    let e = ev("aa", "bb", 100, 1, vec![]);
    assert_eq!(relay.submit_event(&e, &settings), SubmitOutcome::Saved);
    assert_eq!(relay.submit_event(&e, &settings), SubmitOutcome::Duplicate);
    assert_eq!(relay.bus().len(), 1);
}

#[test]
fn test_checked_submit_requires_matching_id() {
    let mut relay = Relay::new();
    let settings = Settings::default();
    let mut e = ev("aa01", "bb", 100, 1, vec![]);
    assert_eq!(relay.submit_event_checked(&e, &settings), SubmitOutcome::Invalid);
    assert_eq!(relay.store().row_count(), 0);
    e.id = e.compute_id();
    assert_eq!(relay.submit_event_checked(&e, &settings), SubmitOutcome::Saved);
    assert_eq!(relay.store().row_count(), 1);
}

#[test]
fn test_tag_index_first_name_wins() {
    // the (event_id, name) uniqueness keeps only the first `e` row
    let mut store = EventStore::new();
    let d = ev(
        "01",
        "aa",
        1,
        7,
        vec![
            vec![String::from("e"), pad64("aa")],
            vec![String::from("e"), pad64("bb")],
        ],
    );
    assert_eq!(store.write_event(&d), 1);
    let rows = store.tag_rows();
    let e_rows: Vec<_> = rows.iter().filter(|t| t.name == "e").collect();
    assert_eq!(e_rows.len(), 1);
    assert_eq!(e_rows[0].value, pad64("aa"));
}

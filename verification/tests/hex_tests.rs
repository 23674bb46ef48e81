//! Hex helpers, prefix range compilation, URL hosts, notices, and the
//! identity gate.

use nostr_relay::config::{select_engine, DatabaseEngine};
use nostr_relay::db::{nip05_gate, GateDecision, Nip05Outcome, Notice, EventResultStatus};
use nostr_relay::event::{single_char_tagname, Event};
use nostr_relay::hexrange::{hex_range, HexSearch};
use nostr_relay::hexutil::{is_hex, is_lower_hex};
use nostr_relay::postgres::PostgresRepo;
use nostr_relay::utils::host_str;

#[test]
fn test_hex_range_decodes_mixed_case() {
    match hex_range("AB01") {
        Some(HexSearch::Range(lo, hi)) => {
            assert_eq!(lo, vec![0xab, 0x01]);
            assert_eq!(hi, vec![0xab, 0x02]);
        },
        other => panic!("expected a range, got {:?}", other),
    }
}

#[test]
fn test_is_hex_predicates() {
    assert!(is_hex("0123456789abcdefABCDEF"));
    assert!(!is_hex("0g"));
    assert!(is_lower_hex("ab01"));
    assert!(!is_lower_hex("AB01"));
}

#[test]
fn test_hex_range_exact() {
    let full: String = std::iter::repeat('a').take(64).collect();
    match hex_range(&full) {
        Some(HexSearch::Exact(b)) => assert_eq!(b.len(), 32),
        other => panic!("expected an exact match, got {:?}", other),
    }
}

#[test]
fn test_hex_range_even_prefix() {
    match hex_range("ab") {
        Some(HexSearch::Range(lo, hi)) => {
            assert_eq!(lo, vec![0xab]);
            assert_eq!(hi, vec![0xac]);
        },
        other => panic!("expected a range, got {:?}", other),
    }
    match hex_range("abff") {
        Some(HexSearch::Range(lo, hi)) => {
            assert_eq!(lo, vec![0xab, 0xff]);
            assert_eq!(hi, vec![0xac]);
        },
        other => panic!("expected a range, got {:?}", other),
    }
}

#[test]
fn test_hex_range_odd_prefix() {
    match hex_range("a") {
        Some(HexSearch::LowerOnly(lo)) => assert_eq!(lo, vec![0xa0]),
        other => panic!("expected a lower bound, got {:?}", other),
    }
}

#[test]
fn test_hex_range_all_ff_prefix() {
    match hex_range("ff") {
        Some(HexSearch::LowerOnly(lo)) => assert_eq!(lo, vec![0xff]),
        other => panic!("expected a lower bound, got {:?}", other),
    }
}

#[test]
fn test_hex_range_rejects_bad_input() {
    assert!(hex_range("xyz").is_none());
    let too_long: String = std::iter::repeat('a').take(65).collect();
    assert!(hex_range(&too_long).is_none());
}

#[test]
fn test_postgres_repo_wraps_lazy_pool() {
    let rt = tokio::runtime::Builder::new_current_thread().enable_all().build().unwrap();
    let _guard = rt.enter();
    assert!(PostgresRepo::connect("postgres://relay@localhost/nostr").is_some());
    assert!(PostgresRepo::connect("not a url").is_none());
}

#[test]
fn test_host_str() {
    assert_eq!(host_str("wss://relay.example/"), Some(String::from("relay.example")));
    assert_eq!(host_str("wss://relay.example:8080/path"), Some(String::from("relay.example")));
    assert_eq!(host_str("ws://h?q=1"), Some(String::from("h")));
    assert_eq!(host_str("no-scheme"), None);
    assert_eq!(host_str("wss:///"), None);
}

#[test]
fn test_single_char_tagname() {
    assert_eq!(single_char_tagname("e"), Some('e'));
    assert_eq!(single_char_tagname("P"), Some('P'));
    assert_eq!(single_char_tagname("ee"), None);
    assert_eq!(single_char_tagname("1"), None);
    assert_eq!(single_char_tagname(""), None);
}

#[test]
fn test_event_kind_classes() {
    let mut e = Event {
        id: String::from("aa"),
        pubkey: String::from("bb"),
        delegated_by: None,
        created_at: 0,
        kind: 0,
        tags: vec![],
        content: String::new(),
        sig: String::new(),
    };
    assert!(e.is_replaceable());
    assert!(e.is_kind_metadata());
    e.kind = 3;
    assert!(e.is_replaceable());
    e.kind = 10000;
    assert!(e.is_replaceable());
    e.kind = 19999;
    assert!(e.is_replaceable());
    e.kind = 20000;
    assert!(!e.is_replaceable());
    assert!(e.is_ephemeral());
    e.kind = 29999;
    assert!(e.is_ephemeral());
    e.kind = 30000;
    assert!(!e.is_ephemeral());
    e.kind = 5;
    assert!(e.is_deletion());
}

#[test]
fn test_tag_values_by_name() {
    let e = Event {
        id: String::from("aa"),
        pubkey: String::from("bb"),
        delegated_by: None,
        created_at: 0,
        kind: 5,
        tags: vec![
            vec![String::from("e"), String::from("v1")],
            vec![String::from("p"), String::from("x")],
            vec![String::from("e"), String::from("v2"), String::from("extra")],
            vec![String::from("e")],
        ],
        content: String::new(),
        sig: String::new(),
    };
    assert_eq!(e.tag_values_by_name("e"), vec![String::from("v1"), String::from("v2")]);
    assert_eq!(e.tag_values_by_name("p"), vec![String::from("x")]);
    assert!(e.tag_values_by_name("q").is_empty());
}

#[test]
fn test_select_engine() {
    assert_eq!(select_engine("sqlite"), Some(DatabaseEngine::Embedded));
    assert_eq!(select_engine("postgres"), Some(DatabaseEngine::Networked));
    assert_eq!(select_engine("mysql"), None);
    assert_eq!(select_engine(""), None);
}

#[test]
fn test_nip05_gate() {
    assert_eq!(nip05_gate(false, Nip05Outcome::Missing), GateDecision::Proceed);
    assert_eq!(nip05_gate(true, Nip05Outcome::Valid), GateDecision::Proceed);
    assert_eq!(nip05_gate(true, Nip05Outcome::Invalid), GateDecision::RejectInvalid);
    assert_eq!(nip05_gate(true, Nip05Outcome::Missing), GateDecision::RejectMissing);
    assert_eq!(nip05_gate(true, Nip05Outcome::LookupFailed), GateDecision::SkipError);
}

#[test]
fn test_notice_constructors() {
    match Notice::saved(String::from("id1")) {
        Notice::EventResult(er) => {
            assert_eq!(er.id, "id1");
            assert_eq!(er.status, EventResultStatus::Saved);
        },
        Notice::Message(_) => panic!("expected an event result"),
    }
    match Notice::blocked(String::from("id2"), "not allowed") {
        Notice::EventResult(er) => {
            assert_eq!(er.status, EventResultStatus::Blocked);
            assert_eq!(er.msg, "not allowed");
        },
        Notice::Message(_) => panic!("expected an event result"),
    }
    match Notice::duplicate(String::from("id3")) {
        Notice::EventResult(er) => assert_eq!(er.status, EventResultStatus::Duplicate),
        Notice::Message(_) => panic!("expected an event result"),
    }
}

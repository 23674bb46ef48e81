//! The canonical serialization and the id digest over it.

use nostr_relay::canonical::sha256_hex;
use nostr_relay::event::Event;

fn pad64(prefix: &str) -> String {
    let mut s = String::from(prefix);
    while s.len() < 64 {
        s.push('0');
    }
    s
}

fn ev(pk: &str, created_at: u64, kind: u64, tags: Vec<Vec<String>>, content: &str) -> Event {
    Event {
        id: pad64("aa"),
        pubkey: pad64(pk),
        delegated_by: None,
        created_at,
        kind,
        tags,
        content: String::from(content),
        sig: pad64("99"),
    }
}

#[test]
fn test_canonical_shape() {
    let e = ev(
        "ab",
        100,
        1,
        vec![vec![String::from("e"), String::from("ab")]],
        "hi",
    );
    let expected = format!("[0,\"{}\",100,1,[[\"e\",\"ab\"]],\"hi\"]", pad64("ab"));
    assert_eq!(e.canonical(), expected);
}

#[test]
fn test_canonical_empty_tags() {
    let e = ev("ab", 0, 30000, vec![], "");
    let expected = format!("[0,\"{}\",0,30000,[],\"\"]", pad64("ab"));
    assert_eq!(e.canonical(), expected);
}

#[test]
fn test_canonical_escaping() {
    let e = ev("ab", 7, 1, vec![], "say \"hi\"\\\nnow\u{1f}");
    let expected = format!(
        "[0,\"{}\",7,1,[],\"say \\\"hi\\\"\\\\\\nnow\\u001f\"]",
        pad64("ab")
    );
    assert_eq!(e.canonical(), expected);
}

#[test]
fn test_sha256_known_vector() {
    let data: Vec<u8> = vec![0x61, 0x62, 0x63];
    assert_eq!(
        sha256_hex(&data),
        "ba7816bf8f01cfea414140de5dae2223b00361a396177a9cb410ff61f20015ad"
    );
}

#[test]
fn test_compute_and_validate_id() {
    let mut e = ev("ab", 100, 1, vec![], "hello");
    let id = e.compute_id();
    assert_eq!(id.len(), 64);
    assert!(!e.validate_id());
    e.id = id;
    assert!(e.validate_id());
    // a change to the content invalidates the id
    e.content = String::from("tampered");
    assert!(!e.validate_id());
}

use relay_viewer::names::profile_display_name;
use relay_viewer::error::Error;
use relay_viewer::ffi::{FfiError, FfiRelayEvent};
use relay_viewer::kinds::kind_name;
use relay_viewer::models::{event_to_relay_event, relay_event_from_row, NostrEvent, RelayEvent};
use relay_viewer::names::{event_authors, relay_events_for, resolve_display_names, DisplayNames};

const ALICE: &str = "aa4fc8665f5696e33db7e1a572e3b0f5b3d615837b0f362dcb1c8068b098c7b4";
const BOB: &str = "bb4fc8665f5696e33db7e1a572e3b0f5b3d615837b0f362dcb1c8068b098c7b4";
const CAROL: &str = "cc4fc8665f5696e33db7e1a572e3b0f5b3d615837b0f362dcb1c8068b098c7b4";

fn ev(id: &str, pubkey: &str, kind: u16, content: &str, created_at: u64) -> NostrEvent {
    NostrEvent {
        id: id.to_string(),
        pubkey: pubkey.to_string(),
        kind,
        content: content.to_string(),
        created_at,
    }
}

fn lookup(names: &DisplayNames, key: &str) -> Option<String> {
    names.get(&key.to_string()).cloned()
}

#[test]
fn event_becomes_relay_event() {
    let e = ev("abc123", ALICE, 9735, "zap", 1700000000);
    let r = event_to_relay_event(&e, "alice");
    assert_eq!(r.id, "abc123");
    assert_eq!(r.pubkey, ALICE);
    assert_eq!(r.kind, 9735);
    assert_eq!(r.content, "zap");
    assert_eq!(r.created_at, 1700000000);
    assert_eq!(r.display_name, "alice");
    assert_eq!(r.kind_name, "Zap");
}

#[test]
fn stored_row_keeps_or_fills_display_name() {
    let r = relay_event_from_row(
        "abc123".into(),
        "deadbeef".into(),
        1,
        "Hello Nostr!".into(),
        1700000000,
        "deadbeef_display".into(),
    );
    assert_eq!(r.display_name, "deadbeef_display");
    assert_eq!(r.kind_name, "Text Note");
    assert_eq!(r.content, "Hello Nostr!");
    let r = relay_event_from_row("e".into(), "deadbeef".into(), 7, "+".into(), 1000, String::new());
    assert_eq!(r.display_name, "deadbeef...");
    assert_eq!(r.kind_name, "Reaction");
    let r = relay_event_from_row("e".into(), ALICE.into(), 0, "{}".into(), 1000, String::new());
    assert_eq!(r.display_name, "npub14f8us...9nsy");
    assert_eq!(r.kind_name, "Metadata");
}

#[test]
fn display_names_table() {
    let mut t = DisplayNames::new();
    assert_eq!(lookup(&t, "a"), None);
    t.insert("a".into(), "one".into());
    t.insert("b".into(), "two".into());
    t.insert("a".into(), "three".into());
    assert_eq!(lookup(&t, "a"), Some("three".to_string()));
    assert_eq!(lookup(&t, "b"), Some("two".to_string()));
    t.insert_if_absent("b".into(), "four".into());
    t.insert_if_absent("c".into(), "five".into());
    assert_eq!(lookup(&t, "b"), Some("two".to_string()));
    assert_eq!(lookup(&t, "c"), Some("five".to_string()));
}

#[test]
fn authors_are_listed_once_in_first_seen_order() {
    let events = vec![
        ev("1", BOB, 1, "a", 1),
        ev("2", ALICE, 1, "b", 2),
        ev("3", BOB, 7, "c", 3),
    ];
    assert_eq!(event_authors(&events), vec![BOB.to_string(), ALICE.to_string()]);
    assert!(event_authors(&Vec::new()).is_empty());
}

#[test]
fn display_name_preferred_then_name_then_short_key() {
    let requested = vec![ALICE.to_string(), BOB.to_string(), CAROL.to_string()];
    let metadata = vec![
        ev("m1", ALICE, 0, r#"{"name":"alice","display_name":"Alice A."}"#, 10),
        ev("m2", BOB, 0, r#"{"name":"bob"}"#, 10),
        ev("m3", CAROL, 0, r#"{"about":"no names here"}"#, 10),
    ];
    let names = resolve_display_names(&requested, &metadata);
    assert_eq!(lookup(&names, ALICE), Some("Alice A.".to_string()));
    assert_eq!(lookup(&names, BOB), Some("bob".to_string()));
    let carol = relay_viewer::npub::truncated_npub(CAROL);
    assert!(carol.starts_with("npub1") && carol.len() == 17);
    assert_eq!(lookup(&names, CAROL), Some(carol));
}

#[test]
fn newest_metadata_wins_and_first_wins_ties() {
    let requested = vec![ALICE.to_string(), BOB.to_string()];
    let metadata = vec![
        ev("m1", ALICE, 0, r#"{"name":"old alice"}"#, 10),
        ev("m2", ALICE, 0, r#"{"name":"new alice"}"#, 20),
        ev("m3", ALICE, 0, r#"{"name":"older alice"}"#, 5),
        ev("m4", BOB, 0, r#"{"name":"first bob"}"#, 30),
        ev("m5", BOB, 0, r#"{"name":"second bob"}"#, 30),
    ];
    let names = resolve_display_names(&requested, &metadata);
    assert_eq!(lookup(&names, ALICE), Some("new alice".to_string()));
    assert_eq!(lookup(&names, BOB), Some("first bob".to_string()));
}

#[test]
fn unreadable_newest_metadata_falls_back_to_short_key() {
    let requested = vec![ALICE.to_string()];
    let metadata = vec![
        ev("m1", ALICE, 0, r#"{"name":"alice"}"#, 10),
        ev("m2", ALICE, 0, "not json", 20),
    ];
    let names = resolve_display_names(&requested, &metadata);
    assert_eq!(lookup(&names, ALICE), Some("npub14f8us...9nsy".to_string()));
}

#[test]
fn unrequested_metadata_authors_are_named_too() {
    let requested = vec![ALICE.to_string()];
    let metadata = vec![ev("m1", BOB, 0, r#"{"display_name":"Bob"}"#, 10)];
    let names = resolve_display_names(&requested, &metadata);
    assert_eq!(lookup(&names, BOB), Some("Bob".to_string()));
    assert_eq!(lookup(&names, ALICE), Some("npub14f8us...9nsy".to_string()));
    assert_eq!(lookup(&names, CAROL), None);
}

#[test]
fn fetched_events_get_their_authors_names() {
    let events = vec![
        ev("e1", ALICE, 1, "hello", 2000),
        ev("e2", BOB, 7, "+", 1000),
        ev("e3", ALICE, 9735, "zap", 3000),
    ];
    let authors = event_authors(&events);
    let metadata = vec![ev("m1", ALICE, 0, r#"{"display_name":"Alice"}"#, 5)];
    let names = resolve_display_names(&authors, &metadata);
    let out: Vec<RelayEvent> = relay_events_for(&events, &names);
    assert_eq!(out.len(), 3);
    assert_eq!(out[0].display_name, "Alice");
    assert_eq!(out[0].kind_name, "Text Note");
    assert_eq!(out[1].display_name, relay_viewer::npub::truncated_npub(BOB));
    assert!(out[1].display_name.starts_with("npub1"));
    assert_eq!(out[1].kind_name, "Reaction");
    assert_eq!(out[2].id, "e3");
    assert_eq!(out[2].kind_name, kind_name(9735));
}

#[test]
fn events_without_a_name_entry_show_the_short_key() {
    let events = vec![ev("e1", "deadbeef", 1, "x", 1)];
    let names = DisplayNames::new();
    let out = relay_events_for(&events, &names);
    assert_eq!(out[0].display_name, "deadbeef...");
}

#[test]
fn core_errors_map_to_ffi_errors() {
    match FfiError::from_core(Error::NotFound("x".into())) {
        FfiError::NotFound(m) => assert_eq!(m, "x"),
        other => panic!("unexpected {:?}", other),
    }
    match FfiError::from_core(Error::Relay("down".into())) {
        FfiError::Relay(m) => assert_eq!(m, "down"),
        other => panic!("unexpected {:?}", other),
    }
    match FfiError::from_core(Error::Database("locked".into())) {
        FfiError::Internal(m) => assert_eq!(m, "database error: locked"),
        other => panic!("unexpected {:?}", other),
    }
    match FfiError::from_core(Error::Migration("bad".into())) {
        FfiError::Internal(m) => assert_eq!(m, "migration error: bad"),
        other => panic!("unexpected {:?}", other),
    }
}

#[test]
fn error_messages() {
    assert_eq!(FfiError::NotFound("a".into()).message(), "Not found: a");
    assert_eq!(FfiError::Relay("b".into()).message(), "Could not connect to relay: b");
    assert_eq!(FfiError::Internal("c".into()).message(), "Something went wrong: c");
    assert_eq!(Error::NotFound("a".into()).message(), "not found: a");
    assert_eq!(Error::Relay("b".into()).message(), "relay error: b");
}

#[test]
fn ffi_record_carries_fields_and_relative_time() {
    let e = event_to_relay_event(&ev("abc", ALICE, 1, "hi", 1_000_000), "alice");
    let r = FfiRelayEvent::from_relay_event_at(e.clone(), 1_000_000 + 7200);
    assert_eq!(r.id, "abc");
    assert_eq!(r.pubkey, ALICE);
    assert_eq!(r.kind, 1);
    assert_eq!(r.content, "hi");
    assert_eq!(r.created_at, 1_000_000);
    assert_eq!(r.display_name, "alice");
    assert_eq!(r.kind_name, "Text Note");
    assert_eq!(r.relative_time, "2h ago");
    let now = std::time::SystemTime::now()
        .duration_since(std::time::UNIX_EPOCH)
        .unwrap()
        .as_secs() as i64;
    let mut e2 = e;
    e2.created_at = now - 300;
    let r2 = FfiRelayEvent::from_relay_event(e2);
    assert_eq!(r2.relative_time, "5m ago");
}

#[test]
fn profile_display_name_choice() {
    assert_eq!(profile_display_name(ALICE, Some("D".into()), Some("N".into())), "D");
    assert_eq!(profile_display_name(ALICE, None, Some("N".into())), "N");
    assert_eq!(profile_display_name(ALICE, None, None), "npub14f8us...9nsy");
    assert_eq!(profile_display_name("deadbeef", None, None), "deadbeef...");
    assert_eq!(profile_display_name("deadbeef", Some(String::new()), None), "");
}

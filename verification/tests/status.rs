use pylon::config_manager::RemotePylonConfig;
use pylon::registry::PeerKey;
use pylon::remote::{
    classify, outcome_of, status_after, PollOutcome, PollReply, RemoteStatus, StatusStore, Timestamp,
};
use serde_json::Value;

fn peer_a() -> RemotePylonConfig {
    RemotePylonConfig {
        ip: "10.0.0.1".to_string(),
        port: 9000,
        token: "a".to_string(),
        name: Some("A".to_string()),
        location: None,
        description: None,
    }
}

fn at(secs: i64) -> Timestamp {
    Timestamp { secs, nanos: 0 }
}

fn answered(status: u16, body: &str) -> PollReply {
    PollReply::Answered { status, body: body.as_bytes().to_vec() }
}

fn offline(ip: &str, port: u16) -> RemoteStatus {
    RemoteStatus { ip: ip.to_string(), port, last_seen: None, data: None, online: false, name: None }
}

#[test]
fn success_with_json_body_is_reached() {
    match classify(answered(200, r#"{"name":"A","polled":{"cpu_usage":12.5}}"#)) {
        PollOutcome::Reached { body } => {
            let expected: Value = serde_json::from_str(r#"{"polled":{"cpu_usage":12.5},"name":"A"}"#).unwrap();
            assert_eq!(body, expected);
        }
        PollOutcome::Unreachable => panic!("a 200 with a JSON body reaches the peer"),
    }
}

#[test]
fn every_success_status_counts() {
    assert!(matches!(classify(answered(200, "{}")), PollOutcome::Reached { .. }));
    assert!(matches!(classify(answered(204, "null")), PollOutcome::Reached { .. }));
    assert!(matches!(classify(answered(299, "[]")), PollOutcome::Reached { .. }));
}

#[test]
fn other_statuses_are_unreachable() {
    for status in [0u16, 100, 199, 300, 301, 401, 404, 500, 503, 65535] {
        assert!(matches!(classify(answered(status, "{}")), PollOutcome::Unreachable));
    }
}

#[test]
fn body_that_does_not_parse_is_unreachable() {
    assert!(matches!(classify(answered(200, "")), PollOutcome::Unreachable));
    assert!(matches!(classify(answered(200, "<html>")), PollOutcome::Unreachable));
    assert!(matches!(classify(answered(200, "{\"a\":")), PollOutcome::Unreachable));
    assert!(matches!(classify(answered(200, "{} trailing")), PollOutcome::Unreachable));
    assert!(matches!(
        classify(PollReply::Answered { status: 200, body: vec![0xff, 0xfe] }),
        PollOutcome::Unreachable
    ));
}

#[test]
fn failed_request_is_unreachable() {
    assert!(matches!(classify(PollReply::Failed), PollOutcome::Unreachable));
}

#[test]
fn reached_peer_is_online_with_data() {
    let body: Value = serde_json::from_str(r#"{"cached":{"total_ram":8}}"#).unwrap();
    let s = status_after(&peer_a(), PollOutcome::Reached { body: body.clone() }, None, at(100));
    assert_eq!(s.ip, "10.0.0.1");
    assert_eq!(s.port, 9000);
    assert_eq!(s.name.as_deref(), Some("A"));
    assert!(s.online);
    assert_eq!(s.data, Some(body));
    assert_eq!(s.last_seen, Some(at(100)));
}

#[test]
fn unreached_peer_never_seen_has_no_last_seen() {
    let s = status_after(&peer_a(), PollOutcome::Unreachable, None, at(100));
    assert!(!s.online);
    assert_eq!(s.data, None);
    assert_eq!(s.last_seen, None);
    assert_eq!(s.name.as_deref(), Some("A"));
    let t = status_after(&peer_a(), PollOutcome::Unreachable, Some(&offline("10.0.0.1", 9000)), at(100));
    assert_eq!(t.last_seen, None);
}

#[test]
fn unreached_peer_keeps_its_last_seen() {
    let body: Value = serde_json::from_str("{}").unwrap();
    let first = status_after(&peer_a(), PollOutcome::Reached { body }, None, Timestamp { secs: 100, nanos: 7 });
    let second = status_after(&peer_a(), PollOutcome::Unreachable, Some(&first), at(200));
    assert!(!second.online);
    assert_eq!(second.data, None);
    assert_eq!(second.last_seen, Some(Timestamp { secs: 100, nanos: 7 }));
    let third = status_after(&peer_a(), PollOutcome::Unreachable, Some(&second), at(300));
    assert_eq!(third.last_seen, Some(Timestamp { secs: 100, nanos: 7 }));
}

#[test]
fn status_takes_the_name_of_the_poll_set_entry() {
    let mut renamed = peer_a();
    renamed.name = None;
    let before = status_after(&peer_a(), PollOutcome::Unreachable, None, at(1));
    let after = status_after(&renamed, PollOutcome::Unreachable, Some(&before), at(2));
    assert_eq!(after.name, None);
}

#[test]
fn store_starts_empty() {
    let store = StatusStore::new();
    assert_eq!(store.len(), 0);
    assert!(store.snapshot().is_empty());
    assert!(store.get(&PeerKey::new("a".to_string(), 1)).is_none());
}

#[test]
fn upsert_replaces_and_never_merges() {
    let mut store = StatusStore::new();
    let key = PeerKey::new("a".to_string(), 1);
    let body: Value = serde_json::from_str(r#"{"x":1}"#).unwrap();
    store.upsert(
        key.clone(),
        RemoteStatus {
            ip: "a".to_string(),
            port: 1,
            last_seen: Some(at(5)),
            data: Some(body),
            online: true,
            name: Some("A".to_string()),
        },
    );
    store.upsert(key.clone(), offline("a", 1));
    assert_eq!(store.len(), 1);
    let kept = store.get(&key).unwrap();
    assert!(!kept.online);
    assert_eq!(kept.data, None);
    assert_eq!(kept.last_seen, None);
    assert_eq!(kept.name, None);
}

#[test]
fn upsert_keeps_the_other_records() {
    let mut store = StatusStore::new();
    store.upsert(PeerKey::new("a".to_string(), 1), offline("a", 1));
    store.upsert(PeerKey::new("b".to_string(), 2), offline("b", 2));
    store.upsert(PeerKey::new("a".to_string(), 2), offline("a", 2));
    let mut online = offline("b", 2);
    online.online = true;
    store.upsert(PeerKey::new("b".to_string(), 2), online);
    assert_eq!(store.len(), 3);
    assert!(!store.get(&PeerKey::new("a".to_string(), 1)).unwrap().online);
    assert!(store.get(&PeerKey::new("b".to_string(), 2)).unwrap().online);
    assert!(!store.get(&PeerKey::new("a".to_string(), 2)).unwrap().online);
    assert!(store.get(&PeerKey::new("b".to_string(), 1)).is_none());
}

#[test]
fn snapshot_lists_records_in_order_of_first_appearance() {
    let mut store = StatusStore::new();
    store.upsert(PeerKey::new("b".to_string(), 2), offline("b", 2));
    store.upsert(PeerKey::new("a".to_string(), 1), offline("a", 1));
    store.upsert(PeerKey::new("b".to_string(), 2), offline("b", 2));
    let all = store.snapshot();
    let hosts: Vec<&str> = all.iter().map(|s| s.ip.as_str()).collect();
    assert_eq!(hosts, vec!["b", "a"]);
}

#[test]
fn snapshot_is_a_copy() {
    let mut store = StatusStore::new();
    store.upsert(PeerKey::new("a".to_string(), 1), offline("a", 1));
    let before = store.snapshot();
    let mut online = offline("a", 1);
    online.online = true;
    store.upsert(PeerKey::new("a".to_string(), 1), online);
    assert!(!before[0].online);
    assert!(store.snapshot()[0].online);
}

#[test]
fn clone_of_a_status_copies_every_field() {
    let body: Value = serde_json::from_str(r#"{"deep":[1,{"k":"v"}]}"#).unwrap();
    let s = RemoteStatus {
        ip: "a".to_string(),
        port: 1,
        last_seen: Some(Timestamp { secs: 9, nanos: 8 }),
        data: Some(body.clone()),
        online: true,
        name: Some("n".to_string()),
    };
    let c = s.clone();
    assert_eq!(c.ip, "a");
    assert_eq!(c.port, 1);
    assert_eq!(c.last_seen, Some(Timestamp { secs: 9, nanos: 8 }));
    assert_eq!(c.data, Some(body));
    assert!(c.online);
    assert_eq!(c.name.as_deref(), Some("n"));
}

#[test]
fn outcome_needs_success_and_a_document() {
    let doc: Value = serde_json::from_str(r#"{"a":1}"#).unwrap();
    match outcome_of(200, Some(doc.clone())) {
        PollOutcome::Reached { body } => assert_eq!(body, doc),
        PollOutcome::Unreachable => panic!("reached"),
    }
    assert!(matches!(outcome_of(299, Some(doc.clone())), PollOutcome::Reached { .. }));
    assert!(matches!(outcome_of(199, Some(doc.clone())), PollOutcome::Unreachable));
    assert!(matches!(outcome_of(300, Some(doc.clone())), PollOutcome::Unreachable));
    assert!(matches!(outcome_of(200, None), PollOutcome::Unreachable));
    assert!(matches!(outcome_of(500, None), PollOutcome::Unreachable));
}

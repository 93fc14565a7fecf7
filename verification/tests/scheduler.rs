use pylon::config_manager::RemotePylonConfig;
use pylon::registry::PeerKey;
use pylon::remote::{classify, PollOutcome, PollReply, StatusStore, Timestamp};
use pylon::scheduler::{Action, Poller, SchedulerState, POLL_INTERVAL_SECS, REQUEST_TIMEOUT_SECS};
use serde_json::Value;

fn node(ip: &str, token: &str, name: &str) -> RemotePylonConfig {
    RemotePylonConfig {
        ip: ip.to_string(),
        port: 9000,
        token: token.to_string(),
        name: Some(name.to_string()),
        location: None,
        description: None,
    }
}

fn a() -> RemotePylonConfig {
    node("10.0.0.1", "ta", "A")
}

fn key_of(ip: &str) -> PeerKey {
    PeerKey::new(ip.to_string(), 9000)
}

fn me() -> PeerKey {
    key_of("10.0.0.9")
}

fn ok(body: &str) -> PollOutcome {
    classify(PollReply::Answered { status: 200, body: body.as_bytes().to_vec() })
}

fn time(secs: i64) -> Timestamp {
    Timestamp { secs, nanos: 0 }
}

fn polled(action: &Action) -> &str {
    match action {
        Action::Poll(peer) => peer.ip.as_str(),
        other => panic!("expected a poll, got {:?}", other),
    }
}

#[test]
fn intervals_are_five_and_ten_seconds() {
    assert_eq!(REQUEST_TIMEOUT_SECS, 5);
    assert_eq!(POLL_INTERVAL_SECS, 10);
}

#[test]
fn new_poller_waits_for_its_first_cycle() {
    let poller = Poller::new();
    assert_eq!(poller.state(), SchedulerState::Polling);
    assert!(matches!(poller.pending_action(), Action::Wait));
    assert!(poller.registry().discovered().is_empty());
}

#[test]
fn cycle_without_peers_goes_straight_to_waiting() {
    let mut poller = Poller::new();
    assert!(matches!(poller.begin_cycle(Vec::new(), false), Action::Wait));
    assert_eq!(poller.state(), SchedulerState::Polling);
}

#[test]
fn scenario_peer_answers_without_discovery() {
    let mut poller = Poller::new();
    let mut store = StatusStore::new();
    let first = poller.begin_cycle(vec![a()], false);
    assert_eq!(polled(&first), "10.0.0.1");
    match &first {
        Action::Poll(peer) => assert_eq!(peer.token, "ta"),
        _ => unreachable!(),
    }
    let body = r#"{"name":"A","cached":{"total_ram":16},"polled":{"cpu_usage":3.5}}"#;
    let next = poller.record_outcome_at(&mut store, ok(body), &me(), time(1000), false);
    assert!(matches!(next, Action::Wait));
    let status = store.get(&key_of("10.0.0.1")).unwrap();
    assert!(status.online);
    assert_eq!(status.ip, "10.0.0.1");
    assert_eq!(status.port, 9000);
    assert_eq!(status.name.as_deref(), Some("A"));
    assert_eq!(status.last_seen, Some(time(1000)));
    let expected: Value = serde_json::from_str(body).unwrap();
    assert_eq!(status.data, Some(expected));
    assert!(poller.registry().discovered().is_empty());
    assert_eq!(store.len(), 1);
}

#[test]
fn scenario_discovered_peer_joins_the_next_cycle() {
    let mut poller = Poller::new();
    let mut store = StatusStore::new();
    poller.begin_cycle(vec![a()], false);
    poller.record_outcome_at(&mut store, ok(r#"{"name":"A"}"#), &me(), time(1000), false);
    // Cycle 2: A reports B.
    let second = poller.begin_cycle(vec![a()], false);
    assert_eq!(polled(&second), "10.0.0.1");
    let next = poller.record_outcome_at(
        &mut store,
        ok(r#"{"name":"A","remote_pylons":[{"ip":"10.0.0.2","port":9000,"token":"tb","name":"B"}]}"#),
        &me(),
        time(1010),
        false,
    );
    // B is not polled in the cycle that discovered it.
    assert!(matches!(next, Action::Wait));
    let found = poller.registry().discovered();
    assert_eq!(found.len(), 1);
    assert_eq!((found[0].ip.as_str(), found[0].port), ("10.0.0.2", 9000));
    assert_eq!(found[0].token, "tb");
    assert!(store.get(&key_of("10.0.0.2")).is_none());
    // Cycle 3 polls A, then B.
    let third = poller.begin_cycle(vec![a()], false);
    assert_eq!(polled(&third), "10.0.0.1");
    let then = poller.record_outcome_at(&mut store, ok("{}"), &me(), time(1020), false);
    assert_eq!(polled(&then), "10.0.0.2");
    match &then {
        Action::Poll(peer) => assert_eq!(peer.token, "tb"),
        _ => unreachable!(),
    }
    let last = poller.record_outcome_at(&mut store, ok("{}"), &me(), time(1021), false);
    assert!(matches!(last, Action::Wait));
    assert_eq!(store.len(), 2);
}

#[test]
fn scenario_known_peer_and_self_are_not_rediscovered() {
    let mut poller = Poller::new();
    let mut store = StatusStore::new();
    poller.begin_cycle(vec![a()], false);
    poller.record_outcome_at(
        &mut store,
        ok(r#"{"remote_pylons":[{"ip":"10.0.0.2","port":9000,"token":"tb","name":"B"}]}"#),
        &me(),
        time(1),
        false,
    );
    poller.begin_cycle(vec![a()], false);
    poller.record_outcome_at(&mut store, ok("{}"), &me(), time(2), false);
    // B lists A and this instance itself.
    let next = poller.record_outcome_at(
        &mut store,
        ok(r#"{"remote_pylons":[{"ip":"10.0.0.1","port":9000,"token":"x"},{"ip":"10.0.0.9","port":9000,"token":"y"}]}"#),
        &me(),
        time(3),
        false,
    );
    assert!(matches!(next, Action::Wait));
    let found = poller.registry().discovered();
    assert_eq!(found.len(), 1);
    assert_eq!(found[0].ip, "10.0.0.2");
}

#[test]
fn scenario_timeout_keeps_last_seen() {
    let mut poller = Poller::new();
    let mut store = StatusStore::new();
    poller.begin_cycle(vec![a()], false);
    poller.record_outcome_at(&mut store, ok(r#"{"v":1}"#), &me(), time(1000), false);
    poller.begin_cycle(vec![a()], false);
    let next = poller.record_outcome_at(&mut store, classify(PollReply::Failed), &me(), time(1015), false);
    assert!(matches!(next, Action::Wait));
    let status = store.get(&key_of("10.0.0.1")).unwrap();
    assert!(!status.online);
    assert_eq!(status.data, None);
    assert_eq!(status.last_seen, Some(time(1000)));
    assert_eq!(status.name.as_deref(), Some("A"));
    assert_eq!(store.len(), 1);
}

#[test]
fn peer_never_reached_has_a_record_without_last_seen() {
    let mut poller = Poller::new();
    let mut store = StatusStore::new();
    poller.begin_cycle(vec![a()], false);
    poller.record_outcome_at(&mut store, PollOutcome::Unreachable, &me(), time(5), false);
    poller.begin_cycle(vec![a()], false);
    poller.record_outcome_at(&mut store, classify(PollReply::Answered { status: 500, body: b"{}".to_vec() }), &me(), time(6), false);
    let status = store.get(&key_of("10.0.0.1")).unwrap();
    assert!(!status.online);
    assert_eq!(status.data, None);
    assert_eq!(status.last_seen, None);
}

#[test]
fn scenario_two_peers_report_the_same_peer() {
    let mut poller = Poller::new();
    let mut store = StatusStore::new();
    let b = node("10.0.0.2", "tb", "B");
    poller.begin_cycle(vec![a(), b], false);
    poller.record_outcome_at(
        &mut store,
        ok(r#"{"remote_pylons":[{"ip":"10.0.0.3","port":9000,"token":"c1","name":"C as A knows it"}]}"#),
        &me(),
        time(1),
        false,
    );
    poller.record_outcome_at(
        &mut store,
        ok(r#"{"remote_pylons":[{"ip":"10.0.0.3","port":9000,"token":"c2","name":"C as B knows it"}]}"#),
        &me(),
        time(2),
        false,
    );
    let found = poller.registry().discovered();
    assert_eq!(found.len(), 1);
    assert_eq!(found[0].name.as_deref(), Some("C as A knows it"));
    assert_eq!(found[0].token, "c1");
}

#[test]
fn scenario_shutdown_during_the_second_of_three() {
    let mut poller = Poller::new();
    let mut store = StatusStore::new();
    let first = poller.begin_cycle(vec![a(), node("10.0.0.2", "tb", "B"), node("10.0.0.3", "tc", "C")], false);
    assert_eq!(polled(&first), "10.0.0.1");
    let second = poller.record_outcome_at(&mut store, ok("{}"), &me(), time(1), false);
    assert_eq!(polled(&second), "10.0.0.2");
    // The signal is set while peer 2 is polled.
    let third = poller.record_outcome_at(&mut store, ok(r#"{"n":2}"#), &me(), time(2), true);
    assert!(matches!(third, Action::Stop));
    assert_eq!(poller.state(), SchedulerState::ShuttingDown);
    // Peer 2's outcome is recorded, peer 3 was never polled.
    assert!(store.get(&key_of("10.0.0.2")).unwrap().online);
    assert_eq!(store.get(&key_of("10.0.0.2")).unwrap().last_seen, Some(time(2)));
    assert!(store.get(&key_of("10.0.0.3")).is_none());
    assert_eq!(store.len(), 2);
    // No further cycle starts, with or without the signal.
    assert!(matches!(poller.begin_cycle(vec![a()], false), Action::Stop));
    assert!(matches!(poller.begin_cycle(vec![a()], true), Action::Stop));
    assert!(matches!(poller.pending_action(), Action::Stop));
    // A late report changes nothing.
    assert!(matches!(poller.record_outcome_at(&mut store, ok("{}"), &me(), time(9), false), Action::Stop));
    assert!(store.get(&key_of("10.0.0.3")).is_none());
    assert_eq!(store.len(), 2);
}

#[test]
fn shutdown_before_the_first_cycle_polls_nobody() {
    let mut poller = Poller::new();
    assert!(matches!(poller.begin_cycle(vec![a()], true), Action::Stop));
    assert_eq!(poller.state(), SchedulerState::ShuttingDown);
    assert!(matches!(poller.begin_cycle(vec![a()], false), Action::Stop));
}

#[test]
fn shutdown_between_cycles_starts_no_cycle() {
    let mut poller = Poller::new();
    let mut store = StatusStore::new();
    poller.begin_cycle(vec![a()], false);
    assert!(matches!(poller.record_outcome_at(&mut store, ok("{}"), &me(), time(1), false), Action::Wait));
    assert!(matches!(poller.begin_cycle(vec![a()], true), Action::Stop));
    assert_eq!(store.get(&key_of("10.0.0.1")).unwrap().last_seen, Some(time(1)));
}

#[test]
fn report_without_a_poll_changes_nothing() {
    let mut poller = Poller::new();
    let mut store = StatusStore::new();
    let next = poller.record_outcome_at(
        &mut store,
        ok(r#"{"remote_pylons":[{"ip":"x","port":1,"token":"t"}]}"#),
        &me(),
        time(1),
        false,
    );
    assert!(matches!(next, Action::Wait));
    assert_eq!(store.len(), 0);
    assert!(poller.registry().discovered().is_empty());
    assert_eq!(poller.state(), SchedulerState::Polling);
}

#[test]
fn records_persist_when_a_peer_leaves_the_poll_set() {
    let mut poller = Poller::new();
    let mut store = StatusStore::new();
    poller.begin_cycle(vec![a(), node("10.0.0.2", "tb", "B")], false);
    poller.record_outcome_at(&mut store, ok("{}"), &me(), time(1), false);
    poller.record_outcome_at(&mut store, ok("{}"), &me(), time(2), false);
    // B is taken out of the configuration; A goes offline.
    poller.begin_cycle(vec![a()], false);
    poller.record_outcome_at(&mut store, PollOutcome::Unreachable, &me(), time(3), false);
    assert_eq!(store.len(), 2);
    assert!(!store.get(&key_of("10.0.0.1")).unwrap().online);
    let b = store.get(&key_of("10.0.0.2")).unwrap();
    assert!(b.online);
    assert_eq!(b.last_seen, Some(time(2)));
}

#[test]
fn online_flag_follows_the_latest_cycle() {
    let mut poller = Poller::new();
    let mut store = StatusStore::new();
    let outcomes = [true, false, false, true, false];
    for (i, reached) in outcomes.iter().enumerate() {
        poller.begin_cycle(vec![a()], false);
        let outcome = if *reached { ok("{}") } else { PollOutcome::Unreachable };
        poller.record_outcome_at(&mut store, outcome, &me(), time(i as i64), false);
        assert_eq!(store.get(&key_of("10.0.0.1")).unwrap().online, *reached);
        assert_eq!(store.len(), 1);
    }
    assert_eq!(store.get(&key_of("10.0.0.1")).unwrap().last_seen, Some(time(3)));
}

#[test]
fn malformed_discovery_does_not_cost_the_payload() {
    let mut poller = Poller::new();
    let mut store = StatusStore::new();
    poller.begin_cycle(vec![a()], false);
    poller.record_outcome_at(
        &mut store,
        ok(r#"{"remote_pylons":[{"ip":"bad"},{"ip":"10.0.0.4","port":9000,"token":"t"}],"polled":{"uptime":5}}"#),
        &me(),
        time(1),
        false,
    );
    let status = store.get(&key_of("10.0.0.1")).unwrap();
    assert!(status.online);
    assert!(status.data.is_some());
    let found = poller.registry().discovered();
    assert_eq!(found.len(), 1);
    assert_eq!(found[0].ip, "10.0.0.4");
}

#[test]
fn last_seen_is_the_time_that_was_handed_in() {
    let mut poller = Poller::new();
    let mut store = StatusStore::new();
    poller.begin_cycle(vec![a()], false);
    let seen = Timestamp { secs: 1_700_000_000, nanos: 123_456_789 };
    let next = poller.record_outcome_at(&mut store, ok("{}"), &me(), seen, false);
    assert!(matches!(next, Action::Wait));
    assert_eq!(store.get(&key_of("10.0.0.1")).unwrap().last_seen, Some(seen));
    // A time before 1970 is a time like any other.
    poller.begin_cycle(vec![a()], false);
    let early = Timestamp { secs: -5, nanos: 0 };
    poller.record_outcome_at(&mut store, ok("{}"), &me(), early, false);
    assert_eq!(store.get(&key_of("10.0.0.1")).unwrap().last_seen, Some(early));
}

#[test]
fn configuration_is_read_afresh_each_cycle() {
    let mut poller = Poller::new();
    let mut store = StatusStore::new();
    poller.begin_cycle(vec![a()], false);
    poller.record_outcome_at(&mut store, ok("{}"), &me(), time(1), false);
    let renamed = node("10.0.0.1", "new token", "A renamed");
    let first = poller.begin_cycle(vec![renamed], false);
    match &first {
        Action::Poll(peer) => assert_eq!(peer.token, "new token"),
        _ => panic!("expected a poll"),
    }
    poller.record_outcome_at(&mut store, ok("{}"), &me(), time(2), false);
    assert_eq!(store.get(&key_of("10.0.0.1")).unwrap().name.as_deref(), Some("A renamed"));
    assert_eq!(store.len(), 1);
}

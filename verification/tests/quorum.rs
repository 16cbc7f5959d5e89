use mycelium_agent::kv_quorum::{must_wait, wait_step, QuorumAckTracker, QuorumError, QuorumTrackers, WaitEvent};
use mycelium_agent::node_id::NodeId;
use mycelium_agent::replica_sync::{
    answer, decode_answer, decode_query, encode_answer, encode_query, is_held, Answer, Collector, Query, Round, Stored,
    Verdict, WalSync,
};

/// The hash of a payload under a key, as the store computes it: one number for each payload.
const MINE: u64 = 0x6d69_6e65;
const THEIRS: u64 = 0x7468_6569;

#[test]
fn observe_counts_only_this_exact_payload() {
    let mut tracker = QuorumAckTracker::new(1_000, 1, MINE);
    tracker.observe_update(1, 1_000, 1, MINE);
    assert_eq!(tracker.acks(), 0);
    tracker.observe_update(2, 999, 2, MINE);
    assert_eq!(tracker.acks(), 0);
    tracker.observe_update(2, 1_000, 3, MINE);
    assert_eq!(tracker.acks(), 1);
    tracker.observe_update(2, 1_000, 4, MINE);
    assert_eq!(tracker.acks(), 1);
    tracker.observe_update(3, 5_000, 5, THEIRS);
    assert_eq!(tracker.acks(), 1, "a newer overwrite is not evidence that any peer holds THIS payload");
}

#[test]
fn the_identity_less_observation_is_never_an_ack() {
    let mut tracker = QuorumAckTracker::new(1_000, 1, MINE);
    tracker.observe(2, 5_000);
    assert_eq!(tracker.acks(), 0, "no payload identity, no acknowledgement");
}

#[test]
fn concurrent_quorum_trackers_coexist_and_remove_only_self() {
    let mut trackers = QuorumTrackers::new();
    let mut t1 = QuorumAckTracker::new(100, 1, MINE);
    let mut t2 = QuorumAckTracker::new(100, 1, MINE);
    trackers.install_tracker("q/k", 1);
    trackers.install_tracker("q/k", 2);
    assert_eq!(trackers.observers("q/k"), vec![1, 2]);

    // One inbound peer update acks both callers.
    for id in trackers.observers("q/k") {
        let t = if id == 1 { &mut t1 } else { &mut t2 };
        t.observe_update(7, 150, 1, MINE);
    }
    assert_eq!(t1.acks(), 1, "first caller sees the ack");
    assert_eq!(t2.acks(), 1, "second caller sees the ack");

    trackers.remove_tracker("q/k", 1);
    for id in trackers.observers("q/k") {
        let t = if id == 1 { &mut t1 } else { &mut t2 };
        t.observe_update(8, 151, 2, MINE);
    }
    assert_eq!(t2.acks(), 2, "surviving caller keeps receiving acks");
    assert_eq!(t1.acks(), 1, "removed tracker is no longer observed");

    trackers.remove_tracker("q/k", 2);
    assert!(!trackers.has("q/k"), "entry drops when the last tracker is removed");
}

#[test]
fn removing_a_tracker_leaves_other_keys_alone() {
    let mut trackers = QuorumTrackers::new();
    trackers.install_tracker("a", 1);
    trackers.install_tracker("b", 2);
    trackers.remove_tracker("a", 2);
    assert_eq!(trackers.observers("a"), vec![1]);
    assert_eq!(trackers.observers("b"), vec![2]);
    assert!(trackers.observers("c").is_empty());
}

#[test]
fn waiting_ends_at_the_threshold_or_the_deadline() {
    assert!(!must_wait(0));
    assert!(must_wait(1));
    assert_eq!(wait_step(2, WaitEvent::Acks(1)), None);
    assert_eq!(wait_step(2, WaitEvent::Acks(2)), Some(Ok(2)));
    assert_eq!(wait_step(2, WaitEvent::Closed(2)), Some(Ok(2)));
    assert_eq!(wait_step(2, WaitEvent::Closed(1)), Some(Err(QuorumError::Timeout { acks_received: 1 })));
    assert_eq!(wait_step(2, WaitEvent::TimedOut(1)), Some(Err(QuorumError::Timeout { acks_received: 1 })));
    assert_eq!(
        QuorumError::Timeout { acks_received: 1 }.message(),
        "set_with_min_acks timed out (1 peer(s) acknowledged)"
    );
}

#[test]
fn a_query_round_trips_and_binds_all_three_fields() {
    let q = Query { stamp: 0x0102_0304_0506_0708, content_hash: 0xdead_beef_cafe_f00d, key: "k/one".to_string() };
    let decoded = decode_query(&encode_query(&q)).expect("round trip");
    assert_eq!(decoded, q);
}

#[test]
fn a_malformed_query_is_refused_never_guessed() {
    assert!(decode_query(&[]).is_none(), "empty");
    assert!(decode_query(&[0u8; 15]).is_none(), "short of the fixed header");
    assert!(decode_query(&[0u8; 16]).is_none(), "header but no key");
    let mut bad = vec![0u8; 16];
    bad.extend_from_slice(&[0xff, 0xfe]);
    assert!(decode_query(&bad).is_none(), "non-UTF-8 key");
}

#[test]
fn every_answer_round_trips() {
    for a in [Answer::Persisted, Answer::NotHeld, Answer::NotConfigured, Answer::Failed] {
        assert_eq!(decode_answer(&encode_answer(a)), Some(a));
    }
    assert_eq!(decode_answer(&[]), None, "an empty reply is not an answer");
    assert_eq!(decode_answer(&[9]), None, "an unknown tag is not an answer");
}

#[test]
fn only_the_exact_value_on_disk_is_persisted() {
    let q = Query { stamp: 5, content_hash: 9, key: "k".to_string() };
    let same = Stored { stamp: 5, content_hash: 9 };
    assert!(is_held(&q, Some(same)));
    assert!(!is_held(&q, None));
    assert_eq!(answer(&q, Some(Stored { stamp: 5, content_hash: 9 }), WalSync::Synced), Answer::Persisted);
    assert_eq!(answer(&q, Some(Stored { stamp: 5, content_hash: 9 }), WalSync::Failed), Answer::Failed);
    assert_eq!(answer(&q, Some(Stored { stamp: 5, content_hash: 9 }), WalSync::NotConfigured), Answer::NotConfigured);
    assert_eq!(answer(&q, Some(Stored { stamp: 5, content_hash: 8 }), WalSync::Synced), Answer::NotHeld);
}

#[test]
fn a_collector_gathers_those_who_persisted_and_names_the_rest() {
    let a = NodeId::new("10.0.0.1", 1).unwrap();
    let b = NodeId::new("10.0.0.2", 2).unwrap();
    let peers = vec![a.clone(), b.clone()];
    let mut c = Collector::new();
    let outstanding = match c.begin(&peers, 0, 1_000) {
        Round::Ask { outstanding, .. } => outstanding,
        Round::Done(_) => panic!("both are still to be asked"),
    };
    assert_eq!(outstanding, peers);
    let replies = vec![(a.clone(), Some(Answer::Persisted)), (b.clone(), Some(Answer::NotHeld))];
    assert!(matches!(c.end(&outstanding, &replies, 10, 1_000), Verdict::Retry { .. }));
    // Past the deadline the rest is missing.
    match c.begin(&peers, 1_000, 1_000) {
        Round::Done(r) => {
            assert_eq!(r.persisted_by, vec![a]);
            assert_eq!(r.missing, vec![b]);
        }
        Round::Ask { .. } => panic!("the deadline has passed"),
    }
}

#[test]
fn over_rounds_nobody_is_collected_twice_and_nobody_is_lost() {
    let peer = |port: u16| NodeId::new("10.0.0.1", port).unwrap();
    let peers = vec![peer(1), peer(2), peer(3)];
    let mut c = Collector::new();
    let rounds = [
        vec![(peer(2), Some(Answer::Persisted)), (peer(1), Some(Answer::Failed))],
        vec![(peer(2), Some(Answer::Persisted)), (peer(1), Some(Answer::Persisted))],
        vec![(peer(2), Some(Answer::NotHeld)), (peer(3), None)],
    ];
    let seen: Vec<Vec<NodeId>> = rounds
        .iter()
        .map(|replies| {
            let _ = c.end(&peers, replies, 10, 1_000);
            c.persisted_by.clone()
        })
        .collect();
    assert_eq!(seen, vec![vec![peer(2)], vec![peer(2), peer(1)], vec![peer(2), peer(1)]]);
}

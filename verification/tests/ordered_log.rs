use mycelium_agent::http::log::{
    log_append, log_compact, log_key, log_scan, Append, Follower, GroupAction, GroupConsumer, Position,
};
use mycelium_agent::json::Json;
use mycelium_agent::keys::KvEntry;
use mycelium_agent::node_id::NodeId;

fn node(port: u16) -> NodeId {
    NodeId::new("10.0.0.1", port).unwrap()
}

fn entry(hlc: u64, value: &[u8]) -> KvEntry {
    KvEntry { key: log_key("s", hlc, &node(1)), value: value.to_vec() }
}

fn hlcs(body: &Json) -> Vec<u64> {
    body.as_array().unwrap().iter().map(|e| e.u64_at("hlc").unwrap()).collect()
}

#[test]
fn an_append_is_keyed_by_its_moment_and_its_node() {
    match log_append("s", Some("aGk="), 255, &node(1)) {
        Append::Write { key, value, reply } => {
            assert_eq!(key, "log/s/00000000000000ff/10.0.0.1:1");
            assert_eq!(value, b"hi".to_vec());
            assert_eq!(reply.body.u64_at("hlc"), Some(255));
        }
        Append::Refuse(_) => panic!("well formed"),
    }
    match log_append("s", Some("*"), 255, &node(1)) {
        Append::Refuse(r) => {
            assert_eq!((r.status, r.body.str_at("error")), (400, Some("invalid base64 value")))
        }
        Append::Write { .. } => panic!("not base64"),
    }
    assert_ne!(log_key("s", 1, &node(1)), log_key("s", 1, &node(2)), "one moment, two nodes, two keys");
}

#[test]
fn a_scan_is_ordered_and_bounded() {
    let kv = vec![
        entry(30, b"c"),
        entry(10, b"a"),
        entry(20, b"b"),
        KvEntry { key: "log/s/nonsense/x".to_string(), value: vec![] },
        KvEntry { key: "log/other/0000000000000001/x".to_string(), value: vec![] },
    ];
    assert_eq!(hlcs(&log_scan(&kv, "s", None, None).body), vec![10, 20, 30]);
    assert_eq!(hlcs(&log_scan(&kv, "s", Some(10), Some(30)).body), vec![10, 20]);
    assert_eq!(log_scan(&kv, "s", None, None).body.item(0).str_at("value_b64"), Some("YQ=="));
    assert_eq!(log_compact(&kv, "s", 20), vec![log_key("s", 10, &node(1))]);
}

#[test]
fn a_follower_sends_everything_once_and_never_wraps() {
    let mut f = Follower::new("s", None);
    let kv = vec![entry(2, b"b"), entry(1, b"a")];
    assert_eq!(f.poll(&kv).iter().map(|e| e.hlc).collect::<Vec<_>>(), vec![1, 2]);
    assert!(f.poll(&kv).is_empty());
    let kv = vec![entry(1, b"a"), entry(u64::MAX, b"z")];
    assert_eq!(f.poll(&kv).len(), 1);
    assert_eq!(f.last_seen, u64::MAX, "the position does not start over");
    assert_eq!(Follower::new("s", Some(7)).last_seen, 7);
}

#[test]
fn a_group_has_one_consumer_and_it_receives_each_entry_once() {
    let mut a = GroupConsumer::new("s", "g", &node(1));
    let mut b = GroupConsumer::new("s", "g", &node(2));
    assert_eq!(a.claim_slot(), "clog/s/g/claim");
    assert_eq!(a.offset_key(), "clog/s/g/offset");
    assert_eq!(a.acquire(false), GroupAction::Propose);
    assert_eq!(a.acquire(true), GroupAction::Stop);
    // Both proposals committed; one holder converged.
    assert_eq!(a.proposed(true), GroupAction::Converge);
    assert_eq!(b.proposed(true), GroupAction::Converge);
    assert_eq!(b.proposed(false), GroupAction::StandBy);
    let holder = a.holder.clone();
    assert_eq!(a.converged(Some(&holder)), GroupAction::ReadOffset);
    assert_eq!(b.converged(Some(&holder)), GroupAction::StandBy);
    assert_eq!(b.drain(&vec![entry(1, b"a")], false), GroupAction::Stop, "nothing is sent without the claim");

    assert_eq!(a.resume(None), GroupAction::Scan);
    let kv = vec![entry(20, b"b"), entry(10, b"a")];
    let mut sent = Vec::new();
    loop {
        match a.drain(&kv, false) {
            GroupAction::Deliver { offset, event } => {
                sent.push(event.u64_at("hlc").unwrap());
                let hex = format!("{:016x}", sent[sent.len() - 1]);
                assert_eq!(offset, format!("{hex}/{hex}/10.0.0.1:1").into_bytes());
                assert_eq!(a.sent(true), GroupAction::Scan);
            }
            other => {
                assert_eq!(other, GroupAction::Idle);
                break;
            }
        }
    }
    assert_eq!(sent, vec![10, 20]);
    assert_eq!(a.drain(&kv, true), GroupAction::Stop, "an idle subscription notices a client that left");
    assert_eq!(a.sent(false), GroupAction::Stop);

    // The claim lapses; another consumer goes on where this one stopped.
    assert!(!a.renewal_due(9_999));
    assert!(a.renewal_due(10_000));
    assert_eq!(a.renewed(Some(&b.holder.clone())), GroupAction::Stop);
    let holder = b.holder.clone();
    assert_eq!(b.converged(Some(&holder)), GroupAction::ReadOffset);
    assert_eq!(b.resume(Some(b"0000000000000014")), GroupAction::Scan);
    assert_eq!(b.offset, Some(Position { hlc: 20, name: None }));
    assert_eq!(b.drain(&kv, false), GroupAction::Idle, "no entry twice");
    assert_eq!(b.renewed(Some(&holder)), GroupAction::Scan);
    assert_eq!(b.resume(Some(b"nonsense")), GroupAction::Scan);
    assert_eq!(b.offset, None);
}

#[test]
fn entries_of_one_moment_are_each_delivered_once() {
    let at = |port: u16| KvEntry { key: log_key("s", 7, &node(port)), value: vec![port as u8] };
    let kv = vec![at(2), at(1), at(3)];
    let mut a = GroupConsumer::new("s", "g", &node(1));
    let holder = a.holder.clone();
    assert_eq!(a.converged(Some(&holder)), GroupAction::ReadOffset);
    a.resume(None);
    let mut sent = Vec::new();
    let mut stored = Vec::new();
    while let GroupAction::Deliver { offset, event } = a.drain(&kv, false) {
        sent.push(event.str_at("value_b64").unwrap().to_string());
        stored = offset;
        assert_eq!(a.sent(true), GroupAction::Scan);
        if sent.len() == 2 {
            // Another consumer goes on from what is stored.
            a = GroupConsumer::new("s", "g", &node(2));
            let holder = a.holder.clone();
            a.converged(Some(&holder));
            a.resume(Some(&stored));
        }
    }
    assert_eq!(sent, vec!["AQ==", "Ag==", "Aw=="]);
    assert_eq!(stored, b"0000000000000007/0000000000000007/10.0.0.1:3".to_vec());
}

#[test]
fn a_moment_of_zero_is_delivered_too() {
    let mut a = GroupConsumer::new("s", "g", &node(1));
    let holder = a.holder.clone();
    a.converged(Some(&holder));
    a.resume(None);
    assert!(matches!(a.drain(&vec![entry(0, b"z")], false), GroupAction::Deliver { .. }));
}

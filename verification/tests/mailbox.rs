use mycelium_agent::keys::KvEntry;
use mycelium_agent::mailbox::{
    decode_value, deliver_event, drain_chunk, encode_value, mailbox_key, mailbox_prefix, removes, DrainStep, DRAIN_CHUNK,
};
use mycelium_agent::node_id::NodeId;

fn node() -> NodeId {
    NodeId::new("127.0.0.1", 12345).unwrap()
}

fn entry(target: &NodeId, kind: &str, ts: u64, payload: &[u8]) -> KvEntry {
    KvEntry { key: mailbox_key(target, kind, ts), value: encode_value(target, payload) }
}

#[test]
fn encode_decode_roundtrip() {
    let id = node();
    let encoded = encode_value(&id, b"roundtrip");
    let (sender, got) = decode_value(&encoded).unwrap();
    assert_eq!(sender, id);
    assert_eq!(got, b"roundtrip".to_vec());
    assert!(decode_value(&[5]).is_none());
    assert!(decode_value(&[5, 0, b'a']).is_none());
}

#[test]
fn deliver_and_open_mailbox_loopback() {
    let id = node();
    let prefix = mailbox_prefix(&id, "test");
    assert_eq!(prefix, "mailbox/127.0.0.1:12345/test/");
    let (steps, ordered) = drain_chunk(vec![entry(&id, "test", 7, b"hello-mailbox")], &prefix, "test");
    assert_eq!((steps.len(), ordered.len()), (1, 1));
    match &steps[0] {
        DrainStep::Deliver(key, event) => {
            assert_eq!(key, &mailbox_key(&id, "test", 7));
            assert_eq!(event.payload, b"hello-mailbox".to_vec());
            assert_eq!(event.sender, id);
            assert_eq!(event.kind, "test");
            assert_eq!(event.hlc_ts, 7);
        }
        DrainStep::Evict(_) => panic!("a well-formed event is delivered"),
    }
    assert!(removes(&steps[0], true), "a delivered event is removed");
    assert!(!removes(&steps[0], false), "one that was not taken stays");
}

#[test]
fn mailbox_hlc_ordering() {
    let id = node();
    let prefix = mailbox_prefix(&id, "order-test");
    let entries = vec![
        entry(&id, "order-test", 300, &[2]),
        entry(&id, "order-test", 9, &[0]),
        entry(&id, "order-test", 16, &[1]),
    ];
    let (steps, _) = drain_chunk(entries, &prefix, "order-test");
    let received: Vec<u8> = steps
        .iter()
        .map(|s| match s {
            DrainStep::Deliver(_, e) => e.payload[0],
            DrainStep::Evict(_) => panic!("well formed"),
        })
        .collect();
    assert_eq!(received, vec![0, 1, 2], "events not in causal order");
}

#[test]
fn drain_large_burst_in_order() {
    let id = node();
    let prefix = mailbox_prefix(&id, "burst-test");
    let n = DRAIN_CHUNK * 3;
    let mut left: Vec<KvEntry> = (0..n).rev().map(|i| entry(&id, "burst-test", i as u64, &i.to_be_bytes())).collect();
    let mut received: Vec<usize> = Vec::new();
    while !left.is_empty() {
        let (steps, mut ordered) = drain_chunk(left, &prefix, "burst-test");
        assert_eq!(steps.len(), DRAIN_CHUNK);
        left = ordered.split_off(steps.len());
        for s in steps {
            match s {
                DrainStep::Deliver(_, e) => {
                    let arr: [u8; 8] = e.payload.as_slice().try_into().unwrap();
                    received.push(usize::from_be_bytes(arr));
                }
                DrainStep::Evict(_) => panic!("well formed"),
            }
        }
    }
    let expected: Vec<usize> = (0..n).collect();
    assert_eq!(received, expected, "burst events not delivered in causal order");
}

#[test]
fn a_malformed_value_is_evicted() {
    let id = node();
    let prefix = mailbox_prefix(&id, "k");
    let bad = KvEntry { key: mailbox_key(&id, "k", 1), value: vec![1] };
    let (steps, _) = drain_chunk(vec![bad], &prefix, "k");
    assert!(matches!(&steps[0], DrainStep::Evict(_)));
    assert!(removes(&steps[0], false));
}

#[test]
fn an_event_is_delivered_under_its_target_with_its_sender() {
    let to = NodeId::new("10.0.0.7", 80).unwrap();
    let e = deliver_event(&node(), &to, "job", b"hi", 9);
    assert_eq!(e.key, mailbox_key(&to, "job", 9));
    assert_eq!(decode_value(&e.value), Some((node(), b"hi".to_vec())));
}

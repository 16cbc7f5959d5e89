use base64::engine::general_purpose::STANDARD;
use base64::Engine;
use mycelium_agent::http::audit::{
    audit, audit_nodes, heads_reply, identity_revoke, inclusion_reply, revoke_reply, transparency, AuditRecord,
    AuditStream, Inclusion, LogHead, ProofStep, TransparencyQuery,
};
use mycelium_agent::http::capability::{
    advertised, cap_advertise, cap_resolve, capvalue_to_json, demand, demand_reply, fresh_handle_id, handle_id,
    resolve_cap_providers, shard_emit, shard_emit_reply, shard_owner_reply, CapScan, CapTable, CapValue, Capability,
    Requirement, WatchEvent, WatchStep,
};
use mycelium_agent::http::consensus::{
    cluster_electorate, committed_write, consistent_bid, consistent_committed_key, consistent_slot, cross_group_propose,
    elect_proposed, elect_reply, group_electorate, leader_bid, leader_slot, lock_acquire, lock_confirmed, lock_proposed,
    lock_release_reply, proposal_reply, slot_reply, AfterProposal, ConsensusResult,
};
use mycelium_agent::http::govern::{
    explain_since, govern_membership, govern_snapshot, govern_timing, govern_tuning, published, timing_published,
    ParamSnapshot, Ratchet, GOVERN_FLEET_KEY,
};
use mycelium_agent::http::kv::{
    consistent_get, consistent_set, kv_get, kv_keys, kv_quorum, kv_set, quorum_reply, QuorumStart, Write,
};
use mycelium_agent::http::llm::{
    answer_event, answer_reply, call_reply, default_timeout_ms, no_provider, plan, prompt_store_key, prompts_list,
    stream_event, unprovided_event, LlmAnswer,
    LlmPlan, LlmRequest, PromptEntry, PromptSummary,
};
use mycelium_agent::http::mesh::{
    emit_reliable, emitted, gateway_signal_event, mailbox_deliver, mailbox_event, reliable_reply, rpc_call,
    rpc_call_reply, rpc_respond, rpc_serve_event, scatter, signal_emit, signal_event, Gather, SignalScope,
};
use mycelium_agent::http::reply::Reply;
use mycelium_agent::http::status::{
    bulk_nonce, bulk_status, gateway_cert, health, ready, stats, Counters, GatewayCert,
};
use mycelium_agent::json::{parse_json, Json};
use mycelium_agent::keys::KvEntry;
use mycelium_agent::mailbox::MeshEvent;
use mycelium_agent::node_id::NodeId;
use mycelium_agent::rpc::Signal;

fn s(t: &str) -> Json {
    Json::Str(t.to_string())
}

fn o(fields: Vec<(&str, Json)>) -> Json {
    Json::Obj(fields.into_iter().map(|(k, v)| (k.to_string(), v)).collect())
}

fn b64(b: &[u8]) -> String {
    STANDARD.encode(b)
}

fn node(port: u16) -> NodeId {
    NodeId::new("127.0.0.1", port).unwrap()
}

fn err(status: u16, message: &str) -> Reply {
    Reply { status, body: o(vec![("error", s(message))]) }
}

fn ok_body() -> Json {
    o(vec![("ok", Json::Bool(true))])
}

#[test]
fn test_http_health_responds() {
    let r = health(&node(1));
    assert_eq!(r.status, 200);
    assert_eq!(r.body, o(vec![("status", s("ok")), ("node_id", s("127.0.0.1:1"))]));
    assert_eq!(ready(&node(1), false).status, 503);
    assert_eq!(ready(&node(1), false).body.str_at("status"), Some("starting"));
    assert_eq!(ready(&node(1), true).status, 200);
    assert_eq!(ready(&node(1), true).body.str_at("status"), Some("ready"));
}

#[test]
fn test_http_stats_responds() {
    let c = Counters {
        cluster_name: Some("prod".to_string()),
        store_entries: 1,
        peers: 2,
        dropped_frames: 3,
        individual_flood_fallbacks: 4,
        task_count: 5,
        commit_conflicts: 6,
        sys_namespace_violations: 7,
        identity_anchor_conflicts: 8,
        cap_authz_violations: 9,
        schema_mismatch: 10,
        rate_limited_senders: 11,
        governed_group_conflicts: 12,
        capability_coverage_gaps: 13,
        membership_flaps: 14,
        opacity_oscillations: 15,
    };
    let r = stats(&node(1), &c, None, None);
    assert_eq!(r.status, 200);
    assert_eq!(r.body.str_at("cluster_name"), Some("prod"));
    assert_eq!(r.body.u64_at("peers"), Some(2));
    assert_eq!(r.body.u64_at("opacity_oscillations"), Some(15));
    assert_eq!(r.body.at("view_confidence"), Json::Null);
    assert_eq!(stats(&node(1), &c, Some(Json::UInt(9)), None).body.u64_at("opaque_node_pct"), Some(9));
}

#[test]
fn staged_payloads_are_named_in_hexadecimal() {
    assert_eq!(bulk_nonce("ff"), Some(255));
    assert_eq!(bulk_nonce("0x00ff"), Some(255));
    assert_eq!(bulk_nonce("0x0x1"), Some(1));
    assert_eq!(bulk_nonce("zz"), None);
    assert_eq!(bulk_status(None, true), 400);
    assert_eq!(bulk_status(Some(1), false), 404);
    assert_eq!(bulk_status(Some(1), true), 200);
}

#[test]
fn test_gateway_serves_native_tls() {
    assert_eq!(gateway_cert(true, true, false), Ok(GatewayCert::Files));
    assert_eq!(gateway_cert(false, false, true), Ok(GatewayCert::Identity));
    assert!(gateway_cert(false, false, false).is_err());
    assert_eq!(
        gateway_cert(true, false, true),
        Err("gateway_tls: cert_pem_path and key_pem_path must both be set or both unset")
    );
}

#[test]
fn an_advertisement_is_read_with_its_defaults() {
    let body = o(vec![
        ("ns", s("compute")),
        ("name", s("gpu")),
        (
            "attributes",
            o(vec![
                ("model", s("A100")),
                ("cores", Json::UInt(8)),
                ("big", Json::UInt(u64::MAX)),
                ("hot", Json::Bool(true)),
                ("skip", Json::Null),
            ]),
        ),
        ("authorized_callers", Json::Arr(vec![s("orchestrator"), Json::UInt(1)])),
        ("lease_secs", Json::UInt(0)),
    ]);
    let a = cap_advertise(&body, &node(9)).unwrap();
    assert_eq!(a.key, "cap/127.0.0.1:9/compute/gpu");
    assert_eq!((a.interval_secs, a.lease_secs), (30, Some(1)));
    assert_eq!(a.capability.authorized_callers, vec!["orchestrator".to_string()]);
    assert_eq!(
        a.capability.attributes,
        vec![
            ("model".to_string(), CapValue::Text("A100".to_string())),
            ("cores".to_string(), CapValue::Integer(8)),
            ("big".to_string(), CapValue::Float((u64::MAX as f64).to_bits())),
            ("hot".to_string(), CapValue::Bool(true)),
        ]
    );
    assert_eq!(cap_advertise(&o(vec![]), &node(9)), Err(err(400, "missing ns")));
    assert_eq!(cap_advertise(&o(vec![("ns", s("a"))]), &node(9)), Err(err(400, "missing name")));
    assert_eq!(handle_id(255), "ff");
    assert!(!fresh_handle_id().is_empty());
    assert_eq!(advertised("ff").body, o(vec![("handle_id", s("ff"))]));
}

#[test]
fn test_gateway_cap_lease_expires_without_heartbeat() {
    let mut table = CapTable::new();
    table.insert("h1", Some(1));
    table.insert("h2", None);
    assert_eq!(table.watch("h1", WatchEvent::Lapsed), WatchStep::Retracted);
    assert_eq!(table.heartbeat("h1").0, err(404, "handle not found"));
    assert_eq!(table.watch("h1", WatchEvent::Lapsed), WatchStep::Exit, "already retracted");
    assert_eq!(table.heartbeat("h2").0.status, 409, "the other handle stands");
}

#[test]
fn test_gateway_cap_lease_heartbeat_keeps_alive() {
    let mut table = CapTable::new();
    table.insert("h1", Some(1));
    let (reply, restarts) = table.heartbeat("h1");
    assert_eq!((reply.status, restarts), (200, true));
    assert_eq!(table.watch("h1", WatchEvent::Beat), WatchStep::Restart);
    assert_eq!(table.heartbeat("h1").0.body, ok_body());
    assert_eq!(table.watch("h1", WatchEvent::Shutdown), WatchStep::Exit);
    table.insert("plain", None);
    let (reply, restarts) = table.heartbeat("plain");
    assert_eq!(reply, err(409, "handle has no lease (advertised without lease_secs)"));
    assert!(!restarts);
    assert_eq!(table.drop_handle("plain").status, 200);
    assert_eq!(table.drop_handle("plain"), err(404, "handle not found"));
}

fn provider(port: u16, callers: Vec<String>, matches: bool) -> CapScan {
    CapScan {
        key: format!("cap/127.0.0.1:{port}/compute/gpu"),
        capability: Some(Capability {
            namespace: "compute".to_string(),
            name: "gpu".to_string(),
            attributes: vec![("v".to_string(), CapValue::Version(1, 2, 3))],
            authorized_callers: callers,
        }),
        matches,
    }
}

#[test]
fn providers_are_resolved_as_their_callers_may_see_them() {
    let scan = vec![
        provider(1, vec![], true),
        provider(2, vec!["alice".to_string()], true),
        provider(3, vec![], false),
        CapScan { key: "cap/127.0.0.1:4/locality/self".to_string(), capability: None, matches: true },
        CapScan { key: "cap/nonsense".to_string(), capability: None, matches: true },
    ];
    let count = |caller: Option<&str>| cap_resolve(&scan, caller).body.at("providers").as_array().unwrap().len();
    assert_eq!(count(None), 2);
    assert_eq!(count(Some("alice")), 2);
    assert_eq!(count(Some("bob")), 1);
    let first = cap_resolve(&scan, None).body.at("providers").item(0);
    assert_eq!(first.str_at("node_id"), Some("127.0.0.1:1"));
    assert_eq!(first.at("attributes").str_at("v"), Some("1.2.3"));
    assert_eq!(resolve_cap_providers(&scan), vec![node(1), node(2)]);
    let reqs = vec![
        Some(Requirement { namespace: "compute".to_string(), name: "gpu".to_string() }),
        Some(Requirement { namespace: "compute".to_string(), name: "cpu".to_string() }),
        None,
    ];
    assert_eq!(demand(&scan, &reqs, "compute", "gpu"), (2, 1));
    let r = demand_reply("compute", "gpu", 2, 1, 0.5f64.to_bits());
    assert_eq!(r.body.at("demand_pressure"), Json::Real(0.5f64.to_bits()));
    assert_eq!(capvalue_to_json(&CapValue::Integer(-1)), Json::NegInt(-1));
}

#[test]
fn shard_keys_have_owners_or_no_provider() {
    assert_eq!(shard_owner_reply(Some(&node(3))).body.str_at("owner"), Some("127.0.0.1:3"));
    assert_eq!(shard_owner_reply(None), err(404, "no providers"));
    assert_eq!(shard_emit_reply(None).status, 404);
    assert_eq!(shard_emit_reply(Some(&node(3))).body.str_at("owner"), Some("127.0.0.1:3"));
    let full = vec![("kind", "actor.msg"), ("ns", "actor"), ("name", "user"), ("shard_key", "user-12345")];
    for missing in 0..4 {
        let body = o(full.iter().enumerate().filter(|(i, _)| *i != missing).map(|(_, (k, v))| (*k, s(v))).collect());
        assert_eq!(shard_emit(&body), Err(err(400, &format!("missing {}", full[missing].0))));
    }
    let mut fields: Vec<(&str, Json)> = full.iter().map(|(k, v)| (*k, s(v))).collect();
    fields.push(("payload_b64", s("!!")));
    assert_eq!(shard_emit(&o(fields)), Err(err(400, "invalid base64")));
    let mut fields: Vec<(&str, Json)> = full.iter().map(|(k, v)| (*k, s(v))).collect();
    fields.push(("payload_b64", s(&b64(b"hi"))));
    assert_eq!(shard_emit(&o(fields)).unwrap().payload, b"hi".to_vec());
}

#[test]
fn a_signal_goes_where_its_scope_says_and_nowhere_else() {
    let emit = |scope: &str| signal_emit(&o(vec![("kind", s("k")), ("scope", s(scope))]));
    assert_eq!(signal_emit(&o(vec![("kind", s("k"))])).unwrap().scope, SignalScope::Cluster);
    assert_eq!(emit("system").unwrap().scope, SignalScope::Cluster);
    assert_eq!(emit("group:nlp").unwrap().scope, SignalScope::Group("nlp".to_string()));
    assert_eq!(emit("node:127.0.0.1:5").unwrap().scope, SignalScope::Individual(node(5)));
    assert_eq!(emit("node:nonsense"), Err(err(400, "invalid node id")));
    assert_eq!(
        emit("grp:nlp"),
        Err(err(400, "unknown scope; expected \"cluster\" | \"group:<name>\" | \"node:<id>\""))
    );
    assert_eq!(signal_emit(&o(vec![])), Err(err(400, "missing kind")));
    assert_eq!(
        signal_emit(&o(vec![("kind", s("k")), ("payload_b64", s("***"))])),
        Err(err(400, "invalid base64 payload"))
    );
    assert_eq!(emitted(false).body, o(vec![("ok", Json::Bool(false))]));
}

#[test]
fn test_sse_delivers_signals() {
    let sig = Signal { kind: "k".to_string(), sender: node(1), payload: b"hello".to_vec() };
    assert_eq!(signal_event(&sig), o(vec![("sender", s("127.0.0.1:1")), ("payload", s("aGVsbG8="))]));
    let e = gateway_signal_event(&sig, 7);
    assert_eq!(e.str_at("payload_b64"), Some("aGVsbG8="));
    assert_eq!(e.u64_at("nonce"), Some(7));
    assert!(rpc_serve_event(&sig).is_none(), "too short for a nonce");
    let mut payload = 255u64.to_le_bytes().to_vec();
    payload.extend_from_slice(b"app");
    let e = rpc_serve_event(&Signal { kind: "k".to_string(), sender: node(1), payload }).unwrap();
    assert_eq!(e.str_at("nonce_hex"), Some("00000000000000ff"));
    assert_eq!(e.str_at("payload_b64"), Some(b64(b"app").as_str()));
    let back = rpc_respond(&o(vec![
        ("nonce_hex", s("00000000000000ff")),
        ("sender", s("127.0.0.1:1")),
        ("result_b64", s(&b64(b"done"))),
    ]))
    .unwrap();
    assert_eq!(back.target, node(1));
    assert_eq!(&back.payload[..8], &255u64.to_le_bytes());
    assert_eq!(&back.payload[8..], b"done");
}

#[test]
fn calls_are_read_and_bounded() {
    let base = |extra: Vec<(&'static str, Json)>| {
        let mut f = vec![("target", s("127.0.0.1:2")), ("method", s("m"))];
        f.extend(extra);
        o(f)
    };
    assert_eq!(rpc_call(&base(vec![])).unwrap().timeout_secs, 30);
    assert_eq!(rpc_call(&base(vec![("timeout_secs", Json::UInt(0))])).unwrap().timeout_secs, 1);
    assert_eq!(rpc_call(&base(vec![("timeout_secs", Json::UInt(9_999))])).unwrap().timeout_secs, 300);
    assert_eq!(rpc_call(&o(vec![])), Err(err(400, "missing target")));
    assert_eq!(rpc_call(&o(vec![("target", s("x"))])), Err(err(400, "invalid target node id")));
    assert_eq!(rpc_call(&o(vec![("target", s("127.0.0.1:2"))])), Err(err(400, "missing method")));
    assert_eq!(rpc_call(&base(vec![("payload_b64", s("*"))])), Err(err(400, "invalid base64 payload")));
    assert_eq!(rpc_call_reply(Some(b"r")).body.str_at("result_b64"), Some(b64(b"r").as_str()));
    assert_eq!(rpc_call_reply(None).status, 504);
    assert_eq!(rpc_respond(&o(vec![])), Err(err(400, "missing nonce_hex")));
    assert_eq!(rpc_respond(&o(vec![("nonce_hex", s("q"))])), Err(err(400, "invalid nonce_hex")));
    assert_eq!(rpc_respond(&o(vec![("nonce_hex", s("1"))])), Err(err(400, "missing or invalid sender")));
    assert_eq!(
        rpc_respond(&o(vec![("nonce_hex", s("1")), ("sender", s("127.0.0.1:1")), ("result_b64", s("*"))])),
        Err(err(400, "invalid base64 result"))
    );
    assert_eq!(emit_reliable("127.0.0.1:2", "k", None, None).unwrap().timeout_secs, 5);
    assert_eq!(emit_reliable("x", "k", None, None), Err(err(400, "invalid target node id")));
    assert_eq!(emit_reliable("127.0.0.1:2", "k", Some("*"), None), Err(err(400, "invalid base64 payload")));
    assert_eq!(reliable_reply(true).body.str_at("ack"), Some("acknowledged"));
    assert_eq!(reliable_reply(false).body.str_at("ack"), Some("timeout"));
}

#[test]
fn a_scatter_stops_at_enough_replies() {
    let body = o(vec![
        ("targets", Json::Arr(vec![s("127.0.0.1:1"), s("nonsense"), s("127.0.0.1:2")])),
        ("method", s("m")),
        ("min_ok", Json::UInt(2)),
    ]);
    let plan = scatter(&body).unwrap();
    assert_eq!(plan.targets, vec![node(1), node(2)]);
    assert_eq!((plan.timeout_secs, plan.min_ok), (10, 2));
    let mut g = Gather::new(plan.min_ok);
    assert!(!g.joined(&node(1), Some(b"a")));
    assert!(!g.joined(&node(3), None));
    assert!(g.joined(&node(2), Some(b"b")));
    let r = g.finish();
    assert_eq!(r.status, 200);
    assert_eq!(r.body.at("replies").as_array().unwrap().len(), 2);
    let r = Gather::new(1).finish();
    assert_eq!(r.status, 504);
    assert_eq!(r.body.str_at("error"), Some("insufficient replies"));
    assert_eq!(scatter(&o(vec![])), Err(err(400, "missing targets")));
    assert_eq!(scatter(&o(vec![("targets", Json::Arr(vec![]))])), Err(err(400, "missing method")));
    assert_eq!(
        scatter(&o(vec![("targets", Json::Arr(vec![])), ("method", s("m")), ("payload_b64", s("*"))])),
        Err(err(400, "invalid base64 payload"))
    );
}

#[test]
fn events_are_delivered_to_mailboxes() {
    let d = mailbox_deliver(&o(vec![("target", s("127.0.0.1:2")), ("kind", s("k"))])).unwrap();
    assert_eq!((d.target, d.kind.as_str(), d.payload), (node(2), "k", vec![]));
    assert_eq!(mailbox_deliver(&o(vec![])), Err(err(400, "missing or invalid target")));
    assert_eq!(mailbox_deliver(&o(vec![("target", s("127.0.0.1:2"))])), Err(err(400, "missing kind")));
    assert_eq!(
        mailbox_deliver(&o(vec![("target", s("127.0.0.1:2")), ("kind", s("k")), ("payload_b64", s("*"))])),
        Err(err(400, "invalid base64 payload"))
    );
    let e = mailbox_event(&MeshEvent { kind: "k".to_string(), sender: node(1), payload: b"p".to_vec(), hlc_ts: 1 });
    assert_eq!(e.str_at("payload_b64"), Some(b64(b"p").as_str()));
}

#[test]
fn what_is_written_is_read() {
    let w = kv_set(&o(vec![("key", s("a")), ("value_b64", s(&b64(&[0, 255])))])).unwrap();
    assert_eq!((w.key.as_str(), w.value.clone()), ("a", vec![0, 255]));
    assert_eq!(kv_get(Some(&w.value)).body.str_at("value_b64"), Some(b64(&[0, 255]).as_str()));
    assert_eq!(kv_get(None).body, o(vec![("found", Json::Bool(false))]));
    assert_eq!(kv_set(&o(vec![])), Err(err(400, "missing key")));
    assert_eq!(kv_set(&o(vec![("key", s("a")), ("value_b64", s("*"))])), Err(err(400, "invalid base64")));
    assert_eq!(
        consistent_set(&o(vec![("key", s("a")), ("value_b64", s("*"))])),
        Err(err(400, "invalid base64 value"))
    );
    let kv = vec![
        KvEntry { key: "a/1".to_string(), value: vec![] },
        KvEntry { key: "b/1".to_string(), value: vec![] },
    ];
    assert_eq!(kv_keys(&kv, Some("a/")).body, o(vec![("keys", Json::Arr(vec![s("a/1")]))]));
    assert_eq!(kv_keys(&kv, None).body.at("keys").as_array().unwrap().len(), 2);
}

#[test]
fn test_consistent_set_and_get_two_nodes() {
    assert_eq!(consistent_slot("cfg/x"), "consistent/cfg/x");
    assert_eq!(consistent_committed_key("cfg/x"), "consensus/committed/consistent/cfg/x");
    assert_eq!(proposal_reply(ConsensusResult::Committed).body, ok_body());
    let write = || Write { key: "cfg/x".to_string(), value: b"hello".to_vec() };
    assert_eq!(committed_write(write(), &ConsensusResult::Committed), Some(write()));
    assert_eq!(committed_write(write(), &ConsensusResult::Superseded), None);
    assert_eq!(committed_write(write(), &ConsensusResult::Timeout { ballots_tried: 1 }), None);
    let r = consistent_get(Some(b"hello"), Some(b"plain"));
    assert_eq!(r.body.str_at("value_b64"), Some(b64(b"hello").as_str()));
    let r = consistent_get(None, Some(b"plain"));
    assert_eq!(r.body.str_at("value_b64"), Some(b64(b"plain").as_str()));
}

#[test]
fn test_consistent_set_single_node_succeeds() {
    assert_eq!(cluster_electorate(0), 1);
    assert_eq!(cluster_electorate(4), 5);
    assert_eq!(group_electorate(0), 1);
    assert_eq!(group_electorate(1), 1, "the roster counts this node already");
    assert_eq!(group_electorate(3), 3);
    let bid = consistent_bid(&Write { key: "cfg/x".to_string(), value: b"v".to_vec() }, 4);
    assert_eq!((bid.slot.as_str(), bid.value, bid.electorate), ("consistent/cfg/x", b"v".to_vec(), 5));
    let bid = leader_bid("g", &node(4), 3);
    assert_eq!((bid.slot.as_str(), bid.electorate), ("leader/g", 3));
    assert_eq!(elect_reply(Some(&bid.value)).body.str_at("leader"), Some("127.0.0.1:4"), "the winner is named");
    assert_eq!(leader_bid("g", &node(4), 0).electorate, 1);
}

#[test]
fn test_consistent_set_timeout_unreachable_quorum() {
    let r = proposal_reply(ConsensusResult::Timeout { ballots_tried: 1 });
    assert_eq!(r.status, 504);
    assert_eq!(r.body.str_at("error"), Some("consensus timed out after 1 ballot(s)"));
    assert_eq!(proposal_reply(ConsensusResult::Superseded).status, 409);
    assert_eq!(proposal_reply(ConsensusResult::TopologyUnsatisfied).body.str_at("error"), Some("topology_unsatisfied"));
}

#[test]
fn regression_gateway_rejects_hostile_inputs_without_crashing() {
    match kv_quorum(&b64(b"v"), false, 1) {
        QuorumStart::Refuse(r) => assert_eq!(r, err(400, "timeout_secs must be a finite, non-negative number")),
        _ => panic!("refused"),
    }
    match kv_quorum("*", true, 1) {
        QuorumStart::Refuse(r) => assert_eq!(r, err(400, "invalid base64")),
        _ => panic!("refused"),
    }
    assert!(matches!(kv_quorum(&b64(b"v"), true, 0), QuorumStart::WriteOnly { .. }));
    match kv_quorum(&b64(b"v"), true, 2) {
        QuorumStart::Track { value } => assert_eq!(value, b"v".to_vec()),
        _ => panic!("tracked"),
    }
    assert_eq!(quorum_reply(2, false).body.u64_at("acks_received"), Some(2));
    let late = quorum_reply(1, true);
    assert_eq!((late.status, late.body.str_at("error")), (200, Some("timeout")));
    let hostile = format!("€{}", "a".repeat(61));
    assert_eq!(
        transparency(Some("127.0.0.1:1"), Some(&hostile)),
        Err(err(400, "key must be 64 hex chars"))
    );
}

#[test]
fn locks_and_elections_answer_what_converged() {
    let plan = lock_acquire("x", None);
    assert_eq!((plan.slot.as_str(), plan.ttl_secs), ("lock/x", 30));
    assert_eq!(lock_acquire("x", Some(0)).ttl_secs, 1);
    assert_eq!(lock_acquire("x", Some(99_999)).ttl_secs, 3600);
    assert_eq!(lock_proposed(ConsensusResult::Committed), AfterProposal::Converge);
    match lock_proposed(ConsensusResult::Timeout { ballots_tried: 2 }) {
        AfterProposal::Answer(r) => assert_eq!(r.body.str_at("error"), Some("timeout after 2 ballot(s)")),
        _ => panic!("answered"),
    }
    let (token, reply) = lock_confirmed(b"me:1", Some((b"me:1", u64::MAX)), "g");
    assert_eq!(token, Some(u64::MAX));
    assert_eq!(reply.body.str_at("token"), Some("18446744073709551615"));
    let (token, reply) = lock_confirmed(b"me:1", Some((b"you:1", 5)), "g");
    assert_eq!((token, reply.status), (None, 409));
    assert_eq!(lock_release_reply(true).body, ok_body());
    assert_eq!(lock_release_reply(false).status, 404);
    assert_eq!(leader_slot("g"), "leader/g");
    assert_eq!(elect_proposed(ConsensusResult::Committed), AfterProposal::Converge);
    assert_eq!(elect_proposed(ConsensusResult::Superseded), AfterProposal::Read);
    assert!(matches!(elect_proposed(ConsensusResult::TopologyUnsatisfied), AfterProposal::Answer(_)));
    assert_eq!(elect_reply(Some(b"127.0.0.1:2")).body.str_at("leader"), Some("127.0.0.1:2"));
    assert_eq!(elect_reply(None).status, 409);
    assert_eq!(elect_reply(Some(&[0xff])).status, 409);
    assert_eq!(cross_group_propose(Some(&b64(b"v")), 1), Ok(b"v".to_vec()));
    assert_eq!(cross_group_propose(None, 0), Err(err(400, "groups must not be empty")));
    assert_eq!(cross_group_propose(Some("*"), 0), Err(err(400, "invalid base64 value")));
    let r = slot_reply("x", None, true, Some(5), 3);
    assert_eq!(r.body.at("lease_expired"), Json::Bool(true));
    assert_eq!(r.body.at("committed"), Json::Null);
    assert_eq!(slot_reply("x", Some(b"v"), true, None, 3).body.at("lease_expired"), Json::Bool(false));
}

#[test]
fn test_gateway_govern_publish_and_snapshot() {
    let known = vec!["writer_depth".to_string()];
    let body = o(vec![
        ("enabled", Json::Bool(true)),
        (
            "params",
            Json::Arr(vec![o(vec![
                ("param", s("writer_depth")),
                ("floor", Json::UInt(1024)),
                ("ceiling", Json::UInt(8192)),
                ("ratchet", s("up")),
            ])]),
        ),
        ("target", s("10.0.0.5:9000")),
    ]);
    let i = govern_tuning(&body, &known).unwrap();
    assert_eq!(i.enabled, Some(true));
    assert_eq!((i.params[0].floor, i.params[0].ceiling, i.params[0].ratchet), (Some(1024), Some(8192), Ratchet::Up));
    assert_eq!(i.target, NodeId::parse("10.0.0.5:9000"));
    assert_eq!(govern_tuning(&o(vec![]), &known), Err(err(400, "intent must set 'enabled' or 'params'")));
    let one = |d: Json| govern_tuning(&o(vec![("params", Json::Arr(vec![d]))]), &known);
    assert_eq!(one(o(vec![])), Err(err(400, "param directive missing 'param'")));
    assert_eq!(one(o(vec![("param", s("x"))])), Err(err(400, "unknown param 'x'")));
    assert_eq!(
        one(o(vec![("param", s("writer_depth")), ("ratchet", s("sideways"))])),
        Err(err(400, "unknown ratchet 'sideways'"))
    );
    assert_eq!(
        govern_tuning(&o(vec![("enabled", Json::Bool(false)), ("target", s("x"))]), &known),
        Err(err(400, "invalid target node id"))
    );
    assert_eq!(published(true, GOVERN_FLEET_KEY).body.str_at("key"), Some("sys/govern/fleet"));
    let params = vec![ParamSnapshot {
        param: "writer_depth".to_string(),
        floor: 1,
        ceiling: 2,
        ratchet: Ratchet::Down,
        locally_pinned: true,
    }];
    let snap = govern_snapshot(&node(1), true, &params);
    assert_eq!(snap.body.at("params").item(0).str_at("ratchet"), Some("down"));
}

#[test]
fn sizing_and_timing_intents_are_read() {
    let body = o(vec![
        ("group", s("workers")),
        ("min", Json::UInt(3)),
        ("max", Json::UInt(10)),
        ("drain", Json::Arr(vec![s("10.0.0.5:9000")])),
        ("target", Json::Null),
    ]);
    let i = govern_membership(&body).unwrap();
    assert_eq!((i.min, i.max, i.drain.len()), (3, Some(10), 1));
    assert!(i.target.is_none());
    assert_eq!(i.key(), "sys/govern/membership/workers");
    assert_eq!(govern_membership(&o(vec![])), Err(err(400, "missing 'group'")));
    assert_eq!(govern_membership(&o(vec![("group", s("workers"))])), Err(err(400, "missing 'min'")));
    let drain = |v: Json| {
        govern_membership(&o(vec![("group", s("g")), ("min", Json::UInt(1)), ("drain", Json::Arr(vec![v]))]))
    };
    assert_eq!(drain(Json::UInt(1)), Err(err(400, "drain entries must be node-id strings")));
    assert_eq!(drain(s("x")), Err(err(400, "invalid drain node id 'x'")));
    let t = govern_timing(&o(vec![("health_check_interval_secs", Json::UInt(2)), ("target", s("x"))]));
    assert_eq!((t.health_check_interval_secs, t.reconnect_backoff_secs), (2, 0));
    assert!(t.target.is_none());
    assert_eq!(timing_published(true, "k").body.at("published"), Json::Bool(true));
    assert_eq!(explain_since(Some("12")), 12);
    assert_eq!(explain_since(Some("x")), 0);
    assert_eq!(explain_since(None), 0);
}

fn record(seq: u64) -> AuditRecord {
    AuditRecord {
        seq,
        hlc: seq,
        principal: "p".to_string(),
        action: "Admin".to_string(),
        target: "t".to_string(),
        outcome: "Success".to_string(),
        detail: None,
        content_hash: [seq as u8; 32],
    }
}

#[test]
fn test_gateway_audit_endpoint_verifies_and_scope_gates() {
    let streams =
        vec![AuditStream { node: node(1), records: vec![record(0), record(1), record(2)], verify_error: None }];
    let r = audit(&streams, Some(2)).body.at("streams").item(0);
    assert_eq!(r.u64_at("count"), Some(3), "the whole stream is counted");
    assert_eq!(r.at("verified"), Json::Bool(true));
    let shown = r.at("records");
    assert_eq!(shown.as_array().unwrap().len(), 2);
    assert_eq!(shown.item(0).u64_at("seq"), Some(1), "the newest, in order");
    assert_eq!(r.str_at("head_hash"), Some("02".repeat(32).as_str()));
    let all = audit(&streams, None).body.at("streams").item(0);
    assert_eq!(all.at("records").as_array().unwrap().len(), 3);
    assert_eq!(audit_nodes(Some("x"), vec![]), Err(err(400, "invalid node id")));
    assert_eq!(audit_nodes(Some("127.0.0.1:7"), vec![]), Ok(vec![node(7)]));
    assert_eq!(audit_nodes(None, vec![node(1)]), Ok(vec![node(1)]));
}

#[test]
fn test_gateway_transparency_inclusion_proof_verifies_and_scope_gates() {
    let key = "ab".repeat(32);
    assert_eq!(
        transparency(Some("127.0.0.1:1"), Some(&key)),
        Ok(TransparencyQuery::Proof { node: node(1), key: [0xab; 32] })
    );
    assert_eq!(transparency(Some("127.0.0.1:1"), None), Ok(TransparencyQuery::Heads));
    assert_eq!(transparency(Some("x"), Some(&key)), Err(err(400, "invalid node id")));
    let inclusion = Inclusion {
        leaf: [1; 32],
        index: 0,
        proof: vec![ProofStep { sibling: [2; 32], on_right: true }],
        root: [3; 32],
    };
    let r = inclusion_reply(&node(1), &key, Some(&inclusion));
    assert_eq!(r.body.at("included"), Json::Bool(true));
    assert_eq!(r.body.at("proof").item(0).str_at("sibling"), Some("02".repeat(32).as_str()));
    assert_eq!(inclusion_reply(&node(1), &key, None).body.at("included"), Json::Bool(false));
    let heads = heads_reply(&vec![LogHead { node: node(1), root: [3; 32], count: 1 }]);
    assert_eq!(heads.body.at("nodes").item(0).u64_at("count"), Some(1));
}

#[test]
fn a_key_is_revoked_by_its_hexadecimal_name() {
    let key = "0f".repeat(32);
    let r = identity_revoke(&o(vec![("revoked_key", s(&key)), ("reason", s("lost"))])).unwrap();
    assert_eq!((r.revoked_key, r.reason.as_deref()), ([0x0f; 32], Some("lost")));
    assert_eq!(identity_revoke(&o(vec![])), Err(err(400, "missing revoked_key (64 hex chars)")));
    assert_eq!(
        identity_revoke(&o(vec![("revoked_key", s("ff"))])),
        Err(err(400, "revoked_key must be 64 hex chars"))
    );
    assert_eq!(revoke_reply(&key, None).body.str_at("revoked_key"), Some(key.as_str()));
    assert_eq!(revoke_reply(&key, Some("no identity")), err(422, "no identity"));
}

fn ask() -> LlmRequest {
    LlmRequest {
        ns: "nlp".to_string(),
        name: "sum".to_string(),
        input: "text".to_string(),
        context: vec![("lang".to_string(), "en".to_string())],
    }
}

#[test]
fn test_llm_call_no_provider_returns_404() {
    assert_eq!(plan(&vec![], &ask()), LlmPlan::NoProvider);
    let r = no_provider();
    assert_eq!((r.status, r.body.str_at("error")), (404, Some("no_provider")));
}

#[test]
fn prompts_are_invoked_and_listed() {
    match plan(&vec![node(4), node(5)], &ask()) {
        LlmPlan::Call { target, payload } => {
            assert_eq!(target, node(4));
            let sent = parse_json(&payload).unwrap();
            assert_eq!(sent.str_at("prompt"), Some("nlp/sum"));
            assert_eq!(sent.at("context").str_at("lang"), Some("en"));
        }
        LlmPlan::NoProvider => panic!("there are two"),
    }
    let done = LlmAnswer::Json(o(vec![("output", s("short"))]));
    let r = answer_reply(&node(4), &done);
    assert_eq!((r.status, r.body.str_at("output"), r.body.str_at("provider")), (200, Some("short"), Some("127.0.0.1:4")));
    let failed = LlmAnswer::Json(o(vec![("error", s("llm_error"))]));
    assert_eq!(answer_reply(&node(4), &failed).status, 502);
    assert_eq!(answer_reply(&node(4), &LlmAnswer::Garbage).body.str_at("error"), Some("parse_error"));
    assert_eq!(answer_reply(&node(4), &LlmAnswer::Timeout).status, 504);
    assert_eq!(unprovided_event().str_at("error"), Some("no_provider"));
    assert_eq!(answer_event(&LlmAnswer::Timeout).str_at("error"), Some("timeout"));
    assert_eq!(answer_event(&done), o(vec![("type", s("done")), ("output", s("short"))]));
    assert_eq!(call_reply(&node(4), Some(br#"{"output":"short"}"#)), answer_reply(&node(4), &done));
    assert_eq!(call_reply(&node(4), Some(b"{")).body.str_at("error"), Some("parse_error"));
    assert_eq!(call_reply(&node(4), None).status, 504);
    assert_eq!(stream_event(Some(br#"{"output":"short"}"#)).str_at("output"), Some("short"));
    let error = |what: Json| o(vec![("type", s("error")), ("error", what)]);
    assert_eq!(stream_event(Some(b"{")), error(s("parse_error")));
    assert_eq!(stream_event(Some(br#"{"error":"llm_error","detail":"x"}"#)), error(s("llm_error")));
    assert_eq!(stream_event(Some(br#"{"error":null,"output":"short"}"#)), error(Json::Null));
    assert_eq!(stream_event(Some(b"{}")), o(vec![("type", s("done")), ("output", s(""))]));
    assert_eq!(stream_event(None).str_at("error"), Some("timeout"));
    assert_eq!(answer_event(&LlmAnswer::Garbage), error(s("parse_error")));
    assert_eq!(answer_event(&failed), error(s("llm_error")));
    assert_eq!(default_timeout_ms(), 30_000);
    assert_eq!(prompt_store_key("nlp", "sum"), "prompts/nlp/sum");
    let summary = || Some(PromptSummary { max_tokens: 9, temperature_bits: 0, metadata: Json::Null });
    let list = prompts_list(&vec![
        PromptEntry { key: "prompts/nlp/sum".to_string(), prompt: summary() },
        PromptEntry { key: "prompts/nlp/".to_string(), prompt: summary() },
        PromptEntry { key: "prompts/nlp".to_string(), prompt: summary() },
        PromptEntry { key: "prompts/nlp/bad".to_string(), prompt: None },
    ]);
    assert_eq!(list.body.as_array().unwrap().len(), 1);
    assert_eq!(list.body.item(0).u64_at("max_tokens"), Some(9));
}

#[test]
fn a_number_beyond_the_signed_range_is_the_nearest_real() {
    let first = 1u64 << 63;
    let mut cases = vec![first, first + 1024, first + 1025, first + 3071, first + 3072, first + 3073, u64::MAX - 1024];
    cases.push(u64::MAX);
    for n in cases {
        let body = o(vec![("ns", s("a")), ("name", s("b")), ("attributes", o(vec![("n", Json::UInt(n))]))]);
        let a = cap_advertise(&body, &node(9)).unwrap();
        assert_eq!(a.capability.attributes, vec![("n".to_string(), CapValue::Float((n as f64).to_bits()))]);
    }
}

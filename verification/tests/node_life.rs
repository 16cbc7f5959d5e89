use mycelium_agent::agent::AgentState;
use mycelium_agent::error::GossipError;
use mycelium_agent::json::Json;
use mycelium_agent::keys::KvEntry;
use mycelium_agent::lifecycle::{
    admit_start, advertise_locality, after_failure, after_shutdown, detector_port, http_addr_error, identity_proof_key,
    identity_step, listener_count, marker_step, next_stage, prewarm_peer_localities, shutdown_adverts, shutdown_loads,
    warm_quorum, IdentityEntry, IdentityStep, LocalityEntry, MarkerStep, StartPlan, StartRequest, StartStage,
};
use mycelium_agent::node_id::NodeId;
use mycelium_agent::numeral::{parse_radix, to_decimal, to_hex, to_hex16, to_hex_byte};
use mycelium_agent::order::text_at_or_before;
use mycelium_agent::provider_enforcement::{
    advertises, ask, check, context_refusal, gate, preflight_params, request_principal, Caller, Gate, ProviderRefusal,
    Question, RequestPrincipal,
};
use mycelium_agent::text::{join, rsplit_once, split_once, strip_prefix, strip_suffix};

fn s(t: &str) -> Json {
    Json::Str(t.to_string())
}

fn o(fields: Vec<(&str, Json)>) -> Json {
    Json::Obj(fields.into_iter().map(|(k, v)| (k.to_string(), v)).collect())
}

fn node(port: u16) -> NodeId {
    NodeId::new("127.0.0.1", port).unwrap()
}

fn request() -> StartRequest {
    StartRequest {
        invalid: None,
        bind_address: "127.0.0.1".to_string(),
        bind_addr: Ok("127.0.0.1:1".to_string()),
        node_addr: "127.0.0.1:1".to_string(),
    }
}

#[test]
fn a_node_starts_once() {
    let mut state = AgentState::Idle;
    let mut bad = request();
    bad.node_addr = "127.0.0.1:2".to_string();
    assert_eq!(
        admit_start(&mut state, &node(2), bad),
        Err(GossipError::NodeIdMismatch { node_id: "127.0.0.1:2".to_string(), bind_addr: "127.0.0.1:1".to_string() })
    );
    let mut bad = request();
    bad.bind_addr = Err("invalid IP address syntax".to_string());
    bad.bind_address = "nowhere".to_string();
    assert_eq!(
        admit_start(&mut state, &node(1), bad),
        Err(GossipError::InvalidField {
            field: "bind_address".to_string(),
            reason: "'nowhere': invalid IP address syntax".to_string(),
        })
    );
    let mut bad = request();
    bad.invalid = Some(GossipError::Io("x".to_string()));
    assert_eq!(admit_start(&mut state, &node(1), bad), Err(GossipError::Io("x".to_string())));
    assert_eq!(state, AgentState::Idle, "a refused start changes nothing");
    assert_eq!(admit_start(&mut state, &node(1), request()), Ok(()));
    assert_eq!(admit_start(&mut state, &node(1), request()), Err(GossipError::AlreadyRunning));
    // A port that cannot be bound gives the node back.
    state = after_failure(StartStage::Listen, state);
    assert_eq!(admit_start(&mut state, &node(1), request()), Ok(()));
    assert_eq!(after_failure(StartStage::Gateway, state), AgentState::Running);
    state = after_shutdown(state);
    assert_eq!(admit_start(&mut state, &node(1), request()), Err(GossipError::Shutdown));
    assert_eq!(after_shutdown(AgentState::Idle), AgentState::Idle);
}

#[test]
fn stages_run_in_order_and_optional_ones_are_skipped() {
    let mut plan = StartPlan {
        persistence: false,
        identity: false,
        detector: false,
        gateway: false,
        audit_sink: false,
        rate_observation: false,
        emergent: false,
    };
    let run = |p: &StartPlan| {
        let mut out = Vec::new();
        let mut last = None;
        while let Some(s) = next_stage(p, last) {
            out.push(s);
            last = Some(s);
        }
        out
    };
    assert_eq!(
        run(&plan),
        vec![StartStage::WarmUp, StartStage::Listen, StartStage::Loops, StartStage::Groups, StartStage::Ready]
    );
    plan.persistence = true;
    plan.identity = true;
    plan.gateway = true;
    let stages = run(&plan);
    assert_eq!(stages[0], StartStage::Replay, "what was persisted is there before anything reads the store");
    assert_eq!(stages[2], StartStage::Identity, "the identity is there before anything listens");
    assert_eq!(stages.len(), 8);
    assert_eq!(listener_count(0), 1);
    assert_eq!(listener_count(3), 3);
    assert_eq!(listener_count(64), 4);
    assert_eq!(detector_port(None, 7), 7);
    assert_eq!(detector_port(Some(9), 7), 9);
    assert_eq!(
        http_addr_error("x"),
        GossipError::InvalidField {
            field: "http_addr".to_string(),
            reason: "'x' is not a valid IP address".to_string(),
        }
    );
}

#[test]
fn the_marker_waits_for_a_peer_but_not_for_a_shutdown() {
    assert_eq!(marker_step(false, 0, false), MarkerStep::Wait);
    assert_eq!(marker_step(true, 0, false), MarkerStep::Publish);
    assert_eq!(marker_step(false, 5_000, false), MarkerStep::Publish);
    assert_eq!(marker_step(true, 0, true), MarkerStep::Stop);
}

#[test]
fn recent_senders_are_remembered_across_a_restart() {
    let at = |ms: u64| ms.to_le_bytes().to_vec();
    let kv = vec![
        KvEntry { key: "sys/quorum/a/b/127.0.0.1:1".to_string(), value: at(900_000) },
        KvEntry { key: "sys/quorum/k/127.0.0.1:2".to_string(), value: at(100) },
        KvEntry { key: "sys/quorum/k/nonsense".to_string(), value: at(900_000) },
        KvEntry { key: "sys/quorum/k/127.0.0.1:3".to_string(), value: vec![1] },
        KvEntry { key: "sys/quorum/k/127.0.0.1:4".to_string(), value: at(2_000_000) },
    ];
    let seeds = warm_quorum(&kv, 1_000_000, 600);
    assert_eq!(seeds.len(), 2);
    assert_eq!((seeds[0].kind.as_str(), &seeds[0].sender, seeds[0].age_ms), ("a/b", &node(1), 100_000));
    assert_eq!((&seeds[1].sender, seeds[1].age_ms), (&node(4), 0), "a clock ahead is no age");
}

#[test]
fn localities_and_identities_are_read_from_the_store() {
    let path = || Some(vec!["eu".to_string(), "rack1".to_string()]);
    let found = prewarm_peer_localities(&vec![
        LocalityEntry { key: "cap/127.0.0.1:1/locality/self".to_string(), path: path() },
        LocalityEntry { key: "cap/127.0.0.1:1/x/locality/self".to_string(), path: path() },
        LocalityEntry { key: "cap/127.0.0.1:2/locality/self".to_string(), path: None },
        LocalityEntry { key: "cap/127.0.0.1:1/compute/gpu".to_string(), path: path() },
    ]);
    assert_eq!(found.len(), 1);
    assert_eq!((&found[0].node, found[0].path.len()), (&node(1), 2));
    assert_eq!(advertise_locality(&node(1), &vec![]), None);
    assert_eq!(
        advertise_locality(&node(1), &vec!["eu".to_string()]),
        Some("cap/127.0.0.1:1/locality/self".to_string())
    );
    let e = |key: &str, keys| identity_step(&IdentityEntry { key: key.to_string(), keys });
    assert_eq!(e("sys/identity/127.0.0.1:1", Some(vec![[1; 32]])), IdentityStep::Merge(node(1)));
    assert_eq!(e("sys/identity/127.0.0.1:1", Some(vec![])), IdentityStep::Ignore);
    assert_eq!(e("sys/identity/127.0.0.1:1", None), IdentityStep::Forget(node(1)));
    assert_eq!(e("sys/identity/x", None), IdentityStep::Ignore);
    assert_eq!(identity_proof_key(&node(1)), "sys/identity-proof/127.0.0.1:1");
}

#[test]
fn a_shutdown_retracts_what_is_the_nodes_own() {
    let kv: Vec<KvEntry> = [
        "sys/load/127.0.0.1:1/k",
        "sys/load/127.0.0.1:1/req/k",
        "sys/load/127.0.0.1:10/k",
        "cap/127.0.0.1:1/compute/gpu",
        "req/127.0.0.1:1/x",
        "cap/127.0.0.1:2/compute/gpu",
        "cap-group/niche",
    ]
    .iter()
    .map(|k| KvEntry { key: k.to_string(), value: vec![] })
    .collect();
    assert_eq!(
        shutdown_loads(&kv, &node(1), true),
        vec!["sys/load/127.0.0.1:1/k", "sys/load/127.0.0.1:1/req/k", "cap/127.0.0.1:1/locality/self"]
    );
    assert_eq!(shutdown_loads(&kv, &node(1), false).len(), 2);
    assert_eq!(
        shutdown_adverts(&kv, &node(1)),
        vec!["sys/load/127.0.0.1:1/req/k", "cap/127.0.0.1:1/compute/gpu", "req/127.0.0.1:1/x"]
    );
}

fn reason(r: Result<mycelium_agent::provider_enforcement::Derived, ProviderRefusal>) -> String {
    r.unwrap_err().reason
}

fn derived(
    kind: &str,
    payload: &[u8],
    claim: Option<&str>,
) -> Result<mycelium_agent::provider_enforcement::Derived, ProviderRefusal> {
    let keys = vec!["cap/127.0.0.1:1/nlp/sum".to_string(), "cap/127.0.0.1:1/locality/self".to_string()];
    mycelium_agent::provider_enforcement::derive(kind, payload, claim, &node(1), &keys)
}

#[test]
fn a_protected_call_is_derived_for_this_node_alone() {
    let keys = vec!["cap/127.0.0.1:1/nlp/sum".to_string(), "cap/127.0.0.1:1/locality/self".to_string()];
    let d = derived("mcp.invoke", br#"{"params":{"name":"echo"}}"#, None).unwrap();
    assert_eq!((d.operation.as_str(), d.resource.as_str()), ("tools/call", "tool:echo@127.0.0.1:1"));
    assert_eq!(d.arguments, o(vec![]));
    assert_eq!(reason(derived("mcp.invoke", b"{", None)), "malformed_call");
    assert_eq!(reason(derived("mcp.invoke", b"{}", None)), "malformed_call");
    let d = derived("skill.invoke", b"hi \xff", Some("skill:nlp/sum@127.0.0.1:1")).unwrap();
    assert_eq!(d.arguments.str_at("text"), Some("hi \u{fffd}"));
    assert_eq!(reason(derived("skill.invoke", b"", Some("skill:nlp/other@127.0.0.1:1"))), "resource_not_served");
    assert_eq!(reason(derived("skill.invoke", b"", Some("skill:nlp/sum@127.0.0.1:2"))), "resource_not_here");
    assert_eq!(reason(derived("work", b"", None)), "resource_unnamed");
    let d = derived("work", b"hi", Some("r@127.0.0.1:1")).unwrap();
    assert_eq!(d.arguments.str_at("payload_b64"), Some("aGk="));
    assert!(advertises(&keys, &node(1), "nlp", "sum"));
    assert!(!advertises(&keys, &node(1), "locality", "self"));
}

#[test]
fn enforcement_that_nothing_can_decide_fails_closed() {
    assert_eq!(gate(false, true, false), Gate::Open);
    assert_eq!(gate(true, false, false), Gate::Open);
    assert_eq!(gate(true, true, true), Gate::Decide);
    assert!(matches!(gate(true, true, false), Gate::Closed(_)));
    let keys: Vec<String> = vec![];
    let asked = |on: bool, evaluator: bool, context: Result<Option<Caller>, String>, payload: &[u8]| {
        ask(on, true, evaluator, &context, "node:127.0.0.1:2", "work", payload, &node(1), &keys)
    };
    let caller = || Caller {
        principal: "client:ann".to_string(),
        scopes: vec!["tools:call".to_string()],
        mandate: Some(s("m")),
        resource: Some("r@127.0.0.1:1".to_string()),
    };
    assert_eq!(asked(false, true, Ok(None), b""), Question::Open);
    assert!(check(Question::Open, Some(ProviderRefusal::local("denied", "no"))).is_ok());
    assert_eq!(check(asked(true, false, Ok(None), b""), None).unwrap_err().reason, "no_evaluator");
    match asked(true, true, Ok(Some(caller())), b"hi") {
        Question::Ask { principal, scopes, point, call, params } => {
            assert_eq!((principal.as_str(), scopes), ("client:ann", vec!["tools:call".to_string()]));
            assert_eq!(point, "provider");
            assert_eq!(call.resource, "r@127.0.0.1:1");
            assert_eq!(params.at("_meta").str_at("mandate"), Some("m"));
        }
        _ => panic!("the evaluator is asked"),
    }
    assert!(check(asked(true, true, Ok(Some(caller())), b"hi"), None).is_ok());
    let denied = check(asked(true, true, Ok(Some(caller())), b"hi"), Some(ProviderRefusal::local("denied", "no")));
    assert_eq!(denied.unwrap_err().reason, "denied");
    assert_eq!(check(asked(true, true, Ok(None), b"hi"), None).unwrap_err().reason, "resource_unnamed");
    let refused = check(asked(true, true, Err("expired".to_string()), b"hi"), None).unwrap_err();
    assert_eq!(refused.reason, "caller_context_refused");
    assert_eq!(refused, context_refusal("expired"));
    assert_eq!(refused.code, -32010);
    assert_eq!(refused.plain().str_at("reason"), Some("caller_context_refused"));
    assert_eq!(refused.jsonrpc(&Json::UInt(4)).at("error").at("code"), Json::NegInt(-32010));
    let no = ProviderRefusal::local("denied", "no");
    assert_eq!(no.rpc_body(), br#"{"data":{"reason":"denied"},"error":"no","reason":"denied"}"#.to_vec());
    let error = br#"{"error":{"code":-32010,"data":{"reason":"denied"},"message":"no"},"id":4,"jsonrpc":"2.0"}"#;
    assert_eq!(no.jsonrpc_body(&Json::UInt(4)), error.to_vec());
    assert_eq!(preflight_params(None), Json::Null);
    assert_eq!(preflight_params(Some(&s("m"))).at("_meta").str_at("mandate"), Some("m"));
}

#[test]
fn numerals_read_back() {
    assert_eq!(to_decimal(0), "0");
    assert_eq!(to_decimal(u64::MAX), "18446744073709551615");
    assert_eq!(parse_radix("18446744073709551615", 10), Some(u64::MAX));
    assert_eq!(parse_radix("18446744073709551616", 10), None);
    assert_eq!(parse_radix("+7", 10), Some(7));
    assert_eq!(parse_radix("", 16), None);
    assert_eq!(parse_radix("+", 16), None);
    assert_eq!(parse_radix("FfG", 16), None);
    assert_eq!(parse_radix("Ff", 16), Some(255));
    assert_eq!(to_hex16(255), "00000000000000ff");
    assert_eq!(to_hex(u128::MAX).len(), 32);
    assert_eq!(to_hex(0), "0");
    assert_eq!(to_hex_byte(10), "0a");
}

#[test]
fn texts_are_cut_where_they_should_be() {
    assert_eq!(split_once("a/b/c", '/'), Some(("a".to_string(), "b/c".to_string())));
    assert_eq!(rsplit_once("a/b/c", '/'), Some(("a/b".to_string(), "c".to_string())));
    assert_eq!(split_once("abc", '/'), None);
    assert_eq!(strip_prefix("äb", "ä"), Some("b".to_string()));
    assert_eq!(strip_suffix("bä", "ä"), Some("b".to_string()));
    assert_eq!(strip_suffix("b", "ab"), None);
    assert_eq!(join("a", "b"), "ab");
    assert!(text_at_or_before("a", "ab"));
    assert!(!text_at_or_before("b", "ab"));
}

#[test]
fn node_ids_are_host_and_port() {
    let n = NodeId::parse("::1:7000").unwrap();
    assert_eq!(n.text(), "::1:7000");
    assert!(NodeId::parse("host").is_none());
    assert!(NodeId::parse("host:70000").is_none());
    assert!(NodeId::parse(":1").is_none());
    assert!(NodeId::new("a/b", 1).is_err());
}

#[test]
fn the_preflight_and_the_handler_hear_of_the_same_caller() {
    let payload = br#"{"id":1,"method":"tools/call","params":{"name":"t","arguments":{"x":1}}}"#;
    let asked = |context: &Result<Option<Caller>, String>| {
        ask(true, true, true, context, "node:127.0.0.1:9", "mcp.invoke", payload, &node(1), &vec![])
    };
    let behalf = |q: Question| match q {
        Question::Ask { principal, scopes, point, call, params } => {
            assert_eq!(point, "provider");
            assert_eq!((call.operation.as_str(), call.resource.as_str()), ("tools/call", "tool:t@127.0.0.1:1"));
            (principal, scopes, params)
        }
        _ => panic!("the evaluator is asked"),
    };
    let scopes = vec!["a".to_string(), "b".to_string()];
    let client: Result<Option<Caller>, String> =
        Ok(Some(Caller { principal: "ann".to_string(), scopes: scopes.clone(), mandate: None, resource: None }));
    assert_eq!(behalf(asked(&client)), ("ann".to_string(), scopes.clone(), Json::Null));
    assert_eq!(
        request_principal(&client, &node(9)),
        Ok(RequestPrincipal::Client { principal: "ann".to_string(), scopes })
    );
    let bare: Result<Option<Caller>, String> = Ok(None);
    assert_eq!(behalf(asked(&bare)), ("node:127.0.0.1:9".to_string(), vec![], Json::Null));
    assert_eq!(request_principal(&bare, &node(9)), Ok(RequestPrincipal::Node(node(9))));
    assert_eq!(request_principal(&Err("expired".to_string()), &node(9)), Err("expired".to_string()));
}

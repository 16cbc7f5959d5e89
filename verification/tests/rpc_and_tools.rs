use mycelium_agent::config::EgressPolicy;
use mycelium_agent::json::{json_to_bytes, parse_json, print_json, read_json, Json};
use mycelium_agent::keys::KvEntry;
use mycelium_agent::llm::{
    handle_llm_invoke, invoke_reply, prompt_key, render_inputs, BackendInfo, EchoBackend, LlmError, LlmInvocation, LlmInvokeRequest,
    OpenAiBackend, PromptTemplate, TemplateRead,
};
use mycelium_agent::mcp::{
    bridge_answer, bridge_decide, bridge_reply, bridge_step, bridged_tools, call_plan, call_reply, find_provider, list_reply,
    may_connect, mcp_dispatch, mcp_handler, read_listing, tool_decide, tool_key, tool_registration, tool_reply, tool_step, BridgeReply,
    BridgeStep, McpError, McpStep, ToolStep,
};
use mycelium_agent::node_id::NodeId;
use mycelium_agent::overlay_consistent::{
    committed_key, confirmed_token, fresh_guard_id, fresh_lock_value, guard_id, lock_slot, lock_value, ConsistencyError,
    Leadership, LeadershipBasis, LockGuard,
};
use mycelium_agent::provider_enforcement::{ProviderRefusal, RequestPrincipal};
use mycelium_agent::rpc::{
    call_payload, claims_reply, receive, reply_outcome, outgoing, respond_json, rpc_call_framed, rpc_respond, Frame,
    Receive, RpcError, RpcRequest, Signal, RPC_RESULT,
};

/// A call that another node makes itself.
fn mesh() -> Result<RequestPrincipal, String> {
    Ok(RequestPrincipal::Node(node(9)))
}

fn s(t: &str) -> Json {
    Json::Str(t.to_string())
}

fn o(fields: Vec<(&str, Json)>) -> Json {
    Json::Obj(fields.into_iter().map(|(k, v)| (k.to_string(), v)).collect())
}

fn node(port: u16) -> NodeId {
    NodeId::new("127.0.0.1", port).unwrap()
}

fn request(payload: Vec<u8>, frame: Frame) -> RpcRequest {
    RpcRequest { signal: Signal { kind: "echo".to_string(), sender: node(1), payload }, frame }
}

#[test]
fn test_rpc_round_trip() {
    let (nonce, payload) = rpc_call_framed(b"hello");
    let req = request(payload, Frame::Unframed(b"hello".to_vec()));
    assert_eq!(req.nonce(), nonce);
    assert_eq!(req.payload(), b"hello".to_vec());
    assert!(!req.has_caller_context());
    assert_eq!((req.sender(), req.kind().as_str()), (&node(1), "echo"));
    let reply = rpc_respond(&req, &req.payload()).unwrap();
    assert_eq!((reply.kind.as_str(), &reply.to), (RPC_RESULT, &node(1)), "one result, to the caller alone");
    let reply = reply.payload;
    assert_eq!(claims_reply(RPC_RESULT, &reply, &vec![nonce]), Some(nonce));
    let signal = Signal { kind: RPC_RESULT.to_string(), sender: node(2), payload: reply };
    assert_eq!(reply_outcome(&node(2), Some(&signal)), Ok(b"hello".to_vec()));
}

#[test]
fn test_rpc_timeout() {
    assert_eq!(reply_outcome(&node(2), None), Err(RpcError::Timeout));
    assert!(RpcError::Timeout.message().starts_with("rpc call timed out"));
    assert!(RpcError::ContextTooLarge.message().starts_with("rpc call not sent"));
}

#[test]
fn test_rpc_nonce_isolation() {
    let one = call_payload(1, b"call-one");
    let two = call_payload(2, b"call-two");
    let pending = vec![1, 2];
    assert_eq!(claims_reply(RPC_RESULT, &one, &pending), Some(1));
    assert_eq!(claims_reply(RPC_RESULT, &two, &pending), Some(2));
    assert_eq!(claims_reply(RPC_RESULT, &call_payload(3, b""), &pending), None);
    assert_eq!(claims_reply("echo", &one, &pending), None);
    // A reply from a node that was not called is no reply.
    let stray = Signal { kind: RPC_RESULT.to_string(), sender: node(9), payload: one };
    assert_eq!(reply_outcome(&node(2), Some(&stray)), Err(RpcError::Timeout));
}

#[test]
fn nonces_are_never_zero() {
    for _ in 0..32 {
        assert!(rpc_call_framed(b"").0 >= 1);
    }
}

#[test]
fn a_refused_context_is_never_handed_out() {
    assert_eq!(receive(None, None), Receive::Yield);
    let no = ProviderRefusal::local("denied", "no");
    assert_eq!(
        receive(Some("expired"), Some(&no)),
        Receive::Refuse(b"{\"error\":\"caller context refused: expired\"}".to_vec())
    );
    assert_eq!(
        receive(None, Some(&no)),
        Receive::Refuse(br#"{"data":{"reason":"denied"},"error":"no","reason":"denied"}"#.to_vec())
    );
    assert!(request(vec![0; 8], Frame::Malformed).has_caller_context());
    assert!(request(vec![0; 8], Frame::Framed(vec![1])).has_caller_context());
    assert_eq!(rpc_respond(&request(vec![0; 7], Frame::Malformed), b"x"), None);
}

#[test]
fn echo_backend_complete() {
    let r = EchoBackend.complete("sys", "hello world", 100, 0).unwrap();
    assert_eq!(r.output, "echo: hello world");
    assert_eq!(r.model_used, "echo");
    assert_eq!(r.tokens_used, 0);
}

#[test]
fn echo_backend_no_model_param() {
    // `complete` takes a system text, a user text, a token bound and a temperature, and no model.
    let complete: fn(&EchoBackend, &str, &str, u32, u32) -> Result<mycelium_agent::llm::LlmResult, LlmError> =
        EchoBackend::complete;
    assert!(complete(&EchoBackend, "", "", 0, 0).is_ok());
}

#[test]
fn backend_endpoint_drives_the_egress_gate() {
    let oa = OpenAiBackend::new("https://api.blocked.example/v1", "k", "m");
    assert_eq!(oa.endpoint(), Some("https://api.blocked.example/v1"));
    assert_eq!(EchoBackend.endpoint(), None);
    let policy = EgressPolicy { allow_hosts: vec!["api.allowed.example".to_string()] };
    assert!(!policy.permits_url(oa.endpoint().unwrap()));
    assert!(EchoBackend.endpoint().is_none());
    let ok = OpenAiBackend::new("https://api.allowed.example/v1", "k", "m");
    assert!(policy.permits_url(ok.endpoint().unwrap()));
}

#[test]
fn a_completion_is_asked_for_and_read() {
    let b = OpenAiBackend::new("https://api.example/v1/", "k", "m");
    assert!(b.completions_url().ends_with("/chat/completions"));
    let body = b.request_body("sys", "hi", 7, 0);
    assert_eq!(body.str_at("model"), Some("m"));
    assert_eq!(body.u64_at("max_tokens"), Some(7));
    let answer = o(vec![(
        "choices",
        Json::Arr(vec![o(vec![("message", o(vec![("content", s("yes"))]))])]),
    )]);
    assert_eq!(b.read_answer(&answer).output, "yes");
    let raw = br#"{"choices":[{"message":{"content":"yes"}}],"usage":{"total_tokens":9},"model":"m2"}"#;
    let read = b.read_completion(raw).unwrap();
    assert_eq!((read.output.as_str(), read.tokens_used, read.model_used.as_str()), ("yes", 9, "m2"));
    assert_eq!(b.read_completion(b"<html>"), Err(LlmError::Parse("error decoding response body".to_string())));
    assert!(OpenAiBackend::status_error("500", "boom").message().contains("boom"));
}

fn invocation() -> LlmInvocation {
    LlmInvocation {
        context_refusal: None,
        request: Ok(LlmInvokeRequest { prompt: "ns/p".to_string(), input: "in".to_string(), context: vec![] }),
        backend: Some(BackendInfo { endpoint: None }),
        template: TemplateRead::Read(PromptTemplate {
            system: "s".to_string(),
            user_template: "u".to_string(),
            max_tokens: 5,
            temperature_bits: 0,
        }),
        system: Ok("s".to_string()),
        user: Ok("u".to_string()),
    }
}

#[test]
fn a_prompt_is_rendered_from_its_request() {
    let template = PromptTemplate {
        system: "be {{role}}".to_string(),
        user_template: "say {{input}}".to_string(),
        max_tokens: 5,
        temperature_bits: 0,
    };
    let context = vec![("role".to_string(), "kind".to_string())];
    let asked = LlmInvokeRequest { prompt: "ns/p".to_string(), input: "hi".to_string(), context: context.clone() };
    let (system, user) = render_inputs(&template, &asked, &node(4));
    assert_eq!((system.template.as_str(), user.template.as_str()), ("be {{role}}", "say {{input}}"));
    for r in [system, user] {
        assert_eq!((r.skill.as_str(), r.node.as_str(), r.input.as_str()), ("ns/p", "127.0.0.1:4", "hi"));
        assert_eq!(r.context, context);
    }
}

#[test]
fn bytes_are_read_as_json() {
    let v = parse_json(br#" {"b":[null,true,-1,1.5,18446744073709551615,"x"],"a":{}} "#).unwrap();
    let list = v.at("b");
    assert_eq!(list.item(0), Json::Null);
    assert_eq!(list.item(1), Json::Bool(true));
    assert_eq!(list.item(2), Json::NegInt(-1));
    assert_eq!(list.item(3), Json::Real(1.5f64.to_bits()));
    assert_eq!(list.item(4), Json::UInt(u64::MAX));
    assert_eq!(list.item(5), s("x"));
    assert_eq!(v.at("a"), o(vec![]));
    assert_eq!(parse_json(b"{} x"), None);
    assert_eq!(parse_json(b""), None);
}

#[test]
fn an_address_in_brackets_is_a_host() {
    let policy = EgressPolicy { allow_hosts: vec!["[::1]".to_string()] };
    assert!(policy.permits_url("http://[::1]:8080/mcp"));
    assert!(policy.permits_url("http://[::1]/mcp"));
    assert!(!policy.permits_url("http://[::2]:8080/mcp"));
}

#[test]
fn an_invocation_is_refused_by_the_first_thing_wrong() {
    let open = EgressPolicy { allow_hosts: vec![] };
    assert_eq!(handle_llm_invoke(&invocation(), &open).unwrap().user, "u");
    let mut bad = invocation();
    bad.request = Err("eof".to_string());
    assert!(handle_llm_invoke(&bad, &open).is_err());
    let mut bad = invocation();
    bad.context_refusal = Some("expired".to_string());
    bad.request = Err("eof".to_string());
    let first = handle_llm_invoke(&bad, &open).unwrap_err();
    bad.request = invocation().request;
    assert_eq!(handle_llm_invoke(&bad, &open).unwrap_err(), first, "the context is looked at first");
    let mut bad = invocation();
    bad.backend = None;
    assert!(handle_llm_invoke(&bad, &open).is_err());
    let mut bad = invocation();
    bad.template = TemplateRead::Missing;
    assert!(handle_llm_invoke(&bad, &open).is_err());
    let mut bad = invocation();
    bad.backend = Some(BackendInfo { endpoint: Some("https://blocked.example".to_string()) });
    let closed = EgressPolicy { allow_hosts: vec!["ok.example".to_string()] };
    assert!(handle_llm_invoke(&bad, &closed).is_err());
    assert_eq!(prompt_key("ns/p"), "prompts/ns/p");
    let failed = invoke_reply(&Err(LlmError::Api("boom".to_string())));
    assert_eq!(failed.str_at("error"), Some("llm_error"));
}

fn call(id: u64, name: &str) -> Json {
    o(vec![
        ("jsonrpc", s("2.0")),
        ("id", Json::UInt(id)),
        ("method", s("tools/call")),
        ("params", o(vec![("name", s(name)), ("arguments", o(vec![("x", Json::UInt(1))]))])),
    ])
}

#[test]
fn test_mcp_initialize() {
    match mcp_handler(br#"{"jsonrpc":"2.0","id":1,"method":"initialize"}"#, "0.1.0") {
        McpStep::Reply(r) => {
            assert_eq!(r.u64_at("id"), Some(1));
            let result = r.at("result");
            assert_eq!(result.str_at("protocolVersion"), Some("2024-11-05"));
            assert_eq!(result.at("serverInfo").str_at("name"), Some("mycelium"));
            assert_eq!(result.at("serverInfo").str_at("version"), Some("0.1.0"));
        }
        _ => panic!("initialize is answered at once"),
    }
    match mcp_handler(b"{", "0.1.0") {
        McpStep::Reply(r) => assert_eq!(r.at("error").at("code"), Json::NegInt(-32700)),
        _ => panic!("a parse error is answered at once"),
    }
    let other = o(vec![("id", Json::UInt(1)), ("method", s("nope"))]);
    match mcp_dispatch(Some(other), "0.1.0") {
        McpStep::Reply(r) => assert_eq!(r.at("error").str_at("message"), Some("method not found: nope")),
        _ => panic!("an unknown method is answered at once"),
    }
}

#[test]
fn test_mcp_tools_list() {
    let req = o(vec![("id", Json::UInt(2)), ("method", s("tools/list"))]);
    assert_eq!(mcp_handler(br#"{"id":2,"method":"tools/list"}"#, "0"), McpStep::ListTools(req.copy()));
    let entries = vec![
        KvEntry { key: tool_key("echo", &node(1)), value: br#"{"description":"echoes"}"#.to_vec() },
        KvEntry { key: tool_key("echo", &node(2)), value: b"{}".to_vec() },
        KvEntry { key: "tools/broken".to_string(), value: b"{}".to_vec() },
        KvEntry { key: tool_key("raw", &node(2)), value: b"not json".to_vec() },
    ];
    let tools = list_reply(&req, &entries).at("result").at("tools");
    let tools = tools.as_array().unwrap();
    assert_eq!(tools.len(), 2, "one tool, however many provide it");
    assert_eq!(tools[1].at("inputSchema"), o(vec![]), "a schema that does not parse takes anything");
    assert_eq!(tools[0].str_at("name"), Some("echo"));
    assert_eq!(tools[0].str_at("description"), Some("echoes"));
}

#[test]
fn test_mcp_tools_call_round_trip() {
    let req = call(3, "echo");
    assert_eq!(mcp_dispatch(Some(req.copy()), "0"), McpStep::CallTool(req.copy()));
    let keys = vec![tool_key("echo", &node(7))];
    let (target, sent) = call_plan(&req, &keys).unwrap();
    assert_eq!(target, node(7));
    assert_eq!(
        sent,
        br#"{"id":3,"jsonrpc":"2.0","method":"tools/call","params":{"arguments":{"x":1},"name":"echo"}}"#.to_vec()
    );
    let sent = parse_json(&sent).unwrap();
    match tool_decide(Some(sent.copy()), "echo", mesh(), None) {
        ToolStep::Run { who, call, arguments } => {
            assert_eq!(who, RequestPrincipal::Node(node(9)));
            assert_eq!(call, sent);
            assert_eq!(arguments.u64_at("x"), Some(1));
        }
        _ => panic!("the tool runs"),
    }
    let reply = tool_reply(&sent, Ok(&Json::UInt(42)));
    assert_eq!(reply.u64_at("id"), Some(3));
    assert_eq!(reply.at("result").at("content").item(0).str_at("text"), Some("42"));
    let quoted = tool_reply(&sent, Ok(&s("a\"b")));
    assert_eq!(quoted.at("result").at("content").item(0).str_at("text"), Some("\"a\\\"b\""));
    assert_eq!(call_reply(&req, Some(br#"{"id":3,"result":[1,-2]}"#)).at("result").item(1), Json::NegInt(-2));
    assert_eq!(
        call_reply(&req, None).at("error").str_at("message"),
        Some("tool invocation timed out")
    );
    assert_eq!(call_reply(&req, Some(b"{")).at("error").at("code"), Json::NegInt(-32603));
    assert!(tool_reply(&sent, Err("boom")).get("error").is_some());
}

#[test]
fn test_mcp_tools_call_not_found() {
    let e = call_plan(&call(3, "no-such-tool"), &vec![tool_key("echo", &node(7))]).unwrap_err();
    assert_eq!(e.at("error").at("code"), Json::NegInt(-32601));
    assert_eq!(e.at("error").str_at("message"), Some("tool not found: no-such-tool"));
    match mcp_dispatch(Some(call(4, "")), "0") {
        McpStep::Reply(r) => assert_eq!(r.at("error").at("code"), Json::NegInt(-32602)),
        _ => panic!("a call names its tool"),
    }
    assert_eq!(find_provider(&vec!["tools/echo/not-a-node".to_string()], "echo"), None);
}

#[test]
fn test_multiple_tools_same_node_demux() {
    let for_b = call(1, "b");
    assert!(matches!(tool_decide(Some(for_b.copy()), "a", mesh(), None), ToolStep::Skip));
    assert!(matches!(tool_decide(Some(for_b.copy()), "b", mesh(), None), ToolStep::Run { .. }));
    assert!(matches!(tool_step(b"{", "b", mesh(), None), ToolStep::Skip));
    let no = ProviderRefusal::local("denied", "no");
    match tool_decide(Some(for_b), "b", mesh(), Some(&no)) {
        ToolStep::Refuse(r) => assert_eq!(r, no.jsonrpc(&Json::UInt(1))),
        _ => panic!("refused"),
    }
}

#[test]
fn test_mcp_client_discovers_tools() {
    let answer = o(vec![(
        "result",
        o(vec![(
            "tools",
            Json::Arr(vec![
                o(vec![("name", s("remote_tool")), ("inputSchema", o(vec![("type", s("object"))]))]),
                o(vec![("inputSchema", Json::Null)]),
            ]),
        )]),
    )]);
    let tools = bridged_tools(&answer, &node(5));
    assert_eq!(tools[0].name, "remote_tool");
    assert_eq!(tools[0].key, "tools/remote_tool/127.0.0.1:5");
    let body = br#"{"result":{"tools":[{"name":"a","inputSchema":{"type":"object"}},{"name":"b"}]}}"#;
    let own = tool_registration("local", &node(5), &o(vec![("type", s("object"))]));
    assert_eq!((own.key.as_str(), own.value), ("tools/local/127.0.0.1:5", br#"{"type":"object"}"#.to_vec()));
    let listed = read_listing(body, &node(5)).unwrap();
    assert_eq!(listed.iter().map(|t| t.name.as_str()).collect::<Vec<_>>(), vec!["a", "b"]);
    assert_eq!(listed[0].schema.str_at("type"), Some("object"));
    assert_eq!(listed[0].value, br#"{"type":"object"}"#.to_vec());
    assert_eq!(listed[1].value, b"{}".to_vec());
    assert_eq!(
        read_listing(b"<html>", &node(5)),
        Err(McpError::Transport("error decoding response body".to_string()))
    );
}

#[test]
fn test_mcp_egress_policy_denies_disallowed_host() {
    let policy = EgressPolicy { allow_hosts: vec!["ok.example".to_string()] };
    assert!(may_connect(&policy, "http://ok.example/mcp").is_ok());
    assert!(matches!(may_connect(&policy, "http://evil.example/mcp"), Err(McpError::Transport(_))));
}

#[test]
fn test_mcp_client_proxies_call() {
    let names = vec!["remote_tool".to_string()];
    assert!(matches!(bridge_decide(Some(call(1, "other")), &names, None), BridgeStep::Skip));
    assert!(matches!(bridge_decide(Some(call(1, "remote_tool")), &names, None), BridgeStep::Forward(_)));
    assert!(matches!(bridge_step(b"{", &names, None), BridgeStep::Skip));
    let raw = br#"{"id":1,"method":"tools/call","params":{"name":"remote_tool"}}"#;
    assert!(matches!(bridge_step(raw, &names, None), BridgeStep::Forward(_)));
    let back = o(vec![("id", Json::UInt(1)), ("result", s("r"))]);
    assert_eq!(bridge_reply(&call(1, "remote_tool"), &BridgeReply::Answer(back.copy())), back);
    let lost = bridge_reply(&call(1, "remote_tool"), &BridgeReply::Unreachable("refused".to_string()));
    assert!(lost.get("error").is_some());
    let read = bridge_answer(&call(1, "remote_tool"), br#"{"id":1,"result":"r"}"#);
    assert_eq!(read.str_at("result"), Some("r"));
    let unread = bridge_answer(&call(1, "remote_tool"), b"{");
    assert_eq!(unread.at("error").at("code"), Json::NegInt(-32603));
    assert_eq!(unread.at("error").str_at("message"), Some("error decoding response body"));
}

#[test]
fn mcp_errors_carry_the_call_that_failed() {
    assert_eq!(McpError::from(RpcError::Timeout), McpError::Rpc(RpcError::Timeout));
    assert!(McpError::ToolNotFound("x".to_string()).message().contains('x'));
}

#[test]
fn distributed_lock_grants_single_holder_under_race() {
    let a = lock_value(&node(1), 7);
    let b = lock_value(&node(2), 7);
    // Both proposals committed; what converged is one of them.
    let live = Some((a.as_slice(), 99u64));
    let winners = [confirmed_token(&a, live), confirmed_token(&b, live)];
    assert_eq!(winners, [Some(99), None]);
    assert_eq!(confirmed_token(&a, None), None);
    assert_ne!(fresh_lock_value(&node(1)), fresh_lock_value(&node(1)));
}

#[test]
fn distributed_lock_release_frees_for_reacquire() {
    let value = lock_value(&node(1), 7);
    let mut guard = LockGuard { name: "y".to_string(), value: value.clone(), token: 1, released: false };
    let freed = guard.release(Some(&value));
    assert!(freed.contains(&committed_key(&lock_slot("y"))));
    assert!(guard.release(Some(&value)).is_empty(), "a guard releases once");
}

#[test]
fn distributed_lock_stale_release_does_not_clobber() {
    let mut stale =
        LockGuard { name: "z".to_string(), value: lock_value(&node(1), 1), token: 1, released: false };
    let later = lock_value(&node(1), 2);
    assert!(stale.release(Some(&later)).is_empty(), "a stale guard leaves the live claim alone");
}

#[test]
fn guards_and_leaders_say_what_they_are() {
    assert_eq!(guard_id(255), "00000000000000ff");
    assert_eq!(fresh_guard_id().len(), 16);
    let l = Leadership { leader: node(1), epoch: 1, basis: LeadershipBasis::Decided };
    assert!(l.was_decided_here());
    let l = Leadership { leader: node(1), epoch: 1, basis: LeadershipBasis::Observed };
    assert!(!l.was_decided_here());
    assert_eq!(
        ConsistencyError::Timeout { ballots_tried: 3 }.message(),
        "consensus timed out after 3 ballot(s)"
    );
    assert!(!ConsistencyError::ElectorateUnavailable { observed_members: 1, declared_min: 3 }.message().is_empty());
}

#[test]
fn test_register_and_call_tool_via_signal() {
    let payload =
        br#"{"jsonrpc":"2.0","id":1,"method":"tools/call","params":{"name":"add","arguments":{"a":3.0,"b":4.0}}}"#;
    let (req, given) = match tool_step(payload, "add", mesh(), None) {
        ToolStep::Run { call, arguments, .. } => (call, arguments),
        _ => panic!("the tool runs"),
    };
    let read = |name: &str| match given.at(name) {
        Json::Real(bits) => f64::from_bits(bits),
        _ => 0.0,
    };
    let sum = Json::Real((read("a") + read("b")).to_bits());
    let reply = tool_reply(&req, Ok(&sum));
    let content = reply.at("result").at("content").item(0);
    assert_eq!(content.str_at("type"), Some("text"));
    assert_eq!(content.str_at("text"), Some("7.0"));
}

#[test]
fn values_print_compactly_and_read_back() {
    let v = o(vec![
        ("b", Json::Arr(vec![Json::Null, Json::Bool(true), Json::NegInt(-1), Json::UInt(u64::MAX)])),
        ("a", Json::Real(1.5f64.to_bits())),
        ("c", s("x\n")),
    ]);
    let text = r#"{"a":1.5,"b":[null,true,-1,18446744073709551615],"c":"x\n"}"#;
    assert_eq!(print_json(&v), text);
    assert_eq!(json_to_bytes(&v), text.as_bytes().to_vec());
    let back = read_json(text.as_bytes()).unwrap();
    assert_eq!(print_json(&back), text);
    assert_eq!(back.at("b"), v.at("b"));
    assert_eq!(print_json(&Json::Real(7.0f64.to_bits())), "7.0");
    assert_eq!(print_json(&Json::Real(f64::NAN.to_bits())), "null");
    let twice = o(vec![("k", Json::UInt(1)), ("k", Json::UInt(2))]);
    assert_eq!(print_json(&twice), r#"{"k":2}"#);
}

#[test]
fn what_is_not_json_says_why() {
    assert_eq!(read_json(b"[").unwrap_err(), "EOF while parsing a list at line 1 column 1");
    assert_eq!(read_json(b"").unwrap_err(), "EOF while parsing a value at line 1 column 0");
    assert_eq!(read_json(b"{} x").unwrap_err(), "trailing characters at line 1 column 4");
}

#[test]
fn a_value_is_answered_as_its_text() {
    let mut payload = 5u64.to_le_bytes().to_vec();
    payload.extend_from_slice(b"{}");
    let signal = Signal { kind: "mcp.invoke".to_string(), sender: node(9), payload };
    let request = RpcRequest { signal, frame: Frame::Unframed(b"{}".to_vec()) };
    let out = respond_json(&request, &o(vec![("ok", Json::Bool(true))])).unwrap();
    assert_eq!((out.kind.as_str(), out.to.clone()), ("rpc.result", node(9)));
    let mut expected = 5u64.to_le_bytes().to_vec();
    expected.extend_from_slice(br#"{"ok":true}"#);
    assert_eq!(out.payload, expected);
    let short = Signal { kind: "mcp.invoke".to_string(), sender: node(9), payload: vec![1] };
    assert_eq!(respond_json(&RpcRequest { signal: short, frame: Frame::Unframed(b"{}".to_vec()) }, &Json::Null), None);
}

#[test]
fn a_tool_is_told_who_calls_it() {
    let client = || RequestPrincipal::Client { principal: "ann".to_string(), scopes: vec!["tools:call".to_string()] };
    match tool_decide(Some(call(1, "t")), "t", Ok(client()), None) {
        ToolStep::Run { who, .. } => assert_eq!(who, client()),
        _ => panic!("the tool runs"),
    }
    let no = ProviderRefusal::local("denied", "no");
    assert!(matches!(tool_decide(Some(call(1, "t")), "t", Ok(client()), Some(&no)), ToolStep::Refuse(_)));
    match tool_decide(Some(call(1, "t")), "t", Err("expired".to_string()), Some(&no)) {
        ToolStep::Refuse(r) => {
            assert_eq!(r.at("error").at("code"), Json::NegInt(-32022));
            assert_eq!(r.at("error").str_at("message"), Some("caller context refused: expired"));
        }
        _ => panic!("the handler never runs"),
    }
    assert_eq!(tool_decide(Some(call(1, "u")), "t", Err("expired".to_string()), None), ToolStep::Skip);
}

#[test]
fn a_promised_envelope_is_put_around_a_call_of_the_nodes_own() {
    assert_eq!(outgoing(true, b"p".to_vec(), b"<p>".to_vec()), b"<p>".to_vec());
    assert_eq!(outgoing(false, b"p".to_vec(), b"<p>".to_vec()), b"p".to_vec());
}

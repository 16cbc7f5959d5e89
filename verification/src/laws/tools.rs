//! Laws of the tool protocol: what a forwarded call carries, who is asked, what is answered.
use vstd::prelude::*;

use crate::config::EgressPolicy;
use crate::http::reply::Reply;
use crate::json::{json_bytes, json_of, json_text, member_from, Json, JsonModel};
use crate::keys::KvEntry;
use crate::mcp::{
    asked_name, bridge_answer, bridge_decide, bridge_reply, bridge_step, bridged_at, bridged_in, bridged_models,
    bridged_tools, call_plan, call_reply, called_tool, entry_name, find_provider, list_reply, list_tools, listing,
    listings, mcp_dispatch, mcp_handler, named_before, provider_from, schema_of, tool_call, tool_decide, tool_reply,
    tool_step, tools_of, BridgeReply, BridgeStep, BridgedTool, McpStep, ToolStep,
};
use crate::node_id::{NodeId, NodeModel};
use crate::provider_enforcement::{ProviderRefusal, RequestPrincipal};
use crate::text::texts;

verus! {

/// The members of a call message, read one by one.
proof fn lemma_tool_call_members(id: JsonModel, name: Seq<char>, arguments: JsonModel)
    ensures
        tool_call(id, name, arguments).at("jsonrpc"@) == JsonModel::Str("2.0"@),
        tool_call(id, name, arguments).at("id"@) == id,
        tool_call(id, name, arguments).at("method"@) == JsonModel::Str("tools/call"@),
        tool_call(id, name, arguments).at("params"@).at("name"@) == JsonModel::Str(name),
        tool_call(id, name, arguments).at("params"@).at("arguments"@) == arguments,
{
    reveal_with_fuel(member_from, 5);
    reveal_strlit("jsonrpc");
    reveal_strlit("id");
    reveal_strlit("method");
    reveal_strlit("params");
    reveal_strlit("name");
    reveal_strlit("arguments");
    assert("jsonrpc"@.len() == 7 && "id"@.len() == 2 && "method"@.len() == 6 && "params"@.len() == 6);
    assert("method"@[0] != "params"@[0]);
    assert("name"@.len() == 4 && "arguments"@.len() == 9);
}

/// The members of a JSON-RPC error, read one by one.
proof fn lemma_error_members(id: JsonModel, code: int, message: Seq<char>)
    ensures
        crate::mcp::rpc_error(id, code, message).at("jsonrpc"@) == JsonModel::Str("2.0"@),
        crate::mcp::rpc_error(id, code, message).at("id"@) == id,
        crate::mcp::rpc_error(id, code, message).at("error"@).at("code"@) == JsonModel::Int(code),
        crate::mcp::rpc_error(id, code, message).at("error"@).at("message"@) == JsonModel::Str(message),
        crate::mcp::rpc_error(id, code, message).member("result"@) is None,
{
    reveal_with_fuel(member_from, 5);
    reveal_strlit("jsonrpc");
    reveal_strlit("id");
    reveal_strlit("error");
    reveal_strlit("result");
    reveal_strlit("code");
    reveal_strlit("message");
    assert("jsonrpc"@.len() == 7 && "id"@.len() == 2 && "error"@.len() == 5 && "result"@.len() == 6);
    assert("code"@.len() == 4 && "message"@.len() == 7);
}

/// The members of a JSON-RPC result, read one by one.
proof fn lemma_result_members(id: JsonModel, result: JsonModel)
    ensures
        crate::mcp::rpc_result(id, result).at("jsonrpc"@) == JsonModel::Str("2.0"@),
        crate::mcp::rpc_result(id, result).at("id"@) == id,
        crate::mcp::rpc_result(id, result).at("result"@) == result,
        crate::mcp::rpc_result(id, result).member("error"@) is None,
{
    reveal_with_fuel(member_from, 5);
    reveal_strlit("jsonrpc");
    reveal_strlit("id");
    reveal_strlit("error");
    reveal_strlit("result");
    assert("jsonrpc"@.len() == 7 && "id"@.len() == 2 && "error"@.len() == 5 && "result"@.len() == 6);
}

/// The members of a provider's refusal, read one by one.
pub proof fn lemma_refusal_members(p: ProviderRefusal, id: JsonModel)
    ensures
        crate::provider_enforcement::refusal_of(p, id).at("id"@) == id,
        crate::provider_enforcement::refusal_of(p, id).at("error"@).at("code"@) == JsonModel::Int(p.code as int),
        crate::provider_enforcement::refusal_of(p, id).at("error"@).at("message"@) == JsonModel::Str(p.message@),
        crate::provider_enforcement::refusal_of(p, id).at("error"@).at("data"@) == p.data@,
        crate::provider_enforcement::refusal_of(p, id).member("result"@) is None,
{
    reveal_with_fuel(member_from, 5);
    reveal_strlit("jsonrpc");
    reveal_strlit("id");
    reveal_strlit("error");
    reveal_strlit("result");
    reveal_strlit("code");
    reveal_strlit("message");
    reveal_strlit("data");
    assert("jsonrpc"@.len() == 7 && "id"@.len() == 2 && "error"@.len() == 5 && "result"@.len() == 6);
    assert("code"@.len() == 4 && "message"@.len() == 7 && "data"@.len() == 4);
    assert("code"@[0] != "data"@[0]);
}

/// A forwarded call carries the caller's own arguments, tool name and id, unchanged. A call is
/// forwarded exactly where it names one of the bridge's tools and enforcement lets it pass; a call
/// of a bridged tool that enforcement stops is refused under the caller's id; anything else is no
/// call for the bridge.
pub proof fn lemma_forwarded_call_is_the_callers(
    call: Option<Json>,
    tool_names: &Vec<String>,
    enforcement: Option<&ProviderRefusal>,
    r: BridgeStep,
)
    requires
        call_ensures(bridge_decide, (call, tool_names, enforcement), r),
    ensures
        r matches BridgeStep::Forward(j) ==> {
            &&& call is Some
            &&& enforcement is None
            &&& j@.at("params"@).at("arguments"@) == (call->0)@.at("params"@).at("arguments"@)
            &&& j@.at("id"@) == (call->0)@.at("id"@)
            &&& (call->0)@.at("params"@).at("name"@) matches JsonModel::Str(n) ==> j@.at("params"@).at("name"@)
                == JsonModel::Str(n) && exists|i: int| 0 <= i < tool_names@.len() && (#[trigger] tool_names@[i])@ == n
            &&& !((call->0)@.at("params"@).at("name"@) is Str) ==> j@.at("params"@).at("name"@) == JsonModel::Str(
                Seq::empty(),
            )
            &&& j@.at("method"@) == JsonModel::Str("tools/call"@)
            &&& j@.at("jsonrpc"@) == JsonModel::Str("2.0"@)
        },
        r matches BridgeStep::Refuse(j) ==> {
            &&& call is Some
            &&& enforcement is Some
            &&& j@.at("id"@) == (call->0)@.at("id"@)
            &&& j@.at("error"@).at("message"@) == JsonModel::Str((enforcement->0).message@)
            &&& j@.at("error"@).at("code"@) == JsonModel::Int((enforcement->0).code as int)
            &&& j@.at("error"@).at("data"@) == (enforcement->0).data@
        },
        call is None ==> r == BridgeStep::Skip,
        call is Some && ((call->0)@.at("params"@).at("name"@) matches JsonModel::Str(n) && exists|i: int|
            0 <= i < tool_names@.len() && (#[trigger] tool_names@[i])@ == n) ==> r is Forward == enforcement is None
            && r is Refuse == enforcement is Some,
        call is Some && ((call->0)@.at("params"@).at("name"@) matches JsonModel::Str(n) && forall|i: int|
            0 <= i < tool_names@.len() ==> (#[trigger] tool_names@[i])@ != n) ==> r == BridgeStep::Skip,
{
    if call is Some {
        let c = (call->0)@;
        lemma_tool_call_members(c.at("id"@), asked_name(c), c.at("params"@).at("arguments"@));
        if enforcement is Some {
            lemma_refusal_members(*(enforcement->0), c.at("id"@));
        }
        lemma_named(tool_names@, asked_name(c));
    }
}

/// The same of a call as it arrived in bytes.
pub proof fn lemma_forwarded_payload_is_the_callers(
    payload: &[u8],
    tool_names: &Vec<String>,
    enforcement: Option<&ProviderRefusal>,
    r: BridgeStep,
)
    requires
        call_ensures(bridge_step, (payload, tool_names, enforcement), r),
    ensures
        r matches BridgeStep::Forward(j) ==> {
            &&& enforcement is None
            &&& json_of(payload@) matches Some(c) && {
                &&& j@.at("params"@).at("arguments"@) == c.at("params"@).at("arguments"@)
                &&& j@.at("id"@) == c.at("id"@)
                &&& c.at("params"@).at("name"@) matches JsonModel::Str(n) ==> j@.at("params"@).at("name"@)
                    == JsonModel::Str(n)
            }
        },
        json_of(payload@) is None ==> r == BridgeStep::Skip,
        json_of(payload@) matches Some(c) ==> (c.at("params"@).at("name"@) matches JsonModel::Str(n) ==> ((exists|
            i: int,
        |
            0 <= i < tool_names@.len() && (#[trigger] tool_names@[i])@ == n) <==> !(r is Skip))),
        enforcement is Some ==> !(r is Forward),
{
    if json_of(payload@) is Some {
        let c = json_of(payload@)->0;
        lemma_tool_call_members(c.at("id"@), asked_name(c), c.at("params"@).at("arguments"@));
        lemma_named(tool_names@, asked_name(c));
    }
}

/// A text is among the texts of a list where one of its elements reads so.
pub proof fn lemma_named(v: Seq<String>, name: Seq<char>)
    ensures
        texts(v).contains(name) <==> exists|i: int| 0 <= i < v.len() && (#[trigger] v[i])@ == name,
{
    if texts(v).contains(name) {
        let i = choose|i: int| 0 <= i < texts(v).len() && texts(v)[i] == name;
        assert(v[i]@ == name);
    }
    if exists|i: int| 0 <= i < v.len() && (#[trigger] v[i])@ == name {
        let i = choose|i: int| 0 <= i < v.len() && (#[trigger] v[i])@ == name;
        assert(texts(v)[i] == name);
    }
}

/// A tool runs on the arguments it was called with, for the principal that was established, and
/// only where it is the tool named; a refused context is answered before enforcement is looked at.
pub proof fn lemma_tool_runs_on_its_own_call(
    call: Option<Json>,
    tool_name: &str,
    who: Result<RequestPrincipal, String>,
    enforcement: Option<&ProviderRefusal>,
    r: ToolStep,
)
    requires
        call_ensures(tool_decide, (call, tool_name, who, enforcement), r),
        tool_name@.len() > 0,
    ensures
        r is Skip <==> !(call matches Some(c) && c@.at("params"@).at("name"@) == JsonModel::Str(tool_name@)),
        r is Run ==> {
            &&& who == Ok::<RequestPrincipal, String>(r->who)
            &&& enforcement is None
            &&& r->Run_call@ == (call->0)@
            &&& r->arguments@ == (call->0)@.at("params"@).at("arguments"@)
        },
        r matches ToolStep::Refuse(j) ==> {
            &&& j@.at("id"@) == (call->0)@.at("id"@)
            &&& who is Err || enforcement is Some
            &&& who matches Err(why) ==> j@.at("error"@).at("code"@) == JsonModel::Int(-32022) && j@.at("error"@).at(
                "message"@,
            ) == JsonModel::Str("caller context refused: "@ + why@)
            &&& who is Ok ==> j@.at("error"@).at("message"@) == JsonModel::Str((enforcement->0).message@)
                && j@.at("error"@).at("code"@) == JsonModel::Int((enforcement->0).code as int)
        },
        !(r is Skip) ==> (r is Run <==> who is Ok && enforcement is None),
{
    if call is Some {
        let c = (call->0)@;
        if who is Err {
            lemma_error_members(c.at("id"@), -32022, "caller context refused: "@ + (who->Err_0)@);
        }
        if enforcement is Some {
            lemma_refusal_members(*(enforcement->0), c.at("id"@));
        }
    }
}

/// The same of a call as it arrived in bytes.
pub proof fn lemma_tool_payload_runs_on_its_own_call(
    payload: &[u8],
    tool_name: &str,
    who: Result<RequestPrincipal, String>,
    enforcement: Option<&ProviderRefusal>,
    r: ToolStep,
)
    requires
        call_ensures(tool_step, (payload, tool_name, who, enforcement), r),
        tool_name@.len() > 0,
    ensures
        r is Skip <==> !(json_of(payload@) matches Some(c) && c.at("params"@).at("name"@) == JsonModel::Str(
            tool_name@,
        )),
        r is Run ==> {
            &&& who == Ok::<RequestPrincipal, String>(r->who)
            &&& enforcement is None
            &&& Some(r->Run_call@) == json_of(payload@)
            &&& r->arguments@ == r->Run_call@.at("params"@).at("arguments"@)
        },
        !(r is Skip) ==> (r is Run <==> who is Ok && enforcement is None),
{
}

/// A tool's answer goes back under the id of its call: its value as the text of the one content
/// element, or its error message with the internal code.
pub proof fn lemma_tool_answers_its_call(call: &Json, result: Result<&Json, &str>, r: Json)
    requires
        call_ensures(tool_reply, (call, result), r),
    ensures
        r@.at("id"@) == call@.at("id"@),
        result matches Ok(v) ==> r@.at("result"@).at("content"@).item(0).at("text"@) == JsonModel::Str(json_text(v@))
            && r@.at("result"@).at("content"@).item(0).at("type"@) == JsonModel::Str("text"@) && r@.member("error"@)
            is None,
        result matches Err(m) ==> r@.at("error"@).at("message"@) == JsonModel::Str(m@) && r@.at("error"@).at("code"@)
            == JsonModel::Int(-32603) && r@.member("result"@) is None,
{
    match result {
        Ok(v) => {
            lemma_result_members(call@.at("id"@), crate::mcp::text_content(json_text(v@)));
            reveal_with_fuel(member_from, 5);
            reveal_strlit("content");
            reveal_strlit("type");
            reveal_strlit("text");
            assert("type"@[1] != "text"@[1]);
        },
        Err(m) => {
            lemma_error_members(call@.at("id"@), -32603, m@);
        },
    }
}

/// A bridge hands a server's answer through untouched, and reports a server that could not be read
/// or reached under the id of the call.
pub proof fn lemma_bridge_hands_the_answer_through(call: &Json, reply: &BridgeReply, r: Json)
    requires
        call_ensures(bridge_reply, (call, reply), r),
    ensures
        *reply matches BridgeReply::Answer(j) ==> r@ == j@,
        *reply matches BridgeReply::Unreadable(e) ==> r@.at("id"@) == call@.at("id"@) && r@.at("error"@).at("code"@)
            == JsonModel::Int(-32603) && r@.at("error"@).at("message"@) == JsonModel::Str(e@),
        *reply matches BridgeReply::Unreachable(e) ==> r@.at("id"@) == call@.at("id"@) && r@.at("error"@).at("code"@)
            == JsonModel::Int(-32000) && r@.at("error"@).at("message"@) == JsonModel::Str(e@),
{
    match *reply {
        BridgeReply::Answer(_) => {},
        BridgeReply::Unreadable(e) => lemma_error_members(call@.at("id"@), -32603, e@),
        BridgeReply::Unreachable(e) => lemma_error_members(call@.at("id"@), -32000, e@),
    }
}

/// The same of the server's body: what reads as JSON is the answer.
pub proof fn lemma_bridge_answers_with_the_body(call: &Json, body: &[u8], r: Json)
    requires
        call_ensures(bridge_answer, (call, body), r),
    ensures
        json_of(body@) matches Some(j) ==> r@ == j,
        json_of(body@) is None ==> r@.at("id"@) == call@.at("id"@) && r@.at("error"@).at("code"@) == JsonModel::Int(
            -32603,
        ),
{
    lemma_error_members(call@.at("id"@), -32603, crate::json::UNREADABLE_BODY@);
}

/// A call is planned for a node that registered the tool, and its payload is the caller's own call:
/// the same name, arguments and id. Where nobody registered the tool, the caller is told so under
/// its id.
pub proof fn lemma_planned_call_is_the_callers(
    request: &Json,
    keys: &Vec<String>,
    r: Result<(NodeId, Vec<u8>), Json>,
)
    requires
        call_ensures(call_plan, (request, keys), r),
        request@.at("params"@).at("name"@) is Str,
    ensures
        r matches Ok((node, payload)) ==> {
            let name = request@.at("params"@).at("name"@)->Str_0;
            &&& exists|m: JsonModel|
                #![trigger json_bytes(m)]
                {
                    &&& payload@ == json_bytes(m)
                    &&& m.at("id"@) == request@.at("id"@)
                    &&& m.at("method"@) == JsonModel::Str("tools/call"@)
                    &&& m.at("params"@).at("name"@) == JsonModel::Str(name)
                    &&& m.at("params"@).at("arguments"@) == request@.at("params"@).at("arguments"@)
                }
            &&& exists|i: int|
                #![trigger keys@[i]]
                0 <= i < keys@.len() && registered(keys@[i]@, name, node@)
        },
        r matches Err(j) ==> {
            let name = request@.at("params"@).at("name"@)->Str_0;
            &&& j@.at("id"@) == request@.at("id"@)
            &&& j@.at("error"@).at("code"@) == JsonModel::Int(-32601)
            &&& j@.at("error"@).at("message"@) == JsonModel::Str("tool not found: "@ + name)
            &&& forall|i: int, n: NodeModel|
                0 <= i < keys@.len() ==> !#[trigger] registered(keys@[i]@, name, n)
        },
{
    let q = request@;
    let name = asked_name(q);
    lemma_tool_call_members(q.at("id"@), name, q.at("params"@).at("arguments"@));
    lemma_error_members(q.at("id"@), -32601, "tool not found: "@ + name);
    lemma_provider(keys@, name, 0);
    if r is Ok {
        let m = tool_call(q.at("id"@), name, q.at("params"@).at("arguments"@));
        assert((r->Ok_0).1@ == json_bytes(m));
    }
}

/// A key registers a tool for a node where it reads `tools/`, the tool's name, a slash and the
/// node.
pub open spec fn registered(key: Seq<char>, name: Seq<char>, node: NodeModel) -> bool {
    let head = "tools/"@ + name + "/"@;
    &&& key.len() >= head.len()
    &&& key.subrange(0, head.len() as int) == head
    &&& crate::node_id::node_of(key.subrange(head.len() as int, key.len() as int)) == Some(node)
}

proof fn lemma_provider(keys: Seq<String>, name: Seq<char>, i: int)
    requires
        0 <= i <= keys.len(),
    ensures
        provider_from(keys, name, i) matches Some(n) ==> exists|j: int|
            #![trigger keys[j]]
            i <= j < keys.len() && registered(keys[j]@, name, n) && forall|l: int, m: NodeModel|
                i <= l < j ==> !#[trigger] registered(keys[l]@, name, m),
        provider_from(keys, name, i) is None ==> forall|l: int, m: NodeModel|
            i <= l < keys.len() ==> !#[trigger] registered(keys[l]@, name, m),
    decreases keys.len() - i,
{
    let head = "tools/"@ + name + "/"@;
    reveal_strlit("/");
    assert("tools/"@ + crate::keys::slashed(name, Seq::empty()) =~= head);
    if i < keys.len() {
        lemma_provider(keys, name, i + 1);
        assert(crate::text::after_prefix(keys[i]@, head) is Some <==> keys[i]@.len() >= head.len()
            && keys[i]@.subrange(0, head.len() as int) == head);
        let at_i = match crate::text::after_prefix(keys[i]@, head) {
            Some(rest) => crate::node_id::node_of(rest),
            None => None,
        };
        assert forall|m: NodeModel| #[trigger] registered(keys[i]@, name, m) <==> at_i == Some(m) by {}
        if at_i is None {
            assert(provider_from(keys, name, i) == provider_from(keys, name, i + 1));
            if provider_from(keys, name, i) is Some {
                let n = provider_from(keys, name, i)->0;
                let j = choose|j: int|
                    #![trigger keys[j]]
                    i + 1 <= j < keys.len() && registered(keys[j]@, name, n) && forall|l: int, m: NodeModel|
                        i + 1 <= l < j ==> !#[trigger] registered(keys[l]@, name, m);
                assert(registered(keys[j]@, name, n));
            }
        }
    }
}

/// The provider found is the one of the first key that registers the tool, and one is found
/// whenever some key does.
pub proof fn lemma_first_registration_is_found(keys: &Vec<String>, name: &str, r: Option<NodeId>)
    requires
        call_ensures(find_provider, (keys, name), r),
    ensures
        r matches Some(n) ==> exists|j: int|
            #![trigger keys@[j]]
            0 <= j < keys@.len() && registered(keys@[j]@, name@, n@) && forall|l: int, m: NodeModel|
                0 <= l < j ==> !#[trigger] registered(keys@[l]@, name@, m),
        r is None ==> forall|l: int, m: NodeModel|
            0 <= l < keys@.len() ==> !#[trigger] registered(keys@[l]@, name@, m),
{
    lemma_provider(keys@, name@, 0);
}

/// What a call came back with: the tool's own answer untouched; an answer that is no JSON and no
/// answer at all are told apart, each under the caller's id.
pub proof fn lemma_call_reply_is_the_tools(request: &Json, reply: Option<&[u8]>, r: Json)
    requires
        call_ensures(call_reply, (request, reply), r),
    ensures
        reply matches Some(b) ==> (json_of(b@) matches Some(j) ==> r@ == j),
        reply matches Some(b) ==> (json_of(b@) is None ==> r@.at("id"@) == request@.at("id"@) && r@.at("error"@).at(
            "code"@,
        ) == JsonModel::Int(-32603)),
        reply is None ==> r@.at("id"@) == request@.at("id"@) && r@.at("error"@).at("code"@) == JsonModel::Int(-32000),
{
    lemma_error_members(request@.at("id"@), -32603, "tool returned invalid JSON"@);
    lemma_error_members(request@.at("id"@), -32000, "tool invocation timed out"@);
}

/// The tool that a call names is the string at its `params.name`, and no name where there is none.
pub proof fn lemma_called_tool(call: &Json, r: String)
    requires
        call_ensures(called_tool, (call,), r),
    ensures
        call@.at("params"@).at("name"@) matches JsonModel::Str(n) ==> r@ == n,
        !(call@.at("params"@).at("name"@) is Str) ==> r@.len() == 0,
{
}

/// A request is sorted by its method alone: listing and calling are handed on with the request as
/// it came, a call without a tool's name and an unknown method are refused under the request's id,
/// and what is no JSON is refused under no id.
pub proof fn lemma_requests_are_sorted_by_method(request: Option<Json>, version: &str, r: McpStep)
    requires
        call_ensures(mcp_dispatch, (request, version), r),
    ensures
        request is None ==> r is Reply && r->Reply_0@.at("id"@) == JsonModel::Null && r->Reply_0@.at("error"@).at(
            "code"@,
        ) == JsonModel::Int(-32700),
        request matches Some(q) ==> {
            let method = q@.at("method"@);
            &&& (r is ListTools <==> method == JsonModel::Str("tools/list"@))
            &&& r is ListTools ==> r->ListTools_0@ == q@
            &&& (r is CallTool <==> method == JsonModel::Str("tools/call"@) && (q@.at("params"@).at("name"@) matches
                JsonModel::Str(n) && n.len() > 0))
            &&& r is CallTool ==> r->CallTool_0@ == q@
            &&& r is Reply ==> r->Reply_0@.at("id"@) == q@.at("id"@)
            &&& method == JsonModel::Str("initialize"@) ==> r is Reply && r->Reply_0@.member("error"@) is None
                && r->Reply_0@.at("result"@).at("serverInfo"@).at("version"@) == JsonModel::Str(version@)
                && r->Reply_0@.at("result"@).at("protocolVersion"@) == JsonModel::Str("2024-11-05"@)
            &&& method == JsonModel::Str("tools/call"@) && !(r is CallTool) ==> r->Reply_0@.at("error"@).at("code"@)
                == JsonModel::Int(-32602)
            &&& method != JsonModel::Str("initialize"@) && method != JsonModel::Str("tools/list"@) && method
                != JsonModel::Str("tools/call"@) ==> r is Reply && r->Reply_0@.at("error"@).at("code"@)
                == JsonModel::Int(-32601)
        },
{
    lemma_methods_differ();
    lemma_error_members(JsonModel::Null, -32700, "parse error"@);
    if request is Some {
        let q = (request->0)@;
        let id = q.at("id"@);
        let method = match q.text_at("method"@) {
            Some(m) => m,
            None => Seq::empty(),
        };
        assert(method == "initialize"@ || method == "tools/list"@ || method == "tools/call"@ ==> q.at("method"@)
            == JsonModel::Str(method));
        lemma_error_members(id, -32602, "invalid params: missing tool name"@);
        lemma_error_members(id, -32601, "method not found: "@ + method);
        let hello = crate::json::object().field(
            "protocolVersion"@,
            crate::json::string(crate::mcp::PROTOCOL_VERSION@),
        ).field("capabilities"@, crate::json::object().field("tools"@, crate::json::object())).field(
            "serverInfo"@,
            crate::json::object().field("name"@, crate::json::string("mycelium"@)).field(
                "version"@,
                crate::json::string(version@),
            ),
        );
        lemma_result_members(id, hello);
        reveal_with_fuel(member_from, 5);
        reveal_strlit("protocolVersion");
        reveal_strlit("capabilities");
        reveal_strlit("serverInfo");
        reveal_strlit("name");
        reveal_strlit("version");
        assert("protocolVersion"@.len() == 15 && "capabilities"@.len() == 12 && "serverInfo"@.len() == 10);
        assert("name"@.len() == 4 && "version"@.len() == 7);
    }
}

proof fn lemma_methods_differ()
    ensures
        "initialize"@ != "tools/list"@,
        "initialize"@ != "tools/call"@,
        "tools/list"@ != "tools/call"@,
        "initialize"@.len() > 0,
        "tools/list"@.len() > 0,
        "tools/call"@.len() > 0,
{
    reveal_strlit("initialize");
    reveal_strlit("tools/list");
    reveal_strlit("tools/call");
    assert("initialize"@[0] != "tools/list"@[0]);
    assert("initialize"@[0] != "tools/call"@[0]);
    assert("tools/list"@[6] != "tools/call"@[6]);
}

/// Sorting what arrived in bytes is sorting what the bytes read as.
pub proof fn lemma_bytes_are_sorted_alike(
    body: &[u8],
    request: Option<Json>,
    version: &str,
    r: McpStep,
    s: McpStep,
)
    requires
        call_ensures(mcp_handler, (body, version), r),
        crate::json::model_of(request) == json_of(body@),
        call_ensures(mcp_dispatch, (request, version), s),
    ensures
        r is Reply <==> s is Reply,
        r is ListTools <==> s is ListTools,
        r is CallTool <==> s is CallTool,
        r is Reply ==> r->Reply_0@ == s->Reply_0@,
        r is ListTools ==> r->ListTools_0@ == s->ListTools_0@,
        r is CallTool ==> r->CallTool_0@ == s->CallTool_0@,
{
}

/// The tools listed are those that the registrations name, each once, in the order in which they
/// first stand; each carries its own registration's schema, and the schema's description.
pub proof fn lemma_each_tool_is_listed_once(entries: &Vec<KvEntry>, r: Vec<Json>)
    requires
        call_ensures(list_tools, (entries,), r),
    ensures
        exists|idx: Seq<int>|
            {
                &&& #[trigger] crate::laws::increasing(idx)
                &&& idx.len() == r@.len()
                &&& forall|j: int|
                    0 <= j < idx.len() ==> {
                        let e = entries@[#[trigger] idx[j]];
                        &&& 0 <= idx[j] < entries@.len()
                        &&& entry_name(e.key@) is Some
                        &&& r@[j]@.at("name"@) == JsonModel::Str(entry_name(e.key@)->0)
                        &&& json_of(e.value@) matches Some(s) ==> r@[j]@.at("inputSchema"@) == s && (s.at(
                            "description"@,
                        ) is Str ==> r@[j]@.at("description"@) == s.at("description"@)) && (!(s.at("description"@)
                            is Str) ==> r@[j]@.member("description"@) is None)
                        &&& json_of(e.value@) is None ==> r@[j]@.at("inputSchema"@) == JsonModel::Obj(Seq::empty())
                    }
                &&& forall|i: int|
                    0 <= i < entries@.len() ==> (#[trigger] idx.contains(i) <==> entry_name(entries@[i].key@) is Some
                        && forall|l: int|
                        0 <= l < i ==> entry_name((#[trigger] entries@[l]).key@) != entry_name(entries@[i].key@))
            },
{
    let n = entries@.len() as int;
    let idx = lemma_listed_positions(entries@, n);
    assert forall|j: int| 0 <= j < idx.len() implies {
        let e = entries@[#[trigger] idx[j]];
        &&& 0 <= idx[j] < entries@.len()
        &&& entry_name(e.key@) is Some
        &&& r@[j]@.at("name"@) == JsonModel::Str(entry_name(e.key@)->0)
        &&& json_of(e.value@) matches Some(s) ==> r@[j]@.at("inputSchema"@) == s && (s.at("description"@) is Str
            ==> r@[j]@.at("description"@) == s.at("description"@)) && (!(s.at("description"@) is Str)
            ==> r@[j]@.member("description"@) is None)
        &&& json_of(e.value@) is None ==> r@[j]@.at("inputSchema"@) == JsonModel::Obj(Seq::empty())
    } by {
        let e = entries@[idx[j]];
        assert(r@[j]@ == listing(entry_name(e.key@)->0, schema_of(e.value@)));
        lemma_listing_members(entry_name(e.key@)->0, schema_of(e.value@));
    }
    assert(crate::laws::increasing(idx));
}

proof fn lemma_listing_members(name: Seq<char>, schema: JsonModel)
    ensures
        listing(name, schema).at("name"@) == JsonModel::Str(name),
        listing(name, schema).at("inputSchema"@) == schema,
        schema.at("description"@) is Str ==> listing(name, schema).at("description"@) == schema.at("description"@),
        !(schema.at("description"@) is Str) ==> listing(name, schema).member("description"@) is None,
{
    reveal_with_fuel(member_from, 5);
    reveal_strlit("name");
    reveal_strlit("inputSchema");
    reveal_strlit("description");
    assert("name"@.len() == 4 && "inputSchema"@.len() == 11 && "description"@.len() == 11);
    assert("inputSchema"@[0] != "description"@[0]);
}

proof fn lemma_listed_positions(entries: Seq<KvEntry>, k: int) -> (idx: Seq<int>)
    requires
        0 <= k <= entries.len(),
    ensures
        crate::laws::increasing(idx),
        idx.len() == listings(entries, k).len(),
        forall|j: int|
            0 <= j < idx.len() ==> 0 <= #[trigger] idx[j] < k && entry_name(entries[idx[j]].key@) is Some && listings(
                entries,
                k,
            )[j] == listing(entry_name(entries[idx[j]].key@)->0, schema_of(entries[idx[j]].value@)),
        forall|i: int|
            0 <= i < k ==> (#[trigger] idx.contains(i) <==> entry_name(entries[i].key@) is Some && forall|l: int|
                0 <= l < i ==> entry_name((#[trigger] entries[l]).key@) != entry_name(entries[i].key@)),
    decreases k,
{
    if k <= 0 {
        Seq::empty()
    } else {
        let front = lemma_listed_positions(entries, k - 1);
        let e = entries[k - 1];
        let fresh = entry_name(e.key@) is Some && !named_before(entries, entry_name(e.key@)->0, k - 1);
        let idx = if fresh {
            front.push(k - 1)
        } else {
            front
        };
        assert forall|i: int| 0 <= i < k implies (#[trigger] idx.contains(i) <==> entry_name(entries[i].key@) is Some
            && forall|l: int| 0 <= l < i ==> entry_name((#[trigger] entries[l]).key@) != entry_name(entries[i].key@)) by {
            if i < k - 1 {
                if front.contains(i) {
                    let j = choose|j: int| 0 <= j < front.len() && front[j] == i;
                    assert(idx[j] == i);
                }
                if idx.contains(i) {
                    let j = choose|j: int| 0 <= j < idx.len() && idx[j] == i;
                    assert(front[j] == i);
                }
                assert(idx.contains(i) <==> front.contains(i));
            } else {
                if fresh {
                    assert(idx[front.len() as int] == i);
                } else if idx.contains(i) {
                    let j = choose|j: int| 0 <= j < idx.len() && idx[j] == i;
                    assert(front[j] == i);
                }
            }
        }
        idx
    }
}

/// The listing goes back under the request's id, and holds the tools listed.
pub proof fn lemma_listing_is_the_tools(request: &Json, entries: &Vec<KvEntry>, tools: Vec<Json>, r: Json)
    requires
        call_ensures(list_reply, (request, entries), r),
        call_ensures(list_tools, (entries,), tools),
    ensures
        r@.at("id"@) == request@.at("id"@),
        r@.at("result"@).at("tools"@) matches JsonModel::Arr(v) && v.len() == tools@.len() && forall|i: int|
            0 <= i < tools@.len() ==> v[i] == (#[trigger] tools@[i])@,
{
    let v = listings(entries@, entries@.len() as int);
    lemma_result_members(request@.at("id"@), crate::json::object().field("tools"@, JsonModel::Arr(v)));
    reveal_with_fuel(member_from, 3);
}

/// From a server's listing a bridge registers the tools that have a name, in order, each under its
/// own name with its own schema, and with the empty one where it states none.
pub proof fn lemma_named_tools_are_bridged(answer: &Json, node: &NodeId, r: Vec<BridgedTool>)
    requires
        call_ensures(bridged_tools, (answer, node), r),
        answer@.at("result"@).at("tools"@) is Arr,
    ensures
        exists|idx: Seq<int>|
            {
                let tools = answer@.at("result"@).at("tools"@)->Arr_0;
                &&& #[trigger] crate::laws::increasing(idx)
                &&& idx.len() == r@.len()
                &&& forall|j: int|
                    0 <= j < idx.len() ==> {
                        let t = tools[#[trigger] idx[j]];
                        &&& 0 <= idx[j] < tools.len()
                        &&& t.at("name"@) == JsonModel::Str(r@[j].name@)
                        &&& t.member("inputSchema"@) is Some ==> r@[j].schema@ == t.at("inputSchema"@)
                        &&& t.member("inputSchema"@) is None ==> r@[j].schema@ == JsonModel::Obj(Seq::empty())
                        &&& r@[j].value@ == json_bytes(r@[j].schema@)
                        &&& registered_as(r@[j].key@, r@[j].name@, node@)
                    }
                &&& forall|i: int|
                    0 <= i < tools.len() ==> (#[trigger] idx.contains(i) <==> tools[i].at("name"@) is Str)
            },
{
    let tools = answer@.at("result"@).at("tools"@)->Arr_0;
    assert(tools_of(answer@) == tools);
    let idx = lemma_bridged_positions(tools, tools.len() as int);
    assert(crate::laws::increasing(idx));
    assert forall|j: int| 0 <= j < idx.len() implies {
        let t = tools[#[trigger] idx[j]];
        &&& 0 <= idx[j] < tools.len()
        &&& t.at("name"@) == JsonModel::Str(r@[j].name@)
        &&& t.member("inputSchema"@) is Some ==> r@[j].schema@ == t.at("inputSchema"@)
        &&& t.member("inputSchema"@) is None ==> r@[j].schema@ == JsonModel::Obj(Seq::empty())
        &&& r@[j].value@ == json_bytes(r@[j].schema@)
        &&& registered_as(r@[j].key@, r@[j].name@, node@)
    } by {
        assert(bridged_models(r@)[j] == (r@[j].name@, r@[j].schema@));
        assert(crate::mcp::registers(r@[j], node@));
        reveal_strlit("/");
        assert("tools/"@ + crate::keys::slashed(r@[j].name@, node@.text()) =~= "tools/"@ + r@[j].name@ + "/"@
            + node@.text());
    }
}

/// The key that a node registers a tool under.
pub open spec fn registered_as(key: Seq<char>, name: Seq<char>, node: NodeModel) -> bool {
    key == "tools/"@ + name + "/"@ + node.text()
}

proof fn lemma_bridged_positions(tools: Seq<JsonModel>, k: int) -> (idx: Seq<int>)
    requires
        0 <= k <= tools.len(),
    ensures
        crate::laws::increasing(idx),
        idx.len() == bridged_in(tools, k).len(),
        forall|j: int|
            0 <= j < idx.len() ==> 0 <= #[trigger] idx[j] < k && bridged_at(tools[idx[j]]) == Some(
                bridged_in(tools, k)[j],
            ),
        forall|i: int| 0 <= i < k ==> (#[trigger] idx.contains(i) <==> tools[i].at("name"@) is Str),
    decreases k,
{
    if k <= 0 {
        Seq::empty()
    } else {
        let front = lemma_bridged_positions(tools, k - 1);
        let kept = tools[k - 1].at("name"@) is Str;
        let idx = if kept {
            front.push(k - 1)
        } else {
            front
        };
        crate::laws::lemma_pushed(front, k - 1, kept, idx);
        idx
    }
}

/// A tool that a bridge registers is found at the node that bridges it.
pub proof fn lemma_bridged_tool_is_found(keys: &Vec<String>, name: &str, node: NodeModel, r: Option<NodeId>)
    requires
        call_ensures(find_provider, (keys, name), r),
        crate::node_id::valid_host(node.host),
        exists|i: int| 0 <= i < keys@.len() && registered_as((#[trigger] keys@[i])@, name@, node),
    ensures
        r is Some,
{
    lemma_provider(keys@, name@, 0);
    let i = choose|i: int| 0 <= i < keys@.len() && registered_as((#[trigger] keys@[i])@, name@, node);
    let head = "tools/"@ + name@ + "/"@;
    assert(keys@[i]@ == head + node.text());
    assert((head + node.text()).subrange(0, head.len() as int) =~= head);
    assert((head + node.text()).subrange(head.len() as int, (head + node.text()).len() as int) =~= node.text());
    crate::node_id::lemma_node_text_parses(node);
    assert(registered(keys@[i]@, name@, node));
}

/// A server is connected to exactly where the egress list is empty or names its host.
pub proof fn lemma_egress_is_by_host(egress: &EgressPolicy, url: &str, host: String, r: Result<(), crate::mcp::McpError>)
    requires
        call_ensures(crate::mcp::may_connect, (egress, url), r),
        call_ensures(crate::config::url_host, (url,), host),
    ensures
        r is Ok <==> egress.allow_hosts@.len() == 0 || exists|i: int|
            0 <= i < egress.allow_hosts@.len() && (#[trigger] egress.allow_hosts@[i])@ == host@,
{
    lemma_named(egress.allow_hosts@, host@);
}

/// A tool is registered under its own name and node with its own schema, and a key so registered is
/// listed under that name.
pub proof fn lemma_registered_tool_is_listed(
    name: &str,
    node: &NodeId,
    schema: &Json,
    e: KvEntry,
    entries: &Vec<KvEntry>,
    i: int,
    r: Vec<Json>,
)
    requires
        call_ensures(crate::mcp::tool_registration, (name, node, schema), e),
        !name@.contains('/'),
        0 <= i < entries@.len(),
        entries@[i].key@ == e.key@,
        call_ensures(list_tools, (entries,), r),
    ensures
        registered_as(e.key@, name@, node@),
        e.value@ == json_bytes(schema@),
        exists|j: int| 0 <= j < r@.len() && (#[trigger] r@[j])@.at("name"@) == JsonModel::Str(name@),
{
    reveal_strlit("/");
    assert(e.key@ =~= "tools/"@ + name@ + "/"@ + node@.text());
    let rest = crate::keys::slashed(name@, node@.text());
    crate::keys::lemma_after_prefix_of_joined("tools/"@, rest);
    crate::text::lemma_split_at_first_of_joined(name@, '/', node@.text());
    assert(entry_name(e.key@) == Some(name@));
    let k = lemma_first_named(entries@, name@, i);
    let idx = lemma_listed_positions(entries@, entries@.len() as int);
    assert(idx.contains(k));
    let j = choose|j: int| 0 <= j < idx.len() && idx[j] == k;
    lemma_listing_members(name@, schema_of(entries@[k].value@));
    assert(r@[j]@ == listing(name@, schema_of(entries@[k].value@)));
}

proof fn lemma_first_named(entries: Seq<KvEntry>, name: Seq<char>, i: int) -> (k: int)
    requires
        0 <= i < entries.len(),
        entry_name(entries[i].key@) == Some(name),
    ensures
        0 <= k <= i,
        entry_name(entries[k].key@) == Some(name),
        forall|l: int| 0 <= l < k ==> entry_name((#[trigger] entries[l]).key@) != Some(name),
    decreases i,
{
    if exists|l: int| 0 <= l < i && entry_name((#[trigger] entries[l]).key@) == Some(name) {
        let l = choose|l: int| 0 <= l < i && entry_name((#[trigger] entries[l]).key@) == Some(name);
        lemma_first_named(entries, name, l)
    } else {
        i
    }
}

/// The messages of the protocol carry what they are made of.
pub proof fn lemma_protocol_messages(
    id: Json,
    code: i64,
    message: &str,
    result: Json,
    name: &str,
    arguments: Json,
    version: &str,
    e: Json,
    r: Json,
    c: Json,
    hello: Json,
    l: Json,
)
    requires
        call_ensures(crate::mcp::error_json, (id, code, message), e),
        call_ensures(crate::mcp::result_json, (id, result), r),
        call_ensures(crate::mcp::tool_call_json, (id, name, arguments), c),
        call_ensures(crate::mcp::initialize_request, (version,), hello),
        call_ensures(crate::mcp::list_request, (), l),
    ensures
        e@.at("id"@) == id@ && e@.at("error"@).at("code"@) == JsonModel::Int(code as int) && e@.at("error"@).at(
            "message"@,
        ) == JsonModel::Str(message@),
        r@.at("id"@) == id@ && r@.at("result"@) == result@,
        c@.at("id"@) == id@ && c@.at("params"@).at("name"@) == JsonModel::Str(name@) && c@.at("params"@).at("arguments"@)
            == arguments@,
        hello@.at("method"@) == JsonModel::Str("initialize"@),
        hello@.at("params"@).at("protocolVersion"@) == JsonModel::Str("2024-11-05"@),
        l@.at("method"@) == JsonModel::Str("tools/list"@),
{
    lemma_error_members(id@, code as int, message@);
    lemma_result_members(id@, result@);
    lemma_tool_call_members(id@, name@, arguments@);
    reveal_with_fuel(member_from, 5);
    reveal_strlit("jsonrpc");
    reveal_strlit("id");
    reveal_strlit("method");
    reveal_strlit("params");
    assert("jsonrpc"@.len() == 7 && "id"@.len() == 2 && "method"@.len() == 6 && "params"@.len() == 6);
    assert("method"@[0] != "params"@[0]);
}

/// A server's listing is read as its tools, and as an error where it is no JSON.
pub proof fn lemma_listing_is_read(
    body: &[u8],
    node: &NodeId,
    answer: &Json,
    tools: Vec<BridgedTool>,
    r: Result<Vec<BridgedTool>, crate::mcp::McpError>,
)
    requires
        call_ensures(crate::mcp::read_listing, (body, node), r),
        json_of(body@) matches Some(a) ==> a == answer@,
        call_ensures(bridged_tools, (answer, node), tools),
    ensures
        r is Ok <==> json_of(body@) is Some,
        r matches Ok(t) ==> t@.len() == tools@.len() && forall|i: int|
            0 <= i < t@.len() ==> (#[trigger] t@[i]).name@ == tools@[i].name@ && t@[i].schema@ == tools@[i].schema@
                && t@[i].key@ == tools@[i].key@,
{
    if r is Ok {
        let t = (r->Ok_0)@;
        assert(bridged_models(t) == bridged_models(tools@));
        assert(bridged_models(t).len() == t.len());
        assert(bridged_models(tools@).len() == tools@.len());
        assert forall|i: int| 0 <= i < t.len() implies (#[trigger] t[i]).name@ == tools@[i].name@ && t[i].schema@
            == tools@[i].schema@ && t[i].key@ == tools@[i].key@ by {
            assert(bridged_models(t)[i] == bridged_models(tools@)[i]);
            assert(crate::mcp::registers(t[i], node@));
            assert(crate::mcp::registers(tools@[i], node@));
        }
    }
}

} // verus!

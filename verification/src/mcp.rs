//! The tool bridge: tools registered under `tools/{name}/{node}`, called by name through the mesh,
//! and bridged from other servers.
use crate::config::{permits, EgressPolicy};
use crate::json::{
    json_bytes, json_of, json_text, json_to_bytes, model_of, object, parse_json, print_json, string, Json, JsonModel,
    UNREADABLE_BODY,
};
use crate::keys::{slash, slashed, KvEntry};
use crate::node_id::{lemma_node_text_parses, node_of, valid_host, NodeId, NodeModel};
use crate::provider_enforcement::{is_principal, refusal_of, Caller, ProviderRefusal, RequestPrincipal};
use crate::rpc::RpcError;
use crate::text::{after_prefix, join, same, split_at_first, split_once, strip_prefix, texts};
use vstd::prelude::*;
use vstd::string::*;

verus! {

/// The signal kind a tool call travels under.
pub const MCP_INVOKE: &'static str = "mcp.invoke";

/// The protocol version that is spoken.
pub const PROTOCOL_VERSION: &'static str = "2024-11-05";

/// What can go wrong with a tool.
#[derive(Debug, PartialEq, Eq)]
#[non_exhaustive]
pub enum McpError {
    /// The call got no reply.
    Rpc(RpcError),
    /// JSON could not be written or read.
    SerdeJson(String),
    /// No provider has a tool of that name.
    ToolNotFound(String),
    /// The tool's handler returned an error.
    ToolError(String),
    /// The network or the HTTP transport failed.
    Transport(String),
}

impl McpError {
    /// The error as text.
    pub open spec fn text(self) -> Seq<char> {
        match self {
            McpError::Rpc(e) => "rpc error: "@ + e.text(),
            McpError::SerdeJson(s) => "json error: "@ + s@,
            McpError::ToolNotFound(name) => "tool not found: "@ + name@,
            McpError::ToolError(msg) => "tool error: "@ + msg@,
            McpError::Transport(msg) => "transport error: "@ + msg@,
        }
    }

    /// The error as text.
    pub fn message(&self) -> (r: String)
        ensures
            r@ == self.text(),
    {
        match self {
            McpError::Rpc(e) => join("rpc error: ", e.message().as_str()),
            McpError::SerdeJson(s) => join("json error: ", s.as_str()),
            McpError::ToolNotFound(name) => join("tool not found: ", name.as_str()),
            McpError::ToolError(msg) => join("tool error: ", msg.as_str()),
            McpError::Transport(msg) => join("transport error: ", msg.as_str()),
        }
    }
}

impl From<RpcError> for McpError {
    fn from(e: RpcError) -> (r: Self) {
        McpError::Rpc(e)
    }
}

impl vstd::std_specs::convert::FromSpecImpl<RpcError> for McpError {
    open spec fn obeys_from_spec() -> bool {
        true
    }

    open spec fn from_spec(e: RpcError) -> Self {
        McpError::Rpc(e)
    }
}

/// A JSON-RPC envelope with this identifier, to be completed.
pub open spec fn envelope(id: JsonModel) -> JsonModel {
    object().field("jsonrpc"@, string("2.0"@)).field("id"@, id)
}

/// A JSON-RPC error.
pub open spec fn rpc_error(id: JsonModel, code: int, message: Seq<char>) -> JsonModel {
    envelope(id).field(
        "error"@,
        object().field("code"@, JsonModel::Int(code)).field("message"@, string(message)),
    )
}

/// A JSON-RPC result.
pub open spec fn rpc_result(id: JsonModel, result: JsonModel) -> JsonModel {
    envelope(id).field("result"@, result)
}

/// A tool's result: one piece of text.
pub open spec fn text_content(text: Seq<char>) -> JsonModel {
    object().field(
        "content"@,
        JsonModel::Arr(
            Seq::empty().push(object().field("type"@, string("text"@)).field("text"@, string(text))),
        ),
    )
}

/// A JSON-RPC call of a tool.
pub open spec fn tool_call(id: JsonModel, name: Seq<char>, arguments: JsonModel) -> JsonModel {
    envelope(id).field("method"@, string("tools/call"@)).field(
        "params"@,
        object().field("name"@, string(name)).field("arguments"@, arguments),
    )
}

fn envelope_json(id: Json) -> (r: Json)
    ensures
        r@ == envelope(id@),
{
    Json::empty_object().with_str("jsonrpc", "2.0").with("id", id)
}

/// A JSON-RPC error.
pub fn error_json(id: Json, code: i64, message: &str) -> (r: Json)
    ensures
        r@ == rpc_error(id@, code as int, message@),
{
    let error = Json::empty_object().with("code", Json::integer(code)).with_str("message", message);
    envelope_json(id).with("error", error)
}

/// A JSON-RPC result.
pub fn result_json(id: Json, result: Json) -> (r: Json)
    ensures
        r@ == rpc_result(id@, result@),
{
    envelope_json(id).with("result", result)
}

/// A JSON-RPC call of a tool.
pub fn tool_call_json(id: Json, name: &str, arguments: Json) -> (r: Json)
    ensures
        r@ == tool_call(id@, name@, arguments@),
{
    let params = Json::empty_object().with_str("name", name).with("arguments", arguments);
    envelope_json(id).with_str("method", "tools/call").with("params", params)
}

/// The key a node's tool is registered under.
pub open spec fn tool_key_of(name: Seq<char>, node: NodeModel) -> Seq<char> {
    "tools/"@ + slashed(name, node.text())
}

/// The key a node's tool is registered under: `tools/{name}/{node}`.
pub fn tool_key(name: &str, node: &NodeId) -> (r: String)
    ensures
        r@ == tool_key_of(name@, node@),
{
    join("tools/", slash(name, node.text().as_str()).as_str())
}

/// What registering a tool writes: its schema's text, under its key.
pub fn tool_registration(name: &str, node: &NodeId, schema: &Json) -> (r: KvEntry)
    ensures
        r.key@ == tool_key_of(name@, node@),
        r.value@ == json_bytes(schema@),
{
    KvEntry { key: tool_key(name, node), value: json_to_bytes(schema) }
}

/// The name a tool call asks for: empty where it names none.
pub open spec fn asked_name(call: JsonModel) -> Seq<char> {
    match call.at("params"@).text_at("name"@) {
        Some(n) => n,
        None => Seq::empty(),
    }
}

/// The name a tool call asks for: empty where it names none.
pub fn called_tool(call: &Json) -> (r: String)
    ensures
        r@ == asked_name(call@),
{
    match call.at("params").str_at("name") {
        Some(n) => n.to_owned(),
        None => String::new(),
    }
}

/// What a tool's task does with a request before its handler may see it.
#[derive(Debug, PartialEq, Eq)]
pub enum ToolStep {
    /// Not for this tool, or not a call at all: leave it.
    Skip,
    /// Answer this and do not run the handler.
    Refuse(Json),
    /// Run the handler.
    Run {
        /// Who is calling, as the handler is told.
        who: RequestPrincipal,
        /// The call, by which it is answered.
        call: Json,
        /// What the handler is given.
        arguments: Json,
    },
}

/// What a tool's task does with a call, where the payload is one. `who` is who makes the call, or why that
/// could not be established, and `enforcement` is provider enforcement's refusal, where there is one.
pub open spec fn tool_decision(
    r: ToolStep,
    call: Option<JsonModel>,
    tool_name: Seq<char>,
    who: Result<RequestPrincipal, String>,
    enforcement: Option<&ProviderRefusal>,
) -> bool {
    match call {
        None => r == ToolStep::Skip,
        Some(c) => if asked_name(c) != tool_name {
            r == ToolStep::Skip
        } else {
            match (who, enforcement) {
                (Err(why), _) => r matches ToolStep::Refuse(j) && j@ == rpc_error(
                    c.at("id"@),
                    -32022,
                    "caller context refused: "@ + why@,
                ),
                (Ok(_), Some(p)) => r matches ToolStep::Refuse(j) && j@ == refusal_of(*p, c.at("id"@)),
                (Ok(principal), None) => r matches ToolStep::Run { who, call, arguments } && who == principal
                    && call@ == c && arguments@ == c.at("params"@).at("arguments"@),
            }
        },
    }
}

/// Decide on a request to a tool, by its payload: one that is no JSON, or that names another tool, is
/// left. The handler is told who is calling. A context that fails is answered with an error, and the
/// handler never runs as if the node itself had called.
pub fn tool_step(
    payload: &[u8],
    tool_name: &str,
    who: Result<RequestPrincipal, String>,
    enforcement: Option<&ProviderRefusal>,
) -> (r: ToolStep)
    ensures
        tool_decision(r, json_of(payload@), tool_name@, who, enforcement),
{
    tool_decide(parse_json(payload), tool_name, who, enforcement)
}

/// Decide on a call to a tool; `call` is `None` where the payload is no JSON.
pub fn tool_decide(
    call: Option<Json>,
    tool_name: &str,
    who: Result<RequestPrincipal, String>,
    enforcement: Option<&ProviderRefusal>,
) -> (r: ToolStep)
    ensures
        tool_decision(r, model_of(call), tool_name@, who, enforcement),
{
    let c = match call {
        Some(c) => c,
        None => {
            return ToolStep::Skip;
        },
    };
    if !same(called_tool(&c).as_str(), tool_name) {
        return ToolStep::Skip;
    }
    let principal = match who {
        Ok(p) => p,
        Err(why) => {
            return ToolStep::Refuse(
                error_json(c.at("id"), -32022, join("caller context refused: ", why.as_str()).as_str()),
            );
        },
    };
    if let Some(p) = enforcement {
        return ToolStep::Refuse(p.jsonrpc(&c.at("id")));
    }
    let arguments = c.at("params").at("arguments");
    ToolStep::Run { who: principal, call: c, arguments }
}

/// What a call is answered once the handler has returned: its value's compact text, or its message.
pub fn tool_reply(call: &Json, result: Result<&Json, &str>) -> (r: Json)
    ensures
        r@ == match result {
            Ok(value) => rpc_result(call@.at("id"@), text_content(json_text(value@))),
            Err(msg) => rpc_error(call@.at("id"@), -32603, msg@),
        },
{
    match result {
        Ok(value) => {
            let text = print_json(value);
            let piece = Json::empty_object().with_str("type", "text").with_str("text", text.as_str());
            let content = Json::empty_object().with("content", Json::singleton(piece));
            result_json(call.at("id"), content)
        },
        Err(msg) => error_json(call.at("id"), -32603, msg),
    }
}

/// What a bridge does with a request to one of its tools.
#[derive(Debug, PartialEq, Eq)]
pub enum BridgeStep {
    /// Not one of its tools, or not a call at all: leave it.
    Skip,
    /// Answer this and do not call the server.
    Refuse(Json),
    /// Post this to the server.
    Forward(Json),
}

fn listed(names: &Vec<String>, name: &str) -> (r: bool)
    ensures
        r == texts(names@).contains(name@),
{
    let mut i: usize = 0;
    while i < names.len()
        invariant
            i <= names@.len(),
            forall|j: int| 0 <= j < i ==> (#[trigger] texts(names@)[j]) != name@,
        decreases names@.len() - i,
    {
        if same(names[i].as_str(), name) {
            assert(texts(names@)[i as int] == name@);
            return true;
        }
        i += 1;
    }
    false
}

/// What a bridge does with a call, where the payload is one.
pub open spec fn bridge_decision(
    r: BridgeStep,
    call: Option<JsonModel>,
    tool_names: Seq<Seq<char>>,
    enforcement: Option<&ProviderRefusal>,
) -> bool {
    match call {
        None => r == BridgeStep::Skip,
        Some(c) => if !tool_names.contains(asked_name(c)) {
            r == BridgeStep::Skip
        } else {
            match enforcement {
                Some(p) => r matches BridgeStep::Refuse(j) && j@ == refusal_of(*p, c.at("id"@)),
                None => r matches BridgeStep::Forward(j) && j@ == tool_call(
                    c.at("id"@),
                    asked_name(c),
                    c.at("params"@).at("arguments"@),
                ),
            }
        },
    }
}

/// Decide on a request to a bridged server's tools, by its payload.
pub fn bridge_step(payload: &[u8], tool_names: &Vec<String>, enforcement: Option<&ProviderRefusal>) -> (r:
    BridgeStep)
    ensures
        bridge_decision(r, json_of(payload@), texts(tool_names@), enforcement),
{
    bridge_decide(parse_json(payload), tool_names, enforcement)
}

/// Decide on a call to a bridged server's tools; `call` is `None` where the payload is no JSON.
pub fn bridge_decide(call: Option<Json>, tool_names: &Vec<String>, enforcement: Option<&ProviderRefusal>) -> (r:
    BridgeStep)
    ensures
        bridge_decision(r, model_of(call), texts(tool_names@), enforcement),
{
    let c = match call {
        Some(c) => c,
        None => {
            return BridgeStep::Skip;
        },
    };
    let name = called_tool(&c);
    if !listed(tool_names, name.as_str()) {
        return BridgeStep::Skip;
    }
    if let Some(p) = enforcement {
        return BridgeStep::Refuse(p.jsonrpc(&c.at("id")));
    }
    BridgeStep::Forward(tool_call_json(c.at("id"), name.as_str(), c.at("params").at("arguments")))
}

/// What came back from a bridged server.
#[derive(Debug, PartialEq, Eq)]
pub enum BridgeReply {
    /// An answer.
    Answer(Json),
    /// An answer that is no JSON.
    Unreadable(String),
    /// No answer.
    Unreachable(String),
}

/// What a forwarded call is answered.
pub fn bridge_reply(call: &Json, reply: &BridgeReply) -> (r: Json)
    ensures
        r@ == match *reply {
            BridgeReply::Answer(j) => j@,
            BridgeReply::Unreadable(e) => rpc_error(call@.at("id"@), -32603, e@),
            BridgeReply::Unreachable(e) => rpc_error(call@.at("id"@), -32000, e@),
        },
{
    match reply {
        BridgeReply::Answer(j) => j.copy(),
        BridgeReply::Unreadable(e) => error_json(call.at("id"), -32603, e.as_str()),
        BridgeReply::Unreachable(e) => error_json(call.at("id"), -32000, e.as_str()),
    }
}

/// What a forwarded call is answered with the body that came back.
pub fn bridge_answer(call: &Json, body: &[u8]) -> (r: Json)
    ensures
        r@ == match json_of(body@) {
            Some(j) => j,
            None => rpc_error(call@.at("id"@), -32603, UNREADABLE_BODY@),
        },
{
    match parse_json(body) {
        Some(j) => bridge_reply(call, &BridgeReply::Answer(j)),
        None => bridge_reply(call, &BridgeReply::Unreadable(UNREADABLE_BODY.to_owned())),
    }
}

/// May this server be connected to? An empty policy permits all.
pub fn may_connect(egress: &EgressPolicy, server_url: &str) -> (r: Result<(), McpError>)
    ensures
        if permits(texts(egress.allow_hosts@), server_url@) {
            r is Ok
        } else {
            r matches Err(McpError::Transport(e)) && e@ == "egress denied by policy: "@ + server_url@
        },
{
    if egress.permits_url(server_url) {
        Ok(())
    } else {
        Err(McpError::Transport(join("egress denied by policy: ", server_url)))
    }
}

/// The request that opens a connection to a server.
pub fn initialize_request(version: &str) -> (r: Json)
    ensures
        r@ == envelope(JsonModel::Int(0)).field("method"@, string("initialize"@)).field(
            "params"@,
            object().field("protocolVersion"@, string(PROTOCOL_VERSION@)).field(
                "capabilities"@,
                object(),
            ).field(
                "clientInfo"@,
                object().field("name"@, string("mycelium"@)).field("version"@, string(version@)),
            ),
        ),
{
    let client = Json::empty_object().with_str("name", "mycelium").with_str("version", version);
    let params = Json::empty_object().with_str("protocolVersion", PROTOCOL_VERSION).with(
        "capabilities",
        Json::empty_object(),
    ).with("clientInfo", client);
    envelope_json(Json::UInt(0)).with_str("method", "initialize").with("params", params)
}

/// The request that asks a server for its tools.
pub fn list_request() -> (r: Json)
    ensures
        r@ == envelope(JsonModel::Int(1)).field("method"@, string("tools/list"@)).field(
            "params"@,
            object(),
        ),
{
    envelope_json(Json::UInt(1)).with_str("method", "tools/list").with("params", Json::empty_object())
}

/// A tool to be registered for a bridged server.
#[derive(Debug, PartialEq, Eq)]
pub struct BridgedTool {
    /// Its name.
    pub name: String,
    /// The key it is registered under.
    pub key: String,
    /// Its input schema.
    pub schema: Json,
    /// The value it is registered with: the schema's text.
    pub value: Vec<u8>,
}

/// A tool a server lists, as it is registered: one without a name is passed over, and one without a
/// schema takes anything.
pub open spec fn bridged_at(tool: JsonModel) -> Option<(Seq<char>, JsonModel)> {
    match tool.text_at("name"@) {
        Some(name) => Some(
            (
                name,
                match tool.member("inputSchema"@) {
                    Some(s) => s,
                    None => object(),
                },
            ),
        ),
        None => None,
    }
}

/// The first `k` tools of a list, as they are registered.
pub open spec fn bridged_in(tools: Seq<JsonModel>, k: int) -> Seq<(Seq<char>, JsonModel)>
    decreases k,
{
    if k <= 0 {
        Seq::empty()
    } else {
        let front = bridged_in(tools, k - 1);
        match bridged_at(tools[k - 1]) {
            Some(t) => front.push(t),
            None => front,
        }
    }
}

/// The tools of a server's answer, or none where it holds no list.
pub open spec fn tools_of(answer: JsonModel) -> Seq<JsonModel> {
    match answer.at("result"@).at("tools"@).elements() {
        Some(v) => v,
        None => Seq::empty(),
    }
}

/// Names and schemas of a list of bridged tools.
pub open spec fn bridged_models(v: Seq<BridgedTool>) -> Seq<(Seq<char>, JsonModel)> {
    Seq::new(v.len(), |i: int| (v[i].name@, v[i].schema@))
}

/// Is the tool registered by this node: under its key, with its schema's text?
pub open spec fn registers(tool: BridgedTool, node: NodeModel) -> bool {
    &&& tool.key@ == tool_key_of(tool.name@, node)
    &&& tool.value@ == json_bytes(tool.schema@)
}

/// The tools to register for a server that gave this answer to `tools/list`.
pub fn bridged_tools(answer: &Json, node: &NodeId) -> (r: Vec<BridgedTool>)
    ensures
        bridged_models(r@) == bridged_in(tools_of(answer@), tools_of(answer@).len() as int),
        forall|i: int| 0 <= i < r@.len() ==> registers(#[trigger] r@[i], node@),
{
    let list = answer.at("result").at("tools");
    let mut out: Vec<BridgedTool> = Vec::new();
    assert(bridged_models(out@) =~= Seq::empty());
    let tools = match list.as_array() {
        Some(v) => v,
        None => {
            return out;
        },
    };
    let ghost models = tools_of(answer@);
    let mut k: usize = 0;
    while k < tools.len()
        invariant
            k <= tools@.len(),
            models.len() == tools@.len(),
            forall|i: int| 0 <= i < tools@.len() ==> #[trigger] models[i] == tools@[i]@,
            bridged_models(out@) == bridged_in(models, k as int),
            forall|i: int| 0 <= i < out@.len() ==> registers(#[trigger] out@[i], node@),
        decreases tools@.len() - k,
    {
        let ghost held = out@;
        assert(models[k as int] == tools@[k as int]@);
        if let Some(name) = tools[k].str_at("name") {
            let schema = match tools[k].get("inputSchema") {
                Some(s) => s.copy(),
                None => Json::empty_object(),
            };
            let ghost pair = (name@, schema@);
            let value = json_to_bytes(&schema);
            out.push(BridgedTool { name: name.to_owned(), key: tool_key(name, node), schema, value });
            assert(bridged_models(out@) =~= bridged_models(held).push(pair));
        }
        k += 1;
    }
    out
}

/// The tools to register for a server whose answer to `tools/list` is this body. One that does not parse
/// fails the discovery, as an answer that never came does.
pub fn read_listing(body: &[u8], node: &NodeId) -> (r: Result<Vec<BridgedTool>, McpError>)
    ensures
        match json_of(body@) {
            Some(answer) => r matches Ok(tools) && bridged_models(tools@) == bridged_in(
                tools_of(answer),
                tools_of(answer).len() as int,
            ) && (forall|i: int| 0 <= i < tools@.len() ==> registers(#[trigger] tools@[i], node@)),
            None => r matches Err(McpError::Transport(e)) && e@ == UNREADABLE_BODY@,
        },
{
    match parse_json(body) {
        Some(answer) => Ok(bridged_tools(&answer, node)),
        None => Err(McpError::Transport(UNREADABLE_BODY.to_owned())),
    }
}

/// The input schema a registration's value holds: the empty object, where it does not parse.
pub open spec fn schema_of(value: Seq<u8>) -> JsonModel {
    match json_of(value) {
        Some(j) => j,
        None => object(),
    }
}

/// The name a registration's key gives its tool.
pub open spec fn entry_name(key: Seq<char>) -> Option<Seq<char>> {
    match after_prefix(key, "tools/"@) {
        Some(rest) => match split_at_first(rest, '/') {
            Some((name, node)) => Some(name),
            None => None,
        },
        None => None,
    }
}

/// How a tool is listed: its name, its schema, and the schema's description where it has one.
pub open spec fn listing(name: Seq<char>, schema: JsonModel) -> JsonModel {
    let base = object().field("name"@, string(name)).field("inputSchema"@, schema);
    match schema.member("description"@) {
        Some(JsonModel::Str(d)) => base.field("description"@, string(d)),
        _ => base,
    }
}

/// Is a tool of that name among the first `k` entries?
pub open spec fn named_before(entries: Seq<KvEntry>, name: Seq<char>, k: int) -> bool {
    exists|i: int| 0 <= i < k && entry_name((#[trigger] entries[i]).key@) == Some(name)
}

/// The tools of the first `k` entries, each name once and as it is registered first.
pub open spec fn listings(entries: Seq<KvEntry>, k: int) -> Seq<JsonModel>
    decreases k,
{
    if k <= 0 {
        Seq::empty()
    } else {
        let front = listings(entries, k - 1);
        let e = entries[k - 1];
        match entry_name(e.key@) {
            Some(name) if !named_before(entries, name, k - 1) => front.push(listing(name, schema_of(e.value@))),
            _ => front,
        }
    }
}

fn name_of_entry(key: &str) -> (r: Option<String>)
    ensures
        r is Some == entry_name(key@) is Some,
        r matches Some(n) ==> entry_name(key@) == Some(n@),
{
    match strip_prefix(key, "tools/") {
        Some(rest) => match split_once(rest.as_str(), '/') {
            Some((name, _)) => Some(name),
            None => None,
        },
        None => None,
    }
}

fn listing_json(name: &str, schema: &Json) -> (r: Json)
    ensures
        r@ == listing(name@, schema@),
{
    let base = Json::empty_object().with_str("name", name).with("inputSchema", schema.copy());
    match schema.get("description") {
        Some(d) => match d.as_str() {
            Some(text) => base.with_str("description", text),
            None => base,
        },
        None => base,
    }
}

/// The tools of a scan, each name once.
pub fn list_tools(entries: &Vec<KvEntry>) -> (r: Vec<Json>)
    ensures
        r@.len() == listings(entries@, entries@.len() as int).len(),
        forall|i: int|
            0 <= i < r@.len() ==> (#[trigger] r@[i])@ == listings(entries@, entries@.len() as int)[i],
{
    let mut out: Vec<Json> = Vec::new();
    let mut names: Vec<String> = Vec::new();
    let mut k: usize = 0;
    while k < entries.len()
        invariant
            k <= entries@.len(),
            forall|n: Seq<char>| texts(names@).contains(n) <==> named_before(entries@, n, k as int),
            out@.len() == listings(entries@, k as int).len(),
            forall|i: int| 0 <= i < out@.len() ==> (#[trigger] out@[i])@ == listings(entries@, k as int)[i],
        decreases entries@.len() - k,
    {
        let ghost before = names@;
        let ghost at = entry_name(entries@[k as int].key@);
        if let Some(name) = name_of_entry(entries[k].key.as_str()) {
            if !listed(&names, name.as_str()) {
                let schema = match parse_json(entries[k].value.as_slice()) {
                    Some(j) => j,
                    None => Json::empty_object(),
                };
                out.push(listing_json(name.as_str(), &schema));
                names.push(name);
                proof {
                    assert(texts(names@) =~= texts(before).push(at->0));
                }
            }
        }
        proof {
            assert forall|n: Seq<char>| texts(names@).contains(n) <==> named_before(entries@, n, k + 1) by {
                lemma_named_before_step(entries@, n, k as int);
                if names@.len() > before.len() {
                    let t = texts(before);
                    let u = texts(names@);
                    assert(u[t.len() as int] == at->0);
                    if t.contains(n) {
                        let i = choose|i: int| 0 <= i < t.len() && t[i] == n;
                        assert(u[i] == n);
                    }
                    if u.contains(n) && n != at->0 {
                        let i = choose|i: int| 0 <= i < u.len() && u[i] == n;
                        assert(t[i] == n);
                    }
                }
            }
        }
        k += 1;
    }
    out
}

proof fn lemma_named_before_step(entries: Seq<KvEntry>, n: Seq<char>, k: int)
    requires
        0 <= k < entries.len(),
    ensures
        named_before(entries, n, k + 1) <==> named_before(entries, n, k) || entry_name(entries[k].key@)
            == Some(n),
{
    if named_before(entries, n, k) {
        let i = choose|i: int| 0 <= i < k && entry_name((#[trigger] entries[i]).key@) == Some(n);
        assert(entry_name(entries[i].key@) == Some(n));
    }
    if named_before(entries, n, k + 1) {
        let i = choose|i: int| 0 <= i < k + 1 && entry_name((#[trigger] entries[i]).key@) == Some(n);
        assert(entry_name(entries[i].key@) == Some(n));
    }
}

/// The node of the first registration from `i` on whose key stands under the tool's name and names a
/// node.
pub open spec fn provider_from(keys: Seq<String>, name: Seq<char>, i: int) -> Option<NodeModel>
    decreases keys.len() - i,
{
    if i < 0 || i >= keys.len() {
        None
    } else {
        let here = match after_prefix(keys[i]@, "tools/"@ + slashed(name, Seq::empty())) {
            Some(rest) => node_of(rest),
            None => None,
        };
        match here {
            Some(n) => Some(n),
            None => provider_from(keys, name, i + 1),
        }
    }
}

/// A node that provides the tool.
pub fn find_provider(keys: &Vec<String>, name: &str) -> (r: Option<NodeId>)
    ensures
        r is Some == provider_from(keys@, name@, 0) is Some,
        r matches Some(n) ==> provider_from(keys@, name@, 0) == Some(n@),
{
    proof {
        reveal_strlit("");
        assert(""@ =~= Seq::empty());
    }
    let prefix = join("tools/", slash(name, "").as_str());
    let mut k: usize = 0;
    while k < keys.len()
        invariant
            k <= keys@.len(),
            prefix@ == "tools/"@ + slashed(name@, Seq::empty()),
            provider_from(keys@, name@, 0) == provider_from(keys@, name@, k as int),
        decreases keys@.len() - k,
    {
        if let Some(rest) = strip_prefix(keys[k].as_str(), prefix.as_str()) {
            if let Some(n) = NodeId::parse(rest.as_str()) {
                return Some(n);
            }
        }
        k += 1;
    }
    None
}

/// What the `/mcp` endpoint does with a request.
#[derive(Debug, PartialEq, Eq)]
pub enum McpStep {
    /// Answer this.
    Reply(Json),
    /// List the registered tools for this request.
    ListTools(Json),
    /// Find a provider for the tool of this request and call it.
    CallTool(Json),
}

/// What the endpoint makes of a request before it looks at the store.
pub open spec fn dispatched(request: Option<JsonModel>, version: Seq<char>) -> Option<JsonModel> {
    match request {
        None => Some(rpc_error(JsonModel::Null, -32700, "parse error"@)),
        Some(q) => {
            let id = q.at("id"@);
            let method = match q.text_at("method"@) {
                Some(m) => m,
                None => Seq::empty(),
            };
            if method == "initialize"@ {
                Some(
                    rpc_result(
                        id,
                        object().field("protocolVersion"@, string(PROTOCOL_VERSION@)).field(
                            "capabilities"@,
                            object().field("tools"@, object()),
                        ).field(
                            "serverInfo"@,
                            object().field("name"@, string("mycelium"@)).field(
                                "version"@,
                                string(version),
                            ),
                        ),
                    ),
                )
            } else if method == "tools/list"@ {
                None
            } else if method == "tools/call"@ {
                if asked_name(q).len() == 0 {
                    Some(rpc_error(id, -32602, "invalid params: missing tool name"@))
                } else {
                    None
                }
            } else {
                Some(rpc_error(id, -32601, "method not found: "@ + method))
            }
        },
    }
}

/// Is the request for the list of tools?
pub open spec fn asks_list(request: JsonModel) -> bool {
    request.text_at("method"@) == Some("tools/list"@)
}

/// What the endpoint does with a request.
pub open spec fn mcp_decision(r: McpStep, request: Option<JsonModel>, version: Seq<char>) -> bool {
    match dispatched(request, version) {
        Some(reply) => r matches McpStep::Reply(j) && j@ == reply,
        None => if asks_list(request->0) {
            r matches McpStep::ListTools(q) && q@ == request->0
        } else {
            r matches McpStep::CallTool(q) && q@ == request->0
        },
    }
}

/// Decide on a request to the `/mcp` endpoint, by its body.
pub fn mcp_handler(body: &[u8], version: &str) -> (r: McpStep)
    ensures
        mcp_decision(r, json_of(body@), version@),
{
    mcp_dispatch(parse_json(body), version)
}

/// Decide on a request to the `/mcp` endpoint; `None` is a body that is no JSON.
pub fn mcp_dispatch(request: Option<Json>, version: &str) -> (r: McpStep)
    ensures
        mcp_decision(r, model_of(request), version@),
{
    let q = match request {
        Some(q) => q,
        None => {
            return McpStep::Reply(error_json(Json::Null, -32700, "parse error"));
        },
    };
    let id = q.at("id");
    let method: String = match q.str_at("method") {
        Some(m) => m.to_owned(),
        None => String::new(),
    };
    proof {
        reveal_strlit("tools/list");
        reveal_strlit("tools/call");
        assert("tools/list"@[6] != "tools/call"@[6]);
    }
    if same(method.as_str(), "initialize") {
        let tools = Json::empty_object().with("tools", Json::empty_object());
        let server = Json::empty_object().with_str("name", "mycelium").with_str("version", version);
        let result = Json::empty_object().with_str("protocolVersion", PROTOCOL_VERSION).with(
            "capabilities",
            tools,
        ).with("serverInfo", server);
        McpStep::Reply(result_json(id, result))
    } else if same(method.as_str(), "tools/list") {
        McpStep::ListTools(q)
    } else if same(method.as_str(), "tools/call") {
        if called_tool(&q).as_str().is_empty() {
            McpStep::Reply(error_json(id, -32602, "invalid params: missing tool name"))
        } else {
            McpStep::CallTool(q)
        }
    } else {
        McpStep::Reply(error_json(id, -32601, join("method not found: ", method.as_str()).as_str()))
    }
}

/// The answer to a request for the list of tools.
pub fn list_reply(request: &Json, entries: &Vec<KvEntry>) -> (r: Json)
    ensures
        r@ == rpc_result(
            request@.at("id"@),
            object().field("tools"@, JsonModel::Arr(listings(entries@, entries@.len() as int))),
        ),
{
    let tools = list_tools(entries);
    proof {
        crate::json::lemma_arr(tools);
    }
    let list = Json::Arr(tools);
    assert(list@->Arr_0 =~= listings(entries@, entries@.len() as int));
    result_json(request.at("id"), Json::empty_object().with("tools", list))
}

/// What a tool call comes to once the store has been looked at: a provider and what to send it, or
/// the answer that there is none. `keys` are those under `tools/{name}/`.
pub fn call_plan(request: &Json, keys: &Vec<String>) -> (r: Result<(NodeId, Vec<u8>), Json>)
    ensures
        match provider_from(keys@, asked_name(request@), 0) {
            None => r matches Err(j) && j@ == rpc_error(
                request@.at("id"@),
                -32601,
                "tool not found: "@ + asked_name(request@),
            ),
            Some(n) => r matches Ok((node, payload)) && node@ == n && payload@ == json_bytes(
                tool_call(
                    request@.at("id"@),
                    asked_name(request@),
                    request@.at("params"@).at("arguments"@),
                ),
            ),
        },
{
    let name = called_tool(request);
    match find_provider(keys, name.as_str()) {
        None => Err(
            error_json(
                request.at("id"),
                -32601,
                join("tool not found: ", name.as_str()).as_str(),
            ),
        ),
        Some(node) => {
            let call = tool_call_json(
                request.at("id"),
                name.as_str(),
                request.at("params").at("arguments"),
            );
            Ok((node, json_to_bytes(&call)))
        },
    }
}

/// What a tool call is answered: what the provider replied, where that is JSON; `None` is no reply in
/// time.
pub fn call_reply(request: &Json, reply: Option<&[u8]>) -> (r: Json)
    ensures
        r@ == match reply {
            Some(bytes) => match json_of(bytes@) {
                Some(j) => j,
                None => rpc_error(request@.at("id"@), -32603, "tool returned invalid JSON"@),
            },
            None => rpc_error(request@.at("id"@), -32000, "tool invocation timed out"@),
        },
{
    match reply {
        Some(bytes) => match parse_json(bytes) {
            Some(j) => j,
            None => error_json(request.at("id"), -32603, "tool returned invalid JSON"),
        },
        None => error_json(request.at("id"), -32000, "tool invocation timed out"),
    }
}

/// A handler hears of the client for a client's call and of the sending node for a node's own, and never
/// runs for a call whose context is refused.
pub proof fn lemma_handler_hears_who_calls(
    r: ToolStep,
    call: Option<JsonModel>,
    tool_name: Seq<char>,
    who: Result<RequestPrincipal, String>,
    enforcement: Option<&ProviderRefusal>,
    context: Result<Option<Caller>, String>,
    sender: NodeModel,
)
    requires
        is_principal(who, context, sender),
        tool_decision(r, call, tool_name, who, enforcement),
        r is Run,
    ensures
        enforcement is None,
        match context {
            Ok(Some(c)) => r->who matches RequestPrincipal::Client { principal, scopes } && principal@ == c.principal@
                && texts(scopes@) == texts(c.scopes@),
            Ok(None) => r->who matches RequestPrincipal::Node(n) && n@ == sender,
            Err(_) => false,
        },
{
}

/// A registered tool is found: the key a node registers a tool under names the tool (when its name
/// holds no slash), and leads a call to that node.
pub proof fn lemma_registered_tool_is_found(name: Seq<char>, node: NodeModel, keys: Seq<String>)
    requires
        valid_host(node.host),
        keys.len() > 0,
        keys[0]@ == tool_key_of(name, node),
    ensures
        provider_from(keys, name, 0) == Some(node),
        !name.contains('/') ==> entry_name(tool_key_of(name, node)) == Some(name),
{
    let key = tool_key_of(name, node);
    let prefix = "tools/"@ + slashed(name, Seq::empty());
    assert(key =~= prefix + node.text());
    crate::keys::lemma_after_prefix_of_joined(prefix, node.text());
    lemma_node_text_parses(node);
    crate::keys::lemma_after_prefix_of_joined("tools/"@, slashed(name, node.text()));
    if !name.contains('/') {
        crate::text::lemma_split_at_first_of_joined(name, '/', node.text());
    }
}

} // verus!

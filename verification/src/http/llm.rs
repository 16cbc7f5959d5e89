//! Prompt skills over the gateway: list, read, write, invoke.
use crate::http::reply::{serve, served, Reply, ReplyModel, BAD_GATEWAY, GATEWAY_TIMEOUT, NOT_FOUND, OK};
use crate::json::{
    json_bytes, json_of, json_to_bytes, lemma_obj, member_from, models, object, parse_json, string, Json, JsonModel,
};
use crate::keys::{slash, slashed};
use crate::llm::prompt_key;
use crate::node_id::{NodeId, NodeModel};
use crate::text::{after_prefix, split_at_first, split_once, strip_prefix};
use vstd::prelude::*;
use vstd::string::*;

verus! {

/// How long a call waits when it does not say.
pub fn default_timeout_ms() -> (r: u64)
    ensures
        r == 30_000,
{
    30_000
}

/// The key a prompt is kept under.
pub fn prompt_store_key(ns: &str, name: &str) -> (r: String)
    ensures
        r@ == "prompts/"@ + slashed(ns@, name@),
{
    prompt_key(slash(ns, name).as_str())
}

/// What the listing shows of a prompt.
#[derive(Debug, PartialEq, Eq)]
pub struct PromptSummary {
    /// The most tokens an answer may cost.
    pub max_tokens: u32,
    /// The temperature, by the bits of its 64-bit form.
    pub temperature_bits: u64,
    /// What is noted beside it.
    pub metadata: Json,
}

/// An entry under the prompts' namespace.
#[derive(Debug, PartialEq, Eq)]
pub struct PromptEntry {
    /// Its key.
    pub key: String,
    /// The prompt, where its value decodes to one.
    pub prompt: Option<PromptSummary>,
}

/// The namespace and the name a key carries: the name is not empty.
pub open spec fn prompt_parts(key: Seq<char>) -> Option<(Seq<char>, Seq<char>)> {
    match after_prefix(key, "prompts/"@) {
        Some(rest) => match split_at_first(rest, '/') {
            Some((ns, name)) => if name.len() == 0 {
                None
            } else {
                Some((ns, name))
            },
            None => None,
        },
        None => None,
    }
}

/// A prompt as the listing shows it.
pub open spec fn summary_json(ns: Seq<char>, name: Seq<char>, p: PromptSummary) -> JsonModel {
    object().field("ns"@, string(ns)).field("name"@, string(name)).field(
        "max_tokens"@,
        JsonModel::Int(p.max_tokens as int),
    ).field("temperature"@, JsonModel::Real(p.temperature_bits)).field("metadata"@, p.metadata@)
}

/// The prompts the first `k` entries hold.
pub open spec fn listed(v: Seq<PromptEntry>, k: int) -> Seq<JsonModel>
    decreases k,
{
    if k <= 0 {
        Seq::empty()
    } else {
        let front = listed(v, k - 1);
        match (prompt_parts(v[k - 1].key@), v[k - 1].prompt) {
            (Some((ns, name)), Some(p)) => front.push(summary_json(ns, name, p)),
            _ => front,
        }
    }
}

/// List the prompts.
pub fn prompts_list(entries: &Vec<PromptEntry>) -> (r: Reply)
    ensures
        r@ == served(JsonModel::Arr(listed(entries@, entries@.len() as int))),
{
    let mut out: Vec<Json> = Vec::new();
    let mut k: usize = 0;
    assert(models(out@) =~= Seq::empty());
    while k < entries.len()
        invariant
            k <= entries@.len(),
            models(out@) == listed(entries@, k as int),
        decreases entries@.len() - k,
    {
        let ghost before = out@;
        if let Some(rest) = strip_prefix(entries[k].key.as_str(), "prompts/") {
            if let Some((ns, name)) = split_once(rest.as_str(), '/') {
                if name.as_str().unicode_len() > 0 {
                    if let Some(p) = &entries[k].prompt {
                        let j = Json::empty_object().with_str("ns", ns.as_str()).with_str(
                            "name",
                            name.as_str(),
                        ).with("max_tokens", Json::UInt(p.max_tokens as u64)).with(
                            "temperature",
                            Json::Real(p.temperature_bits),
                        ).with("metadata", p.metadata.copy());
                        let ghost m = j@;
                        out.push(j);
                        assert(models(out@) =~= models(before).push(m));
                    }
                }
            }
        }
        k += 1;
    }
    serve(Json::array(out))
}

/// A prompt to invoke.
#[derive(Debug, PartialEq, Eq)]
pub struct LlmRequest {
    /// The prompt's namespace.
    pub ns: String,
    /// Its name.
    pub name: String,
    /// What it is invoked on.
    pub input: String,
    /// What it is told beside.
    pub context: Vec<(String, String)>,
}

/// A context as an object.
pub open spec fn context_json(c: Seq<(String, String)>) -> JsonModel {
    JsonModel::Obj(Seq::new(c.len(), |i: int| (c[i].0@, string(c[i].1@))))
}

/// What a provider is sent.
pub open spec fn request_of(q: LlmRequest) -> JsonModel {
    object().field("prompt"@, string(slashed(q.ns@, q.name@))).field("input"@, string(q.input@)).field(
        "context"@,
        context_json(q.context@),
    )
}

/// What a provider is sent.
pub fn request(q: &LlmRequest) -> (r: Json)
    ensures
        r@ == request_of(*q),
{
    let mut fields: Vec<(String, Json)> = Vec::new();
    let mut k: usize = 0;
    while k < q.context.len()
        invariant
            k <= q.context@.len(),
            fields@.len() == k,
            forall|i: int|
                0 <= i < k ==> (#[trigger] fields@[i]).0@ == q.context@[i].0@ && fields@[i].1@ == string(
                    q.context@[i].1@,
                ),
        decreases q.context@.len() - k,
    {
        fields.push((q.context[k].0.clone(), Json::Str(q.context[k].1.clone())));
        k += 1;
    }
    proof {
        lemma_obj(fields);
    }
    let context = Json::Obj(fields);
    assert(context@->Obj_0 =~= context_json(q.context@)->Obj_0);
    Json::empty_object().with_str("prompt", slash(q.ns.as_str(), q.name.as_str()).as_str()).with_str(
        "input",
        q.input.as_str(),
    ).with("context", context)
}

/// Whom a call goes to, and with what; or the answer where nobody provides the prompt.
#[derive(Debug, PartialEq, Eq)]
pub enum LlmPlan {
    /// Call this provider.
    Call {
        /// The provider.
        target: NodeId,
        /// What it is sent.
        payload: Vec<u8>,
    },
    /// Nobody provides it.
    NoProvider,
}

/// Plan a call: the first provider is called.
pub fn plan(providers: &Vec<NodeId>, q: &LlmRequest) -> (r: LlmPlan)
    ensures
        if providers@.len() == 0 {
            r == LlmPlan::NoProvider
        } else {
            r matches LlmPlan::Call { target, payload } && target@ == providers@[0]@ && payload@ == json_bytes(
                request_of(*q),
            )
        },
{
    if providers.len() == 0 {
        LlmPlan::NoProvider
    } else {
        LlmPlan::Call { target: providers[0].clone(), payload: json_to_bytes(&request(q)) }
    }
}

/// `{"error": what, "detail": ""}`.
pub open spec fn bare_error(what: Seq<char>) -> JsonModel {
    object().field("error"@, string(what)).field("detail"@, string(""@))
}

fn bare(what: &str) -> (r: Json)
    ensures
        r@ == bare_error(what@),
{
    Json::empty_object().with_str("error", what).with_str("detail", "")
}

/// Answer that nobody provides the prompt.
pub fn no_provider() -> (r: Reply)
    ensures
        r@ == (ReplyModel { status: NOT_FOUND, body: bare_error("no_provider"@) }),
{
    Reply { status: NOT_FOUND, body: bare("no_provider") }
}

/// What came back from a provider.
#[derive(Debug, PartialEq, Eq)]
pub enum LlmAnswer {
    /// This.
    Json(Json),
    /// Something that is not JSON.
    Garbage,
    /// Nothing in time.
    Timeout,
}

/// What an answer stands for: `None` for nothing in time, `Some(None)` for what is not JSON.
pub open spec fn answer_model(answer: LlmAnswer) -> Option<Option<JsonModel>> {
    match answer {
        LlmAnswer::Timeout => None,
        LlmAnswer::Garbage => Some(None),
        LlmAnswer::Json(v) => Some(Some(v@)),
    }
}

/// What the bytes of an answer stand for, where there are any.
pub open spec fn answer_of(bytes: Option<Seq<u8>>) -> Option<Option<JsonModel>> {
    match bytes {
        None => None,
        Some(b) => Some(json_of(b)),
    }
}

/// The bytes, where there are any.
pub open spec fn bytes_of(bytes: Option<&[u8]>) -> Option<Seq<u8>> {
    match bytes {
        None => None,
        Some(b) => Some(b@),
    }
}

/// What came back from a provider; `None` is nothing in time.
pub fn read_answer(bytes: Option<&[u8]>) -> (r: LlmAnswer)
    ensures
        answer_model(r) == answer_of(bytes_of(bytes)),
{
    match bytes {
        None => LlmAnswer::Timeout,
        Some(b) => match parse_json(b) {
            Some(v) => LlmAnswer::Json(v),
            None => LlmAnswer::Garbage,
        },
    }
}

/// The reply to a call that was answered so.
pub open spec fn reply_of(provider: NodeModel, answer: Option<Option<JsonModel>>) -> ReplyModel {
    match answer {
        None => ReplyModel { status: GATEWAY_TIMEOUT, body: bare_error("timeout"@) },
        Some(None) => ReplyModel { status: BAD_GATEWAY, body: bare_error("parse_error"@) },
        Some(Some(v)) => if v.member("error"@) is Some {
            ReplyModel { status: BAD_GATEWAY, body: v }
        } else {
            served(
                object().field("output"@, v.at("output"@)).field("provider"@, string(provider.text())),
            )
        },
    }
}

/// Answer a call with what came back from its provider; `None` is nothing in time.
pub fn call_reply(provider: &NodeId, bytes: Option<&[u8]>) -> (r: Reply)
    ensures
        r@ == reply_of(provider@, answer_of(bytes_of(bytes))),
{
    answer_reply(provider, &read_answer(bytes))
}

/// Answer a call. A provider's own error is passed on as an upstream error.
pub fn answer_reply(provider: &NodeId, answer: &LlmAnswer) -> (r: Reply)
    ensures
        r@ == reply_of(provider@, answer_model(*answer)),
{
    match answer {
        LlmAnswer::Timeout => Reply { status: GATEWAY_TIMEOUT, body: bare("timeout") },
        LlmAnswer::Garbage => Reply { status: BAD_GATEWAY, body: bare("parse_error") },
        LlmAnswer::Json(v) => {
            if v.get("error").is_some() {
                return Reply { status: BAD_GATEWAY, body: v.copy() };
            }
            serve(
                Json::empty_object().with("output", v.at("output")).with_str(
                    "provider",
                    provider.text().as_str(),
                ),
            )
        },
    }
}

/// `{"type": "error", "error": what}`.
pub open spec fn error_event_of(what: JsonModel) -> JsonModel {
    object().field("type"@, string("error"@)).field("error"@, what)
}

fn error_event(what: Json) -> (r: Json)
    ensures
        r@ == error_event_of(what@),
{
    Json::empty_object().with_str("type", "error").with("error", what)
}

/// The one event of a streamed call that was answered so. What a plain call answers with an error status
/// is an error event: nothing in time, what is no JSON, and a provider's own error.
pub open spec fn event_of(answer: Option<Option<JsonModel>>) -> JsonModel {
    match answer {
        None => error_event_of(string("timeout"@)),
        Some(None) => error_event_of(string("parse_error"@)),
        Some(Some(v)) => match v.member("error"@) {
            Some(what) => error_event_of(what),
            None => object().field("type"@, string("done"@)).field(
                "output"@,
                string(
                    match v.text_at("output"@) {
                        Some(s) => s,
                        None => ""@,
                    },
                ),
            ),
        },
    }
}

/// The one event of a streamed call that nobody is there to answer.
pub fn unprovided_event() -> (r: Json)
    ensures
        r@ == error_event_of(string("no_provider"@)),
{
    error_event(Json::Str("no_provider".to_owned()))
}

/// The one event of a streamed call, given what came back from its provider; `None` is nothing in time.
pub fn stream_event(bytes: Option<&[u8]>) -> (r: Json)
    ensures
        r@ == event_of(answer_of(bytes_of(bytes))),
{
    answer_event(&read_answer(bytes))
}

/// The one event of a streamed call. A stream's status goes out before its body, so an error is an event
/// too.
pub fn answer_event(answer: &LlmAnswer) -> (r: Json)
    ensures
        r@ == event_of(answer_model(*answer)),
{
    match answer {
        LlmAnswer::Timeout => error_event(Json::Str("timeout".to_owned())),
        LlmAnswer::Garbage => error_event(Json::Str("parse_error".to_owned())),
        LlmAnswer::Json(v) => {
            if let Some(what) = v.get("error") {
                return error_event(what.copy());
            }
            let output = match v.str_at("output") {
                Some(s) => s,
                None => "",
            };
            Json::empty_object().with_str("type", "done").with_str("output", output)
        },
    }
}

/// A streamed call reports an error exactly where a plain call is answered with an error status.
pub proof fn lemma_streams_report_what_calls_refuse(provider: NodeModel, answer: Option<Option<JsonModel>>)
    ensures
        (reply_of(provider, answer).status != OK) <==> event_of(answer).text_at("type"@) == Some("error"@),
        (reply_of(provider, answer).status == OK) <==> event_of(answer).text_at("type"@) == Some("done"@),
{
    reveal_strlit("error");
    reveal_strlit("done");
    reveal_with_fuel(member_from, 2);
    assert("error"@[0] == 'e');
    assert("done"@[0] == 'd');
}

} // verus!

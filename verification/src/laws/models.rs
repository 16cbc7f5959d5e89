//! Laws of model calls: when one is made, with what, and what its answer becomes.
use vstd::prelude::*;

use crate::config::EgressPolicy;
use crate::http::llm::{
    answer_event, answer_reply, call_reply, listed, no_provider, plan, prompt_parts, prompt_store_key, prompts_list,
    read_answer, request, stream_event, LlmAnswer, LlmPlan, LlmRequest, PromptEntry,
};
use crate::http::reply::Reply;
use crate::json::{json_bytes, json_of, member_from, Json, JsonModel};
use crate::laws::{increasing, lemma_pushed};
use crate::llm::{
    handle_llm_invoke, invoke_reply, prompt_key, render_inputs, EchoBackend, LlmCall, LlmError, LlmInvocation,
    LlmInvokeError, LlmInvokeRequest, LlmResult, OpenAiBackend, PromptTemplate, RenderInput, TemplateRead,
};
use crate::node_id::NodeId;

verus! {

/// A model is called only where the caller's context stands, the request was read, a backend serves
/// the skill, the egress policy allows its endpoint, the template is there and both of its texts
/// were rendered; and it is called with those texts and the template's own limits.
pub proof fn lemma_model_is_called_with_everything_in_place(
    call: &LlmInvocation,
    egress: &EgressPolicy,
    r: Result<LlmCall, LlmInvokeError>,
)
    requires
        call_ensures(handle_llm_invoke, (call, egress), r),
    ensures
        r matches Ok(c) ==> {
            &&& call.context_refusal is None
            &&& call.request is Ok
            &&& call.backend is Some
            &&& call.template is Read
            &&& call.system matches Ok(s) && c.system@ == s@
            &&& call.user matches Ok(u) && c.user@ == u@
            &&& call.template matches TemplateRead::Read(t) && c.max_tokens == t.max_tokens && c.temperature_bits
                == t.temperature_bits
        },
        call.context_refusal matches Some(why) ==> r is Err && r->Err_0.error@ == "caller_context_refused"@
            && r->Err_0.detail@ == why@,
        call.context_refusal is None && call.request is Err ==> r is Err && r->Err_0.error@ == "parse_error"@,
        call.context_refusal is None && call.request is Ok && call.backend is None ==> r is Err && r->Err_0.error@
            == "skill_not_found"@,
        call.context_refusal is None && call.request is Ok && call.backend is Some && call.backend->0.endpoint is None ==> (
        r is Ok <==> call.template is Read && call.system is Ok && call.user is Ok),
        call.context_refusal is None && call.request is Ok && call.backend is Some && call.backend->0.endpoint is None
            && call.template is Missing ==> r is Err && r->Err_0.error@ == "template_not_found"@,
{
}

/// A backend with an endpoint is called only where the egress list is empty or names its host.
pub proof fn lemma_model_calls_stay_inside_the_policy(
    call: &LlmInvocation,
    egress: &EgressPolicy,
    url: &str,
    host: String,
    r: Result<LlmCall, LlmInvokeError>,
)
    requires
        call_ensures(handle_llm_invoke, (call, egress), r),
        call.backend is Some,
        call.backend->0.endpoint is Some,
        (call.backend->0.endpoint->0)@ == url@,
        call_ensures(crate::config::url_host, (url,), host),
    ensures
        r is Ok ==> egress.allow_hosts@.len() == 0 || exists|i: int|
            0 <= i < egress.allow_hosts@.len() && (#[trigger] egress.allow_hosts@[i])@ == host@,
        call.context_refusal is None && call.request is Ok && egress.allow_hosts@.len() > 0 && (forall|i: int|
            0 <= i < egress.allow_hosts@.len() ==> (#[trigger] egress.allow_hosts@[i])@ != host@) ==> r is Err
            && r->Err_0.error@ == "egress_denied"@,
{
    crate::laws::tools::lemma_named(egress.allow_hosts@, host@);
}

/// A template's two texts are rendered with the request's own input, context and skill, and the
/// node's own name.
pub proof fn lemma_templates_are_rendered_for_the_request(
    t: &PromptTemplate,
    q: &LlmInvokeRequest,
    node: &NodeId,
    r: (RenderInput, RenderInput),
)
    requires
        call_ensures(render_inputs, (t, q, node), r),
    ensures
        r.0.template@ == t.system@,
        r.1.template@ == t.user_template@,
        r.0.input@ == q.input@ && r.1.input@ == q.input@,
        r.0.skill@ == q.prompt@ && r.1.skill@ == q.prompt@,
        r.0.node@ == node@.text() && r.1.node@ == node@.text(),
        r.0.context@.len() == q.context@.len(),
        forall|i: int|
            0 <= i < q.context@.len() ==> (#[trigger] r.0.context@[i]).0@ == q.context@[i].0@ && r.0.context@[i].1@
                == q.context@[i].1@,
        forall|i: int|
            0 <= i < q.context@.len() ==> (#[trigger] r.1.context@[i]).0@ == q.context@[i].0@ && r.1.context@[i].1@
                == q.context@[i].1@,
{
    let c = crate::llm::pairs(q.context@);
    let a = crate::llm::pairs(r.0.context@);
    let b = crate::llm::pairs(r.1.context@);
    assert(a == c && b == c);
    assert(a.len() == r.0.context@.len() && b.len() == r.1.context@.len());
    assert forall|i: int| 0 <= i < q.context@.len() implies (#[trigger] r.0.context@[i]).0@ == q.context@[i].0@
        && r.0.context@[i].1@ == q.context@[i].1@ by {
        assert(a[i] == c[i]);
    }
    assert forall|i: int| 0 <= i < q.context@.len() implies (#[trigger] r.1.context@[i]).0@ == q.context@[i].0@
        && r.1.context@[i].1@ == q.context@[i].1@ by {
        assert(b[i] == c[i]);
    }
}

/// A completion is asked for with the backend's model, the two texts and the limits given.
pub proof fn lemma_completion_request(
    b: &OpenAiBackend,
    system: &str,
    user: &str,
    max_tokens: u32,
    temperature_bits: u64,
    r: Json,
)
    requires
        call_ensures(OpenAiBackend::request_body, (b, system, user, max_tokens, temperature_bits), r),
    ensures
        r@.at("model"@) == JsonModel::Str(b.model@),
        r@.at("max_tokens"@) == JsonModel::Int(max_tokens as int),
        r@.at("temperature"@) == JsonModel::Real(temperature_bits),
        r@.at("messages"@).item(0).at("role"@) == JsonModel::Str("system"@),
        r@.at("messages"@).item(0).at("content"@) == JsonModel::Str(system@),
        r@.at("messages"@).item(1).at("role"@) == JsonModel::Str("user"@),
        r@.at("messages"@).item(1).at("content"@) == JsonModel::Str(user@),
{
    reveal_with_fuel(member_from, 5);
    reveal_strlit("model");
    reveal_strlit("max_tokens");
    reveal_strlit("temperature");
    reveal_strlit("messages");
    reveal_strlit("role");
    reveal_strlit("content");
    assert("model"@.len() == 5 && "max_tokens"@.len() == 10 && "temperature"@.len() == 11 && "messages"@.len() == 8);
    assert("role"@.len() == 4 && "content"@.len() == 7);
}

/// A completion is read where it stands: the first choice's content, the tokens used, the model that
/// answered, the backend's own where the answer names none.
pub proof fn lemma_completion_is_read(b: &OpenAiBackend, answer: &Json, r: LlmResult, body: &[u8], c: Result<LlmResult, LlmError>)
    requires
        call_ensures(OpenAiBackend::read_answer, (b, answer), r),
        call_ensures(OpenAiBackend::read_completion, (b, body), c),
    ensures
        answer@.at("choices"@).item(0).at("message"@).at("content"@) matches JsonModel::Str(s) ==> r.output@ == s,
        answer@.at("model"@) matches JsonModel::Str(s) ==> r.model_used@ == s,
        !(answer@.at("model"@) is Str) ==> r.model_used@ == b.model@,
        answer@.at("usage"@).at("total_tokens"@) matches JsonModel::Int(n) ==> (0 <= n <= u32::MAX ==> r.tokens_used
            == n),
        answer@.at("usage"@).at("total_tokens"@) is Null ==> r.tokens_used == 0,
        c is Ok <==> json_of(body@) is Some,
        json_of(body@) matches Some(a) ==> (a.at("choices"@).item(0).at("message"@).at("content"@) matches
            JsonModel::Str(s) ==> (c->Ok_0).output@ == s),
{
}

/// An invocation's answer carries the output, the model and the tokens, or says what went wrong.
pub proof fn lemma_invocation_is_answered(answer: &Result<LlmResult, LlmError>, e: &LlmInvokeError, r: Json, b: Json)
    requires
        call_ensures(invoke_reply, (answer,), r),
        call_ensures(LlmInvokeError::body, (e,), b),
    ensures
        *answer matches Ok(a) ==> r@.at("output"@) == JsonModel::Str(a.output@) && r@.at("model_used"@)
            == JsonModel::Str(a.model_used@) && r@.at("tokens_used"@) == JsonModel::Int(a.tokens_used as int)
            && r@.member("error"@) is None,
        *answer is Err ==> r@.at("error"@) == JsonModel::Str("llm_error"@),
        b@.at("error"@) == JsonModel::Str(e.error@),
        b@.at("detail"@) == JsonModel::Str(e.detail@),
{
    reveal_with_fuel(member_from, 4);
    reveal_strlit("output");
    reveal_strlit("model_used");
    reveal_strlit("tokens_used");
    reveal_strlit("error");
    reveal_strlit("detail");
    assert("output"@.len() == 6 && "model_used"@.len() == 10 && "tokens_used"@.len() == 11);
    assert("error"@.len() == 5 && "detail"@.len() == 6);
}

/// The echo answers with what it was asked.
pub proof fn lemma_echo(e: &EchoBackend, system: &str, user: &str, max_tokens: u32, t: u32, r: Result<LlmResult, LlmError>)
    requires
        call_ensures(EchoBackend::complete, (e, system, user, max_tokens, t), r),
    ensures
        r matches Ok(a) && a.output@ == "echo: "@ + user@ && a.tokens_used == 0,
{
}

/// A prompt is kept under its namespace and name, where the node that serves the skill looks for it.
pub proof fn lemma_prompt_is_where_the_skill_looks(ns: &str, name: &str, skill: &str, a: String, b: String)
    requires
        call_ensures(prompt_store_key, (ns, name), a),
        skill@ == ns@ + "/"@ + name@,
        call_ensures(prompt_key, (skill,), b),
    ensures
        a@ == b@,
        a@ == "prompts/"@ + ns@ + "/"@ + name@,
{
    reveal_strlit("/");
    assert(a@ =~= "prompts/"@ + ns@ + "/"@ + name@);
    assert(b@ =~= "prompts/"@ + ns@ + "/"@ + name@);
}

/// A call goes to the first provider with the request's own prompt, input and context; without a
/// provider none is made.
pub proof fn lemma_call_goes_to_the_first_provider(providers: &Vec<NodeId>, q: &LlmRequest, sent: Json, r: LlmPlan, e: Reply)
    requires
        call_ensures(plan, (providers, q), r),
        call_ensures(request, (q,), sent),
        call_ensures(no_provider, (), e),
    ensures
        r is NoProvider <==> providers@.len() == 0,
        r matches LlmPlan::Call { target, payload } ==> target@ == providers@[0]@ && payload@ == json_bytes(sent@),
        sent@.at("prompt"@) == JsonModel::Str(q.ns@ + seq!['/'] + q.name@),
        sent@.at("input"@) == JsonModel::Str(q.input@),
        sent@.at("context"@) matches JsonModel::Obj(f) && f.len() == q.context@.len() && forall|i: int|
            0 <= i < f.len() ==> f[i].0 == (#[trigger] q.context@[i]).0@ && f[i].1 == JsonModel::Str(q.context@[i].1@),
        e.status == 404,
{
    assert(e.status == e@.status);
    reveal_with_fuel(member_from, 4);
    reveal_strlit("prompt");
    reveal_strlit("input");
    reveal_strlit("context");
    assert("prompt"@.len() == 6 && "input"@.len() == 5 && "context"@.len() == 7);
}

/// A provider's answer is handed on with the provider's name; an error it reports, an answer that is
/// no JSON and no answer at all are told apart.
pub proof fn lemma_provider_answers_are_handed_on(provider: &NodeId, bytes: Option<&[u8]>, r: Reply)
    requires
        call_ensures(call_reply, (provider, bytes), r),
    ensures
        bytes is None ==> r.status == 504,
        bytes matches Some(b) ==> (json_of(b@) is None ==> r.status == 502),
        bytes matches Some(b) ==> (json_of(b@) matches Some(v) ==> (v.member("error"@) is Some ==> r.status == 502
            && r.body@ == v)),
        bytes matches Some(b) ==> (json_of(b@) matches Some(v) ==> (v.member("error"@) is None ==> r.status == 200
            && r.body@.at("output"@) == v.at("output"@) && r.body@.at("provider"@) == JsonModel::Str(
            provider@.text(),
        ))),
{
    assert(r.status == r@.status && r.body@ == r@.body);
    reveal_with_fuel(member_from, 3);
    reveal_strlit("output");
    reveal_strlit("provider");
    assert("output"@.len() == 6 && "provider"@.len() == 8);
}

/// A stream tells of an answer what the call tells: done with its output, or the error.
pub proof fn lemma_streams_tell_the_same(bytes: Option<&[u8]>, r: Json)
    requires
        call_ensures(stream_event, (bytes,), r),
    ensures
        bytes is None ==> r@.at("type"@) == JsonModel::Str("error"@) && r@.at("error"@) == JsonModel::Str("timeout"@),
        bytes matches Some(b) ==> (json_of(b@) is None ==> r@.at("type"@) == JsonModel::Str("error"@)),
        bytes matches Some(b) ==> (json_of(b@) matches Some(v) ==> (v.member("error"@) matches Some(w) ==> r@.at("type"@)
            == JsonModel::Str("error"@) && r@.at("error"@) == w)),
        bytes matches Some(b) ==> (json_of(b@) matches Some(v) ==> (v.member("error"@) is None ==> r@.at("type"@)
            == JsonModel::Str("done"@) && (v.at("output"@) matches JsonModel::Str(s) ==> r@.at("output"@)
            == JsonModel::Str(s)))),
{
    reveal_with_fuel(member_from, 3);
    reveal_strlit("type");
    reveal_strlit("error");
    reveal_strlit("output");
    assert("type"@.len() == 4 && "error"@.len() == 5 && "output"@.len() == 6);
}

/// What was read of an answer is answered as the bytes are.
pub proof fn lemma_read_answers_are_the_bytes(
    provider: &NodeId,
    bytes: Option<&[u8]>,
    a: LlmAnswer,
    r: Reply,
    s: Reply,
    e: Json,
    f: Json,
)
    requires
        call_ensures(read_answer, (bytes,), a),
        call_ensures(call_reply, (provider, bytes), r),
        call_ensures(answer_reply, (provider, &a), s),
        call_ensures(stream_event, (bytes,), e),
        call_ensures(answer_event, (&a,), f),
    ensures
        r@ == s@,
        e@ == f@,
        a is Timeout <==> bytes is None,
        bytes matches Some(b) ==> (a is Garbage <==> json_of(b@) is None),
{
}

/// The prompts listed are those that can be read, under a namespace and a name, in order.
pub proof fn lemma_readable_prompts_are_listed(entries: &Vec<PromptEntry>, r: Reply)
    requires
        call_ensures(prompts_list, (entries,), r),
    ensures
        r.status == 200,
        r.body@ is Arr,
        exists|idx: Seq<int>|
            {
                let out = r.body@->Arr_0;
                &&& #[trigger] increasing(idx)
                &&& idx.len() == out.len()
                &&& forall|j: int|
                    0 <= j < idx.len() ==> {
                        let e = entries@[#[trigger] idx[j]];
                        &&& 0 <= idx[j] < entries@.len()
                        &&& out[j].at("ns"@) == JsonModel::Str((prompt_parts(e.key@)->0).0)
                        &&& out[j].at("name"@) == JsonModel::Str((prompt_parts(e.key@)->0).1)
                        &&& out[j].at("max_tokens"@) == JsonModel::Int((e.prompt->0).max_tokens as int)
                        &&& out[j].at("metadata"@) == (e.prompt->0).metadata@
                    }
                &&& forall|i: int|
                    0 <= i < entries@.len() ==> (#[trigger] idx.contains(i) <==> entries@[i].prompt is Some
                        && prompt_parts(entries@[i].key@) is Some)
            },
{
    assert(r.status == r@.status && r.body@ == r@.body);
    let idx = lemma_prompt_positions(entries@, entries@.len() as int);
    let out = r.body@->Arr_0;
    assert forall|j: int| 0 <= j < idx.len() implies {
        let e = entries@[#[trigger] idx[j]];
        &&& 0 <= idx[j] < entries@.len()
        &&& out[j].at("ns"@) == JsonModel::Str((prompt_parts(e.key@)->0).0)
        &&& out[j].at("name"@) == JsonModel::Str((prompt_parts(e.key@)->0).1)
        &&& out[j].at("max_tokens"@) == JsonModel::Int((e.prompt->0).max_tokens as int)
        &&& out[j].at("metadata"@) == (e.prompt->0).metadata@
    } by {
        reveal_with_fuel(member_from, 6);
        reveal_strlit("ns");
        reveal_strlit("name");
        reveal_strlit("max_tokens");
        reveal_strlit("temperature");
        reveal_strlit("metadata");
        assert("ns"@.len() == 2 && "name"@.len() == 4 && "max_tokens"@.len() == 10 && "temperature"@.len() == 11
            && "metadata"@.len() == 8);
    }
    assert(increasing(idx));
}

proof fn lemma_prompt_positions(v: Seq<PromptEntry>, k: int) -> (idx: Seq<int>)
    requires
        0 <= k <= v.len(),
    ensures
        increasing(idx),
        idx.len() == listed(v, k).len(),
        forall|j: int|
            0 <= j < idx.len() ==> 0 <= #[trigger] idx[j] < k && v[idx[j]].prompt is Some && prompt_parts(v[idx[j]].key@)
                is Some && listed(v, k)[j] == crate::http::llm::summary_json(
                (prompt_parts(v[idx[j]].key@)->0).0,
                (prompt_parts(v[idx[j]].key@)->0).1,
                v[idx[j]].prompt->0,
            ),
        forall|i: int|
            0 <= i < k ==> (#[trigger] idx.contains(i) <==> v[i].prompt is Some && prompt_parts(v[i].key@) is Some),
    decreases k,
{
    if k <= 0 {
        Seq::empty()
    } else {
        let front = lemma_prompt_positions(v, k - 1);
        let kept = v[k - 1].prompt is Some && prompt_parts(v[k - 1].key@) is Some;
        let idx = if kept {
            front.push(k - 1)
        } else {
            front
        };
        lemma_pushed(front, k - 1, kept, idx);
        idx
    }
}

/// A prompt that is kept under a namespace and a name is listed under them.
pub proof fn lemma_kept_prompt_is_listed(entries: &Vec<PromptEntry>, r: Reply, i: int, ns: &str, name: &str, key: String)
    requires
        call_ensures(prompts_list, (entries,), r),
        call_ensures(prompt_store_key, (ns, name), key),
        0 <= i < entries@.len(),
        entries@[i].key@ == key@,
        entries@[i].prompt is Some,
        !ns@.contains('/'),
        name@.len() > 0,
    ensures
        exists|j: int|
            0 <= j < r.body@->Arr_0.len() && (#[trigger] r.body@->Arr_0[j]).at("ns"@) == JsonModel::Str(ns@)
                && r.body@->Arr_0[j].at("name"@) == JsonModel::Str(name@),
{
    assert(r.body@ == r@.body);
    crate::keys::lemma_after_prefix_of_joined("prompts/"@, crate::keys::slashed(ns@, name@));
    crate::text::lemma_split_at_first_of_joined(ns@, '/', name@);
    assert(prompt_parts(key@) == Some((ns@, name@)));
    let idx = lemma_prompt_positions(entries@, entries@.len() as int);
    assert(idx.contains(i));
    let j = choose|j: int| 0 <= j < idx.len() && idx[j] == i;
    let out = r.body@->Arr_0[j];
    assert(out == crate::http::llm::summary_json(ns@, name@, entries@[i].prompt->0));
    reveal_with_fuel(member_from, 6);
    reveal_strlit("ns");
    reveal_strlit("name");
    assert("ns"@.len() == 2 && "name"@.len() == 4);
    assert(out.at("ns"@) == JsonModel::Str(ns@));
}

/// A backend is asked where it was configured to be, by its own path, and a status it answers is
/// told with its text.
pub proof fn lemma_backend_is_where_configured(
    base: &str,
    api_key: &str,
    model: &str,
    b: OpenAiBackend,
    url: String,
    e: Option<&str>,
    status: &str,
    text: &str,
    err: LlmError,
    echo: &EchoBackend,
    none: Option<&str>,
)
    requires
        call_ensures(OpenAiBackend::new, (base, api_key, model), b),
        call_ensures(OpenAiBackend::completions_url, (&b,), url),
        call_ensures(OpenAiBackend::endpoint, (&b,), e),
        call_ensures(OpenAiBackend::status_error, (status, text), err),
        call_ensures(EchoBackend::endpoint, (echo,), none),
    ensures
        b.model@ == model@ && b.api_key@ == api_key@ && b.base_url@ == base@,
        base@.len() > 0 && base@.last() != '/' ==> url@ == base@ + "/chat/completions"@,
        e is Some && (e->0)@ == base@,
        err matches LlmError::Api(t) && t@ == status@ + ": "@ + text@,
        none is None,
{
}

} // verus!

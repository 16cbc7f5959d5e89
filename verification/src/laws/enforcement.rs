//! Laws of provider enforcement: what is asked before protected work is done, and on whose behalf.
use vstd::prelude::*;

use crate::json::{json_of, member_from, Json, JsonModel};
use crate::keys::{cap_parts, is_locality};
use crate::laws::tools::lemma_refusal_members;
use crate::node_id::NodeId;
use crate::provider_enforcement::{
    advertises, ask, check, context_refusal, gate, preflight_params, request_principal, Caller, Derived, Gate,
    ProviderRefusal, Question, RequestPrincipal,
};
use crate::text::texts;

verus! {

/// Work is let through unasked only where enforcement is off or the work is not protected; protected
/// work without an evaluator is refused, and with one it is asked about.
pub proof fn lemma_protected_work_is_asked_about(on: bool, protected: bool, has_evaluator: bool, r: Gate)
    requires
        call_ensures(gate, (on, protected, has_evaluator), r),
    ensures
        r is Open <==> !on || !protected,
        r is Closed <==> on && protected && !has_evaluator,
        r is Decide <==> on && protected && has_evaluator,
        r matches Gate::Closed(p) ==> p.reason@ == "no_evaluator"@,
{
}

/// The question is asked of the caller itself: its principal, its scopes, its mandate; and of the
/// sending node where no caller is named. A context that was refused is refused before anything is
/// asked.
pub proof fn lemma_question_is_about_the_caller(
    on: bool,
    protected: bool,
    has_evaluator: bool,
    context: &Result<Option<Caller>, String>,
    sender_principal: &str,
    kind: &str,
    payload: &[u8],
    me: &NodeId,
    keys: &Vec<String>,
    q: Question,
)
    requires
        call_ensures(ask, (on, protected, has_evaluator, context, sender_principal, kind, payload, me, keys), q),
    ensures
        q is Open <==> !on || !protected,
        on && protected && !has_evaluator ==> q is Refuse,
        on && protected && *context is Err ==> q is Refuse,
        on && protected && has_evaluator ==> (*context matches Err(why) ==> (q matches Question::Refuse(p) && p.message@
            == "caller context refused: "@ + why@)),
        q is Ask ==> {
            &&& q->point@ == "provider"@
            &&& *context matches Ok(Some(c)) ==> q->principal@ == c.principal@ && texts(q->scopes@) == texts(c.scopes@)
            &&& *context matches Ok(None) ==> q->principal@ == sender_principal@ && q->scopes@.len() == 0
            &&& *context matches Ok(Some(c)) ==> (c.mandate matches Some(m) ==> q->params@.at("_meta"@).at("mandate"@)
                == m@)
            &&& *context matches Ok(Some(c)) ==> (c.mandate is None ==> q->params@ == JsonModel::Null)
            &&& *context matches Ok(None) ==> q->params@ == JsonModel::Null
        },
{
    reveal_with_fuel(member_from, 2);
    if q is Ask {
        assert(texts(q->scopes@).len() == q->scopes@.len());
    }
}

/// What is asked about is the call itself: a tool call by the tool's name at this node, with its own
/// arguments; any other call by the resource that its caller names, which is at this node.
pub proof fn lemma_call_is_described_as_it_is(
    kind: &str,
    payload: &[u8],
    claim: Option<&str>,
    me: &NodeId,
    keys: &Vec<String>,
    r: Result<Derived, ProviderRefusal>,
)
    requires
        call_ensures(crate::provider_enforcement::derive, (kind, payload, claim, me, keys), r),
    ensures
        kind@ == "mcp.invoke"@ ==> {
            &&& r is Ok <==> (json_of(payload@) matches Some(c) && c.at("params"@).at("name"@) is Str)
            &&& r matches Ok(d) ==> {
                let c = json_of(payload@)->0;
                &&& d.operation@ == "tools/call"@
                &&& d.resource@ == "tool:"@ + c.at("params"@).at("name"@)->Str_0 + "@"@ + me@.text()
                &&& c.at("params"@).member("arguments"@) is Some ==> d.arguments@ == c.at("params"@).at("arguments"@)
                &&& c.at("params"@).member("arguments"@) is None ==> d.arguments@ == JsonModel::Obj(Seq::empty())
            }
            &&& r matches Err(p) ==> p.reason@ == "malformed_call"@
        },
        kind@ != "mcp.invoke"@ ==> {
            &&& claim is None ==> r is Err && r->Err_0.reason@ == "resource_unnamed"@
            &&& r matches Ok(d) ==> {
                &&& claim matches Some(c) && d.resource@ == c@
                &&& d.operation@ == kind@
                &&& exists|key: Seq<char>| d.resource@ == #[trigger] (key + "@"@ + me@.text())
                &&& kind@ != "skill.invoke"@ ==> d.arguments@.at("payload_b64"@) == JsonModel::Str(
                    crate::b64::base64_text(payload@),
                )
            }
            &&& kind@ != "skill.invoke"@ ==> forall|key: Seq<char>|
                #![trigger key + "@"@ + me@.text()]
                claim is Some && (claim->0)@ == key + "@"@ + me@.text() ==> r is Ok
        },
{
    reveal_strlit("mcp.invoke");
    reveal_strlit("skill.invoke");
    reveal_with_fuel(member_from, 2);
    let tail = crate::provider_enforcement::here(me@);
    if kind@ == "mcp.invoke"@ {
        if r is Ok {
            let c = json_of(payload@)->0;
            let n = c.at("params"@).at("name"@)->Str_0;
            assert("tool:"@ + n + tail =~= "tool:"@ + n + "@"@ + me@.text());
        }
    } else {
        if r is Ok && claim is Some {
            let res = (claim->0)@;
            let key = crate::text::before_suffix(res, tail)->0;
            assert(res.subrange(res.len() - tail.len(), res.len() as int) == tail);
            assert(res =~= key + tail);
            assert(key + tail =~= key + "@"@ + me@.text());
        }
        assert forall|key: Seq<char>|
            #![trigger key + "@"@ + me@.text()]
            kind@ != "skill.invoke"@ && claim is Some && (claim->0)@ == key + "@"@ + me@.text() implies r is Ok by {
            let res = (claim->0)@;
            assert(res =~= key + tail);
            assert(res.subrange(res.len() - tail.len(), res.len() as int) =~= tail);
        }
    }
}

/// A skill is described only where this node advertises it.
pub proof fn lemma_only_served_skills(
    payload: &[u8],
    claim: &str,
    me: &NodeId,
    keys: &Vec<String>,
    ns: &str,
    name: &str,
    serves: bool,
    kind: &str,
    r: Result<Derived, ProviderRefusal>,
)
    requires
        kind@ == "skill.invoke"@,
        call_ensures(crate::provider_enforcement::derive, (kind, payload, Some(claim), me, keys), r),
        claim@ == "skill:"@ + ns@ + "/"@ + name@ + "@"@ + me@.text(),
        !ns@.contains('/'),
        call_ensures(advertises, (keys, me, ns, name), serves),
    ensures
        r is Ok <==> serves,
        serves <==> exists|i: int|
            0 <= i < keys@.len() && !is_locality((#[trigger] keys@[i])@) && cap_parts(keys@[i]@) == Some(
                (me@, ns@, name@),
            ),
        !serves ==> r is Err && r->Err_0.reason@ == "resource_not_served"@,
{
    reveal_strlit("mcp.invoke");
    reveal_strlit("skill.invoke");
    reveal_strlit("/");
    let tail = crate::provider_enforcement::here(me@);
    assert("mcp.invoke"@.len() == 10 && "skill.invoke"@.len() == 12);
    let id = ns@ + seq!['/'] + name@;
    let key = "skill:"@ + id;
    let res = claim@;
    assert(res =~= key + tail);
    assert(res.subrange(res.len() - tail.len(), res.len() as int) =~= tail);
    assert(res.subrange(0, res.len() - tail.len()) =~= key);
    crate::keys::lemma_after_prefix_of_joined("skill:"@, id);
    crate::text::lemma_split_at_first_of_joined(ns@, '/', name@);
    assert(crate::text::before_suffix(res, tail) == Some(key));
    assert(crate::provider_enforcement::served(keys@, me@, key) == serves);
}

/// Work is done only where the question was not needed or was answered without a refusal.
pub proof fn lemma_refusals_stop_the_work(
    q: Question,
    preflight: Option<ProviderRefusal>,
    r: Result<(), ProviderRefusal>,
)
    requires
        call_ensures(check, (q, preflight), r),
    ensures
        r is Ok <==> q is Open || (q is Ask && preflight is None),
        q matches Question::Refuse(p) ==> r == Err::<(), ProviderRefusal>(p),
        q is Ask ==> (preflight matches Some(p) ==> r == Err::<(), ProviderRefusal>(p)),
{
}

/// Whoever a handler serves is the caller of the context, with its own scopes, and the sending node
/// where there is none; a refused context serves nobody.
pub proof fn lemma_served_is_the_caller(
    context: &Result<Option<Caller>, String>,
    sender: &NodeId,
    r: Result<RequestPrincipal, String>,
)
    requires
        call_ensures(request_principal, (context, sender), r),
    ensures
        r is Err <==> *context is Err,
        *context matches Ok(Some(c)) ==> (r matches Ok(RequestPrincipal::Client { principal, scopes }) && principal@
            == c.principal@ && texts(scopes@) == texts(c.scopes@)),
        *context matches Ok(None) ==> (r matches Ok(RequestPrincipal::Node(n)) && n@ == sender@),
{
}

/// A refusal says why, in both its forms, and a JSON-RPC one answers its own request.
pub proof fn lemma_refusal_says_why(p: &ProviderRefusal, id: &Json, plain: Json, rpc: Json)
    requires
        call_ensures(ProviderRefusal::plain, (p,), plain),
        call_ensures(ProviderRefusal::jsonrpc, (p, id), rpc),
    ensures
        plain@.at("error"@) == JsonModel::Str(p.message@),
        plain@.at("reason"@) == JsonModel::Str(p.reason@),
        plain@.at("data"@) == p.data@,
        rpc@.at("id"@) == id@,
        rpc@.at("error"@).at("message"@) == JsonModel::Str(p.message@),
        rpc@.at("error"@).at("code"@) == JsonModel::Int(p.code as int),
        rpc@.at("error"@).at("data"@) == p.data@,
{
    lemma_refusal_members(*p, id@);
    reveal_with_fuel(member_from, 4);
    reveal_strlit("error");
    reveal_strlit("reason");
    reveal_strlit("data");
    assert("error"@.len() == 5 && "reason"@.len() == 6 && "data"@.len() == 4);
}

/// A refusal made here carries its reason and message, and the code of local refusals.
pub proof fn lemma_local_refusal(reason: &str, message: &str, why: &str, p: ProviderRefusal, c: ProviderRefusal, m: &Json, params: Json)
    requires
        call_ensures(ProviderRefusal::local, (reason, message), p),
        call_ensures(context_refusal, (why,), c),
        call_ensures(preflight_params, (Some(m),), params),
    ensures
        p.reason@ == reason@ && p.message@ == message@ && p.code == -32010,
        p.data@.at("reason"@) == JsonModel::Str(reason@),
        c.reason@ == "caller_context_refused"@ && c.message@ == "caller context refused: "@ + why@,
        params@.at("_meta"@).at("mandate"@) == m@,
{
    reveal_with_fuel(member_from, 2);
}

/// The bytes of a refusal are those of what it says.
pub proof fn lemma_refusal_bytes(p: &ProviderRefusal, id: &Json, plain: Json, rpc: Json, a: Vec<u8>, b: Vec<u8>)
    requires
        call_ensures(ProviderRefusal::plain, (p,), plain),
        call_ensures(ProviderRefusal::jsonrpc, (p, id), rpc),
        call_ensures(ProviderRefusal::rpc_body, (p,), a),
        call_ensures(ProviderRefusal::jsonrpc_body, (p, id), b),
    ensures
        a@ == crate::json::json_bytes(plain@),
        b@ == crate::json::json_bytes(rpc@),
{
}

/// What is asked about is the call as it is described from the resource that the caller names; a
/// call that cannot be described is refused, for the reason that the description gives.
pub proof fn lemma_question_is_about_the_call(
    context: &Result<Option<Caller>, String>,
    sender_principal: &str,
    kind: &str,
    payload: &[u8],
    me: &NodeId,
    keys: &Vec<String>,
    claim: Option<&str>,
    d: Result<Derived, ProviderRefusal>,
    q: Question,
)
    requires
        call_ensures(ask, (true, true, true, context, sender_principal, kind, payload, me, keys), q),
        *context is Ok,
        match context->Ok_0 {
            Some(c) => match c.resource {
                Some(s) => claim is Some && (claim->0)@ == s@,
                None => claim is None,
            },
            None => claim is None,
        },
        call_ensures(crate::provider_enforcement::derive, (kind, payload, claim, me, keys), d),
    ensures
        q is Ask <==> d is Ok,
        q is Refuse <==> d is Err,
        q is Ask ==> q->call.operation@ == (d->Ok_0).operation@ && q->call.resource@ == (d->Ok_0).resource@
            && q->call.arguments@ == (d->Ok_0).arguments@,
        q matches Question::Refuse(p) ==> p.reason@ == (d->Err_0).reason@ && p.message@ == (d->Err_0).message@,
{
    assert(crate::http::body::text_of(claim) == crate::provider_enforcement::claim_of(context->Ok_0));
}

} // verus!

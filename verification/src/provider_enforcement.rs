//! Authority where the work happens: a provider decides on protected work itself, and does not take
//! the gateway's word for it.
//!
//! The operation, the resource and the arguments of a call are derived as the gateway derives them,
//! so that a policy means the same thing at both doors. A claim that names another node, or a skill
//! this node does not serve, is refused: a mandate for one resource does not admit a call routed to
//! another.
use crate::b64::{base64_text, encode};
use crate::http::body::text_of;
use crate::json::{json_bytes, json_of, json_to_bytes, object, parse_json, string, Json, JsonModel};
use crate::keys::{cap_parts, is_cap_locality_key, is_locality, parse_cap_key};
use crate::mcp::{envelope, MCP_INVOKE};
use crate::node_id::{NodeId, NodeModel};
use crate::text::{
    after_prefix, before_suffix, copy_texts, from_utf8_lossy, join, lossy_text, same, split_at_first, split_once,
    strip_prefix, strip_suffix, texts,
};
use vstd::prelude::*;
use vstd::string::*;

verus! {

/// The enforcement point a provider's decisions are recorded under.
pub const ENFORCEMENT_POINT_PROVIDER: &'static str = "provider";

/// The signal kind a skill call travels under.
pub const SKILL_INVOKE: &'static str = "skill.invoke";

/// Why a provider refused a protected call. Every field is safe to return to the caller.
#[derive(Debug, PartialEq, Eq)]
pub struct ProviderRefusal {
    /// A stable machine-readable reason.
    pub reason: String,
    /// A human-readable sentence.
    pub message: String,
    /// The JSON-RPC error code.
    pub code: i64,
    /// The structured error data.
    pub data: Json,
}

/// Is this a refusal of this node's own, with that reason and sentence?
pub open spec fn is_local(p: ProviderRefusal, reason: Seq<char>, message: Seq<char>) -> bool {
    &&& p.reason@ == reason
    &&& p.message@ == message
    &&& p.code == -32010
    &&& p.data@ == object().field("reason"@, string(reason))
}

/// What a plain receiver answers a refused call with.
pub open spec fn plain_refusal_of(p: ProviderRefusal) -> JsonModel {
    object().field("error"@, string(p.message@)).field("reason"@, string(p.reason@)).field(
        "data"@,
        p.data@,
    )
}

/// The JSON-RPC error a refusal is answered with.
pub open spec fn refusal_of(p: ProviderRefusal, id: JsonModel) -> JsonModel {
    envelope(id).field(
        "error"@,
        object().field("code"@, JsonModel::Int(p.code as int)).field("message"@, string(p.message@)).field(
            "data"@,
            p.data@,
        ),
    )
}

impl ProviderRefusal {
    /// A refusal of this node's own.
    pub fn local(reason: &str, message: &str) -> (r: Self)
        ensures
            is_local(r, reason@, message@),
    {
        ProviderRefusal {
            reason: reason.to_owned(),
            message: message.to_owned(),
            code: -32010,
            data: Json::empty_object().with_str("reason", reason),
        }
    }

    /// The reply body for a plain receiver, printed.
    pub fn rpc_body(&self) -> (r: Vec<u8>)
        ensures
            r@ == json_bytes(plain_refusal_of(*self)),
    {
        json_to_bytes(&self.plain())
    }

    /// The reply body for a tool call, printed: a JSON-RPC error.
    pub fn jsonrpc_body(&self, id: &Json) -> (r: Vec<u8>)
        ensures
            r@ == json_bytes(refusal_of(*self, id@)),
    {
        json_to_bytes(&self.jsonrpc(id))
    }

    /// The reply for a plain receiver.
    pub fn plain(&self) -> (r: Json)
        ensures
            r@ == plain_refusal_of(*self),
    {
        Json::empty_object().with_str("error", self.message.as_str()).with_str(
            "reason",
            self.reason.as_str(),
        ).with("data", self.data.copy())
    }

    /// The reply for a tool call: a JSON-RPC error.
    pub fn jsonrpc(&self, id: &Json) -> (r: Json)
        ensures
            r@ == refusal_of(*self, id@),
    {
        let error = Json::empty_object().with("code", Json::integer(self.code)).with_str(
            "message",
            self.message.as_str(),
        ).with("data", self.data.copy());
        Json::empty_object().with_str("jsonrpc", "2.0").with("id", id.copy()).with("error", error)
    }
}

/// What a protected call is: what it does, on what, with what.
#[derive(Debug, PartialEq, Eq)]
pub struct Derived {
    /// The operation.
    pub operation: String,
    /// The resource.
    pub resource: String,
    /// The arguments.
    pub arguments: Json,
}

/// Does a scan of capability keys show that `me` advertises `ns/name`?
pub open spec fn advertised(keys: Seq<String>, me: NodeModel, ns: Seq<char>, name: Seq<char>) -> bool {
    exists|i: int|
        0 <= i < keys.len() && !is_locality((#[trigger] keys[i])@) && cap_parts(keys[i]@) == Some(
            (me, ns, name),
        )
}

/// Does this node advertise capability `ns/name`?
pub fn advertises(keys: &Vec<String>, me: &NodeId, ns: &str, name: &str) -> (r: bool)
    ensures
        r == advertised(keys@, me@, ns@, name@),
{
    let mut i: usize = 0;
    while i < keys.len()
        invariant
            i <= keys@.len(),
            forall|j: int|
                0 <= j < i ==> is_locality((#[trigger] keys@[j])@) || cap_parts(keys@[j]@) != Some(
                    (me@, ns@, name@),
                ),
        decreases keys@.len() - i,
    {
        if !is_cap_locality_key(keys[i].as_str()) {
            if let Some((node, n, m)) = parse_cap_key(keys[i].as_str()) {
                if node.is(me) && same(n.as_str(), ns) && same(m.as_str(), name) {
                    return true;
                }
            }
        }
        i += 1;
    }
    false
}

/// Does this node serve the skill that a claim's key names?
pub open spec fn served(keys: Seq<String>, me: NodeModel, claim_key: Seq<char>) -> bool {
    match after_prefix(claim_key, "skill:"@) {
        Some(id) => match split_at_first(id, '/') {
            Some((ns, name)) => advertised(keys, me, ns, name),
            None => false,
        },
        None => false,
    }
}

/// The suffix by which a resource is this node's.
pub open spec fn here(me: NodeModel) -> Seq<char> {
    "@"@ + me.text()
}

/// Is this what the call is?
pub open spec fn is_call(d: Derived, operation: Seq<char>, resource: Seq<char>, arguments: JsonModel) -> bool {
    d.operation@ == operation && d.resource@ == resource && d.arguments@ == arguments
}

/// What a tool call is, or why it is refused.
pub open spec fn derived_tool(r: Result<Derived, ProviderRefusal>, call: Option<JsonModel>, me: NodeModel) -> bool {
    match call {
        None => r matches Err(p) && is_local(p, "malformed_call"@, "the tool call is not JSON"@),
        Some(c) => match c.at("params"@).text_at("name"@) {
            None => r matches Err(p) && is_local(
                p,
                "malformed_call"@,
                "the tool call names no tool"@,
            ),
            Some(name) => r matches Ok(d) && is_call(
                d,
                "tools/call"@,
                "tool:"@ + name + here(me),
                match c.at("params"@).member("arguments"@) {
                    Some(a) => a,
                    None => object(),
                },
            ),
        },
    }
}

/// What any other protected call is, or why it is refused.
pub open spec fn derived_claim(
    r: Result<Derived, ProviderRefusal>,
    kind: Seq<char>,
    payload: Seq<u8>,
    claim: Option<Seq<char>>,
    me: NodeModel,
    keys: Seq<String>,
) -> bool {
    match claim {
        None => r matches Err(p) && is_local(
            p,
            "resource_unnamed"@,
            "a protected `"@ + kind + "` call must name the resource it acts on"@,
        ),
        Some(resource) => match before_suffix(resource, here(me)) {
            None => r matches Err(p) && is_local(
                p,
                "resource_not_here"@,
                "the call names "@ + resource + ", which is not this node's"@,
            ),
            Some(key) => if kind == SKILL_INVOKE@ {
                if served(keys, me, key) {
                    r matches Ok(d) && is_call(
                        d,
                        SKILL_INVOKE@,
                        resource,
                        object().field("text"@, string(lossy_text(payload))),
                    )
                } else {
                    r matches Err(p) && is_local(
                        p,
                        "resource_not_served"@,
                        "this node does not serve "@ + key,
                    )
                }
            } else {
                r matches Ok(d) && is_call(
                    d,
                    kind,
                    resource,
                    object().field("payload_b64"@, string(base64_text(payload))),
                )
            },
        },
    }
}

/// Is this what a protected call is, or why it is refused? A tool call is read from its payload, any
/// other call from its claim.
pub open spec fn is_derived(
    r: Result<Derived, ProviderRefusal>,
    kind: Seq<char>,
    payload: Seq<u8>,
    claim: Option<Seq<char>>,
    me: NodeModel,
    keys: Seq<String>,
) -> bool {
    if kind == MCP_INVOKE@ {
        derived_tool(r, json_of(payload), me)
    } else {
        derived_claim(r, kind, payload, claim, me, keys)
    }
}

/// The operation, resource and arguments of a protected call; `keys` are the capability keys of the
/// store.
pub fn derive(
    kind: &str,
    payload: &[u8],
    claim: Option<&str>,
    me: &NodeId,
    keys: &Vec<String>,
) -> (r: Result<Derived, ProviderRefusal>)
    ensures
        is_derived(r, kind@, payload@, text_of(claim), me@, keys@),
{
    let at_me = join("@", me.text().as_str());
    if same(kind, MCP_INVOKE) {
        let c = match parse_json(payload) {
            Some(c) => c,
            None => {
                return Err(ProviderRefusal::local("malformed_call", "the tool call is not JSON"));
            },
        };
        let params = c.at("params");
        return match params.str_at("name") {
            None => Err(ProviderRefusal::local("malformed_call", "the tool call names no tool")),
            Some(name) => {
                let arguments = match params.get("arguments") {
                    Some(a) => a.copy(),
                    None => Json::empty_object(),
                };
                let tool = join("tool:", name);
                Ok(
                    Derived {
                        operation: "tools/call".to_owned(),
                        resource: join(tool.as_str(), at_me.as_str()),
                        arguments,
                    },
                )
            },
        };
    }
    let resource = match claim {
        Some(c) => c,
        None => {
            let head = join("a protected `", kind);
            let message = join(head.as_str(), "` call must name the resource it acts on");
            return Err(ProviderRefusal::local("resource_unnamed", message.as_str()));
        },
    };
    let key = match strip_suffix(resource, at_me.as_str()) {
        Some(k) => k,
        None => {
            let head = join("the call names ", resource);
            let message = join(head.as_str(), ", which is not this node's");
            return Err(ProviderRefusal::local("resource_not_here", message.as_str()));
        },
    };
    if same(kind, SKILL_INVOKE) {
        let is_served = match strip_prefix(key.as_str(), "skill:") {
            Some(id) => match split_once(id.as_str(), '/') {
                Some((ns, name)) => advertises(keys, me, ns.as_str(), name.as_str()),
                None => false,
            },
            None => false,
        };
        if !is_served {
            let message = join("this node does not serve ", key.as_str());
            return Err(ProviderRefusal::local("resource_not_served", message.as_str()));
        }
        let text = from_utf8_lossy(payload);
        return Ok(
            Derived {
                operation: SKILL_INVOKE.to_owned(),
                resource: resource.to_owned(),
                arguments: Json::empty_object().with_str("text", text.as_str()),
            },
        );
    }
    let b64 = encode(payload);
    Ok(
        Derived {
            operation: kind.to_owned(),
            resource: resource.to_owned(),
            arguments: Json::empty_object().with_str("payload_b64", b64.as_str()),
        },
    )
}

/// What the check does before it looks at the caller.
#[derive(Debug, PartialEq, Eq)]
pub enum Gate {
    /// Not protected work, or enforcement is off: run it.
    Open,
    /// Refuse it.
    Closed(ProviderRefusal),
    /// Decide on it.
    Decide,
}

/// May this be decided at all? Enforcement that was asked for and that nothing can decide fails
/// closed.
pub fn gate(enforcement_on: bool, protected: bool, has_evaluator: bool) -> (r: Gate)
    ensures
        if !enforcement_on || !protected {
            r == Gate::Open
        } else if !has_evaluator {
            r matches Gate::Closed(p) && is_local(
                p,
                "no_evaluator"@,
                "provider enforcement is on and no action evaluator is attached; protected work is refused"@,
            )
        } else {
            r == Gate::Decide
        },
{
    if !enforcement_on || !protected {
        return Gate::Open;
    }
    if !has_evaluator {
        return Gate::Closed(
            ProviderRefusal::local(
                "no_evaluator",
                "provider enforcement is on and no action evaluator is attached; protected work is refused",
            ),
        );
    }
    Gate::Decide
}

/// A refused caller context, as a refusal of this node's own.
pub fn context_refusal(why: &str) -> (r: ProviderRefusal)
    ensures
        is_local(r, "caller_context_refused"@, "caller context refused: "@ + why@),
{
    ProviderRefusal::local(
        "caller_context_refused",
        join("caller context refused: ", why).as_str(),
    )
}

/// The parameters the preflight reads a mandate from.
pub fn preflight_params(mandate: Option<&Json>) -> (r: Json)
    ensures
        r@ == match mandate {
            Some(m) => object().field("_meta"@, object().field("mandate"@, m@)),
            None => JsonModel::Null,
        },
{
    match mandate {
        Some(m) => Json::empty_object().with("_meta", Json::empty_object().with("mandate", m.copy())),
        None => Json::Null,
    }
}

/// What a verified caller context says: who is calling, with what authority, on what.
#[derive(Debug, PartialEq, Eq)]
pub struct Caller {
    /// The client on whose behalf the call is made.
    pub principal: String,
    /// The scopes it holds.
    pub scopes: Vec<String>,
    /// The mandate the call acts under.
    pub mandate: Option<Json>,
    /// The resource the call claims.
    pub resource: Option<String>,
}

/// Who makes a request: the client behind a verified context, or the sending node itself.
#[derive(Debug, PartialEq, Eq)]
pub enum RequestPrincipal {
    /// A client, behind a gateway.
    Client {
        /// The client.
        principal: String,
        /// The scopes it holds.
        scopes: Vec<String>,
    },
    /// The sending node.
    Node(NodeId),
}

/// Is this who makes a request with that context, sent by that node?
pub open spec fn is_principal(
    r: Result<RequestPrincipal, String>,
    context: Result<Option<Caller>, String>,
    sender: NodeModel,
) -> bool {
    match context {
        Err(why) => r matches Err(e) && e@ == why@,
        Ok(Some(c)) => r matches Ok(RequestPrincipal::Client { principal, scopes }) && principal@ == c.principal@
            && texts(scopes@) == texts(c.scopes@),
        Ok(None) => r matches Ok(RequestPrincipal::Node(n)) && n@ == sender,
    }
}

/// **Who makes the request?** The client behind a verified context; without a context, the sending node.
/// A context that is refused names nobody: such a request is never taken for the node's own.
pub fn request_principal(context: &Result<Option<Caller>, String>, sender: &NodeId) -> (r: Result<
    RequestPrincipal,
    String,
>)
    ensures
        is_principal(r, *context, sender@),
{
    match context {
        Err(why) => Err(why.clone()),
        Ok(Some(c)) => Ok(
            RequestPrincipal::Client { principal: c.principal.clone(), scopes: copy_texts(&c.scopes) },
        ),
        Ok(None) => Ok(RequestPrincipal::Node(sender.clone())),
    }
}

/// What the check asks for before the work may run.
#[derive(Debug, PartialEq, Eq)]
pub enum Question {
    /// Nothing: run it.
    Open,
    /// Refuse it.
    Refuse(ProviderRefusal),
    /// A preflight on this.
    Ask {
        /// On whose behalf.
        principal: String,
        /// The scopes that one holds.
        scopes: Vec<String>,
        /// The enforcement point that asks.
        point: String,
        /// The operation, the resource and the arguments.
        call: Derived,
        /// The parameters the mandate is read from.
        params: Json,
    },
}

/// The resource a caller context claims; none without a context.
pub open spec fn claim_of(caller: Option<Caller>) -> Option<Seq<char>> {
    match caller {
        Some(c) => match c.resource {
            Some(s) => Some(s@),
            None => None,
        },
        None => None,
    }
}

/// The parameters a caller context gives the preflight.
pub open spec fn params_of(caller: Option<Caller>) -> JsonModel {
    match caller {
        Some(c) => match c.mandate {
            Some(m) => object().field("_meta"@, object().field("mandate"@, m@)),
            None => JsonModel::Null,
        },
        None => JsonModel::Null,
    }
}

/// On whose behalf a preflight is asked, and with what scopes: the client's behind a verified context, or
/// without one the sending node's, which holds none.
pub open spec fn on_behalf_of(caller: Option<Caller>, sender_principal: Seq<char>) -> (
    Seq<char>,
    Seq<Seq<char>>,
) {
    match caller {
        Some(c) => (c.principal@, texts(c.scopes@)),
        None => (sender_principal, Seq::empty()),
    }
}

/// Is this what is asked of a call whose context was verified?
pub open spec fn asks(
    q: Question,
    caller: Option<Caller>,
    sender_principal: Seq<char>,
    kind: Seq<char>,
    payload: Seq<u8>,
    me: NodeModel,
    keys: Seq<String>,
) -> bool {
    match q {
        Question::Open => false,
        Question::Refuse(p) => is_derived(Err(p), kind, payload, claim_of(caller), me, keys),
        Question::Ask { principal, scopes, point, call, params } => (principal@, texts(scopes@))
            == on_behalf_of(caller, sender_principal) && point@ == ENFORCEMENT_POINT_PROVIDER@ && is_derived(
            Ok(call),
            kind,
            payload,
            claim_of(caller),
            me,
            keys,
        ) && params@ == params_of(caller),
    }
}

fn no_texts() -> (r: Vec<String>)
    ensures
        texts(r@) == Seq::<Seq<char>>::empty(),
{
    let none: Vec<String> = Vec::new();
    assert(texts(none@) =~= Seq::empty());
    none
}

/// **What must be asked before this node runs the call?** Work that is not protected, or that nothing
/// enforces, is open; enforcement that nothing can decide, a context that is refused and a call that
/// cannot be derived each refuse it; else the preflight is asked about what was derived, on the caller's
/// behalf. `context` is the verified caller context, where there is one, or why it is refused;
/// `sender_principal` is the sending node's principal.
pub fn ask(
    enforcement_on: bool,
    protected: bool,
    has_evaluator: bool,
    context: &Result<Option<Caller>, String>,
    sender_principal: &str,
    kind: &str,
    payload: &[u8],
    me: &NodeId,
    keys: &Vec<String>,
) -> (r: Question)
    ensures
        if !enforcement_on || !protected {
            r == Question::Open
        } else if !has_evaluator {
            r matches Question::Refuse(p) && is_local(
                p,
                "no_evaluator"@,
                "provider enforcement is on and no action evaluator is attached; protected work is refused"@,
            )
        } else {
            match *context {
                Err(why) => r matches Question::Refuse(p) && is_local(
                    p,
                    "caller_context_refused"@,
                    "caller context refused: "@ + why@,
                ),
                Ok(caller) => asks(r, caller, sender_principal@, kind@, payload@, me@, keys@),
            }
        },
{
    match gate(enforcement_on, protected, has_evaluator) {
        Gate::Open => {
            return Question::Open;
        },
        Gate::Closed(p) => {
            return Question::Refuse(p);
        },
        Gate::Decide => {},
    }
    let caller = match context {
        Ok(c) => c,
        Err(why) => {
            return Question::Refuse(context_refusal(why.as_str()));
        },
    };
    let (mandate, claim) = match caller {
        Some(c) => (
            c.mandate.as_ref(),
            match &c.resource {
                Some(s) => Some(s.as_str()),
                None => None,
            },
        ),
        None => (None, None),
    };
    let (principal, scopes) = match caller {
        Some(c) => (c.principal.clone(), copy_texts(&c.scopes)),
        None => (sender_principal.to_owned(), no_texts()),
    };
    match derive(kind, payload, claim, me, keys) {
        Ok(call) => Question::Ask {
            principal,
            scopes,
            point: ENFORCEMENT_POINT_PROVIDER.to_owned(),
            call,
            params: preflight_params(mandate),
        },
        Err(p) => Question::Refuse(p),
    }
}

/// **May this node run the call now?** `preflight` is the preflight's refusal of what was asked, where it
/// refused.
pub fn check(question: Question, preflight: Option<ProviderRefusal>) -> (r: Result<(), ProviderRefusal>)
    ensures
        r == match question {
            Question::Open => Ok::<(), ProviderRefusal>(()),
            Question::Refuse(p) => Err(p),
            Question::Ask { .. } => match preflight {
                Some(p) => Err(p),
                None => Ok(()),
            },
        },
{
    match question {
        Question::Open => Ok(()),
        Question::Refuse(p) => Err(p),
        Question::Ask { .. } => match preflight {
            Some(p) => Err(p),
            None => Ok(()),
        },
    }
}

/// The preflight is asked on behalf of whoever the handler is told is calling: for a client's call both
/// hear of the client, with its scopes, and neither of the node that handed the call on; for a node's own
/// call both hear of the node, and no scope comes with it.
pub proof fn lemma_decided_for_the_caller_that_is_served(
    q: Question,
    who: Result<RequestPrincipal, String>,
    caller: Option<Caller>,
    sender: NodeModel,
    sender_principal: Seq<char>,
    kind: Seq<char>,
    payload: Seq<u8>,
    me: NodeModel,
    keys: Seq<String>,
)
    requires
        asks(q, caller, sender_principal, kind, payload, me, keys),
        is_principal(who, Ok(caller), sender),
        q is Ask,
    ensures
        match who {
            Ok(RequestPrincipal::Client { principal, scopes }) => q->principal@ == principal@ && texts(q->scopes@)
                == texts(scopes@),
            Ok(RequestPrincipal::Node(n)) => n@ == sender && q->principal@ == sender_principal && texts(q->scopes@)
                == Seq::<Seq<char>>::empty(),
            Err(_) => false,
        },
{
}

/// A claim on another node's resource is refused, whatever the kind.
pub proof fn lemma_foreign_resource_is_refused(
    r: Result<Derived, ProviderRefusal>,
    kind: Seq<char>,
    payload: Seq<u8>,
    resource: Seq<char>,
    me: NodeModel,
    keys: Seq<String>,
)
    requires
        derived_claim(r, kind, payload, Some(resource), me, keys),
        before_suffix(resource, here(me)) is None,
    ensures
        r is Err,
{
}

} // verus!

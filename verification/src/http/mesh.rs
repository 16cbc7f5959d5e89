//! Messaging over the gateway: signals, calls, scatter-gather, mailboxes, acknowledged delivery.
use crate::b64::{base64_text, encode};
use crate::http::body::{
    as_int, bounded, carried, carried_bytes, clamp, named_node, node_at, number_or, or_else, payload_at, text_of,
};
use crate::http::reply::{
    error, error_of, failure, failure_of, serve, served, Reply, ReplyModel, BAD_REQUEST, GATEWAY_TIMEOUT,
};
use crate::json::{models, object, string, Json, JsonModel};
use crate::mailbox::MeshEvent;
use crate::node_id::{node_of, nodes, NodeId, NodeModel};
use crate::numeral::{hex16, parse_radix, parsed, to_hex16};
use crate::rpc::{behind_nonce, call_payload, nonced, Signal};
use crate::text::{after_prefix, has_prefix, same, strip_prefix};
use crate::wire::{number_at, read_u64, tail};
use vstd::prelude::*;
use vstd::string::*;

verus! {

/// Whom a signal is for.
#[derive(Debug, PartialEq, Eq)]
pub enum SignalScope {
    /// Every node.
    Cluster,
    /// The members of a group.
    Group(String),
    /// One node.
    Individual(NodeId),
}

/// What a [`SignalScope`] stands for.
#[verifier::ext_equal]
pub enum ScopeModel {
    /// Every node.
    Cluster,
    /// The members of a group.
    Group(Seq<char>),
    /// One node.
    Individual(NodeModel),
}

impl View for SignalScope {
    type V = ScopeModel;

    open spec fn view(&self) -> ScopeModel {
        match self {
            SignalScope::Cluster => ScopeModel::Cluster,
            SignalScope::Group(g) => ScopeModel::Group(g@),
            SignalScope::Individual(n) => ScopeModel::Individual(n@),
        }
    }
}

/// The scope a text names, or why it names none. A text that names none is refused: it never widens to
/// the whole cluster.
pub open spec fn scope_of(s: Seq<char>) -> Result<ScopeModel, Seq<char>> {
    if s == "cluster"@ || s == "system"@ {
        Ok(ScopeModel::Cluster)
    } else if has_prefix(s, "group:"@) {
        Ok(ScopeModel::Group(after_prefix(s, "group:"@)->0))
    } else if has_prefix(s, "node:"@) {
        match node_of(after_prefix(s, "node:"@)->0) {
            Some(n) => Ok(ScopeModel::Individual(n)),
            None => Err("invalid node id"@),
        }
    } else {
        Err("unknown scope; expected \"cluster\" | \"group:<name>\" | \"node:<id>\""@)
    }
}

/// The scope a text names, or why it names none.
pub fn parse_scope(s: &str) -> (r: Result<SignalScope, &'static str>)
    ensures
        match scope_of(s@) {
            Ok(m) => r matches Ok(v) && v@ == m,
            Err(why) => r matches Err(e) && e@ == why,
        },
{
    if same(s, "cluster") || same(s, "system") {
        return Ok(SignalScope::Cluster);
    }
    if let Some(group) = strip_prefix(s, "group:") {
        return Ok(SignalScope::Group(group));
    }
    match strip_prefix(s, "node:") {
        Some(id) => match NodeId::parse(id.as_str()) {
            Some(n) => Ok(SignalScope::Individual(n)),
            None => Err("invalid node id"),
        },
        None => Err("unknown scope; expected \"cluster\" | \"group:<name>\" | \"node:<id>\""),
    }
}

/// A signal to send.
#[derive(Debug, PartialEq, Eq)]
pub struct Emit {
    /// Its kind.
    pub kind: String,
    /// Whom it is for.
    pub scope: SignalScope,
    /// What it carries.
    pub payload: Vec<u8>,
}

/// The scope a body names: the cluster, where it names none.
pub open spec fn scope_text(body: JsonModel) -> Seq<char> {
    match body.text_at("scope"@) {
        Some(s) => s,
        None => "cluster"@,
    }
}

/// Read a signal to send.
pub fn signal_emit(body: &Json) -> (r: Result<Emit, Reply>)
    ensures
        match (body@.text_at("kind"@), scope_of(scope_text(body@)), carried(body@.text_at("payload_b64"@))) {
            (None, _, _) => r matches Err(e) && e@ == error_of(BAD_REQUEST, "missing kind"@),
            (Some(_), Err(why), _) => r matches Err(e) && e@ == error_of(BAD_REQUEST, why),
            (Some(_), Ok(_), None) => r matches Err(e) && e@ == error_of(
                BAD_REQUEST,
                "invalid base64 payload"@,
            ),
            (Some(kind), Ok(scope), Some(payload)) => r matches Ok(s) && s.kind@ == kind && s.scope@ == scope
                && s.payload@ == payload,
        },
{
    let kind = match body.str_at("kind") {
        Some(k) => k,
        None => {
            return Err(error(BAD_REQUEST, "missing kind"));
        },
    };
    let scope_str = match body.str_at("scope") {
        Some(s) => s,
        None => "cluster",
    };
    let scope = match parse_scope(scope_str) {
        Ok(s) => s,
        Err(why) => {
            return Err(error(BAD_REQUEST, why));
        },
    };
    match payload_at(body, "payload_b64") {
        Some(payload) => Ok(Emit { kind: kind.to_owned(), scope, payload }),
        None => Err(error(BAD_REQUEST, "invalid base64 payload")),
    }
}

/// `{"ok": taken}`.
pub fn emitted(taken: bool) -> (r: Reply)
    ensures
        r@ == served(object().field("ok"@, JsonModel::Bool(taken))),
{
    serve(Json::empty_object().with("ok", Json::Bool(taken)))
}

/// A signal as the public stream sends it.
pub fn signal_event(s: &Signal) -> (r: Json)
    ensures
        r@ == object().field("sender"@, string(s.sender@.text())).field(
            "payload"@,
            string(base64_text(s.payload@)),
        ),
{
    Json::empty_object().with_str("sender", s.sender.text().as_str()).with_str(
        "payload",
        encode(s.payload.as_slice()).as_str(),
    )
}

/// A signal as the gateway's stream sends it.
pub fn gateway_signal_event(s: &Signal, nonce: u64) -> (r: Json)
    ensures
        r@ == object().field("sender"@, string(s.sender@.text())).field(
            "payload_b64"@,
            string(base64_text(s.payload@)),
        ).field("nonce"@, JsonModel::Int(nonce as int)),
{
    Json::empty_object().with_str("sender", s.sender.text().as_str()).with_str(
        "payload_b64",
        encode(s.payload.as_slice()).as_str(),
    ).with("nonce", Json::UInt(nonce))
}

/// A call to make.
#[derive(Debug, PartialEq, Eq)]
pub struct Call {
    /// Whom to call.
    pub target: NodeId,
    /// The method: a signal's kind.
    pub method: String,
    /// What it carries.
    pub payload: Vec<u8>,
    /// How long to wait.
    pub timeout_secs: u64,
}

/// Read a call to make.
pub fn rpc_call(body: &Json) -> (r: Result<Call, Reply>)
    ensures
        if body@.text_at("target"@) is None {
            r matches Err(e) && e@ == error_of(BAD_REQUEST, "missing target"@)
        } else if named_node(body@.text_at("target"@)) is None {
            r matches Err(e) && e@ == error_of(BAD_REQUEST, "invalid target node id"@)
        } else if body@.text_at("method"@) is None {
            r matches Err(e) && e@ == error_of(BAD_REQUEST, "missing method"@)
        } else if carried(body@.text_at("payload_b64"@)) is None {
            r matches Err(e) && e@ == error_of(BAD_REQUEST, "invalid base64 payload"@)
        } else {
            r matches Ok(c) && Some(c.target@) == named_node(body@.text_at("target"@)) && Some(c.method@)
                == body@.text_at("method"@) && Some(c.payload@) == carried(body@.text_at("payload_b64"@))
                && c.timeout_secs == bounded(or_else(body@.natural_at("timeout_secs"@), 30), 1, 300)
        },
{
    if body.str_at("target").is_none() {
        return Err(error(BAD_REQUEST, "missing target"));
    }
    let target = match node_at(body, "target") {
        Some(n) => n,
        None => {
            return Err(error(BAD_REQUEST, "invalid target node id"));
        },
    };
    let method = match body.str_at("method") {
        Some(m) => m,
        None => {
            return Err(error(BAD_REQUEST, "missing method"));
        },
    };
    match payload_at(body, "payload_b64") {
        Some(payload) => Ok(
            Call {
                target,
                method: method.to_owned(),
                payload,
                timeout_secs: clamp(number_or(body, "timeout_secs", 30), 1, 300),
            },
        ),
        None => Err(error(BAD_REQUEST, "invalid base64 payload")),
    }
}

/// Answer a call: its result, or that none came in time.
pub fn rpc_call_reply(result: Option<&[u8]>) -> (r: Reply)
    ensures
        r@ == match result {
            Some(b) => served(
                object().field("ok"@, JsonModel::Bool(true)).field(
                    "result_b64"@,
                    string(base64_text(b@)),
                ),
            ),
            None => failure_of(GATEWAY_TIMEOUT, "timeout"@),
        },
{
    match result {
        Some(b) => serve(
            Json::empty_object().with("ok", Json::Bool(true)).with_str("result_b64", encode(b).as_str()),
        ),
        None => failure(GATEWAY_TIMEOUT, "timeout"),
    }
}

/// A request as the serving stream sends it; one too short for a nonce is not sent.
pub fn rpc_serve_event(s: &Signal) -> (r: Option<Json>)
    ensures
        r is Some == (s.payload@.len() >= 8),
        r matches Some(j) ==> j@ == object().field(
            "nonce_hex"@,
            string(hex16(number_at(s.payload@, 0))),
        ).field("sender"@, string(s.sender@.text())).field(
            "payload_b64"@,
            string(base64_text(behind_nonce(s.payload@))),
        ),
{
    if s.payload.len() < 8 {
        return None;
    }
    let nonce = read_u64(s.payload.as_slice(), 0);
    let app = tail(s.payload.as_slice(), 8);
    assert(app@ =~= behind_nonce(s.payload@));
    Some(
        Json::empty_object().with_str("nonce_hex", to_hex16(nonce).as_str()).with_str(
            "sender",
            s.sender.text().as_str(),
        ).with_str("payload_b64", encode(app.as_slice()).as_str()),
    )
}

/// A reply to send to a waiting caller.
#[derive(Debug, PartialEq, Eq)]
pub struct Response {
    /// The caller.
    pub target: NodeId,
    /// The nonce of its call, and the result behind it.
    pub payload: Vec<u8>,
}

/// The nonce a body names.
pub open spec fn nonce_in(body: JsonModel) -> Option<nat> {
    match body.text_at("nonce_hex"@) {
        Some(s) => parsed(s, 16),
        None => None,
    }
}

/// Read a reply to send.
pub fn rpc_respond(body: &Json) -> (r: Result<Response, Reply>)
    ensures
        if body@.text_at("nonce_hex"@) is None {
            r matches Err(e) && e@ == error_of(BAD_REQUEST, "missing nonce_hex"@)
        } else if nonce_in(body@) is None {
            r matches Err(e) && e@ == error_of(BAD_REQUEST, "invalid nonce_hex"@)
        } else if named_node(body@.text_at("sender"@)) is None {
            r matches Err(e) && e@ == error_of(BAD_REQUEST, "missing or invalid sender"@)
        } else if carried(body@.text_at("result_b64"@)) is None {
            r matches Err(e) && e@ == error_of(BAD_REQUEST, "invalid base64 result"@)
        } else {
            r matches Ok(s) && Some(s.target@) == named_node(body@.text_at("sender"@)) && s.payload@ == nonced(
                nonce_in(body@)->0 as u64,
                carried(body@.text_at("result_b64"@))->0,
            )
        },
{
    let nonce_hex = match body.str_at("nonce_hex") {
        Some(s) => s,
        None => {
            return Err(error(BAD_REQUEST, "missing nonce_hex"));
        },
    };
    let nonce: u64 = match parse_radix(nonce_hex, 16) {
        Some(n) => n,
        None => {
            return Err(error(BAD_REQUEST, "invalid nonce_hex"));
        },
    };
    let target = match node_at(body, "sender") {
        Some(n) => n,
        None => {
            return Err(error(BAD_REQUEST, "missing or invalid sender"));
        },
    };
    match payload_at(body, "result_b64") {
        Some(result) => Ok(Response { target, payload: call_payload(nonce, result.as_slice()) }),
        None => Err(error(BAD_REQUEST, "invalid base64 result")),
    }
}

/// One call to several nodes.
#[derive(Debug, PartialEq, Eq)]
pub struct Scatter {
    /// Whom to call.
    pub targets: Vec<NodeId>,
    /// The method.
    pub method: String,
    /// What it carries.
    pub payload: Vec<u8>,
    /// How long to wait.
    pub timeout_secs: u64,
    /// How many replies are enough.
    pub min_ok: u64,
}

/// The nodes that the first `k` values name; a value that names none is passed over.
pub open spec fn named_nodes(v: Seq<JsonModel>, k: int) -> Seq<NodeModel>
    decreases k,
{
    if k <= 0 {
        Seq::empty()
    } else {
        let front = named_nodes(v, k - 1);
        match named_node(v[k - 1].text()) {
            Some(n) => front.push(n),
            None => front,
        }
    }
}

fn read_nodes(v: &Vec<Json>) -> (r: Vec<NodeId>)
    ensures
        nodes(r@) == named_nodes(models(v@), v@.len() as int),
{
    let mut out: Vec<NodeId> = Vec::new();
    let mut k: usize = 0;
    assert(nodes(out@) =~= Seq::empty());
    while k < v.len()
        invariant
            k <= v@.len(),
            nodes(out@) == named_nodes(models(v@), k as int),
        decreases v@.len() - k,
    {
        let ghost before = out@;
        assert(models(v@)[k as int] == v@[k as int]@);
        if let Some(s) = v[k].as_str() {
            if let Some(n) = NodeId::parse(s) {
                let ghost m = n@;
                out.push(n);
                assert(nodes(out@) =~= nodes(before).push(m));
            }
        }
        k += 1;
    }
    out
}

/// Read one call to several nodes.
pub fn scatter(body: &Json) -> (r: Result<Scatter, Reply>)
    ensures
        if body@.at("targets"@).elements() is None {
            r matches Err(e) && e@ == error_of(BAD_REQUEST, "missing targets"@)
        } else if body@.text_at("method"@) is None {
            r matches Err(e) && e@ == error_of(BAD_REQUEST, "missing method"@)
        } else if carried(body@.text_at("payload_b64"@)) is None {
            r matches Err(e) && e@ == error_of(BAD_REQUEST, "invalid base64 payload"@)
        } else {
            let listed = body@.at("targets"@).elements()->0;
            r matches Ok(s) && nodes(s.targets@) == named_nodes(listed, listed.len() as int) && Some(
                s.method@,
            ) == body@.text_at("method"@) && Some(s.payload@) == carried(body@.text_at("payload_b64"@))
                && s.timeout_secs == bounded(or_else(body@.natural_at("timeout_secs"@), 10), 1, 300)
                && s.min_ok == or_else(body@.natural_at("min_ok"@), 1)
        },
{
    let listed = body.at("targets");
    let targets = match listed.as_array() {
        Some(v) => {
            assert(models(v@) =~= listed@.elements()->0);
            read_nodes(v)
        },
        None => {
            return Err(error(BAD_REQUEST, "missing targets"));
        },
    };
    let method = match body.str_at("method") {
        Some(m) => m,
        None => {
            return Err(error(BAD_REQUEST, "missing method"));
        },
    };
    match payload_at(body, "payload_b64") {
        Some(payload) => Ok(
            Scatter {
                targets,
                method: method.to_owned(),
                payload,
                timeout_secs: clamp(number_or(body, "timeout_secs", 10), 1, 300),
                min_ok: number_or(body, "min_ok", 1),
            },
        ),
        None => Err(error(BAD_REQUEST, "invalid base64 payload")),
    }
}

/// The replies a scatter has gathered.
#[derive(Debug, PartialEq, Eq)]
pub struct Gather {
    /// How many are enough.
    pub min_ok: u64,
    /// The replies, in the order they came.
    pub replies: Vec<Json>,
}

/// A reply as a scatter lists it.
pub open spec fn gathered(sender: NodeModel, result: Seq<u8>) -> JsonModel {
    object().field("sender"@, string(sender.text())).field("result_b64"@, string(base64_text(result)))
}

impl Gather {
    /// No reply yet.
    pub fn new(min_ok: u64) -> (r: Self)
        ensures
            r.min_ok == min_ok,
            models(r.replies@) == Seq::<JsonModel>::empty(),
    {
        let replies: Vec<Json> = Vec::new();
        assert(models(replies@) =~= Seq::<JsonModel>::empty());
        Gather { min_ok, replies }
    }

    /// A call came back, with its result or with none. Is that enough? Then the others are called off.
    pub fn joined(&mut self, sender: &NodeId, result: Option<&[u8]>) -> (enough: bool)
        ensures
            final(self).min_ok == old(self).min_ok,
            models(final(self).replies@) == match result {
                Some(b) => models(old(self).replies@).push(gathered(sender@, b@)),
                None => models(old(self).replies@),
            },
            enough == (result is Some && final(self).replies@.len() >= final(self).min_ok),
    {
        match result {
            Some(b) => {
                let ghost before = self.replies@;
                let entry = Json::empty_object().with_str("sender", sender.text().as_str()).with_str(
                    "result_b64",
                    encode(b).as_str(),
                );
                let ghost m = entry@;
                self.replies.push(entry);
                assert(models(self.replies@) =~= models(before).push(m));
                self.replies.len() as u64 >= self.min_ok
            },
            None => false,
        }
    }

    /// Answer with what was gathered.
    pub fn finish(self) -> (r: Reply)
        ensures
            r@ == if self.replies@.len() >= self.min_ok {
                served(
                    object().field("ok"@, JsonModel::Bool(true)).field(
                        "replies"@,
                        JsonModel::Arr(models(self.replies@)),
                    ),
                )
            } else {
                ReplyModel {
                    status: GATEWAY_TIMEOUT,
                    body: object().field("ok"@, JsonModel::Bool(false)).field(
                        "error"@,
                        string("insufficient replies"@),
                    ).field("replies"@, JsonModel::Arr(models(self.replies@))),
                }
            },
    {
        let enough = self.replies.len() as u64 >= self.min_ok;
        let list = Json::array(self.replies);
        if enough {
            serve(Json::empty_object().with("ok", Json::Bool(true)).with("replies", list))
        } else {
            Reply {
                status: GATEWAY_TIMEOUT,
                body: Json::empty_object().with("ok", Json::Bool(false)).with_str(
                    "error",
                    "insufficient replies",
                ).with("replies", list),
            }
        }
    }
}

/// An event to deliver to a node's mailbox.
#[derive(Debug, PartialEq, Eq)]
pub struct Delivery {
    /// Whose mailbox.
    pub target: NodeId,
    /// The event's kind.
    pub kind: String,
    /// What it carries.
    pub payload: Vec<u8>,
}

/// Read an event to deliver.
pub fn mailbox_deliver(body: &Json) -> (r: Result<Delivery, Reply>)
    ensures
        if named_node(body@.text_at("target"@)) is None {
            r matches Err(e) && e@ == error_of(BAD_REQUEST, "missing or invalid target"@)
        } else if body@.text_at("kind"@) is None {
            r matches Err(e) && e@ == error_of(BAD_REQUEST, "missing kind"@)
        } else if carried(body@.text_at("payload_b64"@)) is None {
            r matches Err(e) && e@ == error_of(BAD_REQUEST, "invalid base64 payload"@)
        } else {
            r matches Ok(d) && Some(d.target@) == named_node(body@.text_at("target"@)) && Some(d.kind@)
                == body@.text_at("kind"@) && Some(d.payload@) == carried(body@.text_at("payload_b64"@))
        },
{
    let target = match node_at(body, "target") {
        Some(n) => n,
        None => {
            return Err(error(BAD_REQUEST, "missing or invalid target"));
        },
    };
    let kind = match body.str_at("kind") {
        Some(k) => k,
        None => {
            return Err(error(BAD_REQUEST, "missing kind"));
        },
    };
    match payload_at(body, "payload_b64") {
        Some(payload) => Ok(Delivery { target, kind: kind.to_owned(), payload }),
        None => Err(error(BAD_REQUEST, "invalid base64 payload")),
    }
}

/// A mailbox event as its stream sends it.
pub fn mailbox_event(e: &MeshEvent) -> (r: Json)
    ensures
        r@ == object().field("sender"@, string(e.sender@.text())).field("kind"@, string(e.kind@)).field(
            "payload_b64"@,
            string(base64_text(e.payload@)),
        ),
{
    Json::empty_object().with_str("sender", e.sender.text().as_str()).with_str(
        "kind",
        e.kind.as_str(),
    ).with_str("payload_b64", encode(e.payload.as_slice()).as_str())
}

/// Read a signal to send with an acknowledgement.
pub fn emit_reliable(target: &str, kind: &str, payload_b64: Option<&str>, timeout_secs: Option<u64>) -> (r: Result<
    Call,
    Reply,
>)
    ensures
        match (node_of(target@), carried(text_of(payload_b64))) {
            (None, _) => r matches Err(e) && e@ == error_of(BAD_REQUEST, "invalid target node id"@),
            (Some(_), None) => r matches Err(e) && e@ == error_of(BAD_REQUEST, "invalid base64 payload"@),
            (Some(n), Some(payload)) => r matches Ok(c) && c.target@ == n && c.method@ == kind@ && c.payload@
                == payload && c.timeout_secs == bounded(or_else(as_int(timeout_secs), 5), 1, 300),
        },
{
    let node = match NodeId::parse(target) {
        Some(n) => n,
        None => {
            return Err(error(BAD_REQUEST, "invalid target node id"));
        },
    };
    let secs: u64 = match timeout_secs {
        Some(t) => t,
        None => 5,
    };
    match carried_bytes(payload_b64) {
        Some(payload) => Ok(
            Call { target: node, method: kind.to_owned(), payload, timeout_secs: clamp(secs, 1, 300) },
        ),
        None => Err(error(BAD_REQUEST, "invalid base64 payload")),
    }
}

/// Answer a signal sent with an acknowledgement.
pub fn reliable_reply(acknowledged: bool) -> (r: Reply)
    ensures
        r@ == served(
            object().field(
                "ack"@,
                string(
                    if acknowledged {
                        "acknowledged"@
                    } else {
                        "timeout"@
                    },
                ),
            ),
        ),
{
    let ack = if acknowledged {
        "acknowledged"
    } else {
        "timeout"
    };
    serve(Json::empty_object().with_str("ack", ack))
}

/// A scope that is not one of those known never reaches the whole cluster.
pub proof fn lemma_typo_does_not_broadcast(s: Seq<char>)
    requires
        s != "cluster"@,
        s != "system"@,
    ensures
        scope_of(s) != Ok::<ScopeModel, Seq<char>>(ScopeModel::Cluster),
{
}

/// A reply to a request on the serving stream carries the nonce the request came with.
pub proof fn lemma_response_returns_the_nonce(payload: Seq<u8>, result: Seq<u8>)
    requires
        payload.len() >= 8,
    ensures
        parsed(hex16(number_at(payload, 0)), 16) == Some(number_at(payload, 0) as nat),
        nonced(number_at(payload, 0), result).len() == 8 + result.len(),
        number_at(nonced(number_at(payload, 0), result), 0) == number_at(payload, 0),
{
    crate::numeral::lemma_hex16_parses(number_at(payload, 0));
    crate::wire::lemma_number_reads_back(Seq::empty(), number_at(payload, 0), result);
    assert(Seq::<u8>::empty() + vstd::bytes::spec_u64_to_le_bytes(number_at(payload, 0)) + result =~= nonced(
        number_at(payload, 0),
        result,
    ));
    vstd::bytes::lemma_auto_spec_u64_to_from_le_bytes();
}

} // verus!

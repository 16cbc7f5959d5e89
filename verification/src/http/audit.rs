//! Audit, revocation and transparency over the gateway.
use crate::hex::{hex32, hex32_bytes, hex_of, parse_hex32};
use crate::http::body::text_of;
use crate::http::reply::{error, error_of, serve, served, Reply, BAD_REQUEST, UNPROCESSABLE};
use crate::json::{maybe_string, models, object, string, Json, JsonModel};
use crate::node_id::{node_of, nodes, NodeId};
use vstd::prelude::*;
use vstd::string::*;

verus! {

/// One record of an audit stream, as it is shown.
#[derive(Debug, PartialEq, Eq)]
pub struct AuditRecord {
    /// Its place in the chain.
    pub seq: u64,
    /// When it was sealed.
    pub hlc: u64,
    /// Who acted.
    pub principal: String,
    /// What they did.
    pub action: String,
    /// On what.
    pub target: String,
    /// With what outcome.
    pub outcome: String,
    /// More, where there is more.
    pub detail: Option<String>,
    /// The hash that names the record.
    pub content_hash: [u8; 32],
}

/// One node's audit stream.
#[derive(Debug, PartialEq, Eq)]
pub struct AuditStream {
    /// Whose it is.
    pub node: NodeId,
    /// All of its records, in order.
    pub records: Vec<AuditRecord>,
    /// What verification of the whole stream found, if it found anything.
    pub verify_error: Option<String>,
}

/// Whose streams a query asks for: one node's, or every known one's.
pub fn audit_nodes(node: Option<&str>, known: Vec<NodeId>) -> (r: Result<Vec<NodeId>, Reply>)
    ensures
        match node {
            None => r == Ok::<Vec<NodeId>, Reply>(known),
            Some(s) => match node_of(s@) {
                Some(n) => r matches Ok(v) && nodes(v@) == Seq::empty().push(n),
                None => r matches Err(e) && e@ == error_of(BAD_REQUEST, "invalid node id"@),
            },
        },
{
    match node {
        None => Ok(known),
        Some(s) => match NodeId::parse(s) {
            Some(n) => {
                let mut v: Vec<NodeId> = Vec::new();
                let ghost m = n@;
                v.push(n);
                assert(nodes(v@) =~= Seq::empty().push(m));
                Ok(v)
            },
            None => Err(error(BAD_REQUEST, "invalid node id")),
        },
    }
}

/// A text that may be missing.
pub open spec fn opt_text(s: Option<String>) -> Option<Seq<char>> {
    match s {
        Some(t) => Some(t@),
        None => None,
    }
}

/// A record in JSON.
pub open spec fn record_json(r: AuditRecord) -> JsonModel {
    object().field("seq"@, JsonModel::Int(r.seq as int)).field("hlc"@, JsonModel::Int(r.hlc as int)).field(
        "principal"@,
        string(r.principal@),
    ).field("action"@, string(r.action@)).field("target"@, string(r.target@)).field(
        "outcome"@,
        string(r.outcome@),
    ).field("detail"@, maybe_string(opt_text(r.detail))).field(
        "content_hash"@,
        string(hex_of(r.content_hash@)),
    )
}

/// The newest records, at most `limit` of them, in order.
pub open spec fn newest(v: Seq<AuditRecord>, limit: int) -> Seq<AuditRecord> {
    if v.len() <= limit {
        v
    } else {
        v.subrange(v.len() - limit, v.len() as int)
    }
}

/// Records in JSON.
pub open spec fn records_json(v: Seq<AuditRecord>) -> Seq<JsonModel> {
    Seq::new(v.len(), |i: int| record_json(v[i]))
}

/// A stream in JSON: the newest records are shown, and the whole stream was verified.
pub open spec fn stream_json(s: AuditStream, limit: int) -> JsonModel {
    object().field("node"@, string(s.node@.text())).field("count"@, JsonModel::Int(s.records@.len() as int)).field(
        "verified"@,
        JsonModel::Bool(s.verify_error is None),
    ).field("verify_error"@, maybe_string(opt_text(s.verify_error))).field(
        "head_hash"@,
        maybe_string(
            if s.records@.len() == 0 {
                None
            } else {
                Some(hex_of(s.records@.last().content_hash@))
            },
        ),
    ).field("records"@, JsonModel::Arr(records_json(newest(s.records@, limit))))
}

fn show_record(r: &AuditRecord) -> (j: Json)
    ensures
        j@ == record_json(*r),
{
    Json::empty_object().with("seq", Json::UInt(r.seq)).with("hlc", Json::UInt(r.hlc)).with_str(
        "principal",
        r.principal.as_str(),
    ).with_str("action", r.action.as_str()).with_str("target", r.target.as_str()).with_str(
        "outcome",
        r.outcome.as_str(),
    ).with("detail", Json::maybe(&r.detail)).with_str("content_hash", hex32(&r.content_hash).as_str())
}

fn show_stream(s: &AuditStream, limit: usize) -> (j: Json)
    ensures
        j@ == stream_json(*s, limit as int),
{
    let n: usize = s.records.len();
    let from: usize = if n <= limit {
        0
    } else {
        n - limit
    };
    let mut out: Vec<Json> = Vec::new();
    let mut k: usize = from;
    while k < n
        invariant
            n == s.records@.len(),
            from <= k <= n,
            out@.len() == k - from,
            forall|i: int| 0 <= i < out@.len() ==> (#[trigger] out@[i])@ == record_json(s.records@[from + i]),
        decreases n - k,
    {
        out.push(show_record(&s.records[k]));
        k += 1;
    }
    assert(models(out@) =~= records_json(newest(s.records@, limit as int)));
    let head = if n == 0 {
        None
    } else {
        Some(hex32(&s.records[n - 1].content_hash))
    };
    Json::empty_object().with_str("node", s.node.text().as_str()).with("count", Json::UInt(n as u64)).with(
        "verified",
        Json::Bool(s.verify_error.is_none()),
    ).with("verify_error", Json::maybe(&s.verify_error)).with("head_hash", Json::maybe(&head)).with(
        "records",
        Json::array(out),
    )
}

/// Answer a query of the audit trail. A limit cuts what is shown, never what was verified.
pub fn audit(streams: &Vec<AuditStream>, limit: Option<usize>) -> (r: Reply)
    ensures
        ({
            let most = match limit {
                Some(n) => n as int,
                None => usize::MAX as int,
            };
            r@ == served(
                object().field(
                    "streams"@,
                    JsonModel::Arr(
                        Seq::new(streams@.len(), |i: int| stream_json(streams@[i], most)),
                    ),
                ),
            )
        }),
{
    let most: usize = match limit {
        Some(n) => n,
        None => usize::MAX,
    };
    let mut out: Vec<Json> = Vec::new();
    let mut k: usize = 0;
    while k < streams.len()
        invariant
            k <= streams@.len(),
            out@.len() == k,
            forall|i: int| 0 <= i < k ==> (#[trigger] out@[i])@ == stream_json(streams@[i], most as int),
        decreases streams@.len() - k,
    {
        out.push(show_stream(&streams[k], most));
        k += 1;
    }
    assert(models(out@) =~= Seq::new(streams@.len(), |i: int| stream_json(streams@[i], most as int)));
    serve(Json::empty_object().with("streams", Json::array(out)))
}

/// A key to revoke.
#[derive(Debug, PartialEq, Eq)]
pub struct Revoke {
    /// The key.
    pub revoked_key: [u8; 32],
    /// Why.
    pub reason: Option<String>,
}

/// Read a key to revoke.
pub fn identity_revoke(body: &Json) -> (r: Result<Revoke, Reply>)
    ensures
        match body@.text_at("revoked_key"@) {
            None => r matches Err(e) && e@ == error_of(
                BAD_REQUEST,
                "missing revoked_key (64 hex chars)"@,
            ),
            Some(t) => match hex32_bytes(t) {
                None => r matches Err(e) && e@ == error_of(
                    BAD_REQUEST,
                    "revoked_key must be 64 hex chars"@,
                ),
                Some(key) => r matches Ok(v) && v.revoked_key@ == key && opt_text(v.reason) == body@.text_at(
                    "reason"@,
                ),
            },
        },
{
    let text = match body.str_at("revoked_key") {
        Some(s) => s,
        None => {
            return Err(error(BAD_REQUEST, "missing revoked_key (64 hex chars)"));
        },
    };
    match parse_hex32(text) {
        None => Err(error(BAD_REQUEST, "revoked_key must be 64 hex chars")),
        Some(revoked_key) => {
            let reason = match body.str_at("reason") {
                Some(s) => Some(s.to_owned()),
                None => None,
            };
            Ok(Revoke { revoked_key, reason })
        },
    }
}

/// Answer a revocation: the key as it was given, or why it was not revoked.
pub fn revoke_reply(key: &str, failure: Option<&str>) -> (r: Reply)
    ensures
        r@ == match failure {
            None => served(
                object().field("ok"@, JsonModel::Bool(true)).field("revoked_key"@, string(key@)),
            ),
            Some(why) => error_of(UNPROCESSABLE, why@),
        },
{
    match failure {
        None => serve(Json::empty_object().with("ok", Json::Bool(true)).with_str("revoked_key", key)),
        Some(why) => error(UNPROCESSABLE, why),
    }
}

/// What a query of the revocation log asks for.
#[derive(Debug, PartialEq, Eq)]
pub enum TransparencyQuery {
    /// A proof that this key's revocation is in this node's log.
    Proof {
        /// The node.
        node: NodeId,
        /// The key.
        key: [u8; 32],
    },
    /// Every node's head.
    Heads,
}

/// Read a query of the revocation log: a proof where both a node and a key are named, else the heads.
pub fn transparency(node: Option<&str>, key: Option<&str>) -> (r: Result<TransparencyQuery, Reply>)
    ensures
        match (text_of(node), text_of(key)) {
            (Some(n), Some(k)) => match (node_of(n), hex32_bytes(k)) {
                (None, _) => r matches Err(e) && e@ == error_of(BAD_REQUEST, "invalid node id"@),
                (Some(_), None) => r matches Err(e) && e@ == error_of(
                    BAD_REQUEST,
                    "key must be 64 hex chars"@,
                ),
                (Some(m), Some(b)) => r matches Ok(TransparencyQuery::Proof { node: got, key: bytes })
                    && got@ == m && bytes@ == b,
            },
            _ => r == Ok::<TransparencyQuery, Reply>(TransparencyQuery::Heads),
        },
{
    let (node_s, key_s) = match (node, key) {
        (Some(n), Some(k)) => (n, k),
        _ => {
            return Ok(TransparencyQuery::Heads);
        },
    };
    let node_id = match NodeId::parse(node_s) {
        Some(n) => n,
        None => {
            return Err(error(BAD_REQUEST, "invalid node id"));
        },
    };
    match parse_hex32(key_s) {
        Some(bytes) => Ok(TransparencyQuery::Proof { node: node_id, key: bytes }),
        None => Err(error(BAD_REQUEST, "key must be 64 hex chars")),
    }
}

/// One step of an inclusion proof.
#[derive(Debug, PartialEq, Eq)]
pub struct ProofStep {
    /// The hash beside.
    pub sibling: [u8; 32],
    /// Is it on the right?
    pub on_right: bool,
}

/// A proof that a revocation is in a log.
#[derive(Debug, PartialEq, Eq)]
pub struct Inclusion {
    /// The revocation's hash.
    pub leaf: [u8; 32],
    /// Its place.
    pub index: usize,
    /// The way up to the root.
    pub proof: Vec<ProofStep>,
    /// The root to check against.
    pub root: [u8; 32],
}

/// A step in JSON.
pub open spec fn step_json(s: ProofStep) -> JsonModel {
    object().field("sibling"@, string(hex_of(s.sibling@))).field("on_right"@, JsonModel::Bool(s.on_right))
}

/// Answer with a proof that a client checks for itself, or that there is none.
pub fn inclusion_reply(node: &NodeId, key: &str, inclusion: Option<&Inclusion>) -> (r: Reply)
    ensures
        ({
            let head = object().field("node"@, string(node@.text())).field("revoked_key"@, string(key@));
            r@ == served(
                match inclusion {
                    Some(p) => head.field("included"@, JsonModel::Bool(true)).field(
                        "root"@,
                        string(hex_of(p.root@)),
                    ).field("leaf"@, string(hex_of(p.leaf@))).field(
                        "index"@,
                        JsonModel::Int(p.index as int),
                    ).field(
                        "proof"@,
                        JsonModel::Arr(Seq::new(p.proof@.len(), |i: int| step_json(p.proof@[i]))),
                    ),
                    None => head.field("included"@, JsonModel::Bool(false)),
                },
            )
        }),
{
    let head = Json::empty_object().with_str("node", node.text().as_str()).with_str("revoked_key", key);
    let p = match inclusion {
        Some(p) => p,
        None => {
            return serve(head.with("included", Json::Bool(false)));
        },
    };
    let mut out: Vec<Json> = Vec::new();
    let mut k: usize = 0;
    while k < p.proof.len()
        invariant
            k <= p.proof@.len(),
            out@.len() == k,
            forall|i: int| 0 <= i < k ==> (#[trigger] out@[i])@ == step_json(p.proof@[i]),
        decreases p.proof@.len() - k,
    {
        out.push(
            Json::empty_object().with_str("sibling", hex32(&p.proof[k].sibling).as_str()).with(
                "on_right",
                Json::Bool(p.proof[k].on_right),
            ),
        );
        k += 1;
    }
    assert(models(out@) =~= Seq::new(p.proof@.len(), |i: int| step_json(p.proof@[i])));
    serve(
        head.with("included", Json::Bool(true)).with_str("root", hex32(&p.root).as_str()).with_str(
            "leaf",
            hex32(&p.leaf).as_str(),
        ).with("index", Json::UInt(p.index as u64)).with("proof", Json::array(out)),
    )
}

/// One node's revocation-log head.
#[derive(Debug, PartialEq, Eq)]
pub struct LogHead {
    /// The node.
    pub node: NodeId,
    /// The root.
    pub root: [u8; 32],
    /// How many revocations it covers.
    pub count: usize,
}

/// A head in JSON.
pub open spec fn head_json(h: LogHead) -> JsonModel {
    object().field("node"@, string(h.node@.text())).field("root"@, string(hex_of(h.root@))).field(
        "count"@,
        JsonModel::Int(h.count as int),
    )
}

/// Answer with every node's head.
pub fn heads_reply(heads: &Vec<LogHead>) -> (r: Reply)
    ensures
        r@ == served(
            object().field(
                "nodes"@,
                JsonModel::Arr(Seq::new(heads@.len(), |i: int| head_json(heads@[i]))),
            ),
        ),
{
    let mut out: Vec<Json> = Vec::new();
    let mut k: usize = 0;
    while k < heads.len()
        invariant
            k <= heads@.len(),
            out@.len() == k,
            forall|i: int| 0 <= i < k ==> (#[trigger] out@[i])@ == head_json(heads@[i]),
        decreases heads@.len() - k,
    {
        out.push(
            Json::empty_object().with_str("node", heads[k].node.text().as_str()).with_str(
                "root",
                hex32(&heads[k].root).as_str(),
            ).with("count", Json::UInt(heads[k].count as u64)),
        );
        k += 1;
    }
    assert(models(out@) =~= Seq::new(heads@.len(), |i: int| head_json(heads@[i])));
    serve(Json::empty_object().with("nodes", Json::array(out)))
}

} // verus!

//! Gateway authorization: bearer tokens, their scope grants, and the scope each route requires.
//!
//! Two layers. *Authentication*: when a token model or an identity provider is configured, every
//! `/gateway/` request must carry a bearer that resolves to a grant. *Authorization*: the matched
//! route requires a `resource:verb` scope, and the request is admitted only if the grant holds it
//! or the wildcard. A route the table does not list requires `admin`.
use crate::config::{GatewayToken, GossipConfig};
use crate::http::reply::{error, error_of, Reply, ReplyModel, FORBIDDEN, UNAUTHORIZED};
use crate::json::{object, string, Json};
use crate::text::{after_prefix, has_prefix, same, starts_with, strip_prefix, texts};
use vstd::prelude::*;
use vstd::string::*;

verus! {

/// The request methods the gateway's routes are keyed on.
#[derive(Clone, Copy, Debug, PartialEq, Eq, Structural)]
pub enum Method {
    /// A read.
    Get,
    /// A submission.
    Post,
    /// A replacement.
    Put,
    /// A removal.
    Delete,
}

/// The first token from `i` on that is `presented`.
pub open spec fn scoped_from(tokens: Seq<GatewayToken>, presented: Seq<char>, i: int) -> Option<
    Seq<Seq<char>>,
>
    decreases tokens.len() - i,
{
    if i < 0 || i >= tokens.len() {
        None
    } else if tokens[i].token@ == presented {
        Some(texts(tokens[i].scopes@))
    } else {
        scoped_from(tokens, presented, i + 1)
    }
}

/// The scopes a bearer is granted: the superuser bearer the wildcard, a scoped one its own scopes,
/// any other none.
pub open spec fn granted(cfg: GossipConfig, presented: Seq<char>) -> Option<Seq<Seq<char>>> {
    match cfg.gateway_auth_token {
        Some(t) if t@ == presented => Some(seq!["*"@]),
        _ => scoped_from(cfg.gateway_scoped_tokens@, presented, 0),
    }
}

/// Does the grant hold the scope, or the wildcard?
pub open spec fn admits(scopes: Seq<Seq<char>>, required: Seq<char>) -> bool {
    scopes.contains("*"@) || scopes.contains(required)
}

/// Does the gateway ask for a bearer at all?
pub open spec fn guarded(cfg: GossipConfig, have_oidc: bool) -> bool {
    cfg.gateway_auth_token is Some || cfg.gateway_scoped_tokens@.len() > 0 || have_oidc
}

/// The routes that answer `cap:write`.
pub open spec fn cap_write_routes() -> Seq<Seq<char>> {
    seq![
        "/gateway/capability/advertise"@,
        "/gateway/capability/{handle_id}"@,
        "/gateway/capability/{handle_id}/heartbeat"@,
    ]
}

/// The routes that answer `mesh:write`.
pub open spec fn mesh_write_routes() -> Seq<Seq<char>> {
    seq![
        "/gateway/signal/emit"@,
        "/gateway/rpc/call"@,
        "/gateway/rpc/respond"@,
        "/gateway/scatter"@,
        "/gateway/mailbox/deliver"@,
        "/gateway/shard/emit"@,
    ]
}

/// The routes that answer `mesh:read`.
pub open spec fn mesh_read_routes() -> Seq<Seq<char>> {
    seq![
        "/gateway/signal/sse/{kind}"@,
        "/gateway/demand"@,
        "/gateway/rpc/serve/{kind}"@,
        "/gateway/mailbox/{kind}"@,
    ]
}

/// The routes that answer `consensus:write`.
pub open spec fn consensus_write_routes() -> Seq<Seq<char>> {
    seq![
        "/gateway/overlay/consistent/set"@,
        "/gateway/overlay/lock/acquire"@,
        "/gateway/overlay/lock/{guard_id}"@,
        "/gateway/overlay/elect"@,
        "/gateway/overlay/log/append"@,
        "/gateway/overlay/log/compact"@,
        "/gateway/overlay/emit_reliable"@,
        "/gateway/consensus/cross_group_propose"@,
    ]
}

/// The routes that answer `consensus:read`.
pub open spec fn consensus_read_routes() -> Seq<Seq<char>> {
    seq![
        "/gateway/overlay/consistent/get"@,
        "/gateway/overlay/log/scan"@,
        "/gateway/overlay/log/subscribe"@,
        "/gateway/overlay/log/group/subscribe"@,
    ]
}

/// The scope a route requires.
pub open spec fn required(read: bool, path: Seq<char>) -> Seq<char> {
    if path == "/gateway/kv"@ {
        if read { "kv:read"@ } else { "kv:write"@ }
    } else if path == "/gateway/kv/keys"@ {
        "kv:read"@
    } else if path == "/gateway/kv/quorum"@ {
        "kv:write"@
    } else if cap_write_routes().contains(path) {
        "cap:write"@
    } else if path == "/gateway/capability/resolve"@ || path == "/gateway/shard/{ns}/{name}"@ {
        "cap:read"@
    } else if mesh_write_routes().contains(path) {
        "mesh:write"@
    } else if mesh_read_routes().contains(path) {
        "mesh:read"@
    } else if consensus_write_routes().contains(path) {
        "consensus:write"@
    } else if consensus_read_routes().contains(path) {
        "consensus:read"@
    } else if path == "/gateway/prompts"@ {
        "llm:read"@
    } else if path == "/gateway/prompts/{ns}/{name}"@ {
        if read { "llm:read"@ } else { "llm:write"@ }
    } else if path == "/gateway/llm/call"@ || path == "/gateway/llm/stream"@ {
        "llm:invoke"@
    } else if path == "/gateway/audit"@ {
        "audit:read"@
    } else if path == "/gateway/transparency"@ {
        "transparency:read"@
    } else if path == "/gateway/identity/revoke"@ {
        "identity:write"@
    } else if path == "/gateway/govern"@ {
        "govern:read"@
    } else if path == "/gateway/govern/tuning"@ || path == "/gateway/govern/timing"@ || path
        == "/gateway/govern/membership"@ {
        "govern:write"@
    } else if path == "/gateway/fleet"@ || path == "/gateway/explain"@ || path == "/gateway/diagnose"@ {
        "fleet:read"@
    } else {
        "admin"@
    }
}

/// Map a presented bearer token to its scope grant, or `None` if unrecognised.
///
/// The superuser token grants the wildcard, so a deployment that sets only that one has full access.
pub fn resolve_token_scopes(cfg: &GossipConfig, presented: &str) -> (r: Option<Vec<String>>)
    ensures
        r is Some == granted(*cfg, presented@) is Some,
        r matches Some(s) ==> granted(*cfg, presented@) == Some(texts(s@)),
{
    if let Some(legacy) = &cfg.gateway_auth_token {
        if same(presented, legacy.as_str()) {
            let mut all: Vec<String> = Vec::new();
            all.push("*".to_owned());
            assert(texts(all@) =~= seq!["*"@]);
            return Some(all);
        }
    }
    let tokens = &cfg.gateway_scoped_tokens;
    let mut i: usize = 0;
    while i < tokens.len()
        invariant
            i <= tokens@.len(),
            granted(*cfg, presented@) == scoped_from(tokens@, presented@, 0),
            scoped_from(tokens@, presented@, 0) == scoped_from(tokens@, presented@, i as int),
        decreases tokens@.len() - i,
    {
        if same(tokens[i].token.as_str(), presented) {
            return Some(crate::text::copy_texts(&tokens[i].scopes));
        }
        i += 1;
    }
    None
}

/// True if `scopes` grants `required`: an exact match or the `"*"` wildcard.
pub fn scope_admits(scopes: &[String], required: &str) -> (r: bool)
    ensures
        r == admits(texts(scopes@), required@),
{
    let mut i: usize = 0;
    while i < scopes.len()
        invariant
            i <= scopes@.len(),
            forall|j: int| 0 <= j < i ==> (#[trigger] texts(scopes@)[j]) != "*"@ && texts(scopes@)[j] != required@,
        decreases scopes@.len() - i,
    {
        assert(texts(scopes@)[i as int] == scopes@[i as int]@);
        if same(scopes[i].as_str(), "*") || same(scopes[i].as_str(), required) {
            return true;
        }
        i += 1;
    }
    false
}

/// The scope a gateway route requires, keyed on its matched-path pattern and method.
///
/// This is the gateway's access policy; deny by default: any route not listed requires `admin`.
/// Scopes are coarse `resource:verb` families, so the vocabulary stays small.
pub fn required_scope(method: &Method, matched_path: &str) -> (r: &'static str)
    ensures
        r@ == required(*method == Method::Get, matched_path@),
{
    let read = match method {
        Method::Get => true,
        _ => false,
    };
    let p = matched_path;
    if same(p, "/gateway/kv") {
        if read { "kv:read" } else { "kv:write" }
    } else if same(p, "/gateway/kv/keys") {
        "kv:read"
    } else if same(p, "/gateway/kv/quorum") {
        "kv:write"
    } else if cap_writes(p) {
        "cap:write"
    } else if same(p, "/gateway/capability/resolve") || same(p, "/gateway/shard/{ns}/{name}") {
        "cap:read"
    } else if mesh_writes(p) {
        "mesh:write"
    } else if mesh_reads(p) {
        "mesh:read"
    } else if consensus_writes(p) {
        "consensus:write"
    } else if consensus_reads(p) {
        "consensus:read"
    } else if same(p, "/gateway/prompts") {
        "llm:read"
    } else if same(p, "/gateway/prompts/{ns}/{name}") {
        if read { "llm:read" } else { "llm:write" }
    } else if same(p, "/gateway/llm/call") || same(p, "/gateway/llm/stream") {
        "llm:invoke"
    } else if same(p, "/gateway/audit") {
        "audit:read"
    } else if same(p, "/gateway/transparency") {
        "transparency:read"
    } else if same(p, "/gateway/identity/revoke") {
        "identity:write"
    } else if same(p, "/gateway/govern") {
        "govern:read"
    } else if same(p, "/gateway/govern/tuning") || same(p, "/gateway/govern/timing") || same(
        p,
        "/gateway/govern/membership",
    ) {
        "govern:write"
    } else if same(p, "/gateway/fleet") || same(p, "/gateway/explain") || same(p, "/gateway/diagnose") {
        "fleet:read"
    } else {
        "admin"
    }
}

fn cap_writes(p: &str) -> (r: bool)
    ensures
        r == cap_write_routes().contains(p@),
{
    let r = same(p, "/gateway/capability/advertise") || same(p, "/gateway/capability/{handle_id}") || same(
        p,
        "/gateway/capability/{handle_id}/heartbeat",
    );
    proof {
        let s = cap_write_routes();
        assert(s[0] == "/gateway/capability/advertise"@);
        assert(s[1] == "/gateway/capability/{handle_id}"@);
        assert(s[2] == "/gateway/capability/{handle_id}/heartbeat"@);
    }
    r
}

fn mesh_writes(p: &str) -> (r: bool)
    ensures
        r == mesh_write_routes().contains(p@),
{
    let r = same(p, "/gateway/signal/emit") || same(p, "/gateway/rpc/call") || same(p, "/gateway/rpc/respond")
        || same(p, "/gateway/scatter") || same(p, "/gateway/mailbox/deliver") || same(p, "/gateway/shard/emit");
    proof {
        let s = mesh_write_routes();
        assert(s[0] == "/gateway/signal/emit"@);
        assert(s[1] == "/gateway/rpc/call"@);
        assert(s[2] == "/gateway/rpc/respond"@);
        assert(s[3] == "/gateway/scatter"@);
        assert(s[4] == "/gateway/mailbox/deliver"@);
        assert(s[5] == "/gateway/shard/emit"@);
    }
    r
}

fn mesh_reads(p: &str) -> (r: bool)
    ensures
        r == mesh_read_routes().contains(p@),
{
    let r = same(p, "/gateway/signal/sse/{kind}") || same(p, "/gateway/demand") || same(
        p,
        "/gateway/rpc/serve/{kind}",
    ) || same(p, "/gateway/mailbox/{kind}");
    proof {
        let s = mesh_read_routes();
        assert(s[0] == "/gateway/signal/sse/{kind}"@);
        assert(s[1] == "/gateway/demand"@);
        assert(s[2] == "/gateway/rpc/serve/{kind}"@);
        assert(s[3] == "/gateway/mailbox/{kind}"@);
    }
    r
}

fn consensus_writes(p: &str) -> (r: bool)
    ensures
        r == consensus_write_routes().contains(p@),
{
    let r = same(p, "/gateway/overlay/consistent/set") || same(p, "/gateway/overlay/lock/acquire") || same(
        p,
        "/gateway/overlay/lock/{guard_id}",
    ) || same(p, "/gateway/overlay/elect") || same(p, "/gateway/overlay/log/append") || same(
        p,
        "/gateway/overlay/log/compact",
    ) || same(p, "/gateway/overlay/emit_reliable") || same(p, "/gateway/consensus/cross_group_propose");
    proof {
        let s = consensus_write_routes();
        assert(s[0] == "/gateway/overlay/consistent/set"@);
        assert(s[1] == "/gateway/overlay/lock/acquire"@);
        assert(s[2] == "/gateway/overlay/lock/{guard_id}"@);
        assert(s[3] == "/gateway/overlay/elect"@);
        assert(s[4] == "/gateway/overlay/log/append"@);
        assert(s[5] == "/gateway/overlay/log/compact"@);
        assert(s[6] == "/gateway/overlay/emit_reliable"@);
        assert(s[7] == "/gateway/consensus/cross_group_propose"@);
    }
    r
}

fn consensus_reads(p: &str) -> (r: bool)
    ensures
        r == consensus_read_routes().contains(p@),
{
    let r = same(p, "/gateway/overlay/consistent/get") || same(p, "/gateway/overlay/log/scan") || same(
        p,
        "/gateway/overlay/log/subscribe",
    ) || same(p, "/gateway/overlay/log/group/subscribe");
    proof {
        let s = consensus_read_routes();
        assert(s[0] == "/gateway/overlay/consistent/get"@);
        assert(s[1] == "/gateway/overlay/log/scan"@);
        assert(s[2] == "/gateway/overlay/log/subscribe"@);
        assert(s[3] == "/gateway/overlay/log/group/subscribe"@);
    }
    r
}

/// What the authorization layer decides on a request.
#[derive(Clone, Debug, PartialEq, Eq)]
pub enum AuthVerdict {
    /// The handler runs.
    Admit,
    /// No bearer, or one that resolves to no grant.
    Unauthenticated,
    /// The grant does not hold this scope.
    Forbidden(String),
}

/// The bearer of an `Authorization` header.
pub open spec fn bearer(authorization: Option<&str>) -> Option<Seq<char>> {
    match authorization {
        Some(h) => after_prefix(h@, "Bearer "@),
        None => None,
    }
}

/// The scope the matched route requires: a request without a matched route is held to `admin`.
pub open spec fn required_of(method: Method, matched_path: Option<&str>) -> Seq<char> {
    match matched_path {
        Some(p) => required(method == Method::Get, p@),
        None => "admin"@,
    }
}

/// The scopes of a presented bearer: the identity provider's answer first, then the static tokens.
pub open spec fn resolved(cfg: GossipConfig, presented: Seq<char>, oidc: Option<Seq<Seq<char>>>) -> Option<
    Seq<Seq<char>>,
> {
    match oidc {
        Some(s) => Some(s),
        None => granted(cfg, presented),
    }
}

/// The bearer the request presents, for the identity provider to verify; `None` when the gateway is
/// open or the header holds none.
pub fn presented_bearer(cfg: &GossipConfig, have_oidc: bool, authorization: Option<&str>) -> (r: Option<String>)
    ensures
        r is Some == (guarded(*cfg, have_oidc) && bearer(authorization) is Some),
        r matches Some(t) ==> bearer(authorization) == Some(t@),
{
    if cfg.gateway_auth_token.is_none() && cfg.gateway_scoped_tokens.is_empty() && !have_oidc {
        return None;
    }
    match authorization {
        Some(h) => strip_prefix(h, "Bearer "),
        None => None,
    }
}

/// Decide on a gateway request. `oidc_scopes` is what the identity provider made of the presented
/// bearer: the scopes its groups map to, or `None` when it is not configured or did not accept it.
pub fn gateway_auth(
    cfg: &GossipConfig,
    have_oidc: bool,
    authorization: Option<&str>,
    oidc_scopes: Option<Vec<String>>,
    method: &Method,
    matched_path: Option<&str>,
) -> (r: AuthVerdict)
    ensures
        ({
            let oidc = match oidc_scopes {
                Some(s) => Some(texts(s@)),
                None => None,
            };
            if !guarded(*cfg, have_oidc) {
                r == AuthVerdict::Admit
            } else if bearer(authorization) is None {
                r == AuthVerdict::Unauthenticated
            } else {
                match resolved(*cfg, bearer(authorization)->0, oidc) {
                    None => r == AuthVerdict::Unauthenticated,
                    Some(scopes) => if admits(scopes, required_of(*method, matched_path)) {
                        r == AuthVerdict::Admit
                    } else {
                        r matches AuthVerdict::Forbidden(scope) && scope@ == required_of(
                            *method,
                            matched_path,
                        )
                    },
                }
            }
        }),
{
    if cfg.gateway_auth_token.is_none() && cfg.gateway_scoped_tokens.is_empty() && !have_oidc {
        return AuthVerdict::Admit;
    }
    let presented: String = match presented_bearer(cfg, have_oidc, authorization) {
        Some(t) => t,
        None => {
            return AuthVerdict::Unauthenticated;
        },
    };
    let grant: Option<Vec<String>> = match oidc_scopes {
        Some(s) => Some(s),
        None => resolve_token_scopes(cfg, presented.as_str()),
    };
    let scopes: Vec<String> = match grant {
        Some(s) => s,
        None => {
            return AuthVerdict::Unauthenticated;
        },
    };
    let needed: &str = match matched_path {
        Some(p) => required_scope(method, p),
        None => "admin",
    };
    if scope_admits(scopes.as_slice(), needed) {
        AuthVerdict::Admit
    } else {
        AuthVerdict::Forbidden(needed.to_owned())
    }
}

/// [`gateway_auth`] for routes an application merged in: it applies only under `/gateway/`, so a
/// deliberately public path stays open.
pub fn gateway_auth_if_gateway_path(path: &str, verdict: AuthVerdict) -> (r: AuthVerdict)
    ensures
        r == if has_prefix(path@, "/gateway/"@) {
            verdict
        } else {
            AuthVerdict::Admit
        },
{
    if starts_with(path, "/gateway/") {
        verdict
    } else {
        AuthVerdict::Admit
    }
}

/// What a refused request is answered; an admitted one is the handler's to answer.
pub open spec fn refusal_of(v: AuthVerdict) -> Option<ReplyModel> {
    match v {
        AuthVerdict::Admit => None,
        AuthVerdict::Unauthenticated => Some(error_of(UNAUTHORIZED, "authentication required"@)),
        AuthVerdict::Forbidden(scope) => Some(
            ReplyModel {
                status: FORBIDDEN,
                body: object().field("error"@, string("insufficient scope"@)).field(
                    "required_scope"@,
                    string(scope@),
                ),
            },
        ),
    }
}

/// What a refused request is answered.
pub fn refusal(verdict: &AuthVerdict) -> (r: Option<Reply>)
    ensures
        r is Some == refusal_of(*verdict) is Some,
        r matches Some(reply) ==> refusal_of(*verdict) == Some(reply@),
{
    match verdict {
        AuthVerdict::Admit => None,
        AuthVerdict::Unauthenticated => Some(error(UNAUTHORIZED, "authentication required")),
        AuthVerdict::Forbidden(scope) => Some(
            Reply {
                status: FORBIDDEN,
                body: Json::empty_object().with_str("error", "insufficient scope").with_str(
                    "required_scope",
                    scope.as_str(),
                ),
            },
        ),
    }
}

/// The wildcard reaches every route, and a grant of nothing reaches none.
pub proof fn lemma_wildcard_and_empty(scopes: Seq<Seq<char>>, scope: Seq<char>)
    ensures
        scopes.contains("*"@) ==> admits(scopes, scope),
        scopes.len() == 0 ==> !admits(scopes, scope),
{
}

/// A bearer that is neither the superuser token nor a scoped one is granted nothing.
pub proof fn lemma_unknown_bearer(cfg: GossipConfig, presented: Seq<char>)
    requires
        cfg.gateway_auth_token matches Some(t) ==> t@ != presented,
        forall|i: int|
            0 <= i < cfg.gateway_scoped_tokens@.len() ==> (#[trigger] cfg.gateway_scoped_tokens@[i]).token@
                != presented,
    ensures
        granted(cfg, presented) is None,
{
    lemma_scoped_none(cfg.gateway_scoped_tokens@, presented, 0);
}

proof fn lemma_scoped_none(tokens: Seq<GatewayToken>, presented: Seq<char>, i: int)
    requires
        0 <= i,
        forall|j: int| 0 <= j < tokens.len() ==> (#[trigger] tokens[j]).token@ != presented,
    ensures
        scoped_from(tokens, presented, i) is None,
    decreases tokens.len() - i,
{
    if i < tokens.len() {
        lemma_scoped_none(tokens, presented, i + 1);
    }
}

} // verus!

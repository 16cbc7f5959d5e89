//! Where each handler is mounted.
//!
//! Everything under `/gateway/` stands behind the authorization layer; what is mounted elsewhere is
//! public. Routes an application merges in are held to the same line by their path.
use crate::http::auth::{
    cap_write_routes, consensus_read_routes, consensus_write_routes, mesh_read_routes, mesh_write_routes, required,
    Method,
};
use crate::text::has_prefix;
use vstd::prelude::*;

verus! {

/// What answers a request.
#[derive(Clone, Copy, Debug, PartialEq, Eq, Structural)]
pub enum Handler {
    /// Liveness.
    Health,
    /// Readiness.
    Ready,
    /// The node's counters.
    Stats,
    /// The scrape endpoint.
    Metrics,
    /// A stream of signals.
    Signals,
    /// Tool calls.
    Mcp,
    /// A staged payload.
    Bulk,
    /// A slot's committed value.
    ConsensusSlot,
    /// Advertise a capability.
    CapAdvertise,
    /// Retract one.
    CapDrop,
    /// Renew one's lease.
    CapHeartbeat,
    /// Resolve providers.
    CapResolve,
    /// Send a signal.
    SignalEmit,
    /// A stream of signals.
    SignalStream,
    /// Demand for a capability.
    Demand,
    /// Call a node.
    RpcCall,
    /// A stream of calls to answer.
    RpcServe,
    /// Answer one.
    RpcRespond,
    /// Call several nodes.
    Scatter,
    /// Read an entry.
    KvGet,
    /// Write an entry.
    KvSet,
    /// Remove an entry.
    KvDelete,
    /// List keys.
    KvKeys,
    /// Write with acknowledgements.
    KvQuorum,
    /// Deliver an event.
    MailboxDeliver,
    /// A stream of events.
    MailboxStream,
    /// Append to a stream.
    LogAppend,
    /// Scan a stream.
    LogScan,
    /// Compact a stream.
    LogCompact,
    /// Follow a stream.
    LogSubscribe,
    /// Send with an acknowledgement.
    EmitReliable,
    /// The owner of a shard key.
    ShardOwner,
    /// Send to the owner of a shard key.
    ShardEmit,
    /// The governor's effective state.
    Govern,
    /// Publish a tuning intent.
    GovernTuning,
    /// Publish a timing intent.
    GovernTiming,
    /// Publish a sizing intent.
    GovernMembership,
    /// The fleet as this node sees it.
    Fleet,
    /// What happened, in order.
    Explain,
    /// Why the fleet is as it is.
    Diagnose,
    /// A consistent write.
    ConsistentSet,
    /// A consistent read.
    ConsistentGet,
    /// Acquire a lock.
    LockAcquire,
    /// Release one.
    LockRelease,
    /// Elect a leader.
    Elect,
    /// Consume a stream as a group.
    LogGroupSubscribe,
    /// Propose to several groups.
    CrossGroupPropose,
    /// List the prompts.
    Prompts,
    /// Read a prompt.
    PromptGet,
    /// Write a prompt.
    PromptPut,
    /// Remove a prompt.
    PromptDelete,
    /// Invoke a prompt.
    LlmCall,
    /// Invoke a prompt, streamed.
    LlmStream,
    /// The audit trail.
    Audit,
    /// The revocation log.
    Transparency,
    /// Revoke a key.
    IdentityRevoke,
}

/// The method and the path pattern of a handler.
pub open spec fn mounted(h: Handler) -> (Method, Seq<char>) {
    match h {
        Handler::Health => (Method::Get, "/health"@),
        Handler::Ready => (Method::Get, "/ready"@),
        Handler::Stats => (Method::Get, "/stats"@),
        Handler::Metrics => (Method::Get, "/metrics"@),
        Handler::Signals => (Method::Get, "/signals/{kind}"@),
        Handler::Mcp => (Method::Post, "/mcp"@),
        Handler::Bulk => (Method::Get, "/bulk/{corr_id}"@),
        Handler::ConsensusSlot => (Method::Get, "/consensus/{slot}"@),
        Handler::CapAdvertise => (Method::Post, "/gateway/capability/advertise"@),
        Handler::CapDrop => (Method::Delete, "/gateway/capability/{handle_id}"@),
        Handler::CapHeartbeat => (Method::Post, "/gateway/capability/{handle_id}/heartbeat"@),
        Handler::CapResolve => (Method::Get, "/gateway/capability/resolve"@),
        Handler::SignalEmit => (Method::Post, "/gateway/signal/emit"@),
        Handler::SignalStream => (Method::Get, "/gateway/signal/sse/{kind}"@),
        Handler::Demand => (Method::Get, "/gateway/demand"@),
        Handler::RpcCall => (Method::Post, "/gateway/rpc/call"@),
        Handler::RpcServe => (Method::Get, "/gateway/rpc/serve/{kind}"@),
        Handler::RpcRespond => (Method::Post, "/gateway/rpc/respond"@),
        Handler::Scatter => (Method::Post, "/gateway/scatter"@),
        Handler::KvGet => (Method::Get, "/gateway/kv"@),
        Handler::KvSet => (Method::Post, "/gateway/kv"@),
        Handler::KvDelete => (Method::Delete, "/gateway/kv"@),
        Handler::KvKeys => (Method::Get, "/gateway/kv/keys"@),
        Handler::KvQuorum => (Method::Post, "/gateway/kv/quorum"@),
        Handler::MailboxDeliver => (Method::Post, "/gateway/mailbox/deliver"@),
        Handler::MailboxStream => (Method::Get, "/gateway/mailbox/{kind}"@),
        Handler::LogAppend => (Method::Post, "/gateway/overlay/log/append"@),
        Handler::LogScan => (Method::Get, "/gateway/overlay/log/scan"@),
        Handler::LogCompact => (Method::Post, "/gateway/overlay/log/compact"@),
        Handler::LogSubscribe => (Method::Get, "/gateway/overlay/log/subscribe"@),
        Handler::EmitReliable => (Method::Post, "/gateway/overlay/emit_reliable"@),
        Handler::ShardOwner => (Method::Get, "/gateway/shard/{ns}/{name}"@),
        Handler::ShardEmit => (Method::Post, "/gateway/shard/emit"@),
        Handler::Govern => (Method::Get, "/gateway/govern"@),
        Handler::GovernTuning => (Method::Post, "/gateway/govern/tuning"@),
        Handler::GovernTiming => (Method::Post, "/gateway/govern/timing"@),
        Handler::GovernMembership => (Method::Post, "/gateway/govern/membership"@),
        Handler::Fleet => (Method::Get, "/gateway/fleet"@),
        Handler::Explain => (Method::Get, "/gateway/explain"@),
        Handler::Diagnose => (Method::Get, "/gateway/diagnose"@),
        Handler::ConsistentSet => (Method::Post, "/gateway/overlay/consistent/set"@),
        Handler::ConsistentGet => (Method::Get, "/gateway/overlay/consistent/get"@),
        Handler::LockAcquire => (Method::Post, "/gateway/overlay/lock/acquire"@),
        Handler::LockRelease => (Method::Delete, "/gateway/overlay/lock/{guard_id}"@),
        Handler::Elect => (Method::Post, "/gateway/overlay/elect"@),
        Handler::LogGroupSubscribe => (Method::Get, "/gateway/overlay/log/group/subscribe"@),
        Handler::CrossGroupPropose => (Method::Post, "/gateway/consensus/cross_group_propose"@),
        Handler::Prompts => (Method::Get, "/gateway/prompts"@),
        Handler::PromptGet => (Method::Get, "/gateway/prompts/{ns}/{name}"@),
        Handler::PromptPut => (Method::Put, "/gateway/prompts/{ns}/{name}"@),
        Handler::PromptDelete => (Method::Delete, "/gateway/prompts/{ns}/{name}"@),
        Handler::LlmCall => (Method::Post, "/gateway/llm/call"@),
        Handler::LlmStream => (Method::Post, "/gateway/llm/stream"@),
        Handler::Audit => (Method::Get, "/gateway/audit"@),
        Handler::Transparency => (Method::Get, "/gateway/transparency"@),
        Handler::IdentityRevoke => (Method::Post, "/gateway/identity/revoke"@),
    }
}

/// The method and the path pattern a handler is mounted at.
pub fn mount(h: Handler) -> (r: (Method, &'static str))
    ensures
        (r.0, r.1@) == mounted(h),
{
    match h {
        Handler::Health => (Method::Get, "/health"),
        Handler::Ready => (Method::Get, "/ready"),
        Handler::Stats => (Method::Get, "/stats"),
        Handler::Metrics => (Method::Get, "/metrics"),
        Handler::Signals => (Method::Get, "/signals/{kind}"),
        Handler::Mcp => (Method::Post, "/mcp"),
        Handler::Bulk => (Method::Get, "/bulk/{corr_id}"),
        Handler::ConsensusSlot => (Method::Get, "/consensus/{slot}"),
        Handler::CapAdvertise => (Method::Post, "/gateway/capability/advertise"),
        Handler::CapDrop => (Method::Delete, "/gateway/capability/{handle_id}"),
        Handler::CapHeartbeat => (Method::Post, "/gateway/capability/{handle_id}/heartbeat"),
        Handler::CapResolve => (Method::Get, "/gateway/capability/resolve"),
        Handler::SignalEmit => (Method::Post, "/gateway/signal/emit"),
        Handler::SignalStream => (Method::Get, "/gateway/signal/sse/{kind}"),
        Handler::Demand => (Method::Get, "/gateway/demand"),
        Handler::RpcCall => (Method::Post, "/gateway/rpc/call"),
        Handler::RpcServe => (Method::Get, "/gateway/rpc/serve/{kind}"),
        Handler::RpcRespond => (Method::Post, "/gateway/rpc/respond"),
        Handler::Scatter => (Method::Post, "/gateway/scatter"),
        Handler::KvGet => (Method::Get, "/gateway/kv"),
        Handler::KvSet => (Method::Post, "/gateway/kv"),
        Handler::KvDelete => (Method::Delete, "/gateway/kv"),
        Handler::KvKeys => (Method::Get, "/gateway/kv/keys"),
        Handler::KvQuorum => (Method::Post, "/gateway/kv/quorum"),
        Handler::MailboxDeliver => (Method::Post, "/gateway/mailbox/deliver"),
        Handler::MailboxStream => (Method::Get, "/gateway/mailbox/{kind}"),
        Handler::LogAppend => (Method::Post, "/gateway/overlay/log/append"),
        Handler::LogScan => (Method::Get, "/gateway/overlay/log/scan"),
        Handler::LogCompact => (Method::Post, "/gateway/overlay/log/compact"),
        Handler::LogSubscribe => (Method::Get, "/gateway/overlay/log/subscribe"),
        Handler::EmitReliable => (Method::Post, "/gateway/overlay/emit_reliable"),
        Handler::ShardOwner => (Method::Get, "/gateway/shard/{ns}/{name}"),
        Handler::ShardEmit => (Method::Post, "/gateway/shard/emit"),
        Handler::Govern => (Method::Get, "/gateway/govern"),
        Handler::GovernTuning => (Method::Post, "/gateway/govern/tuning"),
        Handler::GovernTiming => (Method::Post, "/gateway/govern/timing"),
        Handler::GovernMembership => (Method::Post, "/gateway/govern/membership"),
        Handler::Fleet => (Method::Get, "/gateway/fleet"),
        Handler::Explain => (Method::Get, "/gateway/explain"),
        Handler::Diagnose => (Method::Get, "/gateway/diagnose"),
        Handler::ConsistentSet => (Method::Post, "/gateway/overlay/consistent/set"),
        Handler::ConsistentGet => (Method::Get, "/gateway/overlay/consistent/get"),
        Handler::LockAcquire => (Method::Post, "/gateway/overlay/lock/acquire"),
        Handler::LockRelease => (Method::Delete, "/gateway/overlay/lock/{guard_id}"),
        Handler::Elect => (Method::Post, "/gateway/overlay/elect"),
        Handler::LogGroupSubscribe => (Method::Get, "/gateway/overlay/log/group/subscribe"),
        Handler::CrossGroupPropose => (Method::Post, "/gateway/consensus/cross_group_propose"),
        Handler::Prompts => (Method::Get, "/gateway/prompts"),
        Handler::PromptGet => (Method::Get, "/gateway/prompts/{ns}/{name}"),
        Handler::PromptPut => (Method::Put, "/gateway/prompts/{ns}/{name}"),
        Handler::PromptDelete => (Method::Delete, "/gateway/prompts/{ns}/{name}"),
        Handler::LlmCall => (Method::Post, "/gateway/llm/call"),
        Handler::LlmStream => (Method::Post, "/gateway/llm/stream"),
        Handler::Audit => (Method::Get, "/gateway/audit"),
        Handler::Transparency => (Method::Get, "/gateway/transparency"),
        Handler::IdentityRevoke => (Method::Post, "/gateway/identity/revoke"),
    }
}

/// Is the handler public: mounted outside the gateway?
pub open spec fn is_public(h: Handler) -> bool {
    match h {
        Handler::Health | Handler::Ready | Handler::Stats | Handler::Metrics | Handler::Signals | Handler::Mcp | Handler::Bulk | Handler::ConsensusSlot => true,
        _ => false,
    }
}

/// Does the authorization layer stand before the handler?
pub fn is_guarded(h: Handler) -> (r: bool)
    ensures
        r == !is_public(h),
{
    match h {
        Handler::Health | Handler::Ready | Handler::Stats | Handler::Metrics | Handler::Signals | Handler::Mcp | Handler::Bulk | Handler::ConsensusSlot => false,
        _ => true,
    }
}

/// A public handler's path is never under the gateway's.
pub proof fn lemma_public_paths_are_outside(h: Handler)
    requires
        is_public(h),
    ensures
        !has_prefix(mounted(h).1, "/gateway/"@),
{
    reveal_strlit("/gateway/");
    reveal_strlit("/health");
    reveal_strlit("/ready");
    reveal_strlit("/stats");
    reveal_strlit("/metrics");
    reveal_strlit("/signals/{kind}");
    reveal_strlit("/mcp");
    reveal_strlit("/bulk/{corr_id}");
    reveal_strlit("/consensus/{slot}");
    let path = mounted(h).1;
    if has_prefix(path, "/gateway/"@) {
        assert(path[1] == path.subrange(0, 9)[1]);
        assert(path[2] == path.subrange(0, 9)[2]);
        assert(path[1] == 'g' && path[2] == 'a');
    }
}

/// **Every route of the gateway is in the scope table.** None falls through to `admin`: each is open to
/// the holders of the scope of its family, and to them alone.
pub proof fn lemma_every_gateway_route_has_a_scope(h: Handler)
    requires
        !is_public(h),
    ensures
        required(mounted(h).0 == Method::Get, mounted(h).1) != "admin"@,
{
    lemma_scopes_are_not_admin();
    let s = cap_write_routes();
    assert(s[0] == "/gateway/capability/advertise"@);
    assert(s[1] == "/gateway/capability/{handle_id}"@);
    assert(s[2] == "/gateway/capability/{handle_id}/heartbeat"@);
    let s = mesh_write_routes();
    assert(s[0] == "/gateway/signal/emit"@);
    assert(s[1] == "/gateway/rpc/call"@);
    assert(s[2] == "/gateway/rpc/respond"@);
    assert(s[3] == "/gateway/scatter"@);
    assert(s[4] == "/gateway/mailbox/deliver"@);
    assert(s[5] == "/gateway/shard/emit"@);
    let s = mesh_read_routes();
    assert(s[0] == "/gateway/signal/sse/{kind}"@);
    assert(s[1] == "/gateway/demand"@);
    assert(s[2] == "/gateway/rpc/serve/{kind}"@);
    assert(s[3] == "/gateway/mailbox/{kind}"@);
    let s = consensus_write_routes();
    assert(s[0] == "/gateway/overlay/consistent/set"@);
    assert(s[1] == "/gateway/overlay/lock/acquire"@);
    assert(s[2] == "/gateway/overlay/lock/{guard_id}"@);
    assert(s[3] == "/gateway/overlay/elect"@);
    assert(s[4] == "/gateway/overlay/log/append"@);
    assert(s[5] == "/gateway/overlay/log/compact"@);
    assert(s[6] == "/gateway/overlay/emit_reliable"@);
    assert(s[7] == "/gateway/consensus/cross_group_propose"@);
    let s = consensus_read_routes();
    assert(s[0] == "/gateway/overlay/consistent/get"@);
    assert(s[1] == "/gateway/overlay/log/scan"@);
    assert(s[2] == "/gateway/overlay/log/subscribe"@);
    assert(s[3] == "/gateway/overlay/log/group/subscribe"@);
}

proof fn lemma_scopes_are_not_admin()
    ensures
        "kv:read"@ != "admin"@,
        "kv:write"@ != "admin"@,
        "cap:write"@ != "admin"@,
        "cap:read"@ != "admin"@,
        "mesh:write"@ != "admin"@,
        "mesh:read"@ != "admin"@,
        "consensus:write"@ != "admin"@,
        "consensus:read"@ != "admin"@,
        "llm:read"@ != "admin"@,
        "llm:write"@ != "admin"@,
        "llm:invoke"@ != "admin"@,
        "audit:read"@ != "admin"@,
        "transparency:read"@ != "admin"@,
        "identity:write"@ != "admin"@,
        "govern:read"@ != "admin"@,
        "govern:write"@ != "admin"@,
        "fleet:read"@ != "admin"@,
{
    reveal_strlit("admin");
    reveal_strlit("kv:read");
    reveal_strlit("kv:write");
    reveal_strlit("cap:write");
    reveal_strlit("cap:read");
    reveal_strlit("mesh:write");
    reveal_strlit("mesh:read");
    reveal_strlit("consensus:write");
    reveal_strlit("consensus:read");
    reveal_strlit("llm:read");
    reveal_strlit("llm:write");
    reveal_strlit("llm:invoke");
    reveal_strlit("audit:read");
    reveal_strlit("transparency:read");
    reveal_strlit("identity:write");
    reveal_strlit("govern:read");
    reveal_strlit("govern:write");
    reveal_strlit("fleet:read");
    assert("kv:read"@.len() != "admin"@.len());
    assert("kv:write"@.len() != "admin"@.len());
    assert("cap:write"@.len() != "admin"@.len());
    assert("cap:read"@.len() != "admin"@.len());
    assert("mesh:write"@.len() != "admin"@.len());
    assert("mesh:read"@.len() != "admin"@.len());
    assert("consensus:write"@.len() != "admin"@.len());
    assert("consensus:read"@.len() != "admin"@.len());
    assert("llm:read"@.len() != "admin"@.len());
    assert("llm:write"@.len() != "admin"@.len());
    assert("llm:invoke"@.len() != "admin"@.len());
    assert("audit:read"@.len() != "admin"@.len());
    assert("transparency:read"@.len() != "admin"@.len());
    assert("identity:write"@.len() != "admin"@.len());
    assert("govern:read"@.len() != "admin"@.len());
    assert("govern:write"@.len() != "admin"@.len());
    assert("fleet:read"@.len() != "admin"@.len());
}

/// A guarded handler's path is always under the gateway's: the guard, which goes by the path, stands
/// before every one of them.
#[verifier::spinoff_prover]
pub proof fn lemma_guarded_paths_are_inside(h: Handler)
    requires
        !is_public(h),
    ensures
        has_prefix(mounted(h).1, "/gateway/"@),
{
    reveal_strlit("/gateway/");
    reveal_strlit("/gateway/capability/advertise");
    reveal_strlit("/gateway/capability/{handle_id}");
    reveal_strlit("/gateway/capability/{handle_id}/heartbeat");
    reveal_strlit("/gateway/capability/resolve");
    reveal_strlit("/gateway/signal/emit");
    reveal_strlit("/gateway/signal/sse/{kind}");
    reveal_strlit("/gateway/demand");
    reveal_strlit("/gateway/rpc/call");
    reveal_strlit("/gateway/rpc/serve/{kind}");
    reveal_strlit("/gateway/rpc/respond");
    reveal_strlit("/gateway/scatter");
    reveal_strlit("/gateway/kv");
    reveal_strlit("/gateway/kv/keys");
    reveal_strlit("/gateway/kv/quorum");
    reveal_strlit("/gateway/mailbox/deliver");
    reveal_strlit("/gateway/mailbox/{kind}");
    reveal_strlit("/gateway/overlay/log/append");
    reveal_strlit("/gateway/overlay/log/scan");
    reveal_strlit("/gateway/overlay/log/compact");
    reveal_strlit("/gateway/overlay/log/subscribe");
    reveal_strlit("/gateway/overlay/emit_reliable");
    reveal_strlit("/gateway/shard/{ns}/{name}");
    reveal_strlit("/gateway/shard/emit");
    reveal_strlit("/gateway/govern");
    reveal_strlit("/gateway/govern/tuning");
    reveal_strlit("/gateway/govern/timing");
    reveal_strlit("/gateway/govern/membership");
    reveal_strlit("/gateway/fleet");
    reveal_strlit("/gateway/explain");
    reveal_strlit("/gateway/diagnose");
    reveal_strlit("/gateway/overlay/consistent/set");
    reveal_strlit("/gateway/overlay/consistent/get");
    reveal_strlit("/gateway/overlay/lock/acquire");
    reveal_strlit("/gateway/overlay/lock/{guard_id}");
    reveal_strlit("/gateway/overlay/elect");
    reveal_strlit("/gateway/overlay/log/group/subscribe");
    reveal_strlit("/gateway/consensus/cross_group_propose");
    reveal_strlit("/gateway/prompts");
    reveal_strlit("/gateway/prompts/{ns}/{name}");
    reveal_strlit("/gateway/llm/call");
    reveal_strlit("/gateway/llm/stream");
    reveal_strlit("/gateway/audit");
    reveal_strlit("/gateway/transparency");
    reveal_strlit("/gateway/identity/revoke");
    let path = mounted(h).1;
    assert(path.subrange(0, 9) =~= "/gateway/"@);
}

} // verus!

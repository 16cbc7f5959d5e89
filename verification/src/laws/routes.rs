//! Laws of the routes: what each needs of its caller, and which are open to all.
use vstd::prelude::*;

use crate::http::auth::{
    cap_write_routes, consensus_read_routes, consensus_write_routes, mesh_read_routes, mesh_write_routes,
    required_scope, Method,
};
use crate::http::routes::{is_guarded, mount, Handler};

verus! {
proof fn lemma_cap_writes(p: Seq<char>)
    ensures
        cap_write_routes().contains(p) <==> (p == "/gateway/capability/advertise"@ || p == "/gateway/capability/{handle_id}"@ || p == "/gateway/capability/{handle_id}/heartbeat"@),
{
    let s = cap_write_routes();
    assert(s.len() == 3);
    assert(s[0] == "/gateway/capability/advertise"@);
    assert(s[1] == "/gateway/capability/{handle_id}"@);
    assert(s[2] == "/gateway/capability/{handle_id}/heartbeat"@);
}

proof fn lemma_mesh_writes(p: Seq<char>)
    ensures
        mesh_write_routes().contains(p) <==> (p == "/gateway/signal/emit"@ || p == "/gateway/rpc/call"@ || p == "/gateway/rpc/respond"@ || p == "/gateway/scatter"@ || p == "/gateway/mailbox/deliver"@ || p == "/gateway/shard/emit"@),
{
    let s = mesh_write_routes();
    assert(s.len() == 6);
    assert(s[0] == "/gateway/signal/emit"@);
    assert(s[1] == "/gateway/rpc/call"@);
    assert(s[2] == "/gateway/rpc/respond"@);
    assert(s[3] == "/gateway/scatter"@);
    assert(s[4] == "/gateway/mailbox/deliver"@);
    assert(s[5] == "/gateway/shard/emit"@);
}

proof fn lemma_mesh_reads(p: Seq<char>)
    ensures
        mesh_read_routes().contains(p) <==> (p == "/gateway/signal/sse/{kind}"@ || p == "/gateway/demand"@ || p == "/gateway/rpc/serve/{kind}"@ || p == "/gateway/mailbox/{kind}"@),
{
    let s = mesh_read_routes();
    assert(s.len() == 4);
    assert(s[0] == "/gateway/signal/sse/{kind}"@);
    assert(s[1] == "/gateway/demand"@);
    assert(s[2] == "/gateway/rpc/serve/{kind}"@);
    assert(s[3] == "/gateway/mailbox/{kind}"@);
}

proof fn lemma_consensus_writes(p: Seq<char>)
    ensures
        consensus_write_routes().contains(p) <==> (p == "/gateway/overlay/consistent/set"@ || p == "/gateway/overlay/lock/acquire"@ || p == "/gateway/overlay/lock/{guard_id}"@ || p == "/gateway/overlay/elect"@ || p == "/gateway/overlay/log/append"@ || p == "/gateway/overlay/log/compact"@ || p == "/gateway/overlay/emit_reliable"@ || p == "/gateway/consensus/cross_group_propose"@),
{
    let s = consensus_write_routes();
    assert(s.len() == 8);
    assert(s[0] == "/gateway/overlay/consistent/set"@);
    assert(s[1] == "/gateway/overlay/lock/acquire"@);
    assert(s[2] == "/gateway/overlay/lock/{guard_id}"@);
    assert(s[3] == "/gateway/overlay/elect"@);
    assert(s[4] == "/gateway/overlay/log/append"@);
    assert(s[5] == "/gateway/overlay/log/compact"@);
    assert(s[6] == "/gateway/overlay/emit_reliable"@);
    assert(s[7] == "/gateway/consensus/cross_group_propose"@);
}

proof fn lemma_consensus_reads(p: Seq<char>)
    ensures
        consensus_read_routes().contains(p) <==> (p == "/gateway/overlay/consistent/get"@ || p == "/gateway/overlay/log/scan"@ || p == "/gateway/overlay/log/subscribe"@ || p == "/gateway/overlay/log/group/subscribe"@),
{
    let s = consensus_read_routes();
    assert(s.len() == 4);
    assert(s[0] == "/gateway/overlay/consistent/get"@);
    assert(s[1] == "/gateway/overlay/log/scan"@);
    assert(s[2] == "/gateway/overlay/log/subscribe"@);
    assert(s[3] == "/gateway/overlay/log/group/subscribe"@);
}

/// What tells the gateway's paths apart: their lengths, and a letter where two are of one length.
proof fn lemma_paths_differ()
    ensures
        "/gateway/kv"@.len() == 11,
        "/gateway/kv/keys"@.len() == 16 && "/gateway/kv/keys"@[9] == 'k',
        "/gateway/kv/quorum"@.len() == 18,
        "/gateway/capability/advertise"@.len() == 29 && "/gateway/capability/advertise"@[9] == 'c',
        "/gateway/capability/{handle_id}"@.len() == 31 && "/gateway/capability/{handle_id}"@[9] == 'c' && "/gateway/capability/{handle_id}"@[28] == 'i',
        "/gateway/capability/{handle_id}/heartbeat"@.len() == 41,
        "/gateway/capability/resolve"@.len() == 27 && "/gateway/capability/resolve"@[9] == 'c',
        "/gateway/shard/{ns}/{name}"@.len() == 26 && "/gateway/shard/{ns}/{name}"@[9] == 's' && "/gateway/shard/{ns}/{name}"@[10] == 'h',
        "/gateway/signal/emit"@.len() == 20 && "/gateway/signal/emit"@[9] == 's',
        "/gateway/rpc/call"@.len() == 17 && "/gateway/rpc/call"@[9] == 'r',
        "/gateway/rpc/respond"@.len() == 20 && "/gateway/rpc/respond"@[9] == 'r',
        "/gateway/scatter"@.len() == 16 && "/gateway/scatter"@[9] == 's',
        "/gateway/mailbox/deliver"@.len() == 24 && "/gateway/mailbox/deliver"@[9] == 'm',
        "/gateway/shard/emit"@.len() == 19 && "/gateway/shard/emit"@[9] == 's',
        "/gateway/signal/sse/{kind}"@.len() == 26 && "/gateway/signal/sse/{kind}"@[9] == 's' && "/gateway/signal/sse/{kind}"@[10] == 'i',
        "/gateway/demand"@.len() == 15 && "/gateway/demand"@[9] == 'd',
        "/gateway/rpc/serve/{kind}"@.len() == 25 && "/gateway/rpc/serve/{kind}"@[9] == 'r',
        "/gateway/mailbox/{kind}"@.len() == 23,
        "/gateway/overlay/consistent/set"@.len() == 31 && "/gateway/overlay/consistent/set"@[9] == 'o' && "/gateway/overlay/consistent/set"@[28] == 's',
        "/gateway/overlay/lock/acquire"@.len() == 29 && "/gateway/overlay/lock/acquire"@[9] == 'o',
        "/gateway/overlay/lock/{guard_id}"@.len() == 32,
        "/gateway/overlay/elect"@.len() == 22 && "/gateway/overlay/elect"@[9] == 'o' && "/gateway/overlay/elect"@[17] == 'e',
        "/gateway/overlay/log/append"@.len() == 27 && "/gateway/overlay/log/append"@[9] == 'o',
        "/gateway/overlay/log/compact"@.len() == 28 && "/gateway/overlay/log/compact"@[9] == 'o',
        "/gateway/overlay/emit_reliable"@.len() == 30 && "/gateway/overlay/emit_reliable"@[17] == 'e',
        "/gateway/consensus/cross_group_propose"@.len() == 38,
        "/gateway/overlay/consistent/get"@.len() == 31 && "/gateway/overlay/consistent/get"@[9] == 'o' && "/gateway/overlay/consistent/get"@[28] == 'g',
        "/gateway/overlay/log/scan"@.len() == 25 && "/gateway/overlay/log/scan"@[9] == 'o',
        "/gateway/overlay/log/subscribe"@.len() == 30 && "/gateway/overlay/log/subscribe"@[17] == 'l',
        "/gateway/overlay/log/group/subscribe"@.len() == 36,
        "/gateway/prompts"@.len() == 16 && "/gateway/prompts"@[9] == 'p',
        "/gateway/prompts/{ns}/{name}"@.len() == 28 && "/gateway/prompts/{ns}/{name}"@[9] == 'p',
        "/gateway/llm/call"@.len() == 17 && "/gateway/llm/call"@[9] == 'l',
        "/gateway/llm/stream"@.len() == 19 && "/gateway/llm/stream"@[9] == 'l',
        "/gateway/audit"@.len() == 14 && "/gateway/audit"@[9] == 'a',
        "/gateway/transparency"@.len() == 21,
        "/gateway/identity/revoke"@.len() == 24 && "/gateway/identity/revoke"@[9] == 'i',
        "/gateway/govern"@.len() == 15 && "/gateway/govern"@[9] == 'g',
        "/gateway/govern/tuning"@.len() == 22 && "/gateway/govern/tuning"@[9] == 'g' && "/gateway/govern/tuning"@[17] == 'u',
        "/gateway/govern/timing"@.len() == 22 && "/gateway/govern/timing"@[9] == 'g' && "/gateway/govern/timing"@[17] == 'i',
        "/gateway/govern/membership"@.len() == 26 && "/gateway/govern/membership"@[9] == 'g' && "/gateway/govern/membership"@[10] == 'o',
        "/gateway/fleet"@.len() == 14 && "/gateway/fleet"@[9] == 'f',
        "/gateway/explain"@.len() == 16 && "/gateway/explain"@[9] == 'e',
        "/gateway/diagnose"@.len() == 17 && "/gateway/diagnose"@[9] == 'd',
{
    reveal_strlit("/gateway/kv");
    reveal_strlit("/gateway/kv/keys");
    reveal_strlit("/gateway/kv/quorum");
    reveal_strlit("/gateway/capability/advertise");
    reveal_strlit("/gateway/capability/{handle_id}");
    reveal_strlit("/gateway/capability/{handle_id}/heartbeat");
    reveal_strlit("/gateway/capability/resolve");
    reveal_strlit("/gateway/shard/{ns}/{name}");
    reveal_strlit("/gateway/signal/emit");
    reveal_strlit("/gateway/rpc/call");
    reveal_strlit("/gateway/rpc/respond");
    reveal_strlit("/gateway/scatter");
    reveal_strlit("/gateway/mailbox/deliver");
    reveal_strlit("/gateway/shard/emit");
    reveal_strlit("/gateway/signal/sse/{kind}");
    reveal_strlit("/gateway/demand");
    reveal_strlit("/gateway/rpc/serve/{kind}");
    reveal_strlit("/gateway/mailbox/{kind}");
    reveal_strlit("/gateway/overlay/consistent/set");
    reveal_strlit("/gateway/overlay/lock/acquire");
    reveal_strlit("/gateway/overlay/lock/{guard_id}");
    reveal_strlit("/gateway/overlay/elect");
    reveal_strlit("/gateway/overlay/log/append");
    reveal_strlit("/gateway/overlay/log/compact");
    reveal_strlit("/gateway/overlay/emit_reliable");
    reveal_strlit("/gateway/consensus/cross_group_propose");
    reveal_strlit("/gateway/overlay/consistent/get");
    reveal_strlit("/gateway/overlay/log/scan");
    reveal_strlit("/gateway/overlay/log/subscribe");
    reveal_strlit("/gateway/overlay/log/group/subscribe");
    reveal_strlit("/gateway/prompts");
    reveal_strlit("/gateway/prompts/{ns}/{name}");
    reveal_strlit("/gateway/llm/call");
    reveal_strlit("/gateway/llm/stream");
    reveal_strlit("/gateway/audit");
    reveal_strlit("/gateway/transparency");
    reveal_strlit("/gateway/identity/revoke");
    reveal_strlit("/gateway/govern");
    reveal_strlit("/gateway/govern/tuning");
    reveal_strlit("/gateway/govern/timing");
    reveal_strlit("/gateway/govern/membership");
    reveal_strlit("/gateway/fleet");
    reveal_strlit("/gateway/explain");
    reveal_strlit("/gateway/diagnose");
}

/// Every route behind the door asks for its own scope: who may read a thing may not thereby write
/// it, and who may do one thing may not thereby do another.
#[verifier::spinoff_prover]
#[verifier::rlimit(60)]
pub proof fn lemma_each_route_asks_for_its_scope(h: Handler, m: (Method, &'static str), guarded: bool, s: &'static str)
    requires
        call_ensures(mount, (h,), m),
        call_ensures(is_guarded, (h,), guarded),
        guarded,
        call_ensures(required_scope, (&m.0, m.1), s),
    ensures
        s@ == match h {
            Handler::CapAdvertise | Handler::CapDrop | Handler::CapHeartbeat => "cap:write"@,
            Handler::CapResolve | Handler::ShardOwner => "cap:read"@,
            Handler::SignalEmit | Handler::RpcCall | Handler::RpcRespond | Handler::Scatter | Handler::MailboxDeliver | Handler::ShardEmit => "mesh:write"@,
            Handler::SignalStream | Handler::Demand | Handler::RpcServe | Handler::MailboxStream => "mesh:read"@,
            Handler::KvGet | Handler::KvKeys => "kv:read"@,
            Handler::KvSet | Handler::KvDelete | Handler::KvQuorum => "kv:write"@,
            Handler::LogAppend | Handler::LogCompact | Handler::EmitReliable | Handler::ConsistentSet | Handler::LockAcquire | Handler::LockRelease | Handler::Elect | Handler::CrossGroupPropose => "consensus:write"@,
            Handler::LogScan | Handler::LogSubscribe | Handler::ConsistentGet | Handler::LogGroupSubscribe => "consensus:read"@,
            Handler::Govern => "govern:read"@,
            Handler::GovernTuning | Handler::GovernTiming | Handler::GovernMembership => "govern:write"@,
            Handler::Fleet | Handler::Explain | Handler::Diagnose => "fleet:read"@,
            Handler::Prompts | Handler::PromptGet => "llm:read"@,
            Handler::PromptPut | Handler::PromptDelete => "llm:write"@,
            Handler::LlmCall | Handler::LlmStream => "llm:invoke"@,
            Handler::Audit => "audit:read"@,
            Handler::Transparency => "transparency:read"@,
            Handler::IdentityRevoke => "identity:write"@,
            _ => s@,
        },
{
    let p = m.1@;
    lemma_paths_differ();
    lemma_cap_writes(p);
    lemma_mesh_writes(p);
    lemma_mesh_reads(p);
    lemma_consensus_writes(p);
    lemma_consensus_reads(p);
}

/// A path outside the gateway's own is the administrator's.
pub proof fn lemma_unknown_paths_are_the_administrators(method: &Method, path: &str, s: &'static str)
    requires
        call_ensures(required_scope, (method, path), s),
        !(path@.len() >= 9 && path@.subrange(0, 9) == "/gateway/"@),
    ensures
        s@ == "admin"@,
{
    let p = path@;
    lemma_paths_are_inside();
    lemma_cap_writes(p);
    lemma_mesh_writes(p);
    lemma_mesh_reads(p);
    lemma_consensus_writes(p);
    lemma_consensus_reads(p);
}

proof fn lemma_paths_are_inside()
    ensures
        "/gateway/kv"@.len() >= 9 && "/gateway/kv"@.subrange(0, 9) == "/gateway/"@,
        "/gateway/kv/keys"@.len() >= 9 && "/gateway/kv/keys"@.subrange(0, 9) == "/gateway/"@,
        "/gateway/kv/quorum"@.len() >= 9 && "/gateway/kv/quorum"@.subrange(0, 9) == "/gateway/"@,
        "/gateway/capability/advertise"@.len() >= 9 && "/gateway/capability/advertise"@.subrange(0, 9) == "/gateway/"@,
        "/gateway/capability/{handle_id}"@.len() >= 9 && "/gateway/capability/{handle_id}"@.subrange(0, 9) == "/gateway/"@,
        "/gateway/capability/{handle_id}/heartbeat"@.len() >= 9 && "/gateway/capability/{handle_id}/heartbeat"@.subrange(0, 9) == "/gateway/"@,
        "/gateway/capability/resolve"@.len() >= 9 && "/gateway/capability/resolve"@.subrange(0, 9) == "/gateway/"@,
        "/gateway/shard/{ns}/{name}"@.len() >= 9 && "/gateway/shard/{ns}/{name}"@.subrange(0, 9) == "/gateway/"@,
        "/gateway/signal/emit"@.len() >= 9 && "/gateway/signal/emit"@.subrange(0, 9) == "/gateway/"@,
        "/gateway/rpc/call"@.len() >= 9 && "/gateway/rpc/call"@.subrange(0, 9) == "/gateway/"@,
        "/gateway/rpc/respond"@.len() >= 9 && "/gateway/rpc/respond"@.subrange(0, 9) == "/gateway/"@,
        "/gateway/scatter"@.len() >= 9 && "/gateway/scatter"@.subrange(0, 9) == "/gateway/"@,
        "/gateway/mailbox/deliver"@.len() >= 9 && "/gateway/mailbox/deliver"@.subrange(0, 9) == "/gateway/"@,
        "/gateway/shard/emit"@.len() >= 9 && "/gateway/shard/emit"@.subrange(0, 9) == "/gateway/"@,
        "/gateway/signal/sse/{kind}"@.len() >= 9 && "/gateway/signal/sse/{kind}"@.subrange(0, 9) == "/gateway/"@,
        "/gateway/demand"@.len() >= 9 && "/gateway/demand"@.subrange(0, 9) == "/gateway/"@,
        "/gateway/rpc/serve/{kind}"@.len() >= 9 && "/gateway/rpc/serve/{kind}"@.subrange(0, 9) == "/gateway/"@,
        "/gateway/mailbox/{kind}"@.len() >= 9 && "/gateway/mailbox/{kind}"@.subrange(0, 9) == "/gateway/"@,
        "/gateway/overlay/consistent/set"@.len() >= 9 && "/gateway/overlay/consistent/set"@.subrange(0, 9) == "/gateway/"@,
        "/gateway/overlay/lock/acquire"@.len() >= 9 && "/gateway/overlay/lock/acquire"@.subrange(0, 9) == "/gateway/"@,
        "/gateway/overlay/lock/{guard_id}"@.len() >= 9 && "/gateway/overlay/lock/{guard_id}"@.subrange(0, 9) == "/gateway/"@,
        "/gateway/overlay/elect"@.len() >= 9 && "/gateway/overlay/elect"@.subrange(0, 9) == "/gateway/"@,
        "/gateway/overlay/log/append"@.len() >= 9 && "/gateway/overlay/log/append"@.subrange(0, 9) == "/gateway/"@,
        "/gateway/overlay/log/compact"@.len() >= 9 && "/gateway/overlay/log/compact"@.subrange(0, 9) == "/gateway/"@,
        "/gateway/overlay/emit_reliable"@.len() >= 9 && "/gateway/overlay/emit_reliable"@.subrange(0, 9) == "/gateway/"@,
        "/gateway/consensus/cross_group_propose"@.len() >= 9 && "/gateway/consensus/cross_group_propose"@.subrange(0, 9) == "/gateway/"@,
        "/gateway/overlay/consistent/get"@.len() >= 9 && "/gateway/overlay/consistent/get"@.subrange(0, 9) == "/gateway/"@,
        "/gateway/overlay/log/scan"@.len() >= 9 && "/gateway/overlay/log/scan"@.subrange(0, 9) == "/gateway/"@,
        "/gateway/overlay/log/subscribe"@.len() >= 9 && "/gateway/overlay/log/subscribe"@.subrange(0, 9) == "/gateway/"@,
        "/gateway/overlay/log/group/subscribe"@.len() >= 9 && "/gateway/overlay/log/group/subscribe"@.subrange(0, 9) == "/gateway/"@,
        "/gateway/prompts"@.len() >= 9 && "/gateway/prompts"@.subrange(0, 9) == "/gateway/"@,
        "/gateway/prompts/{ns}/{name}"@.len() >= 9 && "/gateway/prompts/{ns}/{name}"@.subrange(0, 9) == "/gateway/"@,
        "/gateway/llm/call"@.len() >= 9 && "/gateway/llm/call"@.subrange(0, 9) == "/gateway/"@,
        "/gateway/llm/stream"@.len() >= 9 && "/gateway/llm/stream"@.subrange(0, 9) == "/gateway/"@,
        "/gateway/audit"@.len() >= 9 && "/gateway/audit"@.subrange(0, 9) == "/gateway/"@,
        "/gateway/transparency"@.len() >= 9 && "/gateway/transparency"@.subrange(0, 9) == "/gateway/"@,
        "/gateway/identity/revoke"@.len() >= 9 && "/gateway/identity/revoke"@.subrange(0, 9) == "/gateway/"@,
        "/gateway/govern"@.len() >= 9 && "/gateway/govern"@.subrange(0, 9) == "/gateway/"@,
        "/gateway/govern/tuning"@.len() >= 9 && "/gateway/govern/tuning"@.subrange(0, 9) == "/gateway/"@,
        "/gateway/govern/timing"@.len() >= 9 && "/gateway/govern/timing"@.subrange(0, 9) == "/gateway/"@,
        "/gateway/govern/membership"@.len() >= 9 && "/gateway/govern/membership"@.subrange(0, 9) == "/gateway/"@,
        "/gateway/fleet"@.len() >= 9 && "/gateway/fleet"@.subrange(0, 9) == "/gateway/"@,
        "/gateway/explain"@.len() >= 9 && "/gateway/explain"@.subrange(0, 9) == "/gateway/"@,
        "/gateway/diagnose"@.len() >= 9 && "/gateway/diagnose"@.subrange(0, 9) == "/gateway/"@,
{
    reveal_strlit("/gateway/");
    reveal_strlit("/gateway/kv");
    assert("/gateway/kv"@.subrange(0, 9) =~= "/gateway/"@);
    reveal_strlit("/gateway/kv/keys");
    assert("/gateway/kv/keys"@.subrange(0, 9) =~= "/gateway/"@);
    reveal_strlit("/gateway/kv/quorum");
    assert("/gateway/kv/quorum"@.subrange(0, 9) =~= "/gateway/"@);
    reveal_strlit("/gateway/capability/advertise");
    assert("/gateway/capability/advertise"@.subrange(0, 9) =~= "/gateway/"@);
    reveal_strlit("/gateway/capability/{handle_id}");
    assert("/gateway/capability/{handle_id}"@.subrange(0, 9) =~= "/gateway/"@);
    reveal_strlit("/gateway/capability/{handle_id}/heartbeat");
    assert("/gateway/capability/{handle_id}/heartbeat"@.subrange(0, 9) =~= "/gateway/"@);
    reveal_strlit("/gateway/capability/resolve");
    assert("/gateway/capability/resolve"@.subrange(0, 9) =~= "/gateway/"@);
    reveal_strlit("/gateway/shard/{ns}/{name}");
    assert("/gateway/shard/{ns}/{name}"@.subrange(0, 9) =~= "/gateway/"@);
    reveal_strlit("/gateway/signal/emit");
    assert("/gateway/signal/emit"@.subrange(0, 9) =~= "/gateway/"@);
    reveal_strlit("/gateway/rpc/call");
    assert("/gateway/rpc/call"@.subrange(0, 9) =~= "/gateway/"@);
    reveal_strlit("/gateway/rpc/respond");
    assert("/gateway/rpc/respond"@.subrange(0, 9) =~= "/gateway/"@);
    reveal_strlit("/gateway/scatter");
    assert("/gateway/scatter"@.subrange(0, 9) =~= "/gateway/"@);
    reveal_strlit("/gateway/mailbox/deliver");
    assert("/gateway/mailbox/deliver"@.subrange(0, 9) =~= "/gateway/"@);
    reveal_strlit("/gateway/shard/emit");
    assert("/gateway/shard/emit"@.subrange(0, 9) =~= "/gateway/"@);
    reveal_strlit("/gateway/signal/sse/{kind}");
    assert("/gateway/signal/sse/{kind}"@.subrange(0, 9) =~= "/gateway/"@);
    reveal_strlit("/gateway/demand");
    assert("/gateway/demand"@.subrange(0, 9) =~= "/gateway/"@);
    reveal_strlit("/gateway/rpc/serve/{kind}");
    assert("/gateway/rpc/serve/{kind}"@.subrange(0, 9) =~= "/gateway/"@);
    reveal_strlit("/gateway/mailbox/{kind}");
    assert("/gateway/mailbox/{kind}"@.subrange(0, 9) =~= "/gateway/"@);
    reveal_strlit("/gateway/overlay/consistent/set");
    assert("/gateway/overlay/consistent/set"@.subrange(0, 9) =~= "/gateway/"@);
    reveal_strlit("/gateway/overlay/lock/acquire");
    assert("/gateway/overlay/lock/acquire"@.subrange(0, 9) =~= "/gateway/"@);
    reveal_strlit("/gateway/overlay/lock/{guard_id}");
    assert("/gateway/overlay/lock/{guard_id}"@.subrange(0, 9) =~= "/gateway/"@);
    reveal_strlit("/gateway/overlay/elect");
    assert("/gateway/overlay/elect"@.subrange(0, 9) =~= "/gateway/"@);
    reveal_strlit("/gateway/overlay/log/append");
    assert("/gateway/overlay/log/append"@.subrange(0, 9) =~= "/gateway/"@);
    reveal_strlit("/gateway/overlay/log/compact");
    assert("/gateway/overlay/log/compact"@.subrange(0, 9) =~= "/gateway/"@);
    reveal_strlit("/gateway/overlay/emit_reliable");
    assert("/gateway/overlay/emit_reliable"@.subrange(0, 9) =~= "/gateway/"@);
    reveal_strlit("/gateway/consensus/cross_group_propose");
    assert("/gateway/consensus/cross_group_propose"@.subrange(0, 9) =~= "/gateway/"@);
    reveal_strlit("/gateway/overlay/consistent/get");
    assert("/gateway/overlay/consistent/get"@.subrange(0, 9) =~= "/gateway/"@);
    reveal_strlit("/gateway/overlay/log/scan");
    assert("/gateway/overlay/log/scan"@.subrange(0, 9) =~= "/gateway/"@);
    reveal_strlit("/gateway/overlay/log/subscribe");
    assert("/gateway/overlay/log/subscribe"@.subrange(0, 9) =~= "/gateway/"@);
    reveal_strlit("/gateway/overlay/log/group/subscribe");
    assert("/gateway/overlay/log/group/subscribe"@.subrange(0, 9) =~= "/gateway/"@);
    reveal_strlit("/gateway/prompts");
    assert("/gateway/prompts"@.subrange(0, 9) =~= "/gateway/"@);
    reveal_strlit("/gateway/prompts/{ns}/{name}");
    assert("/gateway/prompts/{ns}/{name}"@.subrange(0, 9) =~= "/gateway/"@);
    reveal_strlit("/gateway/llm/call");
    assert("/gateway/llm/call"@.subrange(0, 9) =~= "/gateway/"@);
    reveal_strlit("/gateway/llm/stream");
    assert("/gateway/llm/stream"@.subrange(0, 9) =~= "/gateway/"@);
    reveal_strlit("/gateway/audit");
    assert("/gateway/audit"@.subrange(0, 9) =~= "/gateway/"@);
    reveal_strlit("/gateway/transparency");
    assert("/gateway/transparency"@.subrange(0, 9) =~= "/gateway/"@);
    reveal_strlit("/gateway/identity/revoke");
    assert("/gateway/identity/revoke"@.subrange(0, 9) =~= "/gateway/"@);
    reveal_strlit("/gateway/govern");
    assert("/gateway/govern"@.subrange(0, 9) =~= "/gateway/"@);
    reveal_strlit("/gateway/govern/tuning");
    assert("/gateway/govern/tuning"@.subrange(0, 9) =~= "/gateway/"@);
    reveal_strlit("/gateway/govern/timing");
    assert("/gateway/govern/timing"@.subrange(0, 9) =~= "/gateway/"@);
    reveal_strlit("/gateway/govern/membership");
    assert("/gateway/govern/membership"@.subrange(0, 9) =~= "/gateway/"@);
    reveal_strlit("/gateway/fleet");
    assert("/gateway/fleet"@.subrange(0, 9) =~= "/gateway/"@);
    reveal_strlit("/gateway/explain");
    assert("/gateway/explain"@.subrange(0, 9) =~= "/gateway/"@);
    reveal_strlit("/gateway/diagnose");
    assert("/gateway/diagnose"@.subrange(0, 9) =~= "/gateway/"@);
}

/// The eight routes outside the gateway are open to all, and no other.
pub proof fn lemma_open_routes(h: Handler, guarded: bool)
    requires
        call_ensures(is_guarded, (h,), guarded),
    ensures
        !guarded <==> h is Health || h is Ready || h is Stats || h is Metrics || h is Signals || h is Mcp || h is Bulk || h
            is ConsensusSlot,
{
}

} // verus!

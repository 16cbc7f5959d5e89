//! Laws of the fleet's steering and its records: intents, governing requests, audits, agents.
use vstd::prelude::*;

use crate::agent::{
    cluster_estimate, first_of_each, next_power_of_two, others, role_key, AgentState, GossipAgent, MigrationError,
    RoleClaim, Rotation, RotationKeys, RotationStep, SignedRoleClaim,
};
use crate::config::{url_host, EgressPolicy, GossipConfig};
use crate::error::GossipError;
use crate::hex::hex_of;
use crate::http::audit::{
    audit, audit_nodes, heads_reply, identity_revoke, inclusion_reply, revoke_reply, transparency, AuditStream, Inclusion,
    LogHead, Revoke, TransparencyQuery,
};
use crate::http::consensus::ConsensusResult;
use crate::http::govern::{
    directive_models, directive_of, directives_of, drained, explain_since, govern_membership, govern_snapshot,
    govern_timing, govern_tuning, parse_optional_target, GovernIntent, ParamSnapshot, Ratchet, Target, TimingIntent,
};
use crate::http::reply::Reply;
use crate::http::status::{bulk_status, gateway_cert, health, ready, GatewayCert};
use crate::intent::{
    applies, publish_intent, read_fresh_intent, reconcile_intent, reconcile_tick_ms, timestamp_of, FleetIntent, Reconcile,
};
use crate::json::{json_read, member_from, Json, JsonModel};
use crate::laws::tools::lemma_named;
use crate::membership_governor::{publish_membership_intent, MembershipIntent};
use crate::node_id::{node_of, nodes, NodeId};
use crate::revocation::{ed25519_public, ed25519_signature, ed25519_verifies, SignedRevocation};
use crate::text::texts;

verus! {

/// An intent applies to a node while it is no older than its life and aims at that node or at none:
/// a stale intent, and one for another node, do not.
pub proof fn lemma_intents_lapse_and_aim<I: FleetIntent>(intent: &I, me: &NodeId, ttl_ms: u64, now_ms: u64, r: bool)
    requires
        call_ensures(applies::<I>, (intent, me, ttl_ms, now_ms), r),
    ensures
        r <==> (now_ms <= intent.published() || now_ms - intent.published() <= ttl_ms) && (intent.aimed_at()
            matches Some(n) ==> n == me@),
{
}

/// What is read as fresh, and what is reconciled to, is the stored intent itself where it applies;
/// nothing, and a return to the default, where it does not or there is none.
pub proof fn lemma_stale_intents_are_not_read<I: FleetIntent>(
    decoded: I,
    me: &NodeId,
    ttl_ms: u64,
    now_ms: u64,
    fresh: bool,
    r: Option<I>,
    c: Reconcile<I>,
    n: Option<I>,
    v: Reconcile<I>,
)
    requires
        call_ensures(applies::<I>, (&decoded, me, ttl_ms, now_ms), fresh),
        call_ensures(read_fresh_intent::<I>, (Some(decoded), me, ttl_ms, now_ms), r),
        call_ensures(reconcile_intent::<I>, (Some(decoded), me, ttl_ms, now_ms), c),
        call_ensures(read_fresh_intent::<I>, (None::<I>, me, ttl_ms, now_ms), n),
        call_ensures(reconcile_intent::<I>, (None::<I>, me, ttl_ms, now_ms), v),
    ensures
        fresh ==> r == Some(decoded) && c == Reconcile::Apply(decoded),
        !fresh ==> r is None && c is Revert,
        n is None && v is Revert,
{
}

/// A published intent is stamped with its moment and aims where it aimed; it is looked at again
/// within half its life, and at least every millisecond.
pub proof fn lemma_published_intents_are_stamped<I: FleetIntent>(intent: I, now_ms: u64, r: I, ttl_ms: u64, tick: u64)
    requires
        call_ensures(publish_intent::<I>, (intent, now_ms), r),
        call_ensures(reconcile_tick_ms, (ttl_ms,), tick),
    ensures
        r.published() == now_ms,
        r.aimed_at() == intent.aimed_at(),
        tick >= 1,
        ttl_ms >= 2 ==> 2 * tick <= ttl_ms && ttl_ms < 2 * tick + 2,
{
}

/// A membership intent is published under its own group, and only its stamp changes.
pub proof fn lemma_membership_intent_is_published(intent: MembershipIntent, now_ms: u64, r: (String, MembershipIntent), ms: Option<u128>, t: u64)
    requires
        call_ensures(publish_membership_intent, (intent, now_ms), r),
        call_ensures(timestamp_of, (ms,), t),
    ensures
        r.0@ == "sys/govern/membership/"@ + intent.group@,
        r.1.written_at_ms == now_ms,
        r.1.group == intent.group && r.1.min == intent.min && r.1.max == intent.max && r.1.drain == intent.drain
            && r.1.target == intent.target,
        ms is None ==> t == 0,
        ms matches Some(n) ==> (n <= u64::MAX ==> t == n),
{
}

/// A membership request becomes the intent it states: its group, its bounds, everyone it drains and
/// the node it aims at; a drain list with anything that is no node is refused as a whole.
pub proof fn lemma_membership_request_is_the_intent(body: &Json, r: Result<MembershipIntent, Reply>)
    requires
        call_ensures(govern_membership, (body,), r),
    ensures
        r matches Ok(i) ==> {
            &&& body@.at("group"@) == JsonModel::Str(i.group@)
            &&& body@.at("min"@) matches JsonModel::Int(n) && n >= 0 && (n <= 0xFFFF_FFFF ==> i.min == n)
            &&& body@.at("max"@) matches JsonModel::Int(n) ==> (0 <= n <= 0xFFFF_FFFF ==> i.max is Some && i.max->0 == n)
            &&& body@.at("max"@) is Null ==> i.max is None
            &&& i.written_at_ms == 0
            &&& body@.at("drain"@) matches JsonModel::Arr(v) ==> i.drain@.len() == v.len() && forall|k: int|
                0 <= k < v.len() ==> v[k] is Str && node_of(v[k]->Str_0) == Some((#[trigger] i.drain@[k])@)
            &&& !(body@.at("drain"@) is Arr) ==> i.drain@.len() == 0
            &&& body@.at("target"@) matches JsonModel::Str(s) ==> i.target is Some && node_of(s) == Some((i.target->0)@)
            &&& !(body@.at("target"@) is Str) ==> i.target is None
        },
        body@.at("group"@) is Str && body@.natural_at("min"@) is Some && (body@.at("target"@) matches JsonModel::Str(s)
            ==> node_of(s) is Some) && (body@.at("drain"@) matches JsonModel::Arr(v) ==> forall|k: int|
            0 <= k < v.len() ==> (#[trigger] v[k]) is Str && node_of(v[k]->Str_0) is Some) ==> r is Ok,
        r matches Err(e) ==> e.status == 400,
{
    if r is Err {
        assert(r->Err_0.status == r->Err_0@.status);
    }
    if body@.at("drain"@) is Arr {
        let v = body@.at("drain"@)->Arr_0;
        lemma_drained(v, v.len() as int);
        if r is Ok {
            let d = (r->Ok_0).drain@;
            assert(nodes(d).len() == d.len());
            assert forall|k: int| 0 <= k < v.len() implies v[k] is Str && node_of(v[k]->Str_0) == Some(
                (#[trigger] d[k])@,
            ) by {
                assert(nodes(d)[k] == d[k]@);
            }
        }
    } else if r is Ok {
        assert(nodes((r->Ok_0).drain@).len() == (r->Ok_0).drain@.len());
    }
}

proof fn lemma_drained(v: Seq<JsonModel>, k: int)
    requires
        0 <= k <= v.len(),
    ensures
        drained(v, k) matches Ok(d) ==> d.len() == k && forall|i: int|
            0 <= i < k ==> (#[trigger] v[i]) is Str && node_of(v[i]->Str_0) == Some(d[i]),
        (forall|i: int| 0 <= i < k ==> (#[trigger] v[i]) is Str && node_of(v[i]->Str_0) is Some) ==> drained(v, k) is Ok,
    decreases k,
{
    if k > 0 {
        lemma_drained(v, k - 1);
        if drained(v, k) is Ok {
            let front = drained(v, k - 1)->Ok_0;
            let d = drained(v, k)->Ok_0;
            assert forall|i: int| 0 <= i < k implies (#[trigger] v[i]) is Str && node_of(v[i]->Str_0) == Some(d[i]) by {
                if i < k - 1 {
                    assert(d[i] == front[i]);
                }
            }
        }
    }
}

/// A tuning request becomes the intent it states: every directive names a known parameter and keeps
/// its bounds and its ratchet; a request that sets nothing, names an unknown parameter or an unknown
/// ratchet is refused as a whole.
pub proof fn lemma_tuning_request_is_the_intent(body: &Json, known: &Vec<String>, r: Result<GovernIntent, Reply>)
    requires
        call_ensures(govern_tuning, (body, known), r),
    ensures
        r matches Ok(i) ==> {
            &&& body@.at("enabled"@) matches JsonModel::Bool(b) ==> i.enabled == Some(b)
            &&& !(body@.at("enabled"@) is Bool) ==> i.enabled is None && i.params@.len() > 0
            &&& !(body@.at("params"@) is Arr) ==> i.params@.len() == 0
            &&& body@.at("params"@) matches JsonModel::Arr(v) ==> i.params@.len() == v.len() && forall|k: int|
                0 <= k < v.len() ==> {
                    let d = #[trigger] i.params@[k];
                    &&& v[k].at("param"@) == JsonModel::Str(d.param@)
                    &&& exists|p: int| 0 <= p < known@.len() && (#[trigger] known@[p])@ == d.param@
                    &&& v[k].at("floor"@) matches JsonModel::Int(n) ==> (0 <= n <= u64::MAX ==> d.floor is Some && d.floor->0
                        == n)
                    &&& v[k].at("ceiling"@) matches JsonModel::Int(n) ==> (0 <= n <= u64::MAX ==> d.ceiling is Some
                        && d.ceiling->0 == n)
                    &&& v[k].at("floor"@) is Null ==> d.floor is None
                    &&& v[k].at("ceiling"@) is Null ==> d.ceiling is None
                    &&& d.ratchet == Ratchet::Up <==> v[k].at("ratchet"@) == JsonModel::Str("up"@)
                    &&& d.ratchet == Ratchet::Down <==> v[k].at("ratchet"@) == JsonModel::Str("down"@)
                }
            &&& body@.at("target"@) matches JsonModel::Str(s) ==> i.target is Some && node_of(s) == Some((i.target->0)@)
            &&& !(body@.at("target"@) is Str) ==> i.target is None
        },
        body@.at("params"@) matches JsonModel::Arr(v) ==> ((exists|k: int|
            0 <= k < v.len() && ((#[trigger] v[k]).at("param"@) matches JsonModel::Str(p) && forall|l: int|
                0 <= l < known@.len() ==> (#[trigger] known@[l])@ != p)) ==> r is Err),
        r matches Err(e) ==> e.status == 400,
{
    reveal_strlit("up");
    reveal_strlit("down");
    reveal_strlit("off");
    assert("up"@.len() == 2 && "down"@.len() == 4 && "off"@.len() == 3);
    if r is Err {
        assert(r->Err_0.status == r->Err_0@.status);
    }
    if body@.at("params"@) is Arr {
        let v = body@.at("params"@)->Arr_0;
        let n = texts(known@);
        lemma_directives(v, n, v.len() as int);
        if r is Ok {
            let d = (r->Ok_0).params@;
            let m = directive_models(d);
            assert(m.len() == d.len());
            assert forall|k: int| 0 <= k < v.len() implies directive_of(v[k], n) == Ok::<_, Seq<char>>(
                (#[trigger] d[k])@,
            ) && exists|p: int| 0 <= p < known@.len() && (#[trigger] known@[p])@ == d[k].param@ by {
                assert(m[k] == d[k]@);
                lemma_named(known@, d[k].param@);
            }
        }
        if exists|k: int|
            0 <= k < v.len() && ((#[trigger] v[k]).at("param"@) matches JsonModel::Str(p) && forall|l: int|
                0 <= l < known@.len() ==> (#[trigger] known@[l])@ != p) {
            let k = choose|k: int|
                0 <= k < v.len() && ((#[trigger] v[k]).at("param"@) matches JsonModel::Str(p) && forall|l: int|
                    0 <= l < known@.len() ==> (#[trigger] known@[l])@ != p);
            lemma_named(known@, v[k].at("param"@)->Str_0);
            assert(directive_of(v[k], n) is Err);
        }
    } else if r is Ok {
        assert(directive_models((r->Ok_0).params@).len() == (r->Ok_0).params@.len());
    }
}

proof fn lemma_directives(v: Seq<JsonModel>, known: Seq<Seq<char>>, k: int)
    requires
        0 <= k <= v.len(),
    ensures
        directives_of(v, known, k) matches Ok(d) ==> d.len() == k && forall|i: int|
            0 <= i < k ==> directive_of(#[trigger] v[i], known) == Ok::<_, Seq<char>>(d[i]),
    decreases k,
{
    if k > 0 {
        lemma_directives(v, known, k - 1);
        if directives_of(v, known, k) is Ok {
            let front = directives_of(v, known, k - 1)->Ok_0;
            let d = directives_of(v, known, k)->Ok_0;
            assert forall|i: int| 0 <= i < k implies directive_of(#[trigger] v[i], known) == Ok::<_, Seq<char>>(d[i]) by {
                if i < k - 1 {
                    assert(d[i] == front[i]);
                }
            }
        }
    }
}

/// A target that is left out means every node, one that is no node is told so, and any other is the
/// node named; timings left out are nothing; a moment that cannot be read is the first.
pub proof fn lemma_targets_and_timings(body: &Json, t: Target, r: TimingIntent, since: Option<&str>, at: u64)
    requires
        call_ensures(parse_optional_target, (body,), t),
        call_ensures(govern_timing, (body,), r),
        call_ensures(explain_since, (since,), at),
    ensures
        t is All <==> !(body@.at("target"@) is Str),
        t matches Target::One(n) ==> node_of(body@.at("target"@)->Str_0) == Some(n@),
        t is Invalid <==> (body@.at("target"@) matches JsonModel::Str(s) && node_of(s) is None),
        body@.at("health_check_interval_secs"@) matches JsonModel::Int(n) ==> (0 <= n <= u64::MAX
            ==> r.health_check_interval_secs == n),
        body@.at("reconnect_backoff_secs"@) matches JsonModel::Int(n) ==> (0 <= n <= u64::MAX
            ==> r.reconnect_backoff_secs == n),
        body@.at("health_check_interval_secs"@) is Null ==> r.health_check_interval_secs == 0,
        body@.at("target"@) matches JsonModel::Str(s) ==> (node_of(s) matches Some(n) ==> r.target is Some && (
        r.target->0)@ == n),
        since is None ==> at == 0,
        since matches Some(s) ==> (forall|n: u64| s@ == #[trigger] crate::numeral::decimal(n as nat) ==> at == n),
{
    assert forall|n: u64| since is Some && (since->0)@ == #[trigger] crate::numeral::decimal(n as nat) implies at == n by {
        crate::numeral::lemma_decimal_parses(n);
    }
}

/// A snapshot tells the node, whether it tunes itself, and each parameter's own bounds.
pub proof fn lemma_snapshot_tells_the_params(me: &NodeId, auto_enabled: bool, params: &Vec<ParamSnapshot>, r: Reply)
    requires
        call_ensures(govern_snapshot, (me, auto_enabled, params), r),
    ensures
        r.body@.at("node_id"@) == JsonModel::Str(me@.text()),
        r.body@.at("auto_enabled"@) == JsonModel::Bool(auto_enabled),
        r.body@.at("params"@) matches JsonModel::Arr(v) && v.len() == params@.len() && forall|i: int|
            0 <= i < v.len() ==> v[i].at("param"@) == JsonModel::Str((#[trigger] params@[i]).param@) && v[i].at("floor"@)
                == JsonModel::Int(params@[i].floor as int) && v[i].at("ceiling"@) == JsonModel::Int(
                params@[i].ceiling as int,
            ) && v[i].at("locally_pinned"@) == JsonModel::Bool(params@[i].locally_pinned),
{
    assert(r.body@ == r@.body);
    reveal_with_fuel(member_from, 6);
    reveal_strlit("node_id");
    reveal_strlit("auto_enabled");
    reveal_strlit("params");
    reveal_strlit("param");
    reveal_strlit("floor");
    reveal_strlit("ceiling");
    reveal_strlit("ratchet");
    reveal_strlit("locally_pinned");
    assert("node_id"@.len() == 7 && "auto_enabled"@.len() == 12 && "params"@.len() == 6);
    assert("param"@.len() == 5 && "floor"@.len() == 5 && "ceiling"@.len() == 7 && "ratchet"@.len() == 7
        && "locally_pinned"@.len() == 14);
    assert("param"@[0] != "floor"@[0]);
    assert("ceiling"@[0] != "ratchet"@[0]);
}

/// An audit is asked of the node named, of every known one where none is, and of nobody where the
/// name is no node.
pub proof fn lemma_audited_nodes(node: Option<&str>, known: Vec<NodeId>, r: Result<Vec<NodeId>, Reply>)
    requires
        call_ensures(audit_nodes, (node, known), r),
    ensures
        node is None ==> r == Ok::<Vec<NodeId>, Reply>(known),
        node matches Some(s) ==> (r is Ok <==> node_of(s@) is Some),
        node matches Some(s) ==> (r matches Ok(v) ==> v@.len() == 1 && node_of(s@) == Some(v@[0]@)),
{
    if node is Some && r is Ok {
        let v = (r->Ok_0)@;
        assert(nodes(v).len() == v.len());
        assert(nodes(v)[0] == v[0]@);
    }
}

/// An audit shows of each stream its newest records, as many as asked for, oldest first, and tells
/// how many there are in all, whether the chain holds, and the hash at its head.
pub proof fn lemma_audit_shows_the_newest(streams: &Vec<AuditStream>, limit: usize, r: Reply, i: int)
    requires
        call_ensures(audit, (streams, Some(limit)), r),
        0 <= i < streams@.len(),
    ensures
        r.body@.at("streams"@) matches JsonModel::Arr(v) && v.len() == streams@.len() && {
            let s = streams@[i];
            let n = s.records@.len();
            &&& v[i].at("node"@) == JsonModel::Str(s.node@.text())
            &&& v[i].at("count"@) == JsonModel::Int(n as int)
            &&& v[i].at("verified"@) == JsonModel::Bool(s.verify_error is None)
            &&& n > 0 ==> v[i].at("head_hash"@) == JsonModel::Str(hex_of(s.records@[n - 1].content_hash@))
            &&& n == 0 ==> v[i].at("head_hash"@) == JsonModel::Null
            &&& v[i].at("records"@) matches JsonModel::Arr(w) && {
                let shown = if n <= limit {
                    n as int
                } else {
                    limit as int
                };
                &&& w.len() == shown
                &&& forall|j: int|
                    0 <= j < w.len() ==> {
                        let rec = s.records@[n - shown + j];
                        &&& (#[trigger] w[j]).at("seq"@) == JsonModel::Int(rec.seq as int)
                        &&& w[j].at("hlc"@) == JsonModel::Int(rec.hlc as int)
                        &&& w[j].at("principal"@) == JsonModel::Str(rec.principal@)
                        &&& w[j].at("action"@) == JsonModel::Str(rec.action@)
                        &&& w[j].at("target"@) == JsonModel::Str(rec.target@)
                        &&& w[j].at("outcome"@) == JsonModel::Str(rec.outcome@)
                        &&& w[j].at("content_hash"@) == JsonModel::Str(hex_of(rec.content_hash@))
                    }
            }
        },
{
    assert(r.body@ == r@.body);
    let s = streams@[i];
    let shown = crate::http::audit::newest(s.records@, limit as int);
    let stream = crate::http::audit::stream_json(s, limit as int);
    lemma_stream_members(s, limit as int);
    assert(r.body@.at("streams"@)->Arr_0[i] == stream) by {
        reveal_with_fuel(member_from, 2);
    }
    assert(r.body@.at("streams"@) is Arr) by {
        reveal_with_fuel(member_from, 2);
    }
    assert(r.body@.at("streams"@)->Arr_0.len() == streams@.len()) by {
        reveal_with_fuel(member_from, 2);
    }
    let w = crate::http::audit::records_json(shown);
    assert forall|j: int| 0 <= j < w.len() implies {
        let rec = s.records@[s.records@.len() - shown.len() + j];
        &&& (#[trigger] w[j]).at("seq"@) == JsonModel::Int(rec.seq as int)
        &&& w[j].at("hlc"@) == JsonModel::Int(rec.hlc as int)
        &&& w[j].at("principal"@) == JsonModel::Str(rec.principal@)
        &&& w[j].at("action"@) == JsonModel::Str(rec.action@)
        &&& w[j].at("target"@) == JsonModel::Str(rec.target@)
        &&& w[j].at("outcome"@) == JsonModel::Str(rec.outcome@)
        &&& w[j].at("content_hash"@) == JsonModel::Str(hex_of(rec.content_hash@))
    } by {
        lemma_record_members(shown[j]);
    }
}

proof fn lemma_stream_members(s: AuditStream, limit: int)
    ensures
        ({
            let j = crate::http::audit::stream_json(s, limit);
            &&& j.at("node"@) == JsonModel::Str(s.node@.text())
            &&& j.at("count"@) == JsonModel::Int(s.records@.len() as int)
            &&& j.at("verified"@) == JsonModel::Bool(s.verify_error is None)
            &&& s.records@.len() > 0 ==> j.at("head_hash"@) == JsonModel::Str(hex_of(s.records@.last().content_hash@))
            &&& s.records@.len() == 0 ==> j.at("head_hash"@) == JsonModel::Null
            &&& j.at("records"@) == JsonModel::Arr(
                crate::http::audit::records_json(crate::http::audit::newest(s.records@, limit)),
            )
        }),
{
    reveal_with_fuel(member_from, 7);
    reveal_strlit("node");
    reveal_strlit("count");
    reveal_strlit("verified");
    reveal_strlit("verify_error");
    reveal_strlit("head_hash");
    reveal_strlit("records");
    assert("node"@.len() == 4 && "count"@.len() == 5 && "verified"@.len() == 8 && "verify_error"@.len() == 12
        && "head_hash"@.len() == 9 && "records"@.len() == 7);
}

proof fn lemma_record_members(rec: crate::http::audit::AuditRecord)
    ensures
        ({
            let j = crate::http::audit::record_json(rec);
            &&& j.at("seq"@) == JsonModel::Int(rec.seq as int)
            &&& j.at("hlc"@) == JsonModel::Int(rec.hlc as int)
            &&& j.at("principal"@) == JsonModel::Str(rec.principal@)
            &&& j.at("action"@) == JsonModel::Str(rec.action@)
            &&& j.at("target"@) == JsonModel::Str(rec.target@)
            &&& j.at("outcome"@) == JsonModel::Str(rec.outcome@)
            &&& j.at("content_hash"@) == JsonModel::Str(hex_of(rec.content_hash@))
        }),
{
    reveal_with_fuel(member_from, 9);
    reveal_strlit("seq");
    reveal_strlit("hlc");
    reveal_strlit("principal");
    reveal_strlit("action");
    reveal_strlit("target");
    reveal_strlit("outcome");
    reveal_strlit("detail");
    reveal_strlit("content_hash");
    assert("seq"@.len() == 3 && "hlc"@.len() == 3 && "principal"@.len() == 9 && "action"@.len() == 6 && "target"@.len()
        == 6 && "outcome"@.len() == 7 && "detail"@.len() == 6 && "content_hash"@.len() == 12);
    assert("seq"@[0] != "hlc"@[0]);
    assert("action"@[0] != "target"@[0] && "action"@[0] != "detail"@[0] && "target"@[0] != "detail"@[0]);
}

/// A key is revoked only by its sixty-four hexadecimal digits, with the reason given; a failure to
/// do so is told.
pub proof fn lemma_revocation_request(body: &Json, r: Result<Revoke, Reply>, key: &str, failure: Option<&str>, a: Reply)
    requires
        call_ensures(identity_revoke, (body,), r),
        call_ensures(revoke_reply, (key, failure), a),
    ensures
        r matches Ok(v) ==> body@.at("revoked_key"@) is Str && crate::hex::hex32_bytes(body@.at("revoked_key"@)->Str_0)
            == Some(v.revoked_key@),
        r matches Ok(v) ==> (body@.at("reason"@) matches JsonModel::Str(s) ==> v.reason is Some && (v.reason->0)@ == s),
        r matches Ok(v) ==> (!(body@.at("reason"@) is Str) ==> v.reason is None),
        forall|k: [u8; 32]| body@.at("revoked_key"@) == JsonModel::Str(#[trigger] hex_of(k@)) ==> r is Ok && (
        r->Ok_0).revoked_key@ == k@,
        r matches Err(e) ==> e.status == 400,
        a.status == 200 <==> failure is None,
        failure is Some ==> a.status == 422,
{
    assert(a.status == a@.status);
    if r is Err {
        assert(r->Err_0.status == r->Err_0@.status);
    }
    assert forall|k: [u8; 32]| body@.at("revoked_key"@) == JsonModel::Str(#[trigger] hex_of(k@)) implies r is Ok && (
    r->Ok_0).revoked_key@ == k@ by {
        crate::hex::lemma_hex32_reads_back(k@);
    }
}

/// A proof is asked for where both a node and a key are named, and of those; otherwise the heads.
pub proof fn lemma_transparency_query(node: Option<&str>, key: Option<&str>, r: Result<TransparencyQuery, Reply>)
    requires
        call_ensures(transparency, (node, key), r),
    ensures
        node is None || key is None ==> r == Ok::<TransparencyQuery, Reply>(TransparencyQuery::Heads),
        r matches Ok(TransparencyQuery::Proof { node: n, key: k }) ==> node is Some && key is Some && node_of((node->0)@)
            == Some(n@) && crate::hex::hex32_bytes((key->0)@) == Some(k@),
        node is Some && key is Some ==> (r is Ok <==> node_of((node->0)@) is Some && crate::hex::hex32_bytes((key->0)@)
            is Some),
        node is Some && key is Some ==> (r matches Ok(q) ==> q is Proof),
{
}

/// An inclusion is told with its own root, leaf, place and steps; a key that is not in the log is
/// told so. A head is told with its own root and count.
pub proof fn lemma_inclusion_is_told(
    node: &NodeId,
    key: &str,
    inclusion: Option<&Inclusion>,
    r: Reply,
    heads: &Vec<LogHead>,
    h: Reply,
)
    requires
        call_ensures(inclusion_reply, (node, key, inclusion), r),
        call_ensures(heads_reply, (heads,), h),
    ensures
        r.body@.at("included"@) == JsonModel::Bool(inclusion is Some),
        r.body@.at("node"@) == JsonModel::Str(node@.text()),
        r.body@.at("revoked_key"@) == JsonModel::Str(key@),
        inclusion matches Some(p) ==> r.body@.at("root"@) == JsonModel::Str(hex_of(p.root@)) && r.body@.at("leaf"@)
            == JsonModel::Str(hex_of(p.leaf@)) && r.body@.at("index"@) == JsonModel::Int(p.index as int) && (r.body@.at(
            "proof"@,
        ) matches JsonModel::Arr(v) && v.len() == p.proof@.len() && forall|i: int|
            0 <= i < v.len() ==> v[i].at("sibling"@) == JsonModel::Str(hex_of((#[trigger] p.proof@[i]).sibling@))
                && v[i].at("on_right"@) == JsonModel::Bool(p.proof@[i].on_right)),
        h.body@.at("nodes"@) matches JsonModel::Arr(v) && v.len() == heads@.len() && forall|i: int|
            0 <= i < v.len() ==> v[i].at("node"@) == JsonModel::Str((#[trigger] heads@[i]).node@.text()) && v[i].at("root"@)
                == JsonModel::Str(hex_of(heads@[i].root@)) && v[i].at("count"@) == JsonModel::Int(
                heads@[i].count as int,
            ),
{
    assert(r.body@ == r@.body && h.body@ == h@.body);
    reveal_with_fuel(member_from, 8);
    reveal_strlit("node");
    reveal_strlit("revoked_key");
    reveal_strlit("included");
    reveal_strlit("root");
    reveal_strlit("leaf");
    reveal_strlit("index");
    reveal_strlit("proof");
    reveal_strlit("sibling");
    reveal_strlit("on_right");
    reveal_strlit("count");
    assert("node"@.len() == 4 && "revoked_key"@.len() == 11 && "included"@.len() == 8 && "root"@.len() == 4
        && "leaf"@.len() == 4 && "index"@.len() == 5 && "proof"@.len() == 5);
    assert("node"@[0] != "root"@[0] && "node"@[0] != "leaf"@[0] && "root"@[0] != "leaf"@[0]);
    assert("index"@[0] != "proof"@[0]);
    assert("sibling"@.len() == 7 && "on_right"@.len() == 8 && "count"@.len() == 5);
}

/// A node answers for itself: healthy always, ready once started.
pub proof fn lemma_health_and_readiness(me: &NodeId, started: bool, h: Reply, r: Reply, nonce: Option<u64>, staged: bool, b: u16)
    requires
        call_ensures(health, (me,), h),
        call_ensures(ready, (me, started), r),
        call_ensures(bulk_status, (nonce, staged), b),
    ensures
        h.status == 200 && h.body@.at("node_id"@) == JsonModel::Str(me@.text()),
        r.status == 200 <==> started,
        !started ==> r.status == 503,
        r.body@.at("node_id"@) == JsonModel::Str(me@.text()),
        nonce is None ==> b == 400,
        nonce is Some ==> (b == 200 <==> staged) && (b == 404 <==> !staged),
{
    assert(h.status == h@.status && h.body@ == h@.body);
    assert(r.status == r@.status && r.body@ == r@.body);
    reveal_with_fuel(member_from, 3);
    reveal_strlit("status");
    reveal_strlit("node_id");
    assert("status"@.len() == 6 && "node_id"@.len() == 7);
}

/// The gateway's certificate is its own files where both are given, the node's identity where
/// neither is, and nothing else.
pub proof fn lemma_gateway_certificate(has_cert: bool, has_key: bool, has_identity: bool, r: Result<GatewayCert, &'static str>)
    requires
        call_ensures(gateway_cert, (has_cert, has_key, has_identity), r),
    ensures
        r == Ok::<GatewayCert, &'static str>(GatewayCert::Files) <==> has_cert && has_key,
        r == Ok::<GatewayCert, &'static str>(GatewayCert::Identity) <==> !has_cert && !has_key && has_identity,
{
}

/// A caller is admitted where nobody is listed, where it is listed itself, or where a role is that a
/// claim proves for it: one about itself, signed with one of its own keys.
pub proof fn lemma_callers_are_admitted_by_name_or_role(
    agent: &GossipAgent,
    sender: &NodeId,
    allow: &Vec<String>,
    signed: Option<SignedRoleClaim>,
    canonical: &[u8],
    keys: &Vec<[u8; 32]>,
    r: bool,
)
    requires
        call_ensures(GossipAgent::caller_authorized, (agent, sender, allow, signed, canonical, keys), r),
    ensures
        r <==> {
            ||| allow@.len() == 0
            ||| exists|i: int| 0 <= i < allow@.len() && (#[trigger] allow@[i])@ == sender@.text()
            ||| signed matches Some(s) && s.claim.node_id@ == sender@ && (exists|k: int|
                0 <= k < keys@.len() && ed25519_verifies((#[trigger] keys@[k])@, canonical@, s.sig@)) && (exists|
                p: int,
                i: int,
            |
                #![trigger s.claim.roles@[p], allow@[i]]
                0 <= p < s.claim.roles@.len() && 0 <= i < allow@.len() && s.claim.roles@[p]@ == allow@[i]@)
        },
{
    let a = texts(allow@);
    lemma_named(allow@, sender@.text());
    if signed is Some {
        let s = signed->0;
        let roles = texts(s.claim.roles@);
        if crate::agent::share_one(roles, a) {
            let p = choose|p: int| 0 <= p < roles.len() && a.contains(#[trigger] roles[p]);
            let i = choose|i: int| 0 <= i < a.len() && a[i] == roles[p];
            assert(s.claim.roles@[p]@ == allow@[i]@);
        }
        if exists|p: int, i: int|
            #![trigger s.claim.roles@[p], allow@[i]]
            0 <= p < s.claim.roles@.len() && 0 <= i < allow@.len() && s.claim.roles@[p]@ == allow@[i]@ {
            let (p, i): (int, int) = choose|p: int, i: int|
                #![trigger s.claim.roles@[p], allow@[i]]
                0 <= p < s.claim.roles@.len() && 0 <= i < allow@.len() && s.claim.roles@[p]@ == allow@[i]@;
            assert(a[i] == roles[p]);
            assert(a.contains(roles[p]));
        }
    }
}

/// A claim's roles are read only where it speaks of the node asked about and one of that node's keys
/// signed it.
pub proof fn lemma_roles_are_proven(
    agent: &GossipAgent,
    node: &NodeId,
    signed: Option<SignedRoleClaim>,
    canonical: &[u8],
    keys: &Vec<[u8; 32]>,
    r: Option<RoleClaim>,
    sender: &NodeId,
    allow: &Vec<String>,
    claim: Option<&RoleClaim>,
    admitted: bool,
)
    requires
        call_ensures(GossipAgent::roles_of, (agent, node, signed, canonical, keys), r),
        call_ensures(GossipAgent::admits, (agent, sender, allow, claim), admitted),
    ensures
        r matches Some(c) ==> (signed matches Some(s) && s.claim == c && c.node_id@ == node@ && exists|k: int|
            0 <= k < keys@.len() && ed25519_verifies((#[trigger] keys@[k])@, canonical@, s.sig@)),
        signed matches Some(s) ==> (s.claim.node_id@ == node@ && (exists|k: int|
            0 <= k < keys@.len() && ed25519_verifies((#[trigger] keys@[k])@, canonical@, s.sig@)) ==> r is Some),
        allow@.len() == 0 ==> admitted,
        admitted && claim is None ==> allow@.len() == 0 || exists|i: int|
            0 <= i < allow@.len() && (#[trigger] allow@[i])@ == sender@.text(),
{
    lemma_named(allow@, sender@.text());
}

/// An agent is its own node with its configuration, idle and without an identity, never its own
/// peer, and with a power of two of shards, the least that holds those asked for.
pub proof fn lemma_new_agent(node_id: NodeId, config: GossipConfig, r: GossipAgent, e: u128)
    requires
        config.gossip_shards <= usize::MAX / 2 + 1,
        call_ensures(GossipAgent::new, (node_id, config), r),
        call_ensures(cluster_estimate, (&node_id, &config.bootstrap_peers), e),
    ensures
        r.node_id == node_id,
        r.state == AgentState::Idle && r.identity is None && r.partners is None && r.policy_revision is None,
        r.n_shards >= config.gossip_shards,
        r.config.gossip_shards == r.n_shards,
        r.config.egress == config.egress,
        r.config.gateway_auth_token == config.gateway_auth_token,
        r.config.gateway_scoped_tokens == config.gateway_scoped_tokens,
        r.seen_shards >= 16 && r.seen_shards >= r.n_shards,
        !nodes(r.bootstrap_peers@).contains(node_id@),
        forall|i: int|
            0 <= i < config.bootstrap_peers@.len() && (#[trigger] config.bootstrap_peers@[i])@ != node_id@ ==> nodes(
                r.bootstrap_peers@,
            ).contains(config.bootstrap_peers@[i]@),
        e == r.bootstrap_peers@.len() + 1,
{
    let v = config.bootstrap_peers@;
    lemma_others(v, node_id@, v.len() as int);
    assert(nodes(r.bootstrap_peers@).len() == r.bootstrap_peers@.len());
}

proof fn lemma_others(v: Seq<NodeId>, me: crate::node_id::NodeModel, k: int)
    requires
        0 <= k <= v.len(),
    ensures
        !others(v, me, k).contains(me),
        forall|i: int| 0 <= i < k && (#[trigger] v[i])@ != me ==> others(v, me, k).contains(v[i]@),
    decreases k,
{
    if k > 0 {
        lemma_others(v, me, k - 1);
        let front = others(v, me, k - 1);
        let now = others(v, me, k);
        if now.contains(me) {
            let j = choose|j: int| 0 <= j < now.len() && now[j] == me;
            if j < front.len() {
                assert(front[j] == me);
            }
        }
        assert forall|i: int| 0 <= i < k && (#[trigger] v[i])@ != me implies now.contains(v[i]@) by {
            if i < k - 1 {
                let j = choose|j: int| 0 <= j < front.len() && front[j] == v[i]@;
                assert(now[j] == v[i]@);
            } else {
                assert(now[front.len() as int] == v[i]@);
            }
        }
    }
}

/// Agents' states read back as they were written.
pub proof fn lemma_states_read_back(s: AgentState, b: u8, r: AgentState)
    requires
        call_ensures(AgentState::as_u8, (s,), b),
        call_ensures(AgentState::from_u8, (b,), r),
    ensures
        r == s,
{
}

/// Federation clients are set once, each named once; a second setting changes nothing.
pub proof fn lemma_clients_are_set_once(agent: &mut GossipAgent, clients: &Vec<String>, r: bool)
    requires
        call_ensures(GossipAgent::with_federation_clients, (agent, clients), r),
    ensures
        r <==> old(agent).partners is None,
        !r ==> *final(agent) == *old(agent),
        r ==> (final(agent).partners matches Some(p) && texts(p@).no_duplicates() && forall|s: Seq<char>| #[trigger]
            texts(p@).contains(s) <==> texts(clients@).contains(s)),
        final(agent).node_id == old(agent).node_id && final(agent).identity == old(agent).identity,
{
    let c = texts(clients@);
    lemma_first_of_each(c, c.len() as int);
    assert(c.take(c.len() as int) =~= c);
}

proof fn lemma_first_of_each(v: Seq<Seq<char>>, k: int)
    requires
        0 <= k <= v.len(),
    ensures
        first_of_each(v, k).no_duplicates(),
        forall|s: Seq<char>| #[trigger] first_of_each(v, k).contains(s) <==> v.take(k).contains(s),
    decreases k,
{
    if k > 0 {
        lemma_first_of_each(v, k - 1);
        let front = first_of_each(v, k - 1);
        let now = first_of_each(v, k);
        let prior = v.take(k - 1);
        let upto = v.take(k);
        assert forall|s: Seq<char>| #[trigger] now.contains(s) <==> upto.contains(s) by {
            if front.contains(s) {
                let j = choose|j: int| 0 <= j < front.len() && front[j] == s;
                assert(now[j] == s);
                let l = choose|l: int| 0 <= l < prior.len() && prior[l] == s;
                assert(upto[l] == s);
            }
            if now.contains(s) && !front.contains(s) {
                let j = choose|j: int| 0 <= j < now.len() && now[j] == s;
                assert(j == front.len());
                assert(upto[k - 1] == s);
            }
            if upto.contains(s) && !front.contains(s) {
                let l = choose|l: int| 0 <= l < upto.len() && upto[l] == s;
                if l < k - 1 {
                    assert(prior[l] == s);
                }
                assert(now[front.len() as int] == s);
            }
        }
    } else {
        assert(v.take(0).len() == 0);
    }
}

/// Agents may talk openly only where nothing at all would stop a stranger.
pub proof fn lemma_open_only_without_any_guard(agent: &GossipAgent, has_evaluator: bool, named_tokens: usize, r: bool)
    requires
        call_ensures(GossipAgent::a2a_is_open, (agent, has_evaluator, named_tokens), r),
    ensures
        r <==> !has_evaluator && agent.config.gateway_auth_token is None && agent.config.gateway_scoped_tokens@.len() == 0
            && named_tokens == 0,
{
}

/// An agent signs with its own identity and with nothing where it has none; a revocation it makes
/// revokes the key given, under its own name, and its own public key verifies it.
pub proof fn lemma_agent_signs_as_itself(
    agent: &GossipAgent,
    msg: &[u8],
    s: Option<[u8; 64]>,
    p: Option<[u8; 32]>,
    revoked: [u8; 32],
    reason: Option<String>,
    hlc: u64,
    r: Result<(String, SignedRevocation), GossipError>,
)
    requires
        call_ensures(GossipAgent::sign_with_identity, (agent, msg), s),
        call_ensures(GossipAgent::identity_public_key, (agent,), p),
        call_ensures(GossipAgent::revoke_key, (agent, revoked, reason, hlc), r),
    ensures
        s is Some <==> agent.identity is Some,
        p is Some <==> agent.identity is Some,
        s is Some ==> ed25519_verifies((p->0)@, msg@, (s->0)@),
        r is Ok <==> agent.identity is Some,
        r matches Ok((key, signed)) ==> {
            &&& key@ == "sys/revocation/"@ + agent.node_id@.text() + "/"@ + hex_of(revoked@)
            &&& signed.event.node_id@ == agent.node_id@
            &&& signed.event.hlc == hlc
            &&& signed.event.revoked_key@ == revoked@
            &&& signed.sig@.len() == 64
        },
{
    if r is Ok {
        reveal_strlit("/");
        let key = (r->Ok_0).0@;
        assert(key =~= "sys/revocation/"@ + agent.node_id@.text() + "/"@ + hex_of(revoked@));
        let e = (r->Ok_0).1.event@;
        assert(e.node == agent.node_id@ && e.hlc == hlc && e.revoked_key == revoked@);
    }
}

/// Roles are advertised under the agent's own key, as given, and only with an identity.
pub proof fn lemma_roles_are_advertised_as_given(
    agent: &GossipAgent,
    roles: Vec<String>,
    clearance: u8,
    at_ms: u64,
    key: String,
    r: Result<(String, RoleClaim), GossipError>,
    claim: RoleClaim,
    canonical: &[u8],
    s: Result<SignedRoleClaim, GossipError>,
)
    requires
        call_ensures(role_key, (&agent.node_id,), key),
        call_ensures(GossipAgent::advertise_roles, (agent, roles, clearance, at_ms), r),
        call_ensures(GossipAgent::sign_role_claim, (agent, claim, canonical), s),
    ensures
        r is Ok <==> agent.identity is Some,
        r matches Ok((k, c)) ==> k@ == key@ && c.node_id@ == agent.node_id@ && c.roles == roles && c.clearance
            == clearance && c.issued_at_ms == at_ms,
        s is Ok <==> agent.identity is Some,
        s matches Ok(t) ==> t.claim == claim && t.sig@ == ed25519_signature((agent.identity->0)@, canonical@),
{
}

/// A rotation cuts over to the new key once it was published, proved, sealed and waited for, and
/// revokes the old one only after that and only where it was compromised; the identity changes at
/// no other step.
pub proof fn lemma_rotation_cuts_over_once(agent: &mut GossipAgent, rotation: &mut Rotation, seed: &[u8; 32], r: RotationStep)
    requires
        call_ensures(GossipAgent::advance_rotation, (agent, rotation, seed), r),
    ensures
        r == old(rotation).step,
        old(rotation).step == RotationStep::CutOver ==> final(agent).identity == Some(*seed),
        old(rotation).step != RotationStep::CutOver ==> *final(agent) == *old(agent),
        final(rotation).step == RotationStep::CutOver ==> old(rotation).step == RotationStep::Wait,
        final(rotation).step == RotationStep::Revoke <==> old(rotation).step == RotationStep::CutOver && old(rotation).compromise,
        old(rotation).step == RotationStep::CutOver && !old(rotation).compromise ==> final(rotation).step
            == RotationStep::Done,
        final(rotation).step != RotationStep::Publish,
        final(rotation).compromise == old(rotation).compromise,
        final(agent).node_id == old(agent).node_id,
{
}

/// A rotation is begun only with an identity and its configuration, under the node's own keys.
pub proof fn lemma_rotation_needs_an_identity(
    agent: &GossipAgent,
    has_tls: bool,
    r: Result<RotationKeys, GossipError>,
    c: Result<[u8; 32], GossipError>,
    start: Rotation,
    compromise: bool,
)
    requires
        call_ensures(GossipAgent::rotate_identity, (agent, has_tls), r),
        call_ensures(GossipAgent::rotate_identity_on_compromise, (agent,), c),
        call_ensures(Rotation::new, (compromise,), start),
    ensures
        r is Ok <==> agent.identity is Some && has_tls,
        r matches Ok(k) ==> k.identity@ == "sys/identity/"@ + agent.node_id@.text() && k.proof@
            == "sys/identity-proof/"@ + agent.node_id@.text(),
        c is Ok <==> agent.identity is Some,
        c matches Ok(p) ==> p@ == ed25519_public((agent.identity->0)@),
        start.step == RotationStep::Publish && start.compromise == compromise,
{
}

/// A policy of who may use a capability is written only where it was committed, under the
/// capability's own key.
pub proof fn lemma_capability_policy_needs_a_commit(
    agent: &GossipAgent,
    ns: &str,
    name: &str,
    policy: Vec<u8>,
    result: &ConsensusResult,
    r: Option<(String, Vec<u8>)>,
    d: (String, Vec<u8>),
)
    requires
        call_ensures(GossipAgent::set_capability_authz_via_consensus, (agent, ns, name, policy, result), r),
        call_ensures(GossipAgent::set_capability_authz, (agent, ns, name, policy), d),
    ensures
        r is Some <==> *result is Committed,
        r matches Some((k, v)) ==> k@ == d.0@ && v == policy,
        d.0@ == "sys/capauthz/"@ + ns@ + "/"@ + name@,
        d.1 == policy,
{
    reveal_strlit("/");
    assert(d.0@ =~= "sys/capauthz/"@ + ns@ + "/"@ + name@);
}

/// A payload is migrated only where it reads as JSON; a path that is missing is counted, and nothing
/// else of the agent changes.
pub proof fn lemma_missing_migrations_are_counted(
    agent: &mut GossipAgent,
    payload: &[u8],
    migrated: Result<Json, MigrationError>,
    r: Result<Json, MigrationError>,
)
    requires
        call_ensures(GossipAgent::migrate_payload, (agent, payload, migrated), r),
    ensures
        json_read(payload@) is Ok ==> r == migrated,
        json_read(payload@) is Err ==> (r matches Err(e) && e is InvalidJson) && *final(agent) == *old(agent),
        old(agent).schema_mismatch < u64::MAX ==> final(agent).schema_mismatch == old(agent).schema_mismatch + if json_read(
            payload@,
        ) is Ok && (migrated matches Err(e) && e is NoMigrationPath) {
            1int
        } else {
            0
        },
        final(agent).identity == old(agent).identity && final(agent).state == old(agent).state,
{
}

/// A URL's host is what the egress policy goes by, and an empty policy lets everything out.
pub proof fn lemma_egress_goes_by_the_host(p: &EgressPolicy, url: &str, host: String, r: bool)
    requires
        call_ensures(EgressPolicy::permits_url, (p, url), r),
        call_ensures(url_host, (url,), host),
    ensures
        r <==> p.allow_hosts@.len() == 0 || exists|i: int|
            0 <= i < p.allow_hosts@.len() && (#[trigger] p.allow_hosts@[i])@ == host@,
{
    lemma_named(p.allow_hosts@, host@);
}

/// The host of a plain URL is what stands between the scheme and what follows it: the port, the
/// path, the query and the fragment are none of it, and neither is a user's name before it.
pub proof fn lemma_host_stands_between(scheme: Seq<char>, host: Seq<char>, rest: Seq<char>, url: &str, r: String)
    requires
        forall|i: int| 0 <= i < scheme.len() ==> #[trigger] scheme[i] != ':',
        host.len() > 0,
        host[0] != '[',
        forall|i: int|
            0 <= i < host.len() ==> (#[trigger] host[i]) != '/' && host[i] != '?' && host[i] != '#' && host[i] != ':'
                && host[i] != '@',
        rest.len() == 0 || rest[0] == '/' || rest[0] == '?' || rest[0] == '#',
        url@ == scheme + "://"@ + host + rest,
        call_ensures(url_host, (url,), r),
    ensures
        r@ == host,
{
    reveal_strlit("://");
    let u = url@;
    let tail = host + rest;
    assert(u =~= scheme + "://"@ + tail);
    lemma_behind_scheme(u, scheme, tail, 0);
    lemma_cut(host, rest);
    assert(crate::config::authority_of(tail) == host);
    assert(forall|i: int| 0 <= i < host.len() ==> #[trigger] host[i] != '@');
    crate::text::lemma_split_at_last_none(host, '@');
    crate::text::lemma_first_index_is(host, ':', host.len() as int);
    assert(crate::text::before_first(host, ':') =~= host);
}

proof fn lemma_behind_scheme(u: Seq<char>, scheme: Seq<char>, tail: Seq<char>, i: int)
    requires
        u == scheme + "://"@ + tail,
        forall|k: int| 0 <= k < scheme.len() ==> #[trigger] scheme[k] != ':',
        0 <= i <= scheme.len(),
    ensures
        crate::config::behind_scheme(u, i) == tail,
    decreases scheme.len() - i,
{
    reveal_strlit("://");
    let n = scheme.len() as int;
    assert(u[n] == ':' && u[n + 1] == '/' && u[n + 2] == '/');
    if i < n {
        assert(u[i] == scheme[i]);
        lemma_behind_scheme(u, scheme, tail, i + 1);
    } else {
        assert(u.subrange(n + 3, u.len() as int) =~= tail);
    }
}

proof fn lemma_cut(host: Seq<char>, rest: Seq<char>)
    requires
        forall|i: int| 0 <= i < host.len() ==> (#[trigger] host[i]) != '/' && host[i] != '?' && host[i] != '#',
        rest.len() == 0 || rest[0] == '/' || rest[0] == '?' || rest[0] == '#',
    ensures
        crate::config::authority_of(host + rest) == host,
{
    let s = host + rest;
    let n = host.len() as int;
    crate::text::lemma_first_index(s, '/');
    let a = crate::text::before_first(s, '/');
    let i = crate::text::first_index(s, '/');
    if i < n {
        assert(s[i] == host[i]);
    }
    crate::text::lemma_first_index(a, '?');
    let b = crate::text::before_first(a, '?');
    let j = crate::text::first_index(a, '?');
    if j < n {
        assert(a[j] == host[j]);
    }
    crate::text::lemma_first_index(b, '#');
    let c = crate::text::before_first(b, '#');
    let k = crate::text::first_index(b, '#');
    if k < n {
        assert(b[k] == host[k]);
    }
    if rest.len() > 0 {
        assert(s[n] == rest[0]);
        if rest[0] == '/' {
            assert(i == n);
        } else if rest[0] == '?' {
            assert(i > n);
            assert(a[n] == '?');
            assert(j == n);
        } else {
            assert(i > n && a[n] == '#');
            assert(j > n && b[n] == '#');
            assert(k == n);
        }
    }
    assert(c =~= host);
}

/// The cooldown is the one configured, at least a second, and three health checks where none is.
pub proof fn lemma_cooldown(config: &GossipConfig, r: u64)
    requires
        call_ensures(GossipConfig::membership_cooldown, (config,), r),
    ensures
        r >= 1,
        config.membership_cooldown_secs matches Some(s) ==> (s >= 1 ==> r == s),
        config.membership_cooldown_secs is None && 1 <= config.health_check_interval_secs <= 1_000_000_000_000
            ==> r == 3 * config.health_check_interval_secs,
{
}

/// The counters are told each under its own name.
#[verifier::spinoff_prover]
#[verifier::rlimit(60)]
pub proof fn lemma_counters_are_told(
    me: &NodeId,
    c: &crate::http::status::Counters,
    pct: Option<Json>,
    confidence: Option<Json>,
    r: Reply,
)
    requires
        call_ensures(crate::http::status::stats, (me, c, pct, confidence), r),
    ensures
        r.status == 200,
        r.body@.at("node_id"@) == JsonModel::Str(me@.text()),
        r.body@.at("store_entries"@) == JsonModel::Int(c.store_entries as int),
        r.body@.at("peers"@) == JsonModel::Int(c.peers as int),
        r.body@.at("dropped_frames"@) == JsonModel::Int(c.dropped_frames as int),
        r.body@.at("individual_flood_fallbacks"@) == JsonModel::Int(c.individual_flood_fallbacks as int),
        r.body@.at("task_count"@) == JsonModel::Int(c.task_count as int),
        r.body@.at("commit_conflicts"@) == JsonModel::Int(c.commit_conflicts as int),
        r.body@.at("sys_namespace_violations"@) == JsonModel::Int(c.sys_namespace_violations as int),
        r.body@.at("identity_anchor_conflicts"@) == JsonModel::Int(c.identity_anchor_conflicts as int),
        r.body@.at("cap_authz_violations"@) == JsonModel::Int(c.cap_authz_violations as int),
        r.body@.at("schema_mismatch"@) == JsonModel::Int(c.schema_mismatch as int),
        r.body@.at("rate_limited_senders"@) == JsonModel::Int(c.rate_limited_senders as int),
        r.body@.at("governed_group_conflicts"@) == JsonModel::Int(c.governed_group_conflicts as int),
        r.body@.at("capability_coverage_gaps"@) == JsonModel::Int(c.capability_coverage_gaps as int),
        r.body@.at("membership_flaps"@) == JsonModel::Int(c.membership_flaps as int),
        r.body@.at("opacity_oscillations"@) == JsonModel::Int(c.opacity_oscillations as int),
{
    assert(r.status == r@.status && r.body@ == r@.body);
    let f = r.body@->Obj_0;
    lemma_counter_names();
    assert(f.len() == 19);
    lemma_nth(f, 0);
    lemma_nth(f, 2);
    lemma_nth(f, 3);
    lemma_nth(f, 4);
    lemma_nth(f, 5);
    lemma_nth(f, 6);
    lemma_nth(f, 7);
    lemma_nth(f, 8);
    lemma_nth(f, 9);
    lemma_nth(f, 10);
    lemma_nth(f, 11);
    lemma_nth(f, 12);
    lemma_nth(f, 13);
    lemma_nth(f, 14);
    lemma_nth(f, 15);
    lemma_nth(f, 16);
}

/// What stands at a place of an object whose earlier names are others is the member of its name.
proof fn lemma_nth(f: Seq<(Seq<char>, JsonModel)>, i: int)
    requires
        0 <= i < f.len(),
        forall|l: int| 0 <= l < i ==> (#[trigger] f[l]).0 != f[i].0,
    ensures
        JsonModel::Obj(f).at(f[i].0) == f[i].1,
{
    lemma_nth_from(f, i, 0);
}

proof fn lemma_nth_from(f: Seq<(Seq<char>, JsonModel)>, i: int, k: int)
    requires
        0 <= k <= i < f.len(),
        forall|l: int| 0 <= l < i ==> (#[trigger] f[l]).0 != f[i].0,
    ensures
        member_from(f, f[i].0, k) == Some(f[i].1),
    decreases i - k,
{
    if k < i {
        lemma_nth_from(f, i, k + 1);
    }
}

/// What tells the counters' names apart: their lengths, and a letter where two are of one length.
proof fn lemma_counter_names()
    ensures
        "node_id"@.len() == 7,
        "cluster_name"@.len() == 12,
        "store_entries"@.len() == 13,
        "peers"@.len() == 5,
        "dropped_frames"@.len() == 14,
        "individual_flood_fallbacks"@.len() == 26,
        "task_count"@.len() == 10,
        "commit_conflicts"@.len() == 16 && "commit_conflicts"@[0] == 'c',
        "sys_namespace_violations"@.len() == 24 && "sys_namespace_violations"@[0] == 's',
        "identity_anchor_conflicts"@.len() == 25,
        "cap_authz_violations"@.len() == 20 && "cap_authz_violations"@[0] == 'c',
        "schema_mismatch"@.len() == 15 && "schema_mismatch"@[0] == 's',
        "rate_limited_senders"@.len() == 20 && "rate_limited_senders"@[0] == 'r',
        "governed_group_conflicts"@.len() == 24 && "governed_group_conflicts"@[0] == 'g',
        "capability_coverage_gaps"@.len() == 24 && "capability_coverage_gaps"@[0] == 'c',
        "membership_flaps"@.len() == 16 && "membership_flaps"@[0] == 'm',
        "opacity_oscillations"@.len() == 20 && "opacity_oscillations"@[0] == 'o',
        "opaque_node_pct"@.len() == 15 && "opaque_node_pct"@[0] == 'o',
        "view_confidence"@.len() == 15 && "view_confidence"@[0] == 'v',
{
    reveal_strlit("node_id");
    reveal_strlit("cluster_name");
    reveal_strlit("store_entries");
    reveal_strlit("peers");
    reveal_strlit("dropped_frames");
    reveal_strlit("individual_flood_fallbacks");
    reveal_strlit("task_count");
    reveal_strlit("commit_conflicts");
    reveal_strlit("sys_namespace_violations");
    reveal_strlit("identity_anchor_conflicts");
    reveal_strlit("cap_authz_violations");
    reveal_strlit("schema_mismatch");
    reveal_strlit("rate_limited_senders");
    reveal_strlit("governed_group_conflicts");
    reveal_strlit("capability_coverage_gaps");
    reveal_strlit("membership_flaps");
    reveal_strlit("opacity_oscillations");
    reveal_strlit("opaque_node_pct");
    reveal_strlit("view_confidence");
}

/// A bulk transfer is found by its hexadecimal number, with or without the mark before it; a
/// published intent is told with its key.
pub proof fn lemma_bulk_numbers(n: u64, plain: &str, marked: &str, a: Option<u64>, b: Option<u64>, taken: bool, key: &str, p: Reply, t: Reply)
    requires
        plain@ == crate::numeral::hex16(n),
        marked@ == "0x"@ + crate::numeral::hex16(n),
        call_ensures(crate::http::status::bulk_nonce, (plain,), a),
        call_ensures(crate::http::status::bulk_nonce, (marked,), b),
        call_ensures(crate::http::govern::published, (taken, key), p),
        call_ensures(crate::http::govern::timing_published, (taken, key), t),
    ensures
        a == Some(n),
        b == Some(n),
        p.body@.at("ok"@) == JsonModel::Bool(taken) && p.body@.at("key"@) == JsonModel::Str(key@),
        t.body@.at("published"@) == JsonModel::Bool(taken) && t.body@.at("key"@) == JsonModel::Str(key@),
{
    reveal_strlit("0x");
    let h = crate::numeral::hex16(n);
    crate::numeral::lemma_hex16_parses(n);
    lemma_hex_has_no_mark(n);
    reveal_with_fuel(crate::http::status::without_prefixes, 2);
    assert(h.subrange(0, 2)[1] == h[1]);
    assert("0x"@[1] == 'x' && "0x"@.len() == 2);
    assert(!crate::text::has_prefix(h, "0x"@));
    assert(crate::http::status::without_prefixes(h, "0x"@) == h);
    assert(marked@.subrange(0, 2) =~= "0x"@);
    assert(marked@.subrange(2, marked@.len() as int) =~= h);
    assert(crate::http::status::without_prefixes(marked@, "0x"@) == h);
    assert(p.body@ == p@.body && t.body@ == t@.body);
    reveal_with_fuel(member_from, 3);
    reveal_strlit("ok");
    reveal_strlit("key");
    reveal_strlit("published");
    assert("ok"@.len() == 2 && "key"@.len() == 3 && "published"@.len() == 9);
}

proof fn lemma_hex_has_no_mark(n: u64)
    ensures
        crate::numeral::hex16(n).len() == 16,
        crate::numeral::hex16(n)[1] != 'x',
{
    crate::numeral::lemma_hex16_parses(n);
    let h = crate::numeral::hex16(n);
    lemma_hex_digit(n as nat, 16, 1);
}

proof fn lemma_hex_digit(n: nat, w: nat, i: int)
    requires
        0 <= i < w,
    ensures
        crate::numeral::hex_fixed(n, w).len() == w,
        crate::numeral::hex_fixed(n, w)[i] != 'x',
    decreases w,
{
    if i < w - 1 {
        lemma_hex_digit(n / 16, (w - 1) as nat, i);
    } else {
        lemma_hex_len(n / 16, (w - 1) as nat);
        crate::numeral::lemma_digit(n % 16, 16);
        let d = n % 16;
        assert(crate::numeral::digit_char(d) != 'x');
    }
}

proof fn lemma_hex_len(n: nat, w: nat)
    ensures
        crate::numeral::hex_fixed(n, w).len() == w,
    decreases w,
{
    if w > 0 {
        lemma_hex_len(n / 16, (w - 1) as nat);
    }
}

/// An agent tells the policy it was given, and nothing before it was given one; a revocation log
/// that is empty has no head.
pub proof fn lemma_agent_tells_what_it_has(
    agent: &mut GossipAgent,
    revision: &str,
    r: Option<String>,
    fresh: &GossipAgent,
    none: Option<String>,
    root: &[u8; 32],
    count: usize,
    head: Option<(String, usize)>,
    e: &EgressPolicy,
)
    requires
        call_ensures(GossipAgent::set_deployed_policy_revision, (agent, revision), ()),
        call_ensures(GossipAgent::deployed_policy_revision, (&*final(agent),), r),
        fresh.policy_revision is None,
        call_ensures(GossipAgent::deployed_policy_revision, (fresh,), none),
        call_ensures(GossipAgent::revocation_head, (fresh, root, count), head),
        call_ensures(GossipAgent::egress_policy, (fresh,), e),
    ensures
        r is Some && (r->0)@ == revision@,
        none is None,
        head is None <==> count == 0,
        head matches Some((h, n)) ==> h@ == hex_of(root@) && n == count,
        *e == fresh.config.egress,
        final(agent).identity == old(agent).identity && final(agent).state == old(agent).state,
{
}

/// The least power of two that is not below a number: one, or the double of one that is too small.
pub proof fn lemma_least_power_of_two(n: usize, r: usize)
    requires
        n <= usize::MAX / 2 + 1,
        call_ensures(next_power_of_two, (n,), r),
    ensures
        r >= n,
        r >= 1,
        r > 1 ==> r % 2 == 0 && r / 2 < n,
{
    if r > 1 {
        assert(crate::agent::is_power_of_two(r as int / 2));
        if r / 2 >= n {
            assert(crate::agent::is_power_of_two(r as int / 2) && r as int / 2 >= n);
        }
    }
}

/// The steps of a rotation come one after the other.
pub proof fn lemma_rotation_steps(agent: &mut GossipAgent, rotation: &mut Rotation, seed: &[u8; 32], r: RotationStep)
    requires
        call_ensures(GossipAgent::advance_rotation, (agent, rotation, seed), r),
    ensures
        old(rotation).step == RotationStep::Publish ==> final(rotation).step == RotationStep::Prove,
        old(rotation).step == RotationStep::Prove ==> final(rotation).step == RotationStep::Seal,
        old(rotation).step == RotationStep::Seal ==> final(rotation).step == RotationStep::Wait,
        old(rotation).step == RotationStep::Wait ==> final(rotation).step == RotationStep::CutOver,
        old(rotation).step == RotationStep::Revoke || old(rotation).step == RotationStep::Done ==> final(rotation).step
            == RotationStep::Done,
{
}

/// Neither a user's name before the host nor a port behind it is part of the host.
pub proof fn lemma_host_without_user_and_port(
    scheme: Seq<char>,
    user: Seq<char>,
    host: Seq<char>,
    port: Seq<char>,
    rest: Seq<char>,
    url: &str,
    r: String,
)
    requires
        forall|i: int| 0 <= i < scheme.len() ==> #[trigger] scheme[i] != ':',
        host.len() > 0,
        host[0] != '[',
        forall|i: int|
            0 <= i < host.len() ==> (#[trigger] host[i]) != '/' && host[i] != '?' && host[i] != '#' && host[i] != ':'
                && host[i] != '@',
        forall|i: int|
            0 <= i < user.len() ==> (#[trigger] user[i]) != '/' && user[i] != '?' && user[i] != '#',
        forall|i: int|
            0 <= i < port.len() ==> (#[trigger] port[i]) != '/' && port[i] != '?' && port[i] != '#' && port[i] != '@',
        rest.len() == 0 || rest[0] == '/' || rest[0] == '?' || rest[0] == '#',
        url@ == scheme + "://"@ + user + "@"@ + host + ":"@ + port + rest,
        call_ensures(url_host, (url,), r),
    ensures
        r@ == host,
{
    reveal_strlit("://");
    reveal_strlit("@");
    reveal_strlit(":");
    let u = url@;
    let place = host + seq![':'] + port;
    let authority = user + seq!['@'] + place;
    let tail = authority + rest;
    assert(u =~= scheme + "://"@ + tail);
    lemma_behind_scheme(u, scheme, tail, 0);
    assert forall|i: int| 0 <= i < authority.len() implies (#[trigger] authority[i]) != '/' && authority[i] != '?'
        && authority[i] != '#' by {
        if i < user.len() {
            assert(authority[i] == user[i]);
        } else if i > user.len() {
            assert(authority[i] == place[i - user.len() - 1]);
            let k = i - user.len() - 1;
            if k < host.len() {
                assert(place[k] == host[k]);
            } else if k > host.len() {
                assert(place[k] == port[k - host.len() - 1]);
            }
        }
    }
    lemma_cut(authority, rest);
    assert(!place.contains('@')) by {
        if place.contains('@') {
            let k = choose|k: int| 0 <= k < place.len() && place[k] == '@';
            if k < host.len() {
                assert(place[k] == host[k]);
            } else if k > host.len() {
                assert(place[k] == port[k - host.len() - 1]);
            }
        }
    }
    crate::text::lemma_split_at_last_of_joined(user, '@', place);
    assert(place[host.len() as int] == ':');
    assert forall|j: int| 0 <= j < host.len() implies place[j] != ':' by {
        assert(place[j] == host[j]);
    }
    crate::text::lemma_first_index_is(place, ':', host.len() as int);
    assert(crate::text::before_first(place, ':') =~= host);
    assert(place[0] == host[0]);
}

/// A tuning request is taken exactly where it sets something, every directive names a known
/// parameter and no unknown direction, and the target, where it names one, is a node.
pub proof fn lemma_tuning_request_is_taken(body: &Json, known: &Vec<String>, r: Result<GovernIntent, Reply>)
    requires
        call_ensures(govern_tuning, (body, known), r),
    ensures
        r is Ok <==> {
            &&& body@.at("enabled"@) is Bool || (body@.at("params"@) matches JsonModel::Arr(v) && v.len() > 0)
            &&& body@.at("params"@) matches JsonModel::Arr(v) ==> forall|k: int|
                0 <= k < v.len() ==> {
                    &&& (#[trigger] v[k]).at("param"@) matches JsonModel::Str(p) && exists|l: int|
                        0 <= l < known@.len() && (#[trigger] known@[l])@ == p
                    &&& v[k].at("ratchet"@) matches JsonModel::Str(s) ==> s == "up"@ || s == "down"@ || s == "off"@
                }
            &&& body@.at("target"@) matches JsonModel::Str(s) ==> node_of(s) is Some
        },
{
    if body@.at("params"@) is Arr {
        let v = body@.at("params"@)->Arr_0;
        let n = texts(known@);
        lemma_directives(v, n, v.len() as int);
        lemma_directives_all(v, n, v.len() as int);
        assert forall|k: int| 0 <= k < v.len() implies (directive_of(#[trigger] v[k], n) is Ok <==> {
            &&& v[k].at("param"@) matches JsonModel::Str(p) && exists|l: int|
                0 <= l < known@.len() && (#[trigger] known@[l])@ == p
            &&& v[k].at("ratchet"@) matches JsonModel::Str(s) ==> s == "up"@ || s == "down"@ || s == "off"@
        }) by {
            if v[k].at("param"@) is Str {
                lemma_named(known@, v[k].at("param"@)->Str_0);
            }
        }
    }
}

proof fn lemma_directives_all(v: Seq<JsonModel>, known: Seq<Seq<char>>, k: int)
    requires
        0 <= k <= v.len(),
    ensures
        directives_of(v, known, k) is Ok <==> forall|i: int| 0 <= i < k ==> directive_of(#[trigger] v[i], known) is Ok,
    decreases k,
{
    if k > 0 {
        lemma_directives_all(v, known, k - 1);
        if directives_of(v, known, k) is Err && directives_of(v, known, k - 1) is Ok {
            assert(directive_of(v[k - 1], known) is Err);
        }
    }
}

/// The least power of two not below a number is below its double and is its own; a larger one than
/// one is even, and its half is its own too.
pub proof fn lemma_powers_of_two(n: usize, r: usize, m: usize, own: usize, h: usize, half: usize)
    requires
        n <= usize::MAX / 2 + 1,
        call_ensures(next_power_of_two, (n,), r),
        m == r,
        call_ensures(next_power_of_two, (m,), own),
        h == r / 2,
        call_ensures(next_power_of_two, (h,), half),
    ensures
        r >= n,
        n >= 1 ==> r < 2 * n,
        n == 0 ==> r == 1,
        own == r,
        r > 1 ==> r % 2 == 0 && half == h,
{
    assert(crate::agent::is_power_of_two(1));
    assert(crate::agent::is_power_of_two(r as int));
    if r > 1 {
        assert(crate::agent::is_power_of_two(r as int / 2));
    }
}

/// A node has fewer than twice the shards asked for, and one where none is.
pub proof fn lemma_shards_are_the_least(node_id: NodeId, config: GossipConfig, r: GossipAgent)
    requires
        config.gossip_shards <= usize::MAX / 2 + 1,
        call_ensures(GossipAgent::new, (node_id, config), r),
    ensures
        config.gossip_shards >= 1 ==> r.n_shards < 2 * config.gossip_shards,
        config.gossip_shards == 0 ==> r.n_shards == 1,
        r.n_shards < 16 ==> r.seen_shards == 16,
        r.n_shards >= 16 ==> r.seen_shards == r.n_shards,
{
    assert(crate::agent::is_power_of_two(1));
    assert(crate::agent::is_power_of_two(r.n_shards as int));
    if r.n_shards > 1 {
        assert(crate::agent::is_power_of_two(r.n_shards as int / 2));
    }
}

/// A revocation that a node makes verifies under the key it signs with, and states the reason it was
/// given; one made without a reason has none and is otherwise the same.
pub proof fn lemma_own_revocation_verifies(
    agent: &GossipAgent,
    p: Option<[u8; 32]>,
    revoked: [u8; 32],
    reason: Option<String>,
    hlc: u64,
    r: Result<(String, SignedRevocation), GossipError>,
    r_ok: bool,
    plain: Result<(String, SignedRevocation), GossipError>,
    plain_ok: bool,
)
    requires
        call_ensures(GossipAgent::identity_public_key, (agent,), p),
        call_ensures(GossipAgent::revoke_key, (agent, revoked, reason, hlc), r),
        call_ensures(GossipAgent::revoke_identity_key, (agent, revoked, hlc), plain),
        p is Some,
        r is Ok ==> call_ensures(SignedRevocation::verify, (&(r->Ok_0).1, &(p->0)), r_ok),
        plain is Ok ==> call_ensures(SignedRevocation::verify, (&(plain->Ok_0).1, &(p->0)), plain_ok),
    ensures
        r is Ok && plain is Ok,
        r_ok && plain_ok,
        reason matches Some(t) ==> (r->Ok_0).1.event.reason is Some && ((r->Ok_0).1.event.reason->0)@ == t@,
        reason is None ==> (r->Ok_0).1.event.reason is None,
        (plain->Ok_0).1.event.reason is None,
        (plain->Ok_0).0@ == (r->Ok_0).0@,
        (plain->Ok_0).1.event.node_id@ == agent.node_id@,
        (plain->Ok_0).1.event.hlc == hlc,
        (plain->Ok_0).1.event.revoked_key@ == revoked@,
{
    let a = (r->Ok_0).1.event@;
    let b = (plain->Ok_0).1.event@;
    assert(a.reason is Some == reason is Some);
    assert(b.reason is None);
    assert(b.node == agent.node_id@ && b.hlc == hlc && b.revoked_key == revoked@);
}

/// A node without an identity revokes nothing.
pub proof fn lemma_no_identity_no_revocation(
    agent: &GossipAgent,
    revoked: [u8; 32],
    hlc: u64,
    r: Result<(String, SignedRevocation), GossipError>,
)
    requires
        call_ensures(GossipAgent::revoke_identity_key, (agent, revoked, hlc), r),
    ensures
        r is Ok <==> agent.identity is Some,
{
}

/// What cannot be read as a migration's input is refused with the same words, whatever the chain
/// said of it, and counts nothing.
pub proof fn lemma_unreadable_payload_is_not_migrated(
    agent: &mut GossipAgent,
    payload: &[u8],
    input: Result<Json, MigrationError>,
    migrated: Result<Json, MigrationError>,
    r: Result<Json, MigrationError>,
)
    requires
        call_ensures(GossipAgent::migration_input, (&*old(agent), payload), input),
        call_ensures(GossipAgent::migrate_payload, (agent, payload, migrated), r),
    ensures
        input matches Err(e) ==> {
            &&& e matches MigrationError::InvalidJson(t) && r matches Err(MigrationError::InvalidJson(u)) && t@ == u@
            &&& *final(agent) == *old(agent)
        },
        input is Ok ==> r == migrated,
        input matches Ok(j) ==> json_read(payload@) == Ok::<JsonModel, Seq<char>>(j@),
{
}

/// A node says in words whether it is ready.
pub proof fn lemma_readiness_in_words(me: &NodeId, started: bool, r: Reply)
    requires
        call_ensures(ready, (me, started), r),
    ensures
        started ==> r.body@.at("status"@) == JsonModel::Str("ready"@),
        !started ==> r.body@.at("status"@) == JsonModel::Str("starting"@),
{
    assert(r.body@ == r@.body);
    reveal_with_fuel(member_from, 3);
    reveal_strlit("status");
    reveal_strlit("node_id");
    assert("status"@.len() == 6 && "node_id"@.len() == 7);
}

} // verus!

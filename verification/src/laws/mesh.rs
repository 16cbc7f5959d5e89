//! Laws of the mesh's messages: values, signals, calls, answers, mailboxes.
use vstd::prelude::*;
use vstd::bytes::*;
use vstd::utf8::*;

use crate::b64::{base64_bytes, base64_text};
use crate::http::kv::{
    consistent_get, consistent_set, keys_with, kv_get, kv_keys, kv_quorum, kv_set, quorum_reply, QuorumStart, Write,
};
use crate::http::mesh::{
    emit_reliable, emitted, gateway_signal_event, mailbox_deliver, mailbox_event, named_nodes, parse_scope,
    reliable_reply, rpc_call, rpc_call_reply, rpc_serve_event, scatter, signal_emit, signal_event, Call, Delivery, Emit,
    Gather, Response, Scatter, SignalScope,
};
use crate::http::reply::Reply;
use crate::json::{json_bytes, member_from, Json, JsonModel};
use crate::keys::{lemma_after_prefix_of_joined, KvEntry};
use crate::laws::{increasing, lemma_pushed};
use crate::mailbox::{
    decode_value, deliver_event, drain_chunk, encode_value, lemma_key_order_is_time_order, lemma_value_round_trips,
    mailbox_key, removes, value_parts, DrainStep, MeshEvent,
};
use crate::node_id::{lemma_node_text_parses, node_of, nodes, valid_host, NodeId};
use crate::numeral::{hex16, lemma_hex16_parses};
use crate::rpc::{
    after_nonce, call_payload, claims_reply, outgoing, receive, reply_outcome, respond_json, rpc_respond, Frame, Outgoing,
    Receive, RpcError, RpcRequest, Signal,
};
use crate::wire::number_at;

verus! {

/// A read tells a value that is there, and tells that there is none; the consistent read gives the
/// committed value before the plain one.
pub proof fn lemma_reads_tell_what_is_there(
    value: Option<&[u8]>,
    plain: Option<&[u8]>,
    r: Reply,
    c: Reply,
)
    requires
        call_ensures(kv_get, (value,), r),
        call_ensures(consistent_get, (value, plain), c),
    ensures
        r.status == 200 && c.status == 200,
        r.body@.at("found"@) == JsonModel::Bool(value is Some),
        value matches Some(v) ==> r.body@.at("value_b64"@) == JsonModel::Str(base64_text(v@)) && c.body@.at("value_b64"@)
            == JsonModel::Str(base64_text(v@)) && c.body@.at("found"@) == JsonModel::Bool(true),
        value is None ==> (plain matches Some(v) ==> c.body@.at("value_b64"@) == JsonModel::Str(base64_text(v@))
            && c.body@.at("found"@) == JsonModel::Bool(true)),
        value is None && plain is None ==> c.body@.at("found"@) == JsonModel::Bool(false) && c.body@.member("value_b64"@)
            is None,
{
    assert(r.status == r@.status && r.body@ == r@.body);
    assert(c.status == c@.status && c.body@ == c@.body);
    reveal_with_fuel(member_from, 3);
    reveal_strlit("found");
    reveal_strlit("value_b64");
    assert("found"@.len() == 5 && "value_b64"@.len() == 9);
}

/// A write is the request's own key and value; without a key, or with a value that is not base64,
/// nothing is written.
pub proof fn lemma_writes_are_the_requests(body: &Json, r: Result<Write, Reply>, c: Result<Write, Reply>)
    requires
        call_ensures(kv_set, (body,), r),
        call_ensures(consistent_set, (body,), c),
    ensures
        r is Ok <==> body@.at("key"@) is Str && (body@.at("value_b64"@) matches JsonModel::Str(t) ==> base64_bytes(t)
            is Some),
        c is Ok <==> r is Ok,
        r matches Ok(w) ==> body@.at("key"@) == JsonModel::Str(w.key@) && (body@.at("value_b64"@) matches
            JsonModel::Str(t) ==> base64_bytes(t) == Some(w.value@)) && (!(body@.at("value_b64"@) is Str)
            ==> w.value@.len() == 0),
        c matches Ok(w) ==> body@.at("key"@) == JsonModel::Str(w.key@) && (body@.at("value_b64"@) matches
            JsonModel::Str(t) ==> base64_bytes(t) == Some(w.value@)),
        r matches Err(e) ==> e.status == 400,
{
    if r is Err {
        assert(r->Err_0.status == r->Err_0@.status);
    }
}

/// The keys listed are those that begin with the prefix asked for, all of them where none is, in
/// their order.
pub proof fn lemma_keys_by_prefix(kv: &Vec<KvEntry>, prefix: Option<&str>, r: Reply)
    requires
        call_ensures(kv_keys, (kv, prefix), r),
    ensures
        r.status == 200,
        r.body@.at("keys"@) is Arr,
        exists|idx: Seq<int>|
            {
                let out = r.body@.at("keys"@)->Arr_0;
                &&& #[trigger] increasing(idx)
                &&& idx.len() == out.len()
                &&& forall|j: int|
                    0 <= j < idx.len() ==> 0 <= #[trigger] idx[j] < kv@.len() && out[j] == JsonModel::Str(
                        kv@[idx[j]].key@,
                    )
                &&& forall|i: int|
                    0 <= i < kv@.len() ==> (#[trigger] idx.contains(i) <==> (prefix matches Some(p)
                        ==> kv@[i].key@.len() >= p@.len() && kv@[i].key@.subrange(0, p@.len() as int) == p@))
            },
{
    assert(r.status == r@.status && r.body@ == r@.body);
    let p = match prefix {
        Some(p) => Some(p@),
        None => None,
    };
    reveal_with_fuel(member_from, 2);
    let idx = lemma_key_positions(kv@, p, kv@.len() as int);
    assert(increasing(idx));
}

proof fn lemma_key_positions(kv: Seq<KvEntry>, prefix: Option<Seq<char>>, k: int) -> (idx: Seq<int>)
    requires
        0 <= k <= kv.len(),
    ensures
        increasing(idx),
        idx.len() == keys_with(kv, prefix, k).len(),
        forall|j: int|
            0 <= j < idx.len() ==> 0 <= #[trigger] idx[j] < k && keys_with(kv, prefix, k)[j] == kv[idx[j]].key@,
        forall|i: int|
            0 <= i < k ==> (#[trigger] idx.contains(i) <==> (prefix matches Some(p) ==> kv[i].key@.len() >= p.len()
                && kv[i].key@.subrange(0, p.len() as int) == p)),
    decreases k,
{
    if k <= 0 {
        Seq::empty()
    } else {
        let front = lemma_key_positions(kv, prefix, k - 1);
        let kept = !(prefix matches Some(p) && !crate::text::has_prefix(kv[k - 1].key@, p));
        let idx = if kept {
            front.push(k - 1)
        } else {
            front
        };
        lemma_pushed(front, k - 1, kept, idx);
        idx
    }
}

/// A quorum write is tracked where acknowledgements are asked for and answered at once where none
/// are, with the value that was sent; its end tells how many there were.
pub proof fn lemma_quorum_writes(value_b64: &str, timeout_valid: bool, min_acks: usize, r: QuorumStart)
    requires
        call_ensures(kv_quorum, (value_b64, timeout_valid, min_acks), r),
    ensures
        r is Refuse <==> base64_bytes(value_b64@) is None || !timeout_valid,
        r is Track <==> base64_bytes(value_b64@) is Some && timeout_valid && min_acks > 0,
        r matches QuorumStart::Track { value } ==> base64_bytes(value_b64@) == Some(value@),
        r matches QuorumStart::WriteOnly { value, reply } ==> base64_bytes(value_b64@) == Some(value@)
            && reply.status == 200 && min_acks == 0,
        r matches QuorumStart::Refuse(e) ==> e.status == 400,
{
    match r {
        QuorumStart::Refuse(e) => {
            assert(e.status == e@.status);
        },
        QuorumStart::WriteOnly { value, reply } => {
            assert(reply.status == reply@.status);
        },
        _ => {},
    }
}

/// A quorum's answer says whether it was met and with how many.
pub proof fn lemma_quorum_is_told(acks: usize, timed_out: bool, r: Reply)
    requires
        call_ensures(quorum_reply, (acks, timed_out), r),
    ensures
        r.body@.at("ok"@) == JsonModel::Bool(!timed_out),
        r.body@.at("acks_received"@) == JsonModel::Int(acks as int),
{
    assert(r.body@ == r@.body);
    reveal_with_fuel(member_from, 4);
    reveal_strlit("ok");
    reveal_strlit("error");
    reveal_strlit("acks_received");
    assert("ok"@.len() == 2 && "error"@.len() == 5 && "acks_received"@.len() == 13);
}

/// A signal goes to whom its scope names: the cluster only by its own two words, a group and a node
/// only by their prefixes; a scope that names nothing goes nowhere.
pub proof fn lemma_scopes_name_their_targets(s: &str, r: Result<SignalScope, &'static str>)
    requires
        call_ensures(parse_scope, (s,), r),
    ensures
        r == Ok::<SignalScope, &'static str>(SignalScope::Cluster) ==> s@ == "cluster"@ || s@ == "system"@,
        s@ == "cluster"@ || s@ == "system"@ ==> (r matches Ok(v) && v is Cluster),
        r matches Ok(SignalScope::Group(g)) ==> s@ == "group:"@ + g@,
        r matches Ok(SignalScope::Individual(n)) ==> s@.len() > 5 && s@.subrange(0, 5) == "node:"@ && node_of(
            s@.subrange(5, s@.len() as int),
        ) == Some(n@),
        forall|g: Seq<char>| s@ == #[trigger] ("group:"@ + g) ==> (r matches Ok(SignalScope::Group(h)) && h@ == g),
        forall|n: crate::node_id::NodeModel|
            s@ == "node:"@ + #[trigger] n.text() && valid_host(n.host) ==> (r matches Ok(SignalScope::Individual(m))
                && m@ == n),
{
    reveal_strlit("cluster");
    reveal_strlit("system");
    reveal_strlit("group:");
    reveal_strlit("node:");
    if r matches Ok(SignalScope::Group(g)) {
        assert(s@ =~= "group:"@ + (r->Ok_0->Group_0)@);
    }
    if r matches Ok(SignalScope::Individual(n)) {
        let rest = s@.subrange(5, s@.len() as int);
        if rest.len() == 0 {
            assert(crate::text::split_at_last(rest, ':') is None);
        }
    }
    assert forall|g: Seq<char>| s@ == #[trigger] ("group:"@ + g) implies (r matches Ok(SignalScope::Group(h)) && h@
        == g) by {
        lemma_after_prefix_of_joined("group:"@, g);
        assert(s@[0] == 'g');
    }
    assert forall|n: crate::node_id::NodeModel|
        s@ == "node:"@ + #[trigger] n.text() && valid_host(n.host) implies (r matches Ok(SignalScope::Individual(m))
        && m@ == n) by {
        lemma_after_prefix_of_joined("node:"@, n.text());
        lemma_node_text_parses(n);
        assert(s@[0] == 'n');
    }
}

/// An emitted signal is the request's kind, payload and scope, the cluster where it names none; a
/// request that names no kind, no scope there is, or no base64, emits nothing.
pub proof fn lemma_emitted_signal_is_the_request(
    body: &Json,
    scope: &str,
    parsed: Result<SignalScope, &'static str>,
    r: Result<Emit, Reply>,
)
    requires
        call_ensures(signal_emit, (body,), r),
        match body@.at("scope"@) {
            JsonModel::Str(s) => scope@ == s,
            _ => scope@ == "cluster"@,
        },
        call_ensures(parse_scope, (scope,), parsed),
    ensures
        r matches Ok(e) ==> {
            &&& body@.at("kind"@) == JsonModel::Str(e.kind@)
            &&& parsed matches Ok(v) && v@ == e.scope@
            &&& body@.at("payload_b64"@) matches JsonModel::Str(t) ==> base64_bytes(t) == Some(e.payload@)
            &&& !(body@.at("payload_b64"@) is Str) ==> e.payload@.len() == 0
        },
        r is Ok <==> body@.at("kind"@) is Str && parsed is Ok && (body@.at("payload_b64"@) matches JsonModel::Str(t)
            ==> base64_bytes(t) is Some),
        r matches Err(e) ==> e.status == 400,
{
    if r is Err {
        assert(r->Err_0.status == r->Err_0@.status);
    }
}

/// What a listener is told of a signal: its sender, its payload and its nonce, each its own.
pub proof fn lemma_listeners_hear_the_signal(s: &Signal, nonce: u64, taken: bool, a: Json, b: Json, e: Reply)
    requires
        call_ensures(signal_event, (s,), a),
        call_ensures(gateway_signal_event, (s, nonce), b),
        call_ensures(emitted, (taken,), e),
    ensures
        a@.at("sender"@) == JsonModel::Str(s.sender@.text()),
        a@.at("payload"@) == JsonModel::Str(base64_text(s.payload@)),
        b@.at("sender"@) == JsonModel::Str(s.sender@.text()),
        b@.at("payload_b64"@) == JsonModel::Str(base64_text(s.payload@)),
        b@.at("nonce"@) == JsonModel::Int(nonce as int),
        e.body@.at("ok"@) == JsonModel::Bool(taken),
{
    assert(e.body@ == e@.body);
    reveal_with_fuel(member_from, 4);
    reveal_strlit("sender");
    reveal_strlit("payload");
    reveal_strlit("payload_b64");
    reveal_strlit("nonce");
    assert("sender"@.len() == 6 && "payload"@.len() == 7 && "payload_b64"@.len() == 11 && "nonce"@.len() == 5);
}

/// A call goes to the node, by the method and with the payload that the request names, and waits
/// between a second and five minutes, half a minute where nothing is asked for.
pub proof fn lemma_call_is_the_request(body: &Json, r: Result<Call, Reply>)
    requires
        call_ensures(rpc_call, (body,), r),
    ensures
        r matches Ok(c) ==> {
            &&& body@.at("target"@) is Str && node_of(body@.at("target"@)->Str_0) == Some(c.target@)
            &&& body@.at("method"@) == JsonModel::Str(c.method@)
            &&& body@.at("payload_b64"@) matches JsonModel::Str(t) ==> base64_bytes(t) == Some(c.payload@)
            &&& !(body@.at("payload_b64"@) is Str) ==> c.payload@.len() == 0
            &&& 1 <= c.timeout_secs <= 300
            &&& body@.at("timeout_secs"@) matches JsonModel::Int(n) ==> (1 <= n <= 300 ==> c.timeout_secs == n) && (n
                > 300 ==> c.timeout_secs == 300)
            &&& body@.at("timeout_secs"@) is Null ==> c.timeout_secs == 30
        },
        r is Ok <==> body@.at("target"@) is Str && node_of(body@.at("target"@)->Str_0) is Some && body@.at("method"@)
            is Str && (body@.at("payload_b64"@) matches JsonModel::Str(t) ==> base64_bytes(t) is Some),
        r matches Err(e) ==> e.status == 400,
{
    if r is Err {
        assert(r->Err_0.status == r->Err_0@.status);
    }
}

/// A call's answer is the bytes that came back, and a timeout where none did.
pub proof fn lemma_call_answer(result: Option<&[u8]>, r: Reply)
    requires
        call_ensures(rpc_call_reply, (result,), r),
    ensures
        r.status == 200 <==> result is Some,
        result matches Some(b) ==> r.body@.at("result_b64"@) == JsonModel::Str(base64_text(b@)),
        result is None ==> r.status == 504,
{
    assert(r.status == r@.status && r.body@ == r@.body);
    reveal_with_fuel(member_from, 3);
    reveal_strlit("ok");
    reveal_strlit("result_b64");
    assert("ok"@.len() == 2 && "result_b64"@.len() == 10);
}

/// What a server is told of a call is enough to answer it: answering with the sender and nonce it
/// was told goes back to that sender, begins with the caller's nonce and carries the result.
pub proof fn lemma_served_call_can_be_answered(
    s: &Signal,
    told: Option<Json>,
    body: &Json,
    r: Result<Response, Reply>,
)
    requires
        call_ensures(rpc_serve_event, (s,), told),
        told is Some,
        body@.at("nonce_hex"@) == (told->0)@.at("nonce_hex"@),
        body@.at("sender"@) == (told->0)@.at("sender"@),
        valid_host(s.sender@.host),
        body@.at("result_b64"@) is Str,
        base64_bytes(body@.at("result_b64"@)->Str_0) is Some,
        call_ensures(crate::http::mesh::rpc_respond, (body,), r),
    ensures
        r matches Ok(a) && a.target@ == s.sender@ && a.payload@ == spec_u64_to_le_bytes(number_at(s.payload@, 0))
            + base64_bytes(body@.at("result_b64"@)->Str_0)->0,
        s.payload@.len() >= 8,
        (told->0)@.at("payload_b64"@) == JsonModel::Str(base64_text(s.payload@.skip(8))),
{
    reveal_with_fuel(member_from, 4);
    reveal_strlit("nonce_hex");
    reveal_strlit("sender");
    reveal_strlit("payload_b64");
    assert("nonce_hex"@.len() == 9 && "sender"@.len() == 6 && "payload_b64"@.len() == 11);
    let n = number_at(s.payload@, 0);
    assert((told->0)@.at("nonce_hex"@) == JsonModel::Str(hex16(n)));
    assert((told->0)@.at("sender"@) == JsonModel::Str(s.sender@.text()));
    lemma_hex16_parses(n);
    lemma_node_text_parses(s.sender@);
}

/// A call is scattered to the nodes that the request lists, those of them that are nodes, in order.
pub proof fn lemma_scattered_to_the_listed(body: &Json, r: Result<Scatter, Reply>)
    requires
        call_ensures(scatter, (body,), r),
    ensures
        r is Ok <==> body@.at("targets"@) is Arr && body@.at("method"@) is Str && (body@.at("payload_b64"@) matches
            JsonModel::Str(t) ==> base64_bytes(t) is Some),
        r matches Ok(s) ==> {
            &&& body@.at("method"@) == JsonModel::Str(s.method@)
            &&& body@.at("payload_b64"@) matches JsonModel::Str(t) ==> base64_bytes(t) == Some(s.payload@)
            &&& 1 <= s.timeout_secs <= 300
            &&& body@.at("timeout_secs"@) matches JsonModel::Int(n) ==> (1 <= n <= 300 ==> s.timeout_secs == n)
            &&& body@.at("timeout_secs"@) is Null ==> s.timeout_secs == 10
            &&& body@.at("min_ok"@) matches JsonModel::Int(n) ==> (n >= 0 ==> s.min_ok == n)
            &&& body@.at("min_ok"@) is Null ==> s.min_ok == 1
            &&& exists|idx: Seq<int>|
                {
                    let v = body@.at("targets"@)->Arr_0;
                    &&& #[trigger] increasing(idx)
                    &&& idx.len() == s.targets@.len()
                    &&& forall|j: int|
                        0 <= j < idx.len() ==> 0 <= #[trigger] idx[j] < v.len() && v[idx[j]] is Str && node_of(
                            v[idx[j]]->Str_0,
                        ) == Some(s.targets@[j]@)
                    &&& forall|i: int|
                        0 <= i < v.len() ==> (#[trigger] idx.contains(i) <==> v[i] is Str && node_of(v[i]->Str_0)
                            is Some)
                }
        },
{
    if r is Ok {
        let v = body@.at("targets"@)->Arr_0;
        let s = r->Ok_0;
        let idx = lemma_named_positions(v, v.len() as int);
        assert(nodes(s.targets@).len() == s.targets@.len());
        assert forall|j: int| 0 <= j < idx.len() implies 0 <= #[trigger] idx[j] < v.len() && v[idx[j]] is Str && node_of(
            v[idx[j]]->Str_0,
        ) == Some(s.targets@[j]@) by {
            assert(nodes(s.targets@)[j] == s.targets@[j]@);
        }
        assert(increasing(idx));
    }
}

proof fn lemma_named_positions(v: Seq<JsonModel>, k: int) -> (idx: Seq<int>)
    requires
        0 <= k <= v.len(),
    ensures
        increasing(idx),
        idx.len() == named_nodes(v, k).len(),
        forall|j: int|
            0 <= j < idx.len() ==> 0 <= #[trigger] idx[j] < k && v[idx[j]] is Str && node_of(v[idx[j]]->Str_0) == Some(
                named_nodes(v, k)[j],
            ),
        forall|i: int|
            0 <= i < k ==> (#[trigger] idx.contains(i) <==> v[i] is Str && node_of(v[i]->Str_0) is Some),
    decreases k,
{
    if k <= 0 {
        Seq::empty()
    } else {
        let front = lemma_named_positions(v, k - 1);
        let kept = v[k - 1] is Str && node_of(v[k - 1]->Str_0) is Some;
        let idx = if kept {
            front.push(k - 1)
        } else {
            front
        };
        lemma_pushed(front, k - 1, kept, idx);
        idx
    }
}

/// A gathering grows by each answer and by nothing else, has enough once it has as many as were
/// asked for, and tells what it has either way.
pub proof fn lemma_gathering_counts_answers(g: &mut Gather, sender: &NodeId, result: Option<&[u8]>, enough: bool)
    requires
        call_ensures(Gather::joined, (g, sender, result), enough),
    ensures
        result is None ==> !enough && crate::json::models(final(g).replies@) == crate::json::models(old(g).replies@),
        result matches Some(b) ==> {
            &&& final(g).replies@.len() == old(g).replies@.len() + 1
            &&& final(g).replies@.last()@.at("sender"@) == JsonModel::Str(sender@.text())
            &&& final(g).replies@.last()@.at("result_b64"@) == JsonModel::Str(base64_text(b@))
            &&& forall|i: int| 0 <= i < old(g).replies@.len() ==> (#[trigger] final(g).replies@[i])@ == old(g).replies@[i]@
            &&& (enough <==> final(g).replies@.len() >= final(g).min_ok)
        },
        final(g).min_ok == old(g).min_ok,
{
    let a = crate::json::models(old(g).replies@);
    let b = crate::json::models(final(g).replies@);
    assert(a.len() == old(g).replies@.len() && b.len() == final(g).replies@.len());
    reveal_with_fuel(member_from, 3);
    reveal_strlit("sender");
    reveal_strlit("result_b64");
    assert("sender"@.len() == 6 && "result_b64"@.len() == 10);
    if result is Some {
        assert(b.last() == final(g).replies@.last()@);
        assert forall|i: int| 0 <= i < old(g).replies@.len() implies (#[trigger] final(g).replies@[i])@ == old(g).replies@[i]@ by {
            assert(b[i] == final(g).replies@[i]@);
            assert(a[i] == old(g).replies@[i]@);
        }
    }
}

/// A gathering is answered in full, as a success exactly where it has enough.
pub proof fn lemma_gathering_is_answered(g: Gather, r: Reply)
    requires
        call_ensures(Gather::finish, (g,), r),
    ensures
        r.status == 200 <==> g.replies@.len() >= g.min_ok,
        r.status != 200 ==> r.status == 504,
        r.body@.at("ok"@) == JsonModel::Bool(g.replies@.len() >= g.min_ok),
        r.body@.at("replies"@) matches JsonModel::Arr(v) && v.len() == g.replies@.len() && forall|i: int|
            0 <= i < v.len() ==> v[i] == (#[trigger] g.replies@[i])@,
{
    assert(r.status == r@.status && r.body@ == r@.body);
    reveal_with_fuel(member_from, 4);
    reveal_strlit("ok");
    reveal_strlit("error");
    reveal_strlit("replies");
    assert("ok"@.len() == 2 && "error"@.len() == 5 && "replies"@.len() == 7);
}

/// A delivery goes to the node, under the kind and with the payload that the request names.
pub proof fn lemma_delivery_is_the_request(body: &Json, r: Result<Delivery, Reply>)
    requires
        call_ensures(mailbox_deliver, (body,), r),
    ensures
        r matches Ok(d) ==> {
            &&& body@.at("target"@) is Str && node_of(body@.at("target"@)->Str_0) == Some(d.target@)
            &&& body@.at("kind"@) == JsonModel::Str(d.kind@)
            &&& body@.at("payload_b64"@) matches JsonModel::Str(t) ==> base64_bytes(t) == Some(d.payload@)
            &&& !(body@.at("payload_b64"@) is Str) ==> d.payload@.len() == 0
        },
        r is Ok <==> body@.at("target"@) is Str && node_of(body@.at("target"@)->Str_0) is Some && body@.at("kind"@)
            is Str && (body@.at("payload_b64"@) matches JsonModel::Str(t) ==> base64_bytes(t) is Some),
{
}

/// A reliable signal goes to the node named, with the kind and payload given; it is answered as
/// acknowledged or as timed out.
pub proof fn lemma_reliable_signal(
    target: &str,
    kind: &str,
    payload_b64: Option<&str>,
    timeout_secs: Option<u64>,
    r: Result<Call, Reply>,
    acknowledged: bool,
    a: Reply,
)
    requires
        call_ensures(emit_reliable, (target, kind, payload_b64, timeout_secs), r),
        call_ensures(reliable_reply, (acknowledged,), a),
    ensures
        r is Ok <==> node_of(target@) is Some && (payload_b64 matches Some(t) ==> base64_bytes(t@) is Some),
        r matches Ok(c) ==> {
            &&& node_of(target@) == Some(c.target@)
            &&& c.method@ == kind@
            &&& payload_b64 matches Some(t) ==> base64_bytes(t@) == Some(c.payload@)
            &&& payload_b64 is None ==> c.payload@.len() == 0
            &&& 1 <= c.timeout_secs <= 300
            &&& timeout_secs matches Some(n) ==> (1 <= n <= 300 ==> c.timeout_secs == n)
            &&& timeout_secs is None ==> c.timeout_secs == 5
        },
        acknowledged ==> a.body@.at("ack"@) == JsonModel::Str("acknowledged"@),
        !acknowledged ==> a.body@.at("ack"@) == JsonModel::Str("timeout"@),
{
    assert(a.body@ == a@.body);
    reveal_with_fuel(member_from, 2);
}

/// What is put into a mailbox comes out of it: the sender and the payload, under the recipient's
/// own prefix; a later event lies behind an earlier one.
pub proof fn lemma_mailbox_gives_back_what_was_put(
    sender: &NodeId,
    target: &NodeId,
    kind: &str,
    payload: &[u8],
    ts: u64,
    e: KvEntry,
    bytes: &[u8],
    read: Option<(NodeId, Vec<u8>)>,
    later: u64,
    f: KvEntry,
)
    requires
        call_ensures(deliver_event, (sender, target, kind, payload, ts), e),
        bytes@ == e.value@,
        call_ensures(decode_value, (bytes,), read),
        valid_host(sender@.host),
        encode_utf8(sender@.text()).len() <= u16::MAX,
        call_ensures(deliver_event, (sender, target, kind, payload, later), f),
    ensures
        read matches Some((n, p)) && n@ == sender@ && p@ == payload@,
        e.key@ == "mailbox/"@ + target@.text() + "/"@ + kind@ + "/"@ + hex16(ts),
        ts <= later <==> crate::order::text_le(e.key@, f.key@),
{
    lemma_value_round_trips(sender@, payload@);
    lemma_key_order_is_time_order(target@, kind@, ts, later);
    reveal_strlit("/");
    assert(e.key@ =~= "mailbox/"@ + target@.text() + "/"@ + kind@ + "/"@ + hex16(ts));
}

/// Draining takes at most sixty-four entries, the first by their keys, in order; each is delivered
/// with its own sender, payload and time, and one that cannot be read is evicted. A delivered entry
/// is removed once it was taken, an evicted one at once.
pub proof fn lemma_draining_is_in_order(
    entries: Vec<KvEntry>,
    prefix: &str,
    kind: &str,
    r: (Vec<DrainStep>, Vec<KvEntry>),
    i: int,
    taken: bool,
    gone: bool,
)
    requires
        call_ensures(drain_chunk, (entries, prefix, kind), r),
        0 <= i < r.0@.len(),
        call_ensures(removes, (&r.0@[i], taken), gone),
    ensures
        r.0@.len() <= 64,
        r.0@.len() == entries@.len() || (r.0@.len() == 64 && entries@.len() > 64),
        r.1@.to_multiset() == entries@.to_multiset(),
        forall|a: int, b: int|
            #![trigger r.1@[a], r.1@[b]]
            0 <= a < b < r.1@.len() ==> crate::order::text_le(r.1@[a].key@, r.1@[b].key@),
        r.0@[i] is Evict <==> value_parts(r.1@[i].value@) is None,
        r.0@[i] matches DrainStep::Evict(k) ==> k@ == r.1@[i].key@,
        r.0@[i] matches DrainStep::Deliver(k, event) ==> {
            &&& k@ == r.1@[i].key@
            &&& event.kind@ == kind@
            &&& value_parts(r.1@[i].value@) == Some((event.sender@, event.payload@))
            &&& forall|ts: u64| r.1@[i].key@ == prefix@ + #[trigger] hex16(ts) ==> event.hlc_ts == ts
        },
        gone <==> r.0@[i] is Evict || taken,
{
    assert(crate::mailbox::step_fits(r.0@[i], r.1@[i], prefix@, kind@));
    assert forall|ts: u64|
        (r.0@[i] is Deliver && r.1@[i].key@ == prefix@ + #[trigger] hex16(ts)) implies r.0@[i]->Deliver_1.hlc_ts == ts by {
        lemma_after_prefix_of_joined(prefix@, hex16(ts));
        lemma_hex16_parses(ts);
    }
    assert forall|a: int, b: int|
        #![trigger r.1@[a], r.1@[b]]
        0 <= a < b < r.1@.len() implies crate::order::text_le(r.1@[a].key@, r.1@[b].key@) by {
        assert(crate::order::Ranked::at_or_before(&r.1@[a], &r.1@[b]));
    }
}

/// What is told of a mailbox event is the event's own.
pub proof fn lemma_mailbox_event_is_told(e: &MeshEvent, r: Json)
    requires
        call_ensures(mailbox_event, (e,), r),
    ensures
        r@.at("sender"@) == JsonModel::Str(e.sender@.text()),
        r@.at("kind"@) == JsonModel::Str(e.kind@),
        r@.at("payload_b64"@) == JsonModel::Str(base64_text(e.payload@)),
{
    reveal_with_fuel(member_from, 4);
    reveal_strlit("sender");
    reveal_strlit("kind");
    reveal_strlit("payload_b64");
    assert("sender"@.len() == 6 && "kind"@.len() == 4 && "payload_b64"@.len() == 11);
}

/// A response goes to the sender of its request and begins with the request's own nonce; a request
/// too short to hold one is not answered.
pub proof fn lemma_response_goes_back(request: &RpcRequest, result: &[u8], answer: &Json, r: Option<Outgoing>, j: Option<Outgoing>)
    requires
        call_ensures(rpc_respond, (request, result), r),
        call_ensures(respond_json, (request, answer), j),
    ensures
        r is None <==> request.signal.payload@.len() < 8,
        r matches Some(o) ==> {
            &&& o.to@ == request.signal.sender@
            &&& o.kind@ == "rpc.result"@
            &&& o.payload@.len() == 8 + result@.len()
            &&& o.payload@.subrange(0, 8) == request.signal.payload@.subrange(0, 8)
            &&& o.payload@.subrange(8, o.payload@.len() as int) == result@
        },
        j matches Some(o) ==> o.to@ == request.signal.sender@ && o.payload@.subrange(8, o.payload@.len() as int)
            == json_bytes(answer@) && o.payload@.subrange(0, 8) == request.signal.payload@.subrange(0, 8),
{
    if r is Some {
        let o = (r->0).payload@;
        assert(o.subrange(0, 8) =~= request.signal.payload@.subrange(0, 8));
        assert(o.subrange(8, o.len() as int) =~= result@);
    }
    if j is Some {
        let o = (j->0).payload@;
        assert(o.subrange(0, 8) =~= request.signal.payload@.subrange(0, 8));
        assert(o.subrange(8, o.len() as int) =~= json_bytes(answer@));
    }
}

/// An answer counts only from the node that was asked; from any other, or from nobody, the call
/// timed out. What counts is what follows the nonce.
pub proof fn lemma_only_the_target_answers(target: &NodeId, reply: Option<&Signal>, r: Result<Vec<u8>, RpcError>)
    requires
        reply matches Some(s) ==> s.payload@.len() >= 8,
        call_ensures(reply_outcome, (target, reply), r),
    ensures
        r is Ok <==> (reply matches Some(s) && s.sender@ == target@),
        r matches Ok(b) ==> b@ == (reply->0).payload@.subrange(8, (reply->0).payload@.len() as int),
        r matches Err(e) ==> e == RpcError::Timeout,
{
    if r is Ok {
        let p = (reply->0).payload@;
        assert(p.skip(8) =~= p.subrange(8, p.len() as int));
    }
}

/// A reply is claimed by the pending call whose nonce it begins with, and by none where it is of
/// another kind, too short, or of a nonce that nobody waits for.
pub proof fn lemma_replies_are_claimed_by_nonce(kind: &str, payload: &[u8], pending: &Vec<u64>, r: Option<u64>)
    requires
        call_ensures(claims_reply, (kind, payload, pending), r),
    ensures
        r matches Some(n) ==> {
            &&& kind@ == "rpc.result"@ || kind@ == "bulk.result"@
            &&& payload@.len() >= 8
            &&& n == spec_u64_from_le_bytes(payload@.subrange(0, 8))
            &&& exists|i: int| 0 <= i < pending@.len() && #[trigger] pending@[i] == n
        },
        (kind@ == "rpc.result"@ || kind@ == "bulk.result"@) && payload@.len() >= 8 && (exists|i: int|
            0 <= i < pending@.len() && #[trigger] pending@[i] == spec_u64_from_le_bytes(payload@.subrange(0, 8)))
            ==> r is Some,
{
}

/// A call's payload is its nonce and then its own; what follows the nonce is read back.
pub proof fn lemma_nonce_comes_first(nonce: u64, payload: &[u8], framed: Vec<u8>, bytes: &[u8], back: Vec<u8>)
    requires
        call_ensures(call_payload, (nonce, payload), framed),
        bytes@ == framed@,
        call_ensures(after_nonce, (bytes,), back),
    ensures
        framed@ == spec_u64_to_le_bytes(nonce) + payload@,
        back@ == payload@,
        number_at(framed@, 0) == nonce,
{
    crate::wire::lemma_number_reads_back(Seq::empty(), nonce, payload@);
    assert(Seq::<u8>::empty() + spec_u64_to_le_bytes(nonce) + payload@ =~= framed@);
    assert(framed@.skip(8) =~= payload@);
}

/// A call is framed with its caller's context exactly where the target promised to read it.
pub proof fn lemma_context_goes_to_who_promised(promises: bool, payload: Vec<u8>, framed: Vec<u8>, r: Vec<u8>)
    requires
        call_ensures(outgoing, (promises, payload, framed), r),
    ensures
        promises ==> r@ == framed@,
        !promises ==> r@ == payload@,
{
}

/// What a request holds: its own payload whether framed or not, nothing where its frame is broken,
/// and a caller's context wherever it is framed at all.
pub proof fn lemma_request_holds_its_payload(q: &RpcRequest, p: Vec<u8>, framed: bool)
    requires
        call_ensures(RpcRequest::payload, (q,), p),
        call_ensures(RpcRequest::has_caller_context, (q,), framed),
    ensures
        q.frame matches Frame::Unframed(app) ==> p@ == app@ && !framed,
        q.frame matches Frame::Framed(app) ==> p@ == app@ && framed,
        q.frame is Malformed ==> p@.len() == 0 && framed,
{
}

/// A request is yielded to its handler only where its context stands and enforcement lets it pass.
pub proof fn lemma_refused_requests_are_not_yielded(
    context: Option<&str>,
    enforcement: Option<&crate::provider_enforcement::ProviderRefusal>,
    r: Receive,
)
    requires
        call_ensures(receive, (context, enforcement), r),
    ensures
        r == Receive::Yield <==> context is None && enforcement is None,
{
}

/// A request is its sender's, of its kind, with the nonce it begins with; a fresh call's payload
/// begins with a nonce that is not zero.
pub proof fn lemma_requests_and_fresh_calls(
    q: &RpcRequest,
    f: &Frame,
    who: &NodeId,
    kind: &String,
    n: u64,
    payload: &[u8],
    r: (u64, Vec<u8>),
    min_ok: u64,
    g: Gather,
    target: &NodeId,
    name: &str,
    ts: u64,
    prefix: String,
    key: String,
    sender: &NodeId,
    e: KvEntry,
    value: Vec<u8>,
)
    requires
        call_ensures(RpcRequest::frame, (q,), f),
        call_ensures(RpcRequest::sender, (q,), who),
        call_ensures(RpcRequest::kind, (q,), kind),
        q.signal.payload@.len() >= 8,
        call_ensures(RpcRequest::nonce, (q,), n),
        call_ensures(crate::rpc::rpc_call_framed, (payload,), r),
        call_ensures(Gather::new, (min_ok,), g),
        call_ensures(crate::mailbox::mailbox_prefix, (target, name), prefix),
        call_ensures(mailbox_key, (target, name, ts), key),
        call_ensures(deliver_event, (sender, target, name, payload, ts), e),
        call_ensures(encode_value, (sender, payload), value),
    ensures
        *f == q.frame,
        who@ == q.signal.sender@,
        kind@ == q.signal.kind@,
        n == spec_u64_from_le_bytes(q.signal.payload@.subrange(0, 8)),
        r.0 >= 1,
        r.1@ == spec_u64_to_le_bytes(r.0) + payload@,
        g.min_ok == min_ok && g.replies@.len() == 0,
        prefix@ == "mailbox/"@ + target@.text() + "/"@ + name@ + "/"@,
        key@ == prefix@ + hex16(ts),
        e.key@ == key@,
        e.value@ == value@,
{
    reveal_strlit("/");
    assert(prefix@ =~= "mailbox/"@ + target@.text() + "/"@ + name@ + "/"@);
    assert(crate::json::models(g.replies@).len() == g.replies@.len());
}

/// A value answered is a result signal, sent wherever there is a nonce to echo.
pub proof fn lemma_value_is_answered_as_a_result(request: &RpcRequest, answer: &Json, r: Option<Outgoing>)
    requires
        call_ensures(respond_json, (request, answer), r),
    ensures
        r is Some <==> request.signal.payload@.len() >= 8,
        r matches Some(o) ==> o.kind@ == "rpc.result"@ && o.payload@.len() == 8 + json_bytes(answer@).len(),
{
}

/// A server is told of a call exactly where it begins with a nonce, whether or not it carries more.
pub proof fn lemma_every_nonced_call_is_served(s: &Signal, r: Option<Json>)
    requires
        call_ensures(rpc_serve_event, (s,), r),
    ensures
        s.payload@.len() >= 8 ==> r is Some,
        s.payload@.len() < 8 ==> r is None,
{
}

/// An entry of a mailbox is delivered exactly where its value states how long its sender's text is,
/// holds that much, and the text names a node; what follows the text is what is delivered.
pub proof fn lemma_delivered_is_what_was_stored(
    entries: Vec<KvEntry>,
    prefix: &str,
    kind: &str,
    r: (Vec<DrainStep>, Vec<KvEntry>),
    i: int,
)
    requires
        call_ensures(drain_chunk, (entries, prefix, kind), r),
        0 <= i < r.0@.len(),
    ensures
        ({
            let v = r.1@[i].value@;
            let n = 2 + spec_u16_from_le_bytes(v.subrange(0, 2));
            let text = v.subrange(2, n);
            &&& r.0@[i] is Deliver <==> v.len() >= 2 && n <= v.len() && vstd::utf8::valid_utf8(text)
                && crate::node_id::node_of(vstd::utf8::decode_utf8(text)) is Some
            &&& r.0@[i] matches DrainStep::Deliver(k, event) ==> crate::node_id::node_of(vstd::utf8::decode_utf8(text))
                == Some(event.sender@) && event.payload@ == v.subrange(n, v.len() as int)
        }),
{
    assert(crate::mailbox::step_fits(r.0@[i], r.1@[i], prefix@, kind@));
}

} // verus!

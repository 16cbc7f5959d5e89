//! Laws of an agent's life: how it starts, what it keeps of its peers, what it takes back.
use vstd::prelude::*;

use crate::agent::AgentState;
use crate::error::GossipError;
use crate::keys::KvEntry;
use crate::laws::{increasing, lemma_pushed};
use crate::lifecycle::{
    admit_start, advertise_locality, after_failure, after_shutdown, detector_port, identity_proof_key, identity_step,
    is_own_advert, is_own_load, listener_count, localities_of, locality_key, locality_models, locality_owner, marker_step,
    next_stage, own_adverts, own_loads, prewarm_peer_localities, seed_models, seed_of, seeds_of, shutdown_adverts,
    shutdown_loads, warm_quorum, IdentityEntry, IdentityStep, LocalityEntry, MarkerStep, PeerLocality, SenderSeed, StartPlan,
    StartRequest, StartStage,
};
use crate::node_id::{node_of, NodeId};
use crate::text::texts;
use crate::wire::number_at;

verus! {

/// An agent starts only from idle, with a valid configuration and an address that is its own; what
/// refuses it leaves its state as it was.
pub proof fn lemma_start_is_from_idle(
    state: &mut AgentState,
    node: &NodeId,
    request: StartRequest,
    r: Result<(), GossipError>,
)
    requires
        call_ensures(admit_start, (state, node, request), r),
    ensures
        r is Ok <==> {
            &&& request.invalid is None
            &&& request.bind_addr matches Ok(a) && a@ == request.node_addr@
            &&& *old(state) == AgentState::Idle
        },
        r is Ok ==> *final(state) == AgentState::Running,
        r is Err ==> *final(state) == *old(state),
        request.invalid matches Some(e) ==> r == Err::<(), GossipError>(e),
        request.invalid is None && (request.bind_addr matches Ok(a) && a@ == request.node_addr@) ==> (*old(state)
            == AgentState::Running ==> r == Err::<(), GossipError>(GossipError::AlreadyRunning)) && (*old(state)
            == AgentState::Stopped ==> r == Err::<(), GossipError>(GossipError::Shutdown)),
        request.invalid is None && (request.bind_addr matches Ok(a) && a@ != request.node_addr@) ==> (r matches Err(e)
            && e is NodeIdMismatch),
{
}

/// The stages come in their order, each once, and only those that the plan has; the last is that the
/// agent is ready.
pub proof fn lemma_stages_come_in_order(p: &StartPlan, last: StartStage, first: Option<StartStage>, next: Option<StartStage>)
    requires
        call_ensures(next_stage, (p, None), first),
        call_ensures(next_stage, (p, Some(last)), next),
    ensures
        first is Some,
        p.persistence ==> first == Some(StartStage::Replay),
        !p.persistence ==> first == Some(StartStage::WarmUp),
        last == StartStage::Ready ==> next is None,
        next == Some(StartStage::Replay) ==> false,
        next == Some(StartStage::Identity) ==> p.identity,
        next == Some(StartStage::Detector) ==> p.detector,
        next == Some(StartStage::Gateway) ==> p.gateway,
        next == Some(StartStage::AuditExport) ==> p.audit_sink,
        next == Some(StartStage::RateDecider) ==> p.rate_observation,
        next == Some(StartStage::Emergent) ==> p.emergent,
        last == StartStage::WarmUp ==> next == Some(
            if p.identity {
                StartStage::Identity
            } else {
                StartStage::Listen
            },
        ),
        last == StartStage::Identity ==> next == Some(StartStage::Listen),
        last == StartStage::Listen ==> next == Some(StartStage::Loops),
        last == StartStage::Loops && p.detector ==> next == Some(StartStage::Detector),
        last == StartStage::Loops && !p.detector && p.gateway ==> next == Some(StartStage::Gateway),
        last == StartStage::Loops && !p.detector && !p.gateway ==> next == Some(StartStage::Groups),
        last == StartStage::Emergent ==> next == Some(StartStage::Ready),
        last == StartStage::Groups && !p.audit_sink && !p.rate_observation && !p.emergent ==> next == Some(
            StartStage::Ready,
        ),
        last != StartStage::Ready ==> next is Some,
{
    if first is Some {
        lemma_next_of(*p, None, first->0);
    }
    if next is Some {
        lemma_next_of(*p, Some(last), next->0);
    }
}

proof fn lemma_next_of(p: StartPlan, last: Option<StartStage>, next: StartStage)
    requires
        crate::lifecycle::is_next_stage(p, last, next),
    ensures
        forall|s: StartStage| #[trigger]
            crate::lifecycle::planned(p, s) && crate::lifecycle::place(s) > (match last {
                Some(l) => crate::lifecycle::place(l),
                None => -1,
            }) ==> crate::lifecycle::place(next) <= crate::lifecycle::place(s),
        crate::lifecycle::planned(p, next),
        crate::lifecycle::planned(p, StartStage::Replay) == p.persistence,
        crate::lifecycle::planned(p, StartStage::WarmUp),
        crate::lifecycle::planned(p, StartStage::Identity) == p.identity,
        crate::lifecycle::planned(p, StartStage::Listen),
        crate::lifecycle::planned(p, StartStage::Loops),
        crate::lifecycle::planned(p, StartStage::Detector) == p.detector,
        crate::lifecycle::planned(p, StartStage::Gateway) == p.gateway,
        crate::lifecycle::planned(p, StartStage::Groups),
        crate::lifecycle::planned(p, StartStage::AuditExport) == p.audit_sink,
        crate::lifecycle::planned(p, StartStage::RateDecider) == p.rate_observation,
        crate::lifecycle::planned(p, StartStage::Emergent) == p.emergent,
        crate::lifecycle::planned(p, StartStage::Ready),
{
}

/// A bind that failed lets the agent be started again; any other failure leaves it where it is. A
/// shutdown stops a running agent and no other.
pub proof fn lemma_failures_and_shutdown(stage: StartStage, state: AgentState, f: AgentState, s: AgentState)
    requires
        call_ensures(after_failure, (stage, state), f),
        call_ensures(after_shutdown, (state,), s),
    ensures
        stage == StartStage::Listen || stage == StartStage::Detector ==> f == AgentState::Idle,
        stage != StartStage::Listen && stage != StartStage::Detector ==> f == state,
        state == AgentState::Running ==> s == AgentState::Stopped,
        state != AgentState::Running ==> s == state,
{
}

/// There are as many listeners as shards, at least one and at most four; the detector listens where
/// it was told to, else where the node does.
pub proof fn lemma_listeners(shards: usize, n: usize, configured: Option<u16>, bind: u16, port: u16)
    requires
        call_ensures(listener_count, (shards,), n),
        call_ensures(detector_port, (configured, bind), port),
    ensures
        1 <= n <= 4,
        1 <= shards <= 4 ==> n == shards,
        shards > 4 ==> n == 4,
        configured matches Some(p) ==> port == p,
        configured is None ==> port == bind,
{
}

/// A marker is published once there are peers or the grace of five seconds is over, and not at all
/// where the agent is stopping.
pub proof fn lemma_marker_waits_for_peers(has_peers: bool, waited_ms: u64, stopping: bool, r: MarkerStep)
    requires
        call_ensures(marker_step, (has_peers, waited_ms, stopping), r),
    ensures
        r == MarkerStep::Stop <==> stopping,
        r == MarkerStep::Wait <==> !stopping && !has_peers && waited_ms < 5000,
        r == MarkerStep::Publish <==> !stopping && (has_peers || waited_ms >= 5000),
{
}

/// Of the quorum's history the senders are kept whose mark lies within the window, each with its
/// age, in order.
pub proof fn lemma_recent_senders_are_kept(kv: &Vec<KvEntry>, now_ms: u64, window_secs: u64, r: Vec<SenderSeed>)
    requires
        window_secs * 1000 <= u64::MAX,
        call_ensures(warm_quorum, (kv, now_ms, window_secs), r),
    ensures
        exists|idx: Seq<int>|
            {
                &&& #[trigger] increasing(idx)
                &&& idx.len() == r@.len()
                &&& forall|j: int|
                    0 <= j < idx.len() ==> {
                        let e = kv@[#[trigger] idx[j]];
                        let at = number_at(e.value@, 0);
                        &&& 0 <= idx[j] < kv@.len()
                        &&& e.value@.len() >= 8
                        &&& r@[j].age_ms == if now_ms > at {
                            now_ms - at
                        } else {
                            0
                        }
                        &&& r@[j].age_ms <= window_secs * 1000
                        &&& e.key@.len() >= 11
                        &&& e.key@.subrange(0, 11) == "sys/quorum/"@
                    }
                &&& forall|i: int|
                    0 <= i < kv@.len() ==> (#[trigger] idx.contains(i) <==> seed_of(
                        kv@[i].key@,
                        kv@[i].value@,
                        now_ms as int,
                        window_secs * 1000,
                    ) is Some)
            },
{
    let w = window_secs * 1000;
    let idx = lemma_seed_positions(kv@, now_ms as int, w, kv@.len() as int);
    reveal_strlit("sys/quorum/");
    assert(seed_models(r@).len() == r@.len());
    assert forall|j: int| 0 <= j < idx.len() implies {
        let e = kv@[#[trigger] idx[j]];
        let at = number_at(e.value@, 0);
        &&& 0 <= idx[j] < kv@.len()
        &&& e.value@.len() >= 8
        &&& r@[j].age_ms == if now_ms > at {
            now_ms - at
        } else {
            0
        }
        &&& r@[j].age_ms <= window_secs * 1000
        &&& e.key@.len() >= 11
        &&& e.key@.subrange(0, 11) == "sys/quorum/"@
    } by {
        assert(seed_models(r@)[j] == r@[j]@);
    }
    assert(increasing(idx));
}

proof fn lemma_seed_positions(kv: Seq<KvEntry>, now_ms: int, window_ms: int, k: int) -> (idx: Seq<int>)
    requires
        0 <= k <= kv.len(),
    ensures
        increasing(idx),
        idx.len() == seeds_of(kv, now_ms, window_ms, k).len(),
        forall|j: int|
            0 <= j < idx.len() ==> 0 <= #[trigger] idx[j] < k && seed_of(
                kv[idx[j]].key@,
                kv[idx[j]].value@,
                now_ms,
                window_ms,
            ) == Some(seeds_of(kv, now_ms, window_ms, k)[j]),
        forall|i: int|
            0 <= i < k ==> (#[trigger] idx.contains(i) <==> seed_of(kv[i].key@, kv[i].value@, now_ms, window_ms) is Some),
    decreases k,
{
    if k <= 0 {
        Seq::empty()
    } else {
        let front = lemma_seed_positions(kv, now_ms, window_ms, k - 1);
        let kept = seed_of(kv[k - 1].key@, kv[k - 1].value@, now_ms, window_ms) is Some;
        let idx = if kept {
            front.push(k - 1)
        } else {
            front
        };
        lemma_pushed(front, k - 1, kept, idx);
        idx
    }
}

/// A mark of a sender under a kind is kept with that kind and that sender while it lies within the
/// window.
pub proof fn lemma_sender_mark_is_a_seed(
    kv: &Vec<KvEntry>,
    now_ms: u64,
    window_secs: u64,
    r: Vec<SenderSeed>,
    i: int,
    kind: Seq<char>,
    sender: crate::node_id::NodeModel,
)
    requires
        window_secs * 1000 <= u64::MAX,
        call_ensures(warm_quorum, (kv, now_ms, window_secs), r),
        0 <= i < kv@.len(),
        crate::node_id::valid_host(sender.host),
        kv@[i].key@ == "sys/quorum/"@ + kind + "/"@ + sender.text(),
        kv@[i].value@.len() >= 8,
        now_ms <= number_at(kv@[i].value@, 0) || now_ms - number_at(kv@[i].value@, 0) <= window_secs * 1000,
    ensures
        exists|j: int| 0 <= j < r@.len() && (#[trigger] r@[j]).kind@ == kind && r@[j].sender@ == sender,
{
    reveal_strlit("/");
    let tail = kind + seq!['/'] + sender.text();
    assert(kv@[i].key@ =~= "sys/quorum/"@ + tail);
    crate::keys::lemma_after_prefix_of_joined("sys/quorum/"@, tail);
    crate::node_id::lemma_node_text_no_slash(sender);
    crate::text::lemma_split_at_last_of_joined(kind, '/', sender.text());
    crate::node_id::lemma_node_text_parses(sender);
    let idx = lemma_seed_positions(kv@, now_ms as int, window_secs * 1000, kv@.len() as int);
    assert(idx.contains(i));
    let j = choose|j: int| 0 <= j < idx.len() && idx[j] == i;
    assert(seed_models(r@)[j] == r@[j]@);
}

/// A node's place is published only where it has one, under its own key.
pub proof fn lemma_place_is_published_under_the_node(node: &NodeId, path: &Vec<String>, key: String, r: Option<String>)
    requires
        call_ensures(locality_key, (node,), key),
        call_ensures(advertise_locality, (node, path), r),
    ensures
        key@ == "cap/"@ + node@.text() + "/locality/self"@,
        r is Some <==> path@.len() > 0,
        r matches Some(k) ==> k@ == key@,
{
}

/// The places kept of the peers are those of readable entries under a node's own locality key.
pub proof fn lemma_places_are_the_peers_own(entries: &Vec<LocalityEntry>, r: Vec<PeerLocality>)
    requires
        call_ensures(prewarm_peer_localities, (entries,), r),
    ensures
        exists|idx: Seq<int>|
            {
                &&& #[trigger] increasing(idx)
                &&& idx.len() == r@.len()
                &&& forall|j: int|
                    0 <= j < idx.len() ==> 0 <= #[trigger] idx[j] < entries@.len() && locality_owner(
                        entries@[idx[j]].key@,
                    ) == Some(r@[j].node@) && entries@[idx[j]].path is Some && texts(r@[j].path@) == texts(
                        (entries@[idx[j]].path->0)@,
                    )
                &&& forall|i: int|
                    0 <= i < entries@.len() ==> (#[trigger] idx.contains(i) <==> entries@[i].path is Some
                        && locality_owner(entries@[i].key@) is Some)
            },
{
    let idx = lemma_place_positions(entries@, entries@.len() as int);
    assert(locality_models(r@).len() == r@.len());
    assert forall|j: int| 0 <= j < idx.len() implies 0 <= #[trigger] idx[j] < entries@.len() && locality_owner(
        entries@[idx[j]].key@,
    ) == Some(r@[j].node@) && entries@[idx[j]].path is Some && texts(r@[j].path@) == texts(
        (entries@[idx[j]].path->0)@,
    ) by {
        assert(locality_models(r@)[j] == (r@[j].node@, texts(r@[j].path@)));
    }
    assert(increasing(idx));
}

proof fn lemma_place_positions(v: Seq<LocalityEntry>, k: int) -> (idx: Seq<int>)
    requires
        0 <= k <= v.len(),
    ensures
        increasing(idx),
        idx.len() == localities_of(v, k).len(),
        forall|j: int|
            0 <= j < idx.len() ==> 0 <= #[trigger] idx[j] < k && locality_owner(v[idx[j]].key@) is Some && v[idx[j]].path
                is Some && localities_of(v, k)[j] == (locality_owner(v[idx[j]].key@)->0, texts((v[idx[j]].path->0)@)),
        forall|i: int|
            0 <= i < k ==> (#[trigger] idx.contains(i) <==> v[i].path is Some && locality_owner(v[i].key@) is Some),
    decreases k,
{
    if k <= 0 {
        Seq::empty()
    } else {
        let front = lemma_place_positions(v, k - 1);
        let kept = v[k - 1].path is Some && locality_owner(v[k - 1].key@) is Some;
        let idx = if kept {
            front.push(k - 1)
        } else {
            front
        };
        lemma_pushed(front, k - 1, kept, idx);
        idx
    }
}

/// An identity entry concerns the node that its key names: one with keys is merged, one that was
/// removed is forgotten, and anything else is left alone.
pub proof fn lemma_identity_entries(e: &IdentityEntry, r: IdentityStep, node: &NodeId, proof_key: String)
    requires
        call_ensures(identity_step, (e,), r),
        call_ensures(identity_proof_key, (node,), proof_key),
    ensures
        r matches IdentityStep::Merge(n) ==> e.keys is Some && (e.keys->0)@.len() > 0 && e.key@.len() >= 13
            && e.key@.subrange(0, 13) == "sys/identity/"@ && node_of(e.key@.subrange(13, e.key@.len() as int)) == Some(n@),
        r matches IdentityStep::Forget(n) ==> e.keys is None && e.key@.len() >= 13 && e.key@.subrange(0, 13)
            == "sys/identity/"@ && node_of(e.key@.subrange(13, e.key@.len() as int)) == Some(n@),
        !(e.key@.len() >= 13 && e.key@.subrange(0, 13) == "sys/identity/"@) ==> r == IdentityStep::Ignore,
        e.key@.len() >= 13 && e.key@.subrange(0, 13) == "sys/identity/"@ && node_of(
            e.key@.subrange(13, e.key@.len() as int),
        ) is Some ==> (r is Forget <==> e.keys is None) && (r is Merge <==> (e.keys matches Some(k) && k@.len() > 0)),
        proof_key@ == "sys/identity-proof/"@ + node@.text(),
{
    reveal_strlit("sys/identity/");
}

/// On shutdown a node takes back exactly its own adverts and requirements, and its own load marks.
pub proof fn lemma_shutdown_takes_back_its_own(
    kv: &Vec<KvEntry>,
    node: &NodeId,
    has_locality: bool,
    adverts: Vec<String>,
    loads: Vec<String>,
    i: int,
)
    requires
        call_ensures(shutdown_adverts, (kv, node), adverts),
        call_ensures(shutdown_loads, (kv, node, has_locality), loads),
        0 <= i < kv@.len(),
    ensures
        begins(kv@[i].key@, "cap/"@ + node@.text() + "/"@) || begins(kv@[i].key@, "req/"@ + node@.text() + "/"@)
            ==> texts(adverts@).contains(kv@[i].key@),
        begins(kv@[i].key@, "sys/load/"@ + node@.text() + "/"@) ==> texts(loads@).contains(kv@[i].key@),
        forall|j: int|
            0 <= j < adverts@.len() ==> begins((#[trigger] adverts@[j])@, "cap/"@ + node@.text() + "/"@) || begins(
                adverts@[j]@,
                "req/"@ + node@.text() + "/"@,
            ) || begins(adverts@[j]@, "sys/load/"@ + node@.text() + "/"@),
        has_locality ==> texts(loads@).contains("cap/"@ + node@.text() + "/locality/self"@),
        forall|j: int|
            0 <= j < loads@.len() ==> begins((#[trigger] loads@[j])@, "sys/load/"@ + node@.text() + "/"@) || (has_locality
                && loads@[j]@ == "cap/"@ + node@.text() + "/locality/self"@),
{
    let k = kv@.len() as int;
    let n = node@;
    let a = own_adverts(kv@, n, k);
    let l = own_loads(kv@, n, k);
    let load = "sys/load/"@ + n.text() + "/"@;
    assert(texts(adverts@).len() == adverts@.len());
    assert(texts(loads@).len() == loads@.len());
    if is_own_advert(kv@[i].key@, n) {
        crate::lifecycle::lemma_every_advert_is_retracted(kv@, n, k, i);
    }
    assert forall|j: int| 0 <= j < adverts@.len() implies begins((#[trigger] adverts@[j])@, "cap/"@ + n.text() + "/"@)
        || begins(adverts@[j]@, "req/"@ + n.text() + "/"@) || begins(adverts@[j]@, load) by {
        crate::lifecycle::lemma_only_own_adverts_are_retracted(kv@, n, k, j);
        let key = a[j];
        assert(texts(adverts@)[j] == adverts@[j]@);
        assert((load + "req/"@).subrange(0, load.len() as int) =~= load);
        assert((load + "group-req/"@).subrange(0, load.len() as int) =~= load);
        if crate::text::has_prefix(key, load + "req/"@) {
            assert(key.subrange(0, load.len() as int) =~= key.subrange(0, (load + "req/"@).len() as int).subrange(
                0,
                load.len() as int,
            ));
        }
        if crate::text::has_prefix(key, load + "group-req/"@) {
            assert(key.subrange(0, load.len() as int) =~= key.subrange(0, (load + "group-req/"@).len() as int).subrange(
                0,
                load.len() as int,
            ));
        }
    }
    lemma_own_loads(kv@, n, k);
    let all = texts(loads@);
    let extra = if has_locality {
        Seq::empty().push(crate::lifecycle::locality_key_of(n))
    } else {
        Seq::empty()
    };
    assert(all == l + extra);
    if is_own_load(kv@[i].key@, n) {
        let j = choose|j: int| 0 <= j < l.len() && l[j] == kv@[i].key@;
        assert(all[j] == kv@[i].key@);
    }
    if has_locality {
        assert(all[l.len() as int] == crate::lifecycle::locality_key_of(n));
    }
    assert forall|j: int| 0 <= j < loads@.len() implies begins((#[trigger] loads@[j])@, load) || (has_locality
        && loads@[j]@ == "cap/"@ + n.text() + "/locality/self"@) by {
        assert(all[j] == loads@[j]@);
        if j < l.len() {
            assert(l[j] == all[j]);
            assert(is_own_load(l[j], n));
        }
    }
}

/// A text that begins with another.
pub open spec fn begins(s: Seq<char>, head: Seq<char>) -> bool {
    s.len() >= head.len() && s.subrange(0, head.len() as int) == head
}

proof fn lemma_own_loads(kv: Seq<KvEntry>, n: crate::node_id::NodeModel, k: int)
    requires
        0 <= k <= kv.len(),
    ensures
        forall|j: int| 0 <= j < own_loads(kv, n, k).len() ==> is_own_load(#[trigger] own_loads(kv, n, k)[j], n),
        forall|i: int|
            0 <= i < k && is_own_load((#[trigger] kv[i]).key@, n) ==> own_loads(kv, n, k).contains(kv[i].key@),
    decreases k,
{
    if k > 0 {
        lemma_own_loads(kv, n, k - 1);
        let front = own_loads(kv, n, k - 1);
        let now = own_loads(kv, n, k);
        assert forall|j: int| 0 <= j < now.len() implies is_own_load(#[trigger] now[j], n) by {
            if j < front.len() {
                assert(now[j] == front[j]);
            }
        }
        assert forall|i: int| 0 <= i < k && is_own_load((#[trigger] kv[i]).key@, n) implies now.contains(kv[i].key@) by {
            if i < k - 1 {
                let j = choose|j: int| 0 <= j < front.len() && front[j] == kv[i].key@;
                assert(now[j] == kv[i].key@);
            } else {
                assert(now[front.len() as int] == kv[i].key@);
            }
        }
    }
}

/// A readable place under a node's own locality key is kept as that node's.
pub proof fn lemma_place_of_a_node_is_kept(
    entries: &Vec<LocalityEntry>,
    r: Vec<PeerLocality>,
    i: int,
    n: crate::node_id::NodeModel,
)
    requires
        call_ensures(prewarm_peer_localities, (entries,), r),
        0 <= i < entries@.len(),
        entries@[i].path is Some,
        crate::node_id::valid_host(n.host),
        entries@[i].key@ == "cap/"@ + n.text() + "/locality/self"@,
    ensures
        exists|j: int|
            0 <= j < r@.len() && (#[trigger] r@[j]).node@ == n && texts(r@[j].path@) == texts(
                (entries@[i].path->0)@,
            ),
{
    let tail = "/locality/self"@;
    let rest = n.text() + tail;
    assert(entries@[i].key@ =~= "cap/"@ + rest);
    crate::keys::lemma_after_prefix_of_joined("cap/"@, rest);
    assert(rest.subrange(rest.len() - tail.len(), rest.len() as int) =~= tail);
    assert(rest.subrange(0, rest.len() - tail.len()) =~= n.text());
    crate::node_id::lemma_node_text_no_slash(n);
    crate::node_id::lemma_node_text_parses(n);
    assert(locality_owner(entries@[i].key@) == Some(n));
    let idx = lemma_place_positions(entries@, entries@.len() as int);
    assert(idx.contains(i));
    let j = choose|j: int| 0 <= j < idx.len() && idx[j] == i;
    assert(locality_models(r@)[j] == (r@[j].node@, texts(r@[j].path@)));
}

/// The stages behind the loops: each that the plan has, and past each that it has not.
pub proof fn lemma_later_stages(p: &StartPlan, last: StartStage, next: Option<StartStage>)
    requires
        call_ensures(next_stage, (p, Some(last)), next),
    ensures
        last == StartStage::Replay ==> next == Some(StartStage::WarmUp),
        last == StartStage::Detector ==> next == Some(
            if p.gateway {
                StartStage::Gateway
            } else {
                StartStage::Groups
            },
        ),
        last == StartStage::Gateway ==> next == Some(StartStage::Groups),
        last == StartStage::Groups && p.audit_sink ==> next == Some(StartStage::AuditExport),
        last == StartStage::Groups && !p.audit_sink && p.rate_observation ==> next == Some(StartStage::RateDecider),
        last == StartStage::Groups && !p.audit_sink && !p.rate_observation && p.emergent ==> next == Some(
            StartStage::Emergent,
        ),
        last == StartStage::AuditExport && p.rate_observation ==> next == Some(StartStage::RateDecider),
        last == StartStage::AuditExport && !p.rate_observation && p.emergent ==> next == Some(StartStage::Emergent),
        last == StartStage::AuditExport && !p.rate_observation && !p.emergent ==> next == Some(StartStage::Ready),
        last == StartStage::RateDecider ==> next == Some(
            if p.emergent {
                StartStage::Emergent
            } else {
                StartStage::Ready
            },
        ),
{
    if next is Some {
        lemma_next_of(*p, Some(last), next->0);
    }
}

/// A shutdown takes back a key as an advertisement exactly where it is live and begins as one of the
/// node's own capabilities, requirements, or loads of either kind of requirement.
pub proof fn lemma_shutdown_adverts_are_these(kv: &Vec<KvEntry>, node: &NodeId, adverts: Vec<String>)
    requires
        call_ensures(shutdown_adverts, (kv, node), adverts),
    ensures
        forall|key: Seq<char>| #[trigger]
            texts(adverts@).contains(key) <==> {
                &&& exists|i: int| 0 <= i < kv@.len() && (#[trigger] kv@[i]).key@ == key
                &&& begins(key, "cap/"@ + node@.text() + "/"@) || begins(key, "req/"@ + node@.text() + "/"@) || begins(
                    key,
                    "sys/load/"@ + node@.text() + "/"@ + "req/"@,
                ) || begins(key, "sys/load/"@ + node@.text() + "/"@ + "group-req/"@)
            },
{
    let k = kv@.len() as int;
    let n = node@;
    lemma_own_adverts(kv@, n, k);
    assert forall|key: Seq<char>| #[trigger] texts(adverts@).contains(key) implies {
        &&& exists|i: int| 0 <= i < kv@.len() && (#[trigger] kv@[i]).key@ == key
        &&& is_own_advert(key, n)
    } by {}
    assert forall|key: Seq<char>|
        is_own_advert(key, n) && (exists|i: int| 0 <= i < kv@.len() && (#[trigger] kv@[i]).key@
            == key) implies #[trigger] texts(adverts@).contains(key) by {
        let i = choose|i: int| 0 <= i < kv@.len() && (#[trigger] kv@[i]).key@ == key;
        crate::lifecycle::lemma_every_advert_is_retracted(kv@, n, k, i);
    }
}

proof fn lemma_own_adverts(kv: Seq<KvEntry>, n: crate::node_id::NodeModel, k: int)
    requires
        0 <= k <= kv.len(),
    ensures
        forall|key: Seq<char>| #[trigger]
            own_adverts(kv, n, k).contains(key) ==> is_own_advert(key, n) && exists|i: int|
                0 <= i < k && (#[trigger] kv[i]).key@ == key,
    decreases k,
{
    if k > 0 {
        lemma_own_adverts(kv, n, k - 1);
        let front = own_adverts(kv, n, k - 1);
        let now = own_adverts(kv, n, k);
        assert forall|key: Seq<char>| #[trigger] now.contains(key) implies is_own_advert(key, n) && exists|i: int|
            0 <= i < k && (#[trigger] kv[i]).key@ == key by {
            let j = choose|j: int| 0 <= j < now.len() && now[j] == key;
            if j < front.len() {
                assert(front[j] == key);
                assert(front.contains(key));
            } else {
                assert(kv[k - 1].key@ == key);
            }
        }
    }
}

} // verus!

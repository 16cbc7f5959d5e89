//! Laws of agreement: locks, leaders, consistent writes and quorums.
use vstd::prelude::*;
use vstd::utf8::*;

use crate::http::consensus::{
    cluster_electorate, committed_write, consistent_bid, cross_group_propose, elect_proposed, elect_reply,
    group_electorate, leader_bid, lock_acquire, lock_confirmed, lock_proposed, lock_release_reply, proposal_reply,
    slot_reply, AfterProposal, Bid, ConsensusResult, LockPlan,
};
use crate::http::kv::Write;
use crate::http::reply::Reply;
use crate::json::{member_from, JsonModel};
use crate::kv_quorum::{
    must_wait, wait_step, QuorumAckTracker, QuorumError, QuorumTrackers, WaitEvent,
};
use crate::node_id::{valid_host, NodeId};
use crate::overlay_consistent::{confirmed_token, lemma_lock_value_injective, lock_value, Leadership, LockGuard};

verus! {

/// A lock is confirmed exactly where the live value is the holder's own, with the live token;
/// another value, or none, confirms nothing.
pub proof fn lemma_lock_is_confirmed_by_its_own_value(
    value: &[u8],
    live: Option<(&[u8], u64)>,
    guard_id: &str,
    token: Option<u64>,
    r: (Option<u64>, Reply),
)
    requires
        call_ensures(confirmed_token, (value, live), token),
        call_ensures(lock_confirmed, (value, live, guard_id), r),
    ensures
        live matches Some((v, t)) ==> (token == Some(t) <==> v@ == value@),
        live matches Some((v, t)) ==> (token is None <==> v@ != value@),
        live is None ==> token is None,
        r.0 == token,
        r.1.status == 200 <==> token is Some,
        token is Some ==> r.1.body@.at("ok"@) == JsonModel::Bool(true) && r.1.body@.at("guard_id"@) == JsonModel::Str(
            guard_id@,
        ) && r.1.body@.at("token"@) == JsonModel::Str(crate::numeral::decimal(token->0 as nat)),
        token is None ==> r.1.status == 409 && r.1.body@.at("ok"@) == JsonModel::Bool(false),
{
    assert(r.1.status == r.1@.status && r.1.body@ == r.1@.body);
    reveal_with_fuel(member_from, 4);
    reveal_strlit("ok");
    reveal_strlit("guard_id");
    reveal_strlit("token");
    assert("ok"@.len() == 2 && "guard_id"@.len() == 8 && "token"@.len() == 5);
}

/// One live value confirms one holder: two holders, or two attempts of one, are never both
/// confirmed.
pub proof fn lemma_two_attempts_are_never_both_confirmed(
    a: &NodeId,
    m: u64,
    b: &NodeId,
    n: u64,
    va: Vec<u8>,
    vb: Vec<u8>,
    mine: &[u8],
    theirs: &[u8],
    live: Option<(&[u8], u64)>,
    ta: Option<u64>,
    tb: Option<u64>,
)
    requires
        call_ensures(lock_value, (a, m), va),
        call_ensures(lock_value, (b, n), vb),
        mine@ == va@,
        theirs@ == vb@,
        valid_host(a@.host),
        valid_host(b@.host),
        call_ensures(confirmed_token, (mine, live), ta),
        call_ensures(confirmed_token, (theirs, live), tb),
        a@ != b@ || m != n,
    ensures
        !(ta is Some && tb is Some),
        va@ != vb@,
{
    if va@ == vb@ {
        lemma_lock_value_injective(a@, m, b@, n);
    }
}

/// A guard takes away only its own lock, and only once: where another value is live, or the guard
/// was released before, nothing is removed.
pub proof fn lemma_release_takes_only_its_own(g: &mut LockGuard, live: Option<&[u8]>, r: Vec<String>)
    requires
        call_ensures(LockGuard::release, (g, live), r),
    ensures
        final(g).released,
        r@.len() > 0 <==> !old(g).released && (live matches Some(v) && v@ == old(g).value@),
        r@.len() > 0 ==> r@.len() == 2 && r@[0]@ == "consensus/committed/lock/"@ + old(g).name@ && r@[1]@
            == "consensus/lease/lock/"@ + old(g).name@,
        final(g).name@ == old(g).name@,
        final(g).token == old(g).token,
{
    if r@.len() > 0 {
        reveal_strlit("consensus/committed/lock/");
        reveal_strlit("consensus/committed/");
        reveal_strlit("consensus/lease/lock/");
        reveal_strlit("consensus/lease/");
        reveal_strlit("lock/");
        assert("consensus/committed/"@ + "lock/"@ =~= "consensus/committed/lock/"@);
        assert("consensus/lease/"@ + "lock/"@ =~= "consensus/lease/lock/"@);
        let n = old(g).name@;
        assert("consensus/committed/"@ + ("lock/"@ + n) =~= "consensus/committed/"@ + "lock/"@ + n);
        assert("consensus/lease/"@ + ("lock/"@ + n) =~= "consensus/lease/"@ + "lock/"@ + n);
    }
}

/// Releasing a second time removes nothing.
pub proof fn lemma_second_release_is_idle(
    g: &mut LockGuard,
    live: Option<&[u8]>,
    r: Vec<String>,
    h: &mut LockGuard,
    again: Option<&[u8]>,
    s: Vec<String>,
)
    requires
        call_ensures(LockGuard::release, (g, live), r),
        *old(h) == *final(g),
        call_ensures(LockGuard::release, (h, again), s),
    ensures
        s@.len() == 0,
{
}

/// A lock is held under its own name, for as long as was asked, within a second and an hour, and
/// for half a minute where nothing was.
pub proof fn lemma_lock_lasts_as_asked(name: &str, ttl: Option<u64>, r: LockPlan)
    requires
        call_ensures(lock_acquire, (name, ttl), r),
    ensures
        r.slot@ == "lock/"@ + name@,
        1 <= r.ttl_secs <= 3600,
        ttl matches Some(t) ==> (1 <= t <= 3600 ==> r.ttl_secs == t) && (t > 3600 ==> r.ttl_secs == 3600) && (t == 0
            ==> r.ttl_secs == 1),
        ttl is None ==> r.ttl_secs == 30,
{
}

/// A proposal goes on only where it was committed. A lock that another proposal beat is refused; a
/// leader that another proposal beat is read; a timeout and an unmet topology are told apart.
pub proof fn lemma_only_a_commit_goes_on(
    result: ConsensusResult,
    write: Write,
    lock: AfterProposal,
    elect: AfterProposal,
    reply: Reply,
    kept: Option<Write>,
)
    requires
        call_ensures(lock_proposed, (result,), lock),
        call_ensures(elect_proposed, (result,), elect),
        call_ensures(proposal_reply, (result,), reply),
        call_ensures(committed_write, (write, &result), kept),
    ensures
        lock == AfterProposal::Converge <==> result is Committed,
        elect == AfterProposal::Converge <==> result is Committed,
        elect == AfterProposal::Read <==> result is Superseded,
        reply.status == 200 <==> result is Committed,
        reply.body@.at("ok"@) == JsonModel::Bool(result is Committed),
        result is Timeout ==> reply.status == 504 && lock is Answer && lock->Answer_0.status == 504,
        result is Superseded || result is TopologyUnsatisfied ==> reply.status == 409 && lock is Answer
            && lock->Answer_0.status == 409,
        kept is Some <==> result is Committed,
        kept is Some ==> kept->0 == write,
{
    assert(reply.status == reply@.status && reply.body@ == reply@.body);
    if lock is Answer {
        assert(lock->Answer_0.status == lock->Answer_0@.status);
    }
    reveal_with_fuel(member_from, 3);
    reveal_strlit("ok");
    reveal_strlit("error");
    assert("ok"@.len() == 2 && "error"@.len() == 5);
}

/// The electorate: the node itself beside its peers, a group's members, and never nobody.
pub proof fn lemma_electorates(peers: usize, members: usize, c: usize, g: usize)
    requires
        peers < usize::MAX,
        call_ensures(cluster_electorate, (peers,), c),
        call_ensures(group_electorate, (members,), g),
    ensures
        c == peers + 1,
        g >= 1,
        members >= 1 ==> g == members,
        members == 0 ==> g == 1,
{
}

/// A node bids for leadership with its own name in the group's own slot; a consistent write bids
/// with its own value in its key's slot.
pub proof fn lemma_bids(
    group: &str,
    me: &NodeId,
    members: usize,
    b: Bid,
    write: &Write,
    peers: usize,
    w: Bid,
)
    requires
        call_ensures(leader_bid, (group, me, members), b),
        peers < usize::MAX,
        call_ensures(consistent_bid, (write, peers), w),
    ensures
        b.slot@ == "leader/"@ + group@,
        b.value@ == encode_utf8(me@.text()),
        members >= 1 ==> b.electorate == members,
        members == 0 ==> b.electorate == 1,
        w.slot@ == "consistent/"@ + write.key@,
        w.value@ == write.value@,
        w.electorate == peers + 1,
        b.slot@ != w.slot@,
{
    reveal_strlit("leader/");
    reveal_strlit("consistent/");
    assert(b.slot@[0] == 'l');
    assert(w.slot@[0] == 'c');
}

/// A leader is announced by the name that was committed and by no other; without one that reads as
/// text nobody is announced.
pub proof fn lemma_leader_is_the_committed_one(committed: Option<&[u8]>, r: Reply)
    requires
        call_ensures(elect_reply, (committed,), r),
    ensures
        committed matches Some(b) ==> (valid_utf8(b@) ==> r.status == 200 && r.body@.at("leader"@) == JsonModel::Str(
            decode_utf8(b@),
        )),
        committed is None ==> r.status == 409,
        r.status == 200 <==> (committed matches Some(b) && valid_utf8(b@)),
{
    assert(r.status == r@.status && r.body@ == r@.body);
    reveal_with_fuel(member_from, 3);
    reveal_strlit("ok");
    reveal_strlit("leader");
    assert("ok"@.len() == 2 && "leader"@.len() == 6);
}

/// A slot is told as it is: what is committed and live, its ballot, and that its lease ran out only
/// where something is there and nothing is live.
pub proof fn lemma_slot_is_told(
    slot: &str,
    live: Option<&[u8]>,
    present: bool,
    lease_ms: Option<u64>,
    ballot: u64,
    r: Reply,
)
    requires
        call_ensures(slot_reply, (slot, live, present, lease_ms, ballot), r),
    ensures
        r.status == 200,
        r.body@.at("slot"@) == JsonModel::Str(slot@),
        live matches Some(b) ==> r.body@.at("committed"@) == JsonModel::Str(crate::b64::base64_text(b@)),
        live is None ==> r.body@.at("committed"@) == JsonModel::Null,
        r.body@.at("ballot"@) == JsonModel::Int(ballot as int),
        lease_ms matches Some(n) ==> r.body@.at("lease_ms"@) == JsonModel::Int(n as int),
        r.body@.at("lease_expired"@) == JsonModel::Bool(present && live is None),
{
    assert(r.status == r@.status && r.body@ == r@.body);
    reveal_with_fuel(member_from, 6);
    reveal_strlit("slot");
    reveal_strlit("committed");
    reveal_strlit("ballot");
    reveal_strlit("lease_ms");
    reveal_strlit("lease_expired");
    assert("slot"@.len() == 4 && "committed"@.len() == 9 && "ballot"@.len() == 6 && "lease_ms"@.len() == 8
        && "lease_expired"@.len() == 13);
}

/// A proposal across groups needs a group and a value that is base64, and carries that value.
pub proof fn lemma_cross_group_needs_groups(value_b64: Option<&str>, groups: usize, r: Result<Vec<u8>, Reply>)
    requires
        call_ensures(cross_group_propose, (value_b64, groups), r),
    ensures
        r is Ok ==> groups > 0,
        r matches Ok(v) ==> match value_b64 {
            Some(t) => crate::b64::base64_bytes(t@) == Some(v@),
            None => v@.len() == 0,
        },
        groups > 0 && (value_b64 matches Some(t) ==> crate::b64::base64_bytes(t@) is Some) ==> r is Ok,
        r matches Err(e) ==> e.status == 400,
{
    if r is Err {
        assert(r->Err_0.status == r->Err_0@.status);
    }
}

/// A guard that was there is gone and said so; one that was not is answered as not found.
pub proof fn lemma_release_is_told(removed: bool, r: Reply)
    requires
        call_ensures(lock_release_reply, (removed,), r),
    ensures
        r.status == 200 <==> removed,
        !removed ==> r.status == 404,
{
    assert(r.status == r@.status);
}

/// An acknowledgement counts where it comes from another node, is no older than the write and
/// holds the write's own content; it counts a sender once.
pub proof fn lemma_acks_count_other_nodes_once(
    t: &mut QuorumAckTracker,
    sender: u64,
    timestamp: u64,
    nonce: u64,
    content_hash: u64,
    r: Option<usize>,
)
    requires
        call_ensures(QuorumAckTracker::observe_update, (t, sender, timestamp, nonce, content_hash), r),
    ensures
        r is Some <==> sender != old(t).own_hash() && timestamp >= old(t).since() && content_hash == old(t).content(),
        r is None ==> final(t).acked() == old(t).acked(),
        r is Some ==> final(t).acked().contains(sender) && r == Some(final(t).acked().len() as usize),
        forall|s: u64| s != sender ==> (#[trigger] final(t).acked().contains(s) <==> old(t).acked().contains(s)),
        old(t).acked().contains(sender) ==> final(t).acked() == old(t).acked(),
        final(t).since() == old(t).since() && final(t).own_hash() == old(t).own_hash() && final(t).content() == old(t).content(),
{
    assert(old(t).acked().contains(sender) ==> old(t).acked().insert(sender) =~= old(t).acked());
}

/// A fresh tracker has heard nobody; a bare observation counts nothing.
pub proof fn lemma_tracker_starts_empty(
    write_ts: u64,
    self_hash: u64,
    content: u64,
    t: QuorumAckTracker,
    n: usize,
    u: &mut QuorumAckTracker,
    sender: u64,
    timestamp: u64,
)
    requires
        call_ensures(QuorumAckTracker::new, (write_ts, self_hash, content), t),
        call_ensures(QuorumAckTracker::acks, (&t,), n),
        call_ensures(QuorumAckTracker::observe, (u, sender, timestamp), ()),
    ensures
        n == 0,
        t.since() == write_ts,
        t.own_hash() == self_hash,
        t.content() == content,
        final(u).acked() == old(u).acked(),
{
}

/// A write waits only where acknowledgements were asked for; it succeeds with as many as were asked
/// for or more, keeps waiting below that, and ends in a timeout that tells how many there were.
pub proof fn lemma_quorum_needs_its_acks(
    min_acks: usize,
    event: WaitEvent,
    waits: bool,
    r: Option<Result<usize, QuorumError>>,
)
    requires
        call_ensures(must_wait, (min_acks,), waits),
        call_ensures(wait_step, (min_acks, event), r),
    ensures
        waits <==> min_acks >= 1,
        r matches Some(Ok(n)) ==> n >= min_acks && (event == WaitEvent::Acks(n) || event == WaitEvent::Closed(n)),
        event matches WaitEvent::Acks(n) ==> (r is None <==> n < min_acks),
        event matches WaitEvent::Acks(n) ==> (n >= min_acks ==> r == Some(Ok::<usize, QuorumError>(n))),
        event matches WaitEvent::TimedOut(n) ==> r == Some(
            Err::<usize, QuorumError>(QuorumError::Timeout { acks_received: n }),
        ),
        event matches WaitEvent::Closed(n) ==> (n < min_acks ==> r == Some(
            Err::<usize, QuorumError>(QuorumError::Timeout { acks_received: n }),
        )),
        event matches WaitEvent::Closed(n) ==> (n >= min_acks ==> r == Some(Ok::<usize, QuorumError>(n))),
{
}

/// An installed tracker is told of its key's updates; installing and removing one leaves the
/// trackers of every other key, and the other trackers of its own, alone.
pub proof fn lemma_trackers_are_by_key(
    q: &mut QuorumTrackers,
    key: &str,
    tracker: u64,
    p: &mut QuorumTrackers,
    before: Vec<u64>,
    with_it: Vec<u64>,
    without_it: Vec<u64>,
    other: &str,
    other_before: Vec<u64>,
    other_after: Vec<u64>,
)
    requires
        call_ensures(QuorumTrackers::install_tracker, (q, key, tracker), ()),
        *old(p) == *final(q),
        call_ensures(QuorumTrackers::remove_tracker, (p, key, tracker), ()),
        call_ensures(QuorumTrackers::observers, (&*old(q), key), before),
        call_ensures(QuorumTrackers::observers, (&*final(q), key), with_it),
        call_ensures(QuorumTrackers::observers, (&*final(p), key), without_it),
        call_ensures(QuorumTrackers::observers, (&*old(q), other), other_before),
        call_ensures(QuorumTrackers::observers, (&*final(p), other), other_after),
        other@ != key@,
        !before@.contains(tracker),
    ensures
        with_it@ == before@.push(tracker),
        without_it@ == before@,
        other_after@ == other_before@,
{
    let keep = |t: u64| t != tracker;
    let list = before@.push(tracker);
    lemma_filter_drops_last(before@, tracker);
    assert(list.filter(keep) == before@);
    assert(list.filter(keep).len() != list.len());
}

proof fn lemma_filter_drops_last(v: Seq<u64>, tracker: u64)
    requires
        !v.contains(tracker),
    ensures
        v.push(tracker).filter(|t: u64| t != tracker) == v,
{
    let keep = |t: u64| t != tracker;
    reveal(Seq::filter);
    assert(v.push(tracker).drop_last() =~= v);
    lemma_filter_keeps_all(v, tracker);
}

proof fn lemma_filter_keeps_all(v: Seq<u64>, tracker: u64)
    requires
        !v.contains(tracker),
    ensures
        v.filter(|t: u64| t != tracker) == v,
    decreases v.len(),
{
    reveal(Seq::filter);
    if v.len() > 0 {
        let front = v.drop_last();
        assert(!front.contains(tracker)) by {
            if front.contains(tracker) {
                let i = choose|i: int| 0 <= i < front.len() && front[i] == tracker;
                assert(v[i] == tracker);
            }
        }
        lemma_filter_keeps_all(front, tracker);
        assert(v[v.len() - 1] != tracker);
        assert(front.push(v.last()) =~= v);
    }
}

/// A leader decided here is told from one that was only observed.
pub proof fn lemma_decided_here(l: &Leadership, r: bool)
    requires
        call_ensures(Leadership::was_decided_here, (l,), r),
    ensures
        r <==> l.basis is Decided,
{
}

/// A lock's value names its holder and the attempt; slots and keys are made of the names they are
/// for, and a lock's slot is never a leader's.
pub proof fn lemma_names_of_agreement(
    name: &str,
    group: &str,
    key: &str,
    holder: &NodeId,
    nonce: u64,
    lock: String,
    leader: String,
    slot: String,
    committed: String,
    value: Vec<u8>,
    guard: String,
    c: String,
    l: String,
)
    requires
        call_ensures(crate::overlay_consistent::lock_slot, (name,), lock),
        call_ensures(crate::http::consensus::leader_slot, (group,), leader),
        call_ensures(crate::http::consensus::consistent_slot, (key,), slot),
        call_ensures(crate::http::consensus::consistent_committed_key, (key,), committed),
        call_ensures(lock_value, (holder, nonce), value),
        call_ensures(crate::overlay_consistent::guard_id, (nonce,), guard),
        call_ensures(crate::overlay_consistent::committed_key, (key,), c),
        call_ensures(crate::overlay_consistent::lease_key, (key,), l),
    ensures
        lock@ == "lock/"@ + name@,
        leader@ == "leader/"@ + group@,
        slot@ == "consistent/"@ + key@,
        committed@ == "consensus/committed/consistent/"@ + key@,
        value@ == encode_utf8(holder@.text() + ":"@ + crate::numeral::hex16(nonce)),
        guard@ == crate::numeral::hex16(nonce),
        c@ == "consensus/committed/"@ + key@,
        l@ == "consensus/lease/"@ + key@,
        lock@ != leader@,
{
    reveal_strlit("lock/");
    reveal_strlit("leader/");
    assert(lock@[1] == 'o');
    assert(leader@[1] == 'e');
}

/// A key has trackers where some are installed, and a fresh set has none.
pub proof fn lemma_trackers_are_found(key: &str, fresh: QuorumTrackers, none: bool, p: &mut QuorumTrackers, t: u64, now: bool)
    requires
        call_ensures(QuorumTrackers::new, (), fresh),
        call_ensures(QuorumTrackers::has, (&fresh, key), none),
        call_ensures(QuorumTrackers::install_tracker, (p, key, t), ()),
        call_ensures(QuorumTrackers::has, (&*final(p), key), now),
    ensures
        !none,
        now,
{
}

/// Taking a tracker away leaves no empty list behind.
pub proof fn lemma_no_empty_tracker_list_stays(p: &mut QuorumTrackers, key: &str, tracker: u64)
    requires
        call_ensures(QuorumTrackers::remove_tracker, (p, key, tracker), ()),
        forall|k: Seq<char>| #[trigger] old(p).lists().contains_key(k) ==> old(p).lists()[k].len() > 0,
    ensures
        forall|k: Seq<char>| #[trigger] final(p).lists().contains_key(k) ==> final(p).lists()[k].len() > 0,
{
}

} // verus!

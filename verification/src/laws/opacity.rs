//! Laws of opacity: when a node sheds, when it opens again, and whom others count as shedding.
use vstd::prelude::*;

use crate::control::{
    decide, holds_on_uncertainty, may_propose, spacing_allows, ActionClass, ControlSpec, Decision, Profile, SettleState,
};
use crate::keys::lemma_after_prefix_of_joined;
use crate::node_id::{lemma_node_text_no_slash, valid_host, NodeId};
use crate::opacity::{
    boundary_signal, boundary_spec, count_opaque_all_in_kv, count_opaque_members_in_kv, held_texts, initial_boundary,
    is_node_opaque, is_opaque, is_self_opaque, load_key, load_node, load_write, loads, opacity_transition, opaque_nodes,
    peer_at, peer_load, peers_in, sheds, spaced_transition, BoundarySignal, FillReading, LoadEntry, LoadState, LoadWrite,
    OpacityGovernor, OpacityTransition, PeerLoad,
};
use crate::text::{before_first, lemma_first_index_is};

verus! {

/// A boundary that is open closes at its threshold, where its condition holds or it is full; one
/// that is closed opens below its release mark; nothing else moves it.
pub proof fn lemma_boundary_moves_at_its_marks(was_opaque: bool, fill: FillReading, gate_ok: bool, r: OpacityTransition)
    requires
        call_ensures(opacity_transition, (was_opaque, fill, gate_ok), r),
    ensures
        r == OpacityTransition::GoOpaque <==> !was_opaque && fill.at_threshold && (gate_ok || fill.at_full),
        r == OpacityTransition::GoTransparent <==> was_opaque && fill.below_release,
{
}

/// Spacing holds back an opening that comes too soon after the last move and holds back nothing
/// else: a closing is never late.
pub proof fn lemma_only_openings_are_spaced(
    proposed: OpacityTransition,
    spec: &ControlSpec,
    last_action_ms: Option<u64>,
    now_ms: u64,
    r: OpacityTransition,
)
    requires
        call_ensures(spaced_transition, (proposed, spec, last_action_ms, now_ms), r),
    ensures
        proposed == OpacityTransition::GoOpaque ==> r == OpacityTransition::GoOpaque,
        proposed == OpacityTransition::Hold ==> r == OpacityTransition::Hold,
        proposed == OpacityTransition::GoTransparent ==> {
            let soon = last_action_ms matches Some(last) && (if now_ms >= last {
                now_ms - last < spec.spacing_ms
            } else {
                spec.spacing_ms > 0
            });
            &&& soon ==> r == OpacityTransition::Hold
            &&& !soon ==> r == OpacityTransition::GoTransparent
        },
{
}

/// A governor's tick: it closes an open boundary that is full whatever its condition says, opens a
/// closed one only where the spacing has passed, remembers when it moved, and counts an opening
/// that it held back.
pub proof fn lemma_tick(g: &mut OpacityGovernor, fill: FillReading, gate_ok: bool, now_ms: u64, r: OpacityTransition)
    requires
        call_ensures(OpacityGovernor::tick, (g, fill, gate_ok, now_ms), r),
    ensures
        r == OpacityTransition::GoOpaque <==> !old(g).is_opaque && fill.at_threshold && (gate_ok || fill.at_full),
        r == OpacityTransition::GoTransparent <==> old(g).is_opaque && fill.below_release && (
        old(g).last_action_ms matches Some(last) ==> (if now_ms >= last {
            now_ms - last >= old(g).spec.spacing_ms
        } else {
            old(g).spec.spacing_ms == 0
        })),
        r == OpacityTransition::GoOpaque ==> final(g).is_opaque && final(g).last_action_ms == Some(now_ms),
        r == OpacityTransition::GoTransparent ==> !final(g).is_opaque && final(g).last_action_ms == Some(now_ms),
        r == OpacityTransition::Hold ==> final(g).is_opaque == old(g).is_opaque && final(g).last_action_ms == old(g).last_action_ms,
        old(g).releases_spaced < u64::MAX ==> final(g).releases_spaced == old(g).releases_spaced + if r
            == OpacityTransition::Hold && old(g).is_opaque && fill.below_release {
            1int
        } else {
            0
        },
        final(g).spec == old(g).spec,
{
}

/// A move is written down and announced: closing as a fresh mark with its fill, opening as a
/// removal, holding as nothing.
pub proof fn lemma_moves_are_written_and_announced(
    t: OpacityTransition,
    fill_bits: u32,
    at_ms: u64,
    payload: Vec<u8>,
    w: LoadWrite,
    s: Option<BoundarySignal>,
)
    requires
        call_ensures(load_write, (t, fill_bits, at_ms), w),
        call_ensures(boundary_signal, (t, payload), s),
    ensures
        t == OpacityTransition::GoOpaque ==> (w matches LoadWrite::Store(l) && l.is_opaque && l.fill_bits == fill_bits
            && l.written_at_ms == at_ms) && s == Some(BoundarySignal::Opaque(payload)),
        t == OpacityTransition::GoTransparent ==> w == LoadWrite::Tombstone && s == Some(BoundarySignal::Transparent),
        t == OpacityTransition::Hold ==> w == LoadWrite::Nothing && s is None,
{
}

/// A boundary starts as it was left, and open where nothing was left.
pub proof fn lemma_boundary_starts_as_left(stored: Option<LoadState>, channel: u32, r: (bool, u32))
    requires
        call_ensures(initial_boundary, (stored, channel), r),
    ensures
        stored matches Some(s) ==> r.0 == s.is_opaque && r.1 == s.fill_bits,
        stored is None ==> !r.0 && r.1 == channel,
{
}

/// A boundary's governor spaces its openings as asked and waits for nothing.
pub proof fn lemma_boundary_spec(kind: &str, spacing_ms: u64, r: ControlSpec)
    requires
        call_ensures(boundary_spec, (kind, spacing_ms), r),
    ensures
        r.spacing_ms == spacing_ms,
        r.settle_timeout_ms == 0,
        r.profile == Profile::Legacy,
        r.actuator@ == "boundary/"@ + kind@,
{
}

/// A node is opaque for a kind where its own mark for that kind says so; another node is, only
/// while the mark is no older than allowed. The key of the mark is the node's and the kind's.
pub proof fn lemma_opaque_means_marked(
    entries: &Vec<LoadEntry>,
    node: &NodeId,
    kind: &str,
    max_age_ms: u64,
    now_ms: u64,
    key: String,
    own: bool,
    seen: bool,
)
    requires
        call_ensures(load_key, (node, kind), key),
        call_ensures(is_opaque, (entries, node, kind), own),
        call_ensures(is_node_opaque, (entries, node, kind, max_age_ms, now_ms), seen),
    ensures
        key@ == "sys/load/"@ + node@.text() + "/"@ + kind@,
        own <==> exists|i: int|
            0 <= i < entries@.len() && (#[trigger] entries@[i]).key@ == key@ && (entries@[i].state matches Some(s)
                && s.is_opaque),
        seen <==> exists|i: int|
            0 <= i < entries@.len() && (#[trigger] entries@[i]).key@ == key@ && (entries@[i].state matches Some(s)
                && s.is_opaque && (now_ms <= s.written_at_ms || now_ms - s.written_at_ms <= max_age_ms)),
        seen ==> own,
{
    reveal_strlit("/");
    assert(key@ =~= "sys/load/"@ + node@.text() + "/"@ + kind@);
}

/// A node is opaque at all where any of its marks says so.
pub proof fn lemma_self_opaque_means_any_mark(entries: &Vec<LoadEntry>, node: &NodeId, r: bool)
    requires
        call_ensures(is_self_opaque, (entries, node), r),
    ensures
        r <==> exists|i: int|
            #![trigger entries@[i]]
            {
                let head = "sys/load/"@ + node@.text() + "/"@;
                &&& 0 <= i < entries@.len()
                &&& entries@[i].key@.len() >= head.len()
                &&& entries@[i].key@.subrange(0, head.len() as int) == head
                &&& entries@[i].state matches Some(s) && s.is_opaque
            },
{
    reveal_strlit("/");
    let head = "sys/load/"@ + node@.text() + "/"@;
    assert(crate::opacity::load_key_of(node@, Seq::empty()) =~= head);
}

/// Whoever is counted as shedding has a mark that says so and is fresh; whoever has one is counted,
/// once, and only the members among them where members are asked for.
pub proof fn lemma_shedding_nodes_are_counted_once(
    entries: &Vec<LoadEntry>,
    members: &ahash::AHashSet<String>,
    max_age_ms: u64,
    now_ms: u64,
    all: usize,
    among: usize,
)
    requires
        call_ensures(count_opaque_all_in_kv, (entries, max_age_ms, now_ms), all),
        call_ensures(count_opaque_members_in_kv, (entries, members, max_age_ms, now_ms), among),
    ensures
        exists|s: Set<Seq<char>>|
            {
                &&& #[trigger] s.len() == all
                &&& s.intersect(held_texts(*members)).len() == among
                &&& forall|n: Seq<char>| #[trigger]
                    s.contains(n) ==> exists|i: int|
                        #![trigger entries@[i]]
                        0 <= i < entries@.len() && load_node(entries@[i].key@) == Some(n) && (
                        entries@[i].state matches Some(l) && l.is_opaque && (now_ms <= l.written_at_ms || now_ms
                            - l.written_at_ms <= max_age_ms))
                &&& forall|i: int, n: crate::node_id::NodeModel, kind: Seq<char>|
                    #![trigger entries@[i], crate::opacity::load_key_of(n, kind)]
                    0 <= i < entries@.len() && valid_host(n.host) && entries@[i].key@ == crate::opacity::load_key_of(
                        n,
                        kind,
                    ) && (entries@[i].state matches Some(l) && l.is_opaque && (now_ms <= l.written_at_ms || now_ms
                        - l.written_at_ms <= max_age_ms)) ==> s.contains(n.text())
            },
{
    let s = opaque_nodes(entries@, max_age_ms, now_ms);
    assert forall|i: int, n: crate::node_id::NodeModel, kind: Seq<char>|
        #![trigger entries@[i], crate::opacity::load_key_of(n, kind)]
        0 <= i < entries@.len() && valid_host(n.host) && entries@[i].key@ == crate::opacity::load_key_of(n, kind) && (
        entries@[i].state matches Some(l) && l.is_opaque && (now_ms <= l.written_at_ms || now_ms - l.written_at_ms
            <= max_age_ms)) implies s.contains(n.text()) by {
        lemma_load_key_names_the_node(n, kind);
        assert(load_node(entries@[i].key@) == Some(n.text()));
        assert(sheds(entries@, n.text(), max_age_ms, now_ms, entries@.len() as int));
    }
    assert(s.len() == all);
}

/// A mark's key names its node.
pub proof fn lemma_load_key_names_the_node(n: crate::node_id::NodeModel, kind: Seq<char>)
    requires
        valid_host(n.host),
    ensures
        load_node(crate::opacity::load_key_of(n, kind)) == Some(n.text()),
{
    let tail = crate::keys::slashed(n.text(), kind);
    lemma_after_prefix_of_joined(crate::opacity::LOAD@, tail);
    lemma_node_text_no_slash(n);
    let k = n.text().len() as int;
    assert forall|j: int| 0 <= j < k implies tail[j] != '/' by {
        assert(tail[j] == n.text()[j]);
        assert(n.text().contains(n.text()[j]));
    }
    lemma_first_index_is(tail, '/', k);
    assert(before_first(tail, '/') =~= n.text());
}

/// The peers' load is the fresh marks, each once, the fullest first.
pub proof fn lemma_peer_load_is_the_fresh_marks(
    entries: &Vec<LoadEntry>,
    max_age_ms: u64,
    now_ms: u64,
    r: Vec<PeerLoad>,
)
    requires
        call_ensures(peer_load, (entries, max_age_ms, now_ms), r),
    ensures
        forall|j: int, l: int|
            #![trigger r@[j], r@[l]]
            0 <= j < l < r@.len() && r@[j].state.fill_bits < 0x8000_0000 && r@[l].state.fill_bits < 0x8000_0000
                ==> r@[j].state.fill_bits >= r@[l].state.fill_bits,
        forall|j: int|
            0 <= j < r@.len() ==> now_ms <= (#[trigger] r@[j]).state.written_at_ms || now_ms - r@[j].state.written_at_ms
                <= max_age_ms,
        forall|j: int|
            0 <= j < r@.len() ==> exists|i: int|
                #![trigger entries@[i]]
                0 <= i < entries@.len() && entries@[i].state == Some((#[trigger] r@[j]).state) && entries@[i].key@
                    == "sys/load/"@ + r@[j].node@ + "/"@ + r@[j].kind@,
        forall|i: int, n: crate::node_id::NodeModel, kind: Seq<char>|
            #![trigger entries@[i], crate::opacity::load_key_of(n, kind)]
            0 <= i < entries@.len() && valid_host(n.host) && entries@[i].key@ == crate::opacity::load_key_of(n, kind) && (
            entries@[i].state matches Some(l) && (now_ms <= l.written_at_ms || now_ms - l.written_at_ms
                <= max_age_ms)) ==> exists|j: int|
                0 <= j < r@.len() && (#[trigger] r@[j]).node@ == n.text() && r@[j].kind@ == kind && Some(r@[j].state)
                    == entries@[i].state,
{
    let k = entries@.len() as int;
    let all = peers_in(entries@, max_age_ms, now_ms, k);
    let v = loads(r@);
    assert(v.len() == r@.len());
    assert forall|j: int| 0 <= j < r@.len() implies v[j] == (#[trigger] r@[j])@ by {}
    v.to_multiset_ensures();
    all.to_multiset_ensures();
    lemma_peers(entries@, max_age_ms, now_ms, k);
    assert forall|j: int, l: int|
        #![trigger r@[j], r@[l]]
        0 <= j < l < r@.len() && r@[j].state.fill_bits < 0x8000_0000 && r@[l].state.fill_bits
            < 0x8000_0000 implies r@[j].state.fill_bits >= r@[l].state.fill_bits by {
        assert(v[j] == r@[j]@ && v[l] == r@[l]@);
        assert(crate::opacity::fill_rank(v[j].2.fill_bits) >= crate::opacity::fill_rank(v[l].2.fill_bits));
    }
    assert forall|j: int| 0 <= j < r@.len() implies exists|i: int|
        #![trigger entries@[i]]
        0 <= i < entries@.len() && peer_at(entries@[i], max_age_ms, now_ms) == Some((#[trigger] r@[j])@) by {
        assert(v.contains(v[j]));
        assert(v.to_multiset().count(v[j]) > 0);
        assert(all.contains(v[j]));
        let i = choose|i: int|
            #![trigger entries@[i]]
            0 <= i < k && peer_at(entries@[i], max_age_ms, now_ms) == Some(v[j]);
        assert(peer_at(entries@[i], max_age_ms, now_ms) == Some(r@[j]@));
    }
    assert forall|j: int| 0 <= j < r@.len() implies exists|i: int|
        #![trigger entries@[i]]
        0 <= i < entries@.len() && entries@[i].state == Some((#[trigger] r@[j]).state) && entries@[i].key@
            == "sys/load/"@ + r@[j].node@ + "/"@ + r@[j].kind@ by {
        let i = choose|i: int|
            #![trigger entries@[i]]
            0 <= i < entries@.len() && peer_at(entries@[i], max_age_ms, now_ms) == Some((#[trigger] r@[j])@);
        lemma_load_key_parts(entries@[i].key@, r@[j].node@, r@[j].kind@);
        assert(entries@[i].state == Some(r@[j].state));
    }
    assert forall|i: int, n: crate::node_id::NodeModel, kind: Seq<char>|
        #![trigger entries@[i], crate::opacity::load_key_of(n, kind)]
        0 <= i < entries@.len() && valid_host(n.host) && entries@[i].key@ == crate::opacity::load_key_of(n, kind) && (
        entries@[i].state matches Some(l) && (now_ms <= l.written_at_ms || now_ms - l.written_at_ms
            <= max_age_ms)) implies exists|j: int|
        0 <= j < r@.len() && (#[trigger] r@[j]).node@ == n.text() && r@[j].kind@ == kind && Some(r@[j].state)
            == entries@[i].state by {
        let tail = crate::keys::slashed(n.text(), kind);
        lemma_after_prefix_of_joined(crate::opacity::LOAD@, tail);
        lemma_node_text_no_slash(n);
        crate::text::lemma_split_at_first_of_joined(n.text(), '/', kind);
        let p = (n.text(), kind, entries@[i].state->0);
        assert(peer_at(entries@[i], max_age_ms, now_ms) == Some(p));
        assert(all.contains(p));
        assert(all.to_multiset().count(p) > 0);
        assert(v.contains(p));
        let j = choose|j: int| 0 <= j < v.len() && v[j] == p;
        assert(r@[j]@ == p);
    }
}

proof fn lemma_load_key_parts(key: Seq<char>, node: Seq<char>, kind: Seq<char>)
    requires
        crate::text::after_prefix(key, "sys/load/"@) is Some,
        crate::text::split_at_first(crate::text::after_prefix(key, "sys/load/"@)->0, '/') == Some((node, kind)),
    ensures
        key == "sys/load/"@ + node + "/"@ + kind,
{
    reveal_strlit("/");
    let tail = crate::text::after_prefix(key, "sys/load/"@)->0;
    crate::text::lemma_first_index(tail, '/');
    let i = crate::text::first_index(tail, '/');
    assert(tail =~= node + "/"@ + kind);
    assert(key =~= "sys/load/"@ + tail);
    assert(key =~= "sys/load/"@ + node + "/"@ + kind);
}

proof fn lemma_peers(entries: Seq<LoadEntry>, max_age_ms: u64, now_ms: u64, k: int)
    requires
        0 <= k <= entries.len(),
    ensures
        forall|p: (Seq<char>, Seq<char>, LoadState)| #[trigger]
            peers_in(entries, max_age_ms, now_ms, k).contains(p) <==> exists|i: int|
                #![trigger entries[i]]
                0 <= i < k && peer_at(entries[i], max_age_ms, now_ms) == Some(p),
    decreases k,
{
    if k > 0 {
        lemma_peers(entries, max_age_ms, now_ms, k - 1);
        let front = peers_in(entries, max_age_ms, now_ms, k - 1);
        let now = peers_in(entries, max_age_ms, now_ms, k);
        assert forall|p: (Seq<char>, Seq<char>, LoadState)| #[trigger] now.contains(p) <==> exists|i: int|
            #![trigger entries[i]]
            0 <= i < k && peer_at(entries[i], max_age_ms, now_ms) == Some(p) by {
            if front.contains(p) {
                let j = choose|j: int| 0 <= j < front.len() && front[j] == p;
                assert(now[j] == p);
            }
            if now.contains(p) && !front.contains(p) {
                let j = choose|j: int| 0 <= j < now.len() && now[j] == p;
                assert(j == front.len());
                assert(peer_at(entries[k - 1], max_age_ms, now_ms) == Some(p));
            }
            if peer_at(entries[k - 1], max_age_ms, now_ms) == Some(p) {
                assert(now[front.len() as int] == p);
            }
        }
    }
}

/// The shared rules of control: an action waits for its spacing and for the last one to settle, and
/// only a routine scale-down is held back for want of confidence, by the enforcing profile alone.
pub proof fn lemma_control(
    spec: &ControlSpec,
    last_action_ms: Option<u64>,
    settle: &SettleState,
    now_ms: u64,
    class: ActionClass,
    confident: bool,
    profile: Profile,
    allowed: bool,
    proposes: bool,
    holds: bool,
    d: Decision,
)
    requires
        call_ensures(spacing_allows, (spec, last_action_ms, now_ms), allowed),
        call_ensures(may_propose, (settle, spec, now_ms), proposes),
        call_ensures(holds_on_uncertainty, (class,), holds),
        call_ensures(decide, (class, confident, profile), d),
    ensures
        last_action_ms is None ==> allowed,
        last_action_ms matches Some(last) ==> (now_ms >= last ==> (allowed <==> now_ms - last >= spec.spacing_ms)),
        settle is Idle ==> proposes,
        *settle matches SettleState::Pending { since_ms, .. } ==> (now_ms >= since_ms ==> (proposes <==> now_ms
            - since_ms >= spec.settle_timeout_ms)),
        holds <==> class == ActionClass::RoutineScaleDown,
        d == Decision::Held <==> class == ActionClass::RoutineScaleDown && !confident && profile == Profile::Enforce,
        d == Decision::WouldHold <==> class == ActionClass::RoutineScaleDown && !confident && profile
            == Profile::Observe,
{
}

/// There are as many loads as there are fresh marks, each counted once.
pub proof fn lemma_peer_loads_are_counted(entries: &Vec<LoadEntry>, max_age_ms: u64, now_ms: u64, r: Vec<PeerLoad>)
    requires
        call_ensures(peer_load, (entries, max_age_ms, now_ms), r),
    ensures
        exists|idx: Seq<int>|
            {
                &&& #[trigger] crate::laws::increasing(idx)
                &&& idx.len() == r@.len()
                &&& forall|j: int| 0 <= j < idx.len() ==> 0 <= #[trigger] idx[j] < entries@.len()
                &&& forall|i: int|
                    0 <= i < entries@.len() ==> (#[trigger] idx.contains(i) <==> peer_at(entries@[i], max_age_ms, now_ms)
                        is Some)
            },
{
    let k = entries@.len() as int;
    let all = peers_in(entries@, max_age_ms, now_ms, k);
    let v = loads(r@);
    v.to_multiset_ensures();
    all.to_multiset_ensures();
    let idx = lemma_peer_positions(entries@, max_age_ms, now_ms, k);
    assert(v.len() == r@.len());
    assert(crate::laws::increasing(idx));
}

proof fn lemma_peer_positions(entries: Seq<LoadEntry>, max_age_ms: u64, now_ms: u64, k: int) -> (idx: Seq<int>)
    requires
        0 <= k <= entries.len(),
    ensures
        crate::laws::increasing(idx),
        idx.len() == peers_in(entries, max_age_ms, now_ms, k).len(),
        forall|j: int| 0 <= j < idx.len() ==> 0 <= #[trigger] idx[j] < k,
        forall|i: int|
            0 <= i < k ==> (#[trigger] idx.contains(i) <==> peer_at(entries[i], max_age_ms, now_ms) is Some),
    decreases k,
{
    if k <= 0 {
        Seq::empty()
    } else {
        let front = lemma_peer_positions(entries, max_age_ms, now_ms, k - 1);
        let kept = peer_at(entries[k - 1], max_age_ms, now_ms) is Some;
        let idx = if kept {
            front.push(k - 1)
        } else {
            front
        };
        crate::laws::lemma_pushed(front, k - 1, kept, idx);
        idx
    }
}

/// A fill below zero stands behind every other, and the lowest stands last.
pub proof fn lemma_fills_below_zero_come_last(entries: &Vec<LoadEntry>, max_age_ms: u64, now_ms: u64, r: Vec<PeerLoad>)
    requires
        call_ensures(peer_load, (entries, max_age_ms, now_ms), r),
    ensures
        forall|j: int, l: int|
            #![trigger r@[j], r@[l]]
            0 <= j < l < r@.len() && r@[j].state.fill_bits > 0x8000_0000 ==> r@[l].state.fill_bits
                >= r@[j].state.fill_bits,
{
    let v = loads(r@);
    assert forall|j: int, l: int|
        #![trigger r@[j], r@[l]]
        0 <= j < l < r@.len() && r@[j].state.fill_bits > 0x8000_0000 implies r@[l].state.fill_bits
        >= r@[j].state.fill_bits by {
        assert(v[j] == r@[j]@ && v[l] == r@[l]@);
        assert(crate::opacity::fill_rank(v[j].2.fill_bits) >= crate::opacity::fill_rank(v[l].2.fill_bits));
    }
}

} // verus!

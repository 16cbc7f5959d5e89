//! Opacity: when a node's boundary sheds load, and what the mesh can tell about who does.
//!
//! The fill of a channel is a real number; the caller compares it and hands the answers in. The
//! decision, its spacing and the reading of load entries are decided here.
use crate::agent::has_text;
use crate::control::{minus, spaced, spacing_allows, ConfidenceBound, ControlSpec, Profile};
use crate::keys::{slash, slashed};
use crate::node_id::{NodeId, NodeModel};
use crate::order::{lemma_arrangement_mapped, lemma_filter_mapped, sort, tied_with, Ranked};
use crate::text::{
    after_prefix, before_first, has_prefix, head, join, same, split_at_first, split_once, starts_with, strip_prefix, texts,
};
use vstd::prelude::*;
use vstd::string::*;

verus! {

/// The namespace of load entries: `sys/load/{node}/{kind}`.
pub const LOAD: &'static str = "sys/load/";

/// What a node says of its own load for one kind. The fill is carried by the bits of its 32-bit
/// floating-point form.
#[derive(Clone, Copy, Debug, PartialEq, Eq, Structural)]
pub struct LoadState {
    /// The fill, by its bits.
    pub fill_bits: u32,
    /// Whether the boundary sheds.
    pub is_opaque: bool,
    /// When this was written.
    pub written_at_ms: u64,
}

/// One load entry: its key, and its value where it decodes.
#[derive(Debug, PartialEq, Eq)]
pub struct LoadEntry {
    /// The key.
    pub key: String,
    /// The decoded value.
    pub state: Option<LoadState>,
}

/// A set of `ahash`: opaque here but for which texts it holds.
#[verifier::external_type_specification]
#[verifier::external_body]
#[verifier::reject_recursive_types(T)]
#[verifier::reject_recursive_types(S)]
pub struct ExAHashSet<T, S>(ahash::AHashSet<T, S>);

/// The hasher of an `ahash` set.
#[verifier::external_type_specification]
#[verifier::external_body]
pub struct ExRandomState(ahash::RandomState);

/// The texts an `ahash` set of strings holds.
pub uninterp spec fn held_texts(set: ahash::AHashSet<String>) -> Set<Seq<char>>;

/// `AHashSet::contains`: whether the set holds that very text.
#[verifier::external_body]
fn set_contains(set: &ahash::AHashSet<String>, s: &str) -> (r: bool)
    ensures
        r == held_texts(*set).contains(s@),
{
    set.contains(s)
}

/// Does the entry say that its node sheds, and was it written within `max_age_ms`?
pub open spec fn freshly_opaque(e: LoadEntry, max_age_ms: u64, now_ms: u64) -> bool {
    e.state matches Some(s) && s.is_opaque && minus(now_ms, s.written_at_ms) <= max_age_ms
}

/// The node segment of a load key: what stands before the first slash behind the namespace.
pub open spec fn load_node(key: Seq<char>) -> Option<Seq<char>> {
    match after_prefix(key, LOAD@) {
        Some(tail) => Some(before_first(tail, '/')),
        None => None,
    }
}

/// Does one of the first `k` entries say, freshly, that this node sheds?
pub open spec fn sheds(entries: Seq<LoadEntry>, node: Seq<char>, max_age_ms: u64, now_ms: u64, k: int) -> bool {
    exists|i: int|
        0 <= i < k && load_node((#[trigger] entries[i]).key@) == Some(node) && freshly_opaque(
            entries[i],
            max_age_ms,
            now_ms,
        )
}

/// The nodes that shed: those with any fresh entry that says so, for whatever kind.
pub open spec fn opaque_nodes(entries: Seq<LoadEntry>, max_age_ms: u64, now_ms: u64) -> Set<Seq<char>> {
    Set::new(|n: Seq<char>| sheds(entries, n, max_age_ms, now_ms, entries.len() as int))
}

fn is_freshly_opaque(e: &LoadEntry, max_age_ms: u64, now_ms: u64) -> (r: bool)
    ensures
        r == freshly_opaque(*e, max_age_ms, now_ms),
{
    match &e.state {
        Some(s) => s.is_opaque && now_ms.saturating_sub(s.written_at_ms) <= max_age_ms,
        None => false,
    }
}

/// The nodes that shed, each once.
fn shedding(entries: &Vec<LoadEntry>, max_age_ms: u64, now_ms: u64) -> (r: Vec<String>)
    ensures
        texts(r@).no_duplicates(),
        forall|n: Seq<char>| #[trigger]
            texts(r@).contains(n) == sheds(entries@, n, max_age_ms, now_ms, entries@.len() as int),
{
    let mut out: Vec<String> = Vec::new();
    let mut k: usize = 0;
    assert(texts(out@) =~= Seq::empty());
    while k < entries.len()
        invariant
            k <= entries@.len(),
            texts(out@).no_duplicates(),
            forall|n: Seq<char>| #[trigger]
                texts(out@).contains(n) == sheds(entries@, n, max_age_ms, now_ms, k as int),
        decreases entries@.len() - k,
    {
        let e = &entries[k];
        let ghost before = texts(out@);
        let mut found: Option<String> = None;
        if is_freshly_opaque(e, max_age_ms, now_ms) {
            if let Some(tail) = strip_prefix(e.key.as_str(), LOAD) {
                found = Some(head(tail.as_str(), '/'));
            }
        }
        let ghost at = if freshly_opaque(*e, max_age_ms, now_ms) {
            load_node(e.key@)
        } else {
            None
        };
        assert(found is Some == at is Some);
        assert(found matches Some(n) ==> at == Some(n@));
        if let Some(node) = found {
            if !has_text(&out, node.as_str()) {
                let ghost n = node@;
                out.push(node);
                assert(texts(out@) =~= before.push(n));
            }
        }
        proof {
            let after = texts(out@);
            assert forall|n: Seq<char>| #[trigger] after.contains(n) == (before.contains(n) || at == Some(n)) by {
                if after.len() > before.len() {
                    assert(after[before.len() as int] == at->0);
                    if before.contains(n) {
                        let i = choose|i: int| 0 <= i < before.len() && before[i] == n;
                        assert(after[i] == n);
                    }
                }
            }
            assert forall|n: Seq<char>| #[trigger]
                after.contains(n) == sheds(entries@, n, max_age_ms, now_ms, k + 1) by {
                assert(before.contains(n) == sheds(entries@, n, max_age_ms, now_ms, k as int));
                assert(entries@[k as int] == *e);
            }
        }
        k += 1;
    }
    out
}

/// Counts group members with any opaque load entry fresher than `max_age_ms`; a member that sheds for
/// several kinds counts once.
pub fn count_opaque_members_in_kv(
    entries: &Vec<LoadEntry>,
    member_ids: &ahash::AHashSet<String>,
    max_age_ms: u64,
    now_ms: u64,
) -> (r: usize)
    ensures
        r == opaque_nodes(entries@, max_age_ms, now_ms).intersect(held_texts(*member_ids)).len(),
{
    let all = shedding(entries, max_age_ms, now_ms);
    let ghost members = held_texts(*member_ids);
    let ghost mut kept: Seq<Seq<char>> = Seq::empty();
    let mut count: usize = 0;
    let mut k: usize = 0;
    while k < all.len()
        invariant
            k <= all@.len(),
            count <= k,
            count == kept.len(),
            members == held_texts(*member_ids),
            texts(all@).no_duplicates(),
            kept.no_duplicates(),
            forall|n: Seq<char>| #[trigger]
                kept.contains(n) <==> members.contains(n) && texts(all@).take(k as int).contains(n),
        decreases all@.len() - k,
    {
        let ghost front = texts(all@).take(k as int);
        let ghost x = all@[k as int]@;
        proof {
            assert(texts(all@)[k as int] == x);
            assert(texts(all@).take(k + 1) =~= front.push(x));
            if front.contains(x) {
                let i = choose|i: int| 0 <= i < front.len() && front[i] == x;
                assert(texts(all@)[i] == texts(all@)[k as int]);
            }
            assert forall|n: Seq<char>| front.push(x).contains(n) <==> front.contains(n) || n == x by {
                if front.contains(n) {
                    let i = choose|i: int| 0 <= i < front.len() && front[i] == n;
                    assert(front.push(x)[i] == n);
                }
                assert(front.push(x)[front.len() as int] == x);
            }
        }
        if set_contains(member_ids, all[k].as_str()) {
            proof {
                let was = kept;
                kept = was.push(x);
                assert(!was.contains(x));
                assert forall|n: Seq<char>| kept.contains(n) <==> was.contains(n) || n == x by {
                    if was.contains(n) {
                        let i = choose|i: int| 0 <= i < was.len() && was[i] == n;
                        assert(kept[i] == n);
                    }
                    assert(kept[was.len() as int] == x);
                }
            }
            count += 1;
        }
        k += 1;
    }
    proof {
        assert(texts(all@).take(all@.len() as int) =~= texts(all@));
        kept.unique_seq_to_set();
        let all_nodes = opaque_nodes(entries@, max_age_ms, now_ms);
        assert forall|n: Seq<char>| kept.to_set().contains(n) == all_nodes.intersect(members).contains(n) by {
            assert(kept.contains(n) <==> members.contains(n) && texts(all@).contains(n));
            assert(texts(all@).contains(n) == sheds(entries@, n, max_age_ms, now_ms, entries@.len() as int));
        }
        assert(kept.to_set() =~= all_nodes.intersect(members));
    }
    count
}

/// Counts all nodes with any opaque load entry fresher than `max_age_ms`; a node that sheds for several
/// kinds counts once.
pub fn count_opaque_all_in_kv(entries: &Vec<LoadEntry>, max_age_ms: u64, now_ms: u64) -> (r: usize)
    ensures
        r == opaque_nodes(entries@, max_age_ms, now_ms).len(),
{
    let all = shedding(entries, max_age_ms, now_ms);
    proof {
        let seen = texts(all@);
        seen.unique_seq_to_set();
        assert forall|n: Seq<char>| seen.to_set().contains(n) == opaque_nodes(
            entries@,
            max_age_ms,
            now_ms,
        ).contains(n) by {
            assert(seen.contains(n) == sheds(entries@, n, max_age_ms, now_ms, entries@.len() as int));
        }
        assert(seen.to_set() =~= opaque_nodes(entries@, max_age_ms, now_ms));
    }
    all.len()
}

/// The key of a node's load entry for a kind.
pub open spec fn load_key_of(node: NodeModel, kind: Seq<char>) -> Seq<char> {
    LOAD@ + slashed(node.text(), kind)
}

/// The key of a node's load entry for a kind.
pub fn load_key(node: &NodeId, kind: &str) -> (r: String)
    ensures
        r@ == load_key_of(node@, kind@),
{
    let tail = slash(node.text().as_str(), kind);
    join(LOAD, tail.as_str())
}

/// Does some entry under the key mark its node opaque, written no longer than `max_age_ms` ago where a
/// greatest age is asked for?
pub open spec fn trail_opaque(entries: Seq<LoadEntry>, key: Seq<char>, max_age_ms: Option<u64>, now_ms: u64) -> bool {
    exists|i: int|
        0 <= i < entries.len() && (#[trigger] entries[i]).key@ == key && (entries[i].state matches Some(s)
            && s.is_opaque && (max_age_ms matches Some(age) ==> minus(now_ms, s.written_at_ms) <= age))
}

fn trail(entries: &Vec<LoadEntry>, key: &str, max_age_ms: Option<u64>, now_ms: u64) -> (r: bool)
    ensures
        r == trail_opaque(entries@, key@, max_age_ms, now_ms),
{
    let mut k: usize = 0;
    while k < entries.len()
        invariant
            k <= entries@.len(),
            forall|i: int|
                0 <= i < k ==> !((#[trigger] entries@[i]).key@ == key@ && (entries@[i].state matches Some(s)
                    && s.is_opaque && (max_age_ms matches Some(age) ==> minus(now_ms, s.written_at_ms) <= age))),
        decreases entries@.len() - k,
    {
        let opaque = match &entries[k].state {
            Some(s) => s.is_opaque && match max_age_ms {
                Some(age) => now_ms.saturating_sub(s.written_at_ms) <= age,
                None => true,
            },
            None => false,
        };
        if opaque && same(entries[k].key.as_str(), key) {
            return true;
        }
        k += 1;
    }
    false
}

/// Does this node's own load entry for a kind mark it opaque?
pub fn is_opaque(entries: &Vec<LoadEntry>, me: &NodeId, kind: &str) -> (r: bool)
    ensures
        r == trail_opaque(entries@, load_key_of(me@, kind@), None, 0),
{
    trail(entries, load_key(me, kind).as_str(), None, 0)
}

/// Does a node's load entry for a kind mark it opaque, written no longer than `max_age_ms` ago?
pub fn is_node_opaque(entries: &Vec<LoadEntry>, node: &NodeId, kind: &str, max_age_ms: u64, now_ms: u64) -> (r: bool)
    ensures
        r == trail_opaque(entries@, load_key_of(node@, kind@), Some(max_age_ms), now_ms),
{
    trail(entries, load_key(node, kind).as_str(), Some(max_age_ms), now_ms)
}

/// Returns `true` if this node has any `sys/load/{node_id}/*` entry marking `is_opaque`.
pub fn is_self_opaque(entries: &Vec<LoadEntry>, node_id: &NodeId) -> (r: bool)
    ensures
        r == exists|i: int|
            0 <= i < entries@.len() && has_prefix(
                (#[trigger] entries@[i]).key@,
                load_key_of(node_id@, Seq::empty()),
            ) && (entries@[i].state matches Some(s) && s.is_opaque),
{
    let prefix = load_key(node_id, "");
    proof {
        reveal_strlit("");
        assert(""@ =~= Seq::empty());
    }
    let mut k: usize = 0;
    while k < entries.len()
        invariant
            k <= entries@.len(),
            prefix@ == load_key_of(node_id@, Seq::empty()),
            forall|i: int|
                0 <= i < k ==> !(has_prefix((#[trigger] entries@[i]).key@, prefix@) && (entries@[i].state matches Some(
                    s,
                ) && s.is_opaque)),
        decreases entries@.len() - k,
    {
        let opaque = match &entries[k].state {
            Some(s) => s.is_opaque,
            None => false,
        };
        if opaque && starts_with(entries[k].key.as_str(), prefix.as_str()) {
            return true;
        }
        k += 1;
    }
    false
}

/// One peer's load for one kind.
#[derive(Debug, PartialEq, Eq)]
pub struct PeerLoad {
    /// The node, as its key names it.
    pub node: String,
    /// The kind.
    pub kind: String,
    /// Its load.
    pub state: LoadState,
}

/// What an entry says of a peer: nothing where its key names no kind, its value does not decode, or
/// it was written longer than `max_age_ms` ago.
pub open spec fn peer_at(e: LoadEntry, max_age_ms: u64, now_ms: u64) -> Option<(Seq<char>, Seq<char>, LoadState)> {
    match (after_prefix(e.key@, LOAD@), e.state) {
        (Some(tail), Some(s)) => match split_at_first(tail, '/') {
            Some((node, kind)) if minus(now_ms, s.written_at_ms) <= max_age_ms => Some((node, kind, s)),
            _ => None,
        },
        _ => None,
    }
}

/// What the first `k` entries say of peers, in order.
pub open spec fn peers_in(entries: Seq<LoadEntry>, max_age_ms: u64, now_ms: u64, k: int) -> Seq<
    (Seq<char>, Seq<char>, LoadState),
>
    decreases k,
{
    if k <= 0 {
        Seq::empty()
    } else {
        let front = peers_in(entries, max_age_ms, now_ms, k - 1);
        match peer_at(entries[k - 1], max_age_ms, now_ms) {
            Some(p) => front.push(p),
            None => front,
        }
    }
}

/// The peers' loads of a list.
pub open spec fn loads(v: Seq<PeerLoad>) -> Seq<(Seq<char>, Seq<char>, LoadState)> {
    v.map_values(|p: PeerLoad| p@)
}

/// A fill's place among fills, by the bits of its 32-bit form: as the numbers themselves are ordered,
/// both zeros alike.
pub open spec fn fill_rank(bits: u32) -> int {
    if bits < 0x8000_0000 {
        bits as int
    } else {
        0x8000_0000 - bits
    }
}

fn rank_of(bits: u32) -> (r: i64)
    ensures
        r == fill_rank(bits),
{
    if bits < 0x8000_0000 {
        bits as i64
    } else {
        0x8000_0000i64 - bits as i64
    }
}

impl View for PeerLoad {
    type V = (Seq<char>, Seq<char>, LoadState);

    open spec fn view(&self) -> Self::V {
        (self.node@, self.kind@, self.state)
    }
}

/// A fuller channel comes first.
impl Ranked for PeerLoad {
    open spec fn at_or_before(&self, other: &Self) -> bool {
        fill_rank(self.state.fill_bits) >= fill_rank(other.state.fill_bits)
    }

    proof fn lemma_order(a: &Self, b: &Self, c: &Self) {
    }

    fn rank(&self, other: &Self) -> (r: bool) {
        rank_of(self.state.fill_bits) >= rank_of(other.state.fill_bits)
    }
}

/// Do loads come highest fill first?
pub open spec fn fullest_first(v: Seq<(Seq<char>, Seq<char>, LoadState)>) -> bool {
    forall|i: int, j: int|
        #![trigger v[i], v[j]]
        0 <= i < j < v.len() ==> fill_rank(v[i].2.fill_bits) >= fill_rank(v[j].2.fill_bits)
}

/// The loads of one fill, in the order they stand in.
pub open spec fn with_fill(v: Seq<(Seq<char>, Seq<char>, LoadState)>, rank: int) -> Seq<
    (Seq<char>, Seq<char>, LoadState),
> {
    v.filter(|p: (Seq<char>, Seq<char>, LoadState)| fill_rank(p.2.fill_bits) == rank)
}

/// All peer load states newer than `max_age_ms`, highest fill first; those of one fill in the order of
/// the scan.
pub fn peer_load(entries: &Vec<LoadEntry>, max_age_ms: u64, now_ms: u64) -> (r: Vec<PeerLoad>)
    ensures
        fullest_first(loads(r@)),
        loads(r@).to_multiset() == peers_in(
            entries@,
            max_age_ms,
            now_ms,
            entries@.len() as int,
        ).to_multiset(),
        forall|rank: int| #[trigger]
            with_fill(loads(r@), rank) == with_fill(
                peers_in(entries@, max_age_ms, now_ms, entries@.len() as int),
                rank,
            ),
{
    let mut out: Vec<PeerLoad> = Vec::new();
    let mut k: usize = 0;
    assert(loads(out@) =~= Seq::empty());
    while k < entries.len()
        invariant
            k <= entries@.len(),
            loads(out@) == peers_in(entries@, max_age_ms, now_ms, k as int),
        decreases entries@.len() - k,
    {
        let e = &entries[k];
        let ghost before = out@;
        if let Some(tail) = strip_prefix(e.key.as_str(), LOAD) {
            if let Some((node, kind)) = split_once(tail.as_str(), '/') {
                if let Some(s) = &e.state {
                    if now_ms.saturating_sub(s.written_at_ms) <= max_age_ms {
                        let p = PeerLoad { node, kind, state: *s };
                        out.push(p);
                        assert(loads(out@) =~= loads(before).push((p.node@, p.kind@, p.state)));
                    }
                }
            }
        }
        k += 1;
    }
    let ghost found = out@;
    let r = sort(out);
    proof {
        let f = |p: PeerLoad| p@;
        lemma_arrangement_mapped(r@, found, f);
        assert forall|i: int, j: int| 0 <= i < j < r@.len() implies fill_rank(
            (#[trigger] loads(r@)[i]).2.fill_bits,
        ) >= fill_rank((#[trigger] loads(r@)[j]).2.fill_bits) by {
            assert(r@[i].at_or_before(&r@[j]));
        }
        assert forall|rank: int| #[trigger] with_fill(loads(r@), rank) == with_fill(loads(found), rank) by {
            lemma_fills_kept(r@, found, rank);
        }
    }
    r
}

proof fn lemma_fills_kept(s: Seq<PeerLoad>, t: Seq<PeerLoad>, rank: int)
    requires
        forall|x: PeerLoad| #[trigger] tied_with(s, x) == tied_with(t, x),
        s.to_multiset() == t.to_multiset(),
    ensures
        with_fill(loads(s), rank) == with_fill(loads(t), rank),
{
    broadcast use vstd::seq_lib::group_to_multiset_ensures;

    let f = |p: PeerLoad| p@;
    let p = |m: (Seq<char>, Seq<char>, LoadState)| fill_rank(m.2.fill_bits) == rank;
    let q = |l: PeerLoad| p(f(l));
    lemma_filter_mapped(s, f, p);
    lemma_filter_mapped(t, f, p);
    if exists|i: int| 0 <= i < s.len() && q(#[trigger] s[i]) {
        let i = choose|i: int| 0 <= i < s.len() && q(#[trigger] s[i]);
        let x = s[i];
        let tied = |y: PeerLoad| x.at_or_before(&y) && y.at_or_before(&x);
        assert(q =~= tied);
        assert(tied_with(s, x) == tied_with(t, x));
    } else {
        if t.filter(q).len() > 0 {
            t.lemma_filter_pred(q, 0);
            t.lemma_filter_contains_rev(q, t.filter(q)[0]);
            let y = t.filter(q)[0];
            assert(t.to_multiset().count(y) > 0);
            assert(s.contains(y));
        }
        if s.filter(q).len() > 0 {
            s.lemma_filter_pred(q, 0);
            s.lemma_filter_contains_rev(q, s.filter(q)[0]);
        }
        assert(s.filter(q) =~= t.filter(q));
    }
}

/// The boundary transition an opacity-governor tick decides on.
#[derive(Debug, Clone, Copy, PartialEq, Eq, Structural)]
pub enum OpacityTransition {
    /// The node starts shedding.
    GoOpaque,
    /// The node stops shedding.
    GoTransparent,
    /// No boundary change this tick.
    Hold,
}

/// How a tick's fill compares with the lines drawn for it.
#[derive(Debug, Clone, Copy, PartialEq, Eq, Structural)]
pub struct FillReading {
    /// The fill is at or over the effective threshold.
    pub at_threshold: bool,
    /// The channel is full.
    pub at_full: bool,
    /// The fill is a full hysteresis below the effective threshold.
    pub below_release: bool,
}

/// The transition a tick proposes.
pub open spec fn proposed(is_opaque: bool, fill: FillReading, gate_ok: bool) -> OpacityTransition {
    if is_opaque {
        if fill.below_release {
            OpacityTransition::GoTransparent
        } else {
            OpacityTransition::Hold
        }
    } else if fill.at_threshold && (gate_ok || fill.at_full) {
        OpacityTransition::GoOpaque
    } else {
        OpacityTransition::Hold
    }
}

/// Decide the boundary transition. The library **overrides** a vetoing gate at a full channel; below
/// full, a `false` gate holds the boundary transparent. Clearing requires fill to fall a full
/// hysteresis below the effective threshold.
pub fn opacity_transition(is_opaque: bool, fill: FillReading, gate_ok: bool) -> (r: OpacityTransition)
    ensures
        r == proposed(is_opaque, fill, gate_ok),
{
    if !is_opaque && fill.at_threshold {
        if gate_ok || fill.at_full {
            OpacityTransition::GoOpaque
        } else {
            OpacityTransition::Hold
        }
    } else if is_opaque && fill.below_release {
        OpacityTransition::GoTransparent
    } else {
        OpacityTransition::Hold
    }
}

/// The transition once the spacing has spoken: only a release inside it is held.
pub open spec fn spaced_of(
    p: OpacityTransition,
    spacing_ms: u64,
    last_action_ms: Option<u64>,
    now_ms: u64,
) -> OpacityTransition {
    if p == OpacityTransition::GoTransparent && !spaced(spacing_ms, last_action_ms, now_ms) {
        OpacityTransition::Hold
    } else {
        p
    }
}

/// The control contract's spacing over a proposed transition. Only the **release** is spaced:
/// `GoOpaque` is protective shedding, which is never held (a boundary that must shed sheds now,
/// whatever it did a moment ago), and `Hold` is not an action. The release is what flaps; the
/// hysteresis makes it rarer, the spacing bounds its rate outright.
pub fn spaced_transition(
    proposed: OpacityTransition,
    spec: &ControlSpec,
    last_action_ms: Option<u64>,
    now_ms: u64,
) -> (r: OpacityTransition)
    ensures
        r == spaced_of(proposed, spec.spacing_ms, last_action_ms, now_ms),
{
    match proposed {
        OpacityTransition::GoTransparent => if spacing_allows(spec, last_action_ms, now_ms) {
            OpacityTransition::GoTransparent
        } else {
            OpacityTransition::Hold
        },
        other => other,
    }
}

/// A boundary's governor, between two ticks.
#[derive(Debug, PartialEq, Eq)]
pub struct OpacityGovernor {
    /// The boundary's contract.
    pub spec: ControlSpec,
    /// Whether the boundary sheds.
    pub is_opaque: bool,
    /// When it last changed.
    pub last_action_ms: Option<u64>,
    /// How many releases the spacing has held.
    pub releases_spaced: u64,
}

/// The boundary's contract for a kind: one actuator per kind, spacing as given, no settle timeout
/// and no confidence bound. The loop's own input *is* the effect channel, so every tick reads the
/// effect again before it proposes.
pub fn boundary_spec(kind: &str, release_spacing_ms: u64) -> (r: ControlSpec)
    ensures
        r.governor@ == "opacity"@,
        r.actuator@ == "boundary/"@ + kind@,
        r.spacing_ms == release_spacing_ms,
        r.settle_timeout_ms == 0,
        r.profile == Profile::Legacy,
{
    ControlSpec {
        governor: "opacity".to_owned(),
        actuator: join("boundary/", kind),
        spacing_ms: release_spacing_ms,
        settle_timeout_ms: 0,
        bound: ConfidenceBound {  },
        profile: Profile::Legacy,
    }
}

/// What the boundary starts as, and the fill its trend starts from: what the node's own load entry
/// says, or transparent at the channel's present fill where there is none.
pub fn initial_boundary(stored: Option<LoadState>, channel_fill_bits: u32) -> (r: (bool, u32))
    ensures
        r == match stored {
            Some(s) => (s.is_opaque, s.fill_bits),
            None => (false, channel_fill_bits),
        },
{
    match stored {
        Some(s) => (s.is_opaque, s.fill_bits),
        None => (false, channel_fill_bits),
    }
}

impl OpacityGovernor {
    /// One tick: propose, space, and take the transition. A release that the spacing holds is
    /// counted.
    pub fn tick(&mut self, fill: FillReading, gate_ok: bool, now_ms: u64) -> (r: OpacityTransition)
        ensures
            ({
                let p = proposed(old(self).is_opaque, fill, gate_ok);
                &&& r == spaced_of(p, old(self).spec.spacing_ms, old(self).last_action_ms, now_ms)
                &&& final(self).spec == old(self).spec
                &&& final(self).is_opaque == match r {
                    OpacityTransition::GoOpaque => true,
                    OpacityTransition::GoTransparent => false,
                    OpacityTransition::Hold => old(self).is_opaque,
                }
                &&& final(self).last_action_ms == if r == OpacityTransition::Hold {
                    old(self).last_action_ms
                } else {
                    Some(now_ms)
                }
                &&& final(self).releases_spaced == if r == p {
                    old(self).releases_spaced
                } else {
                    old(self).releases_spaced.wrapping_add(1)
                }
            }),
    {
        let p = opacity_transition(self.is_opaque, fill, gate_ok);
        let t = spaced_transition(p, &self.spec, self.last_action_ms, now_ms);
        if t != p {
            self.releases_spaced = self.releases_spaced.wrapping_add(1);
        }
        match t {
            OpacityTransition::GoOpaque => {
                self.last_action_ms = Some(now_ms);
                self.is_opaque = true;
            },
            OpacityTransition::GoTransparent => {
                self.last_action_ms = Some(now_ms);
                self.is_opaque = false;
            },
            OpacityTransition::Hold => {},
        }
        t
    }
}

/// What a transition writes to the node's load entry: the value to store, or `None` for a tombstone,
/// or nothing at all on a hold.
#[derive(Debug, Clone, Copy, PartialEq, Eq, Structural)]
pub enum LoadWrite {
    /// Store this.
    Store(LoadState),
    /// Remove the entry.
    Tombstone,
    /// Leave it.
    Nothing,
}

/// What a transition writes to the node's load entry.
pub fn load_write(t: OpacityTransition, fill_bits: u32, written_at_ms: u64) -> (r: LoadWrite)
    ensures
        r == match t {
            OpacityTransition::GoOpaque => LoadWrite::Store(
                LoadState { fill_bits, is_opaque: true, written_at_ms },
            ),
            OpacityTransition::GoTransparent => LoadWrite::Tombstone,
            OpacityTransition::Hold => LoadWrite::Nothing,
        },
{
    match t {
        OpacityTransition::GoOpaque => LoadWrite::Store(
            LoadState { fill_bits, is_opaque: true, written_at_ms },
        ),
        OpacityTransition::GoTransparent => LoadWrite::Tombstone,
        OpacityTransition::Hold => LoadWrite::Nothing,
    }
}

/// What a transition tells the boundary's scope.
#[derive(Debug, PartialEq, Eq)]
pub enum BoundarySignal {
    /// The node sheds, with what its hint has it say.
    Opaque(Vec<u8>),
    /// The node no longer sheds.
    Transparent,
}

/// The signal a transition sends: one for each change, and none while the boundary is held.
pub fn boundary_signal(t: OpacityTransition, payload: Vec<u8>) -> (r: Option<BoundarySignal>)
    ensures
        r == match t {
            OpacityTransition::GoOpaque => Some(BoundarySignal::Opaque(payload)),
            OpacityTransition::GoTransparent => Some(BoundarySignal::Transparent),
            OpacityTransition::Hold => None,
        },
{
    match t {
        OpacityTransition::GoOpaque => Some(BoundarySignal::Opaque(payload)),
        OpacityTransition::GoTransparent => Some(BoundarySignal::Transparent),
        OpacityTransition::Hold => None,
    }
}

/// Shedding is never held: a boundary that is transparent, at its threshold and either admitted by
/// its gate or full goes opaque, whatever it did a moment ago.
pub proof fn lemma_shed_is_never_held(
    fill: FillReading,
    gate_ok: bool,
    spacing_ms: u64,
    last_action_ms: Option<u64>,
    now_ms: u64,
)
    requires
        fill.at_threshold,
        gate_ok || fill.at_full,
    ensures
        spaced_of(proposed(false, fill, gate_ok), spacing_ms, last_action_ms, now_ms)
            == OpacityTransition::GoOpaque,
{
}

/// A transition never asks a boundary to become what it is.
pub proof fn lemma_transition_changes_the_boundary(
    is_opaque: bool,
    fill: FillReading,
    gate_ok: bool,
    spacing_ms: u64,
    last_action_ms: Option<u64>,
    now_ms: u64,
)
    ensures
        ({
            let t = spaced_of(proposed(is_opaque, fill, gate_ok), spacing_ms, last_action_ms, now_ms);
            &&& t == OpacityTransition::GoOpaque ==> !is_opaque
            &&& t == OpacityTransition::GoTransparent ==> is_opaque && spaced(
                spacing_ms,
                last_action_ms,
                now_ms,
            )
        }),
{
}

} // verus!

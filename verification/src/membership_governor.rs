//! Coordinator-free elastic group sizing: intent and local self-election.
//!
//! Bounds `[min, max]` (and `drain`) for a group are published as a [`MembershipIntent`]. Each node
//! observes the live member count, its eligibility and its own load, then independently rolls to
//! join or leave so the count converges toward the band. Drain wins. Bounds are convergence targets,
//! not guarantees: no coordinator, no barrier, each node acts on local information.
//!
//! The probabilities themselves are real numbers and are computed by the caller; what is decided
//! from them, and everything around the decision, is decided here.
use crate::control::{
    decide as confidence, decision, may_propose, spaced, spacing_allows, unsettled, ActionClass, ActionId,
    ConfidenceBound, ControlSpec, Decision, Profile, SettleState,
};
use crate::config::{saturating_mul, saturating_product, GossipConfig};
use crate::intent::{applies, in_force, publish_intent, FleetIntent};
use crate::keys::{
    cap_parts, grp_prefix, grp_prefix_of, is_cap_locality_key, is_locality, parse_cap_key, KvEntry,
};
use crate::node_id::{contains, insert, node_of, nodes, NodeId, NodeModel};
use crate::text::{after_prefix, join, same, strip_prefix, texts};
use vstd::prelude::*;
use vstd::string::*;

verus! {

/// `sys/govern/membership/{group}`: one fleet intent per governed group.
pub const MEMBERSHIP_PREFIX: &'static str = "sys/govern/membership/";

/// Evaporation window for a membership intent: refreshed within this, or it self-heals away.
pub const MEMBERSHIP_INTENT_TTL_MS: u64 = 300_000;

/// Elastic-sizing intent for one group: keep the live member count within `[min, max]`, minus any
/// explicitly drained nodes. `max = None` is unbounded.
#[derive(Debug, PartialEq, Eq)]
pub struct MembershipIntent {
    /// The group.
    pub group: String,
    /// The least member count aimed at.
    pub min: usize,
    /// The greatest member count aimed at.
    pub max: Option<usize>,
    /// Nodes that must leave and stay out.
    pub drain: Vec<NodeId>,
    /// When the intent was published.
    pub written_at_ms: u64,
    /// Whom it is for; everyone where `None`.
    pub target: Option<NodeId>,
}

impl MembershipIntent {
    /// An intent for the whole fleet, draining nobody and not yet published.
    pub fn new(group: &str, min: usize, max: Option<usize>) -> (r: Self)
        ensures
            r.group@ == group@,
            r.min == min,
            r.max == max,
            r.drain@.len() == 0,
            r.written_at_ms == 0,
            r.target is None,
    {
        MembershipIntent {
            group: group.to_owned(),
            min,
            max,
            drain: Vec::new(),
            written_at_ms: 0,
            target: None,
        }
    }

    /// Names nodes that must leave (and stay out): cooperative self-removal, not eviction.
    pub fn with_drain(self, nodes: Vec<NodeId>) -> (r: Self)
        ensures
            r == (MembershipIntent { drain: nodes, ..self }),
    {
        let mut r = self;
        r.drain = nodes;
        r
    }

    /// Target this intent at a single node.
    pub fn for_node(self, node: NodeId) -> (r: Self)
        ensures
            r == (MembershipIntent { target: Some(node), ..self }),
    {
        let mut r = self;
        r.target = Some(node);
        r
    }

    /// The key the intent is published under.
    pub fn key(&self) -> (r: String)
        ensures
            r@ == MEMBERSHIP_PREFIX@ + self.group@,
    {
        join(MEMBERSHIP_PREFIX, self.group.as_str())
    }
}

impl FleetIntent for MembershipIntent {
    open spec fn published(&self) -> u64 {
        self.written_at_ms
    }

    open spec fn aimed_at(&self) -> Option<NodeModel> {
        match self.target {
            Some(n) => Some(n@),
            None => None,
        }
    }

    open spec fn stamped(self, now_ms: u64) -> Self {
        MembershipIntent { written_at_ms: now_ms, ..self }
    }

    fn written_at_ms(&self) -> (r: u64) {
        self.written_at_ms
    }

    fn stamp(&mut self, now_ms: u64) {
        self.written_at_ms = now_ms;
    }

    fn target(&self) -> (r: Option<&NodeId>) {
        self.target.as_ref()
    }
}

/// An intent as it is published, and where.
pub fn publish_membership_intent(intent: MembershipIntent, now_ms: u64) -> (r: (String, MembershipIntent))
    ensures
        r.0@ == MEMBERSHIP_PREFIX@ + intent.group@,
        r.1 == intent.stamped(now_ms),
{
    let key = intent.key();
    (key, publish_intent(intent, now_ms))
}

/// What a node decides this tick for one group.
#[derive(Clone, Copy, Debug, PartialEq, Eq, Structural)]
pub enum MembershipAction {
    /// Join it.
    Join,
    /// Leave it.
    Leave,
    /// Stay as it is.
    Hold,
}

/// The self-election: drain wins, so a drained node leaves and stays out; else the roll against the
/// join or leave probability counts.
pub open spec fn election(
    am_member: bool,
    is_drain: bool,
    under_join: bool,
    under_leave: bool,
) -> MembershipAction {
    if am_member {
        if is_drain || under_leave {
            MembershipAction::Leave
        } else {
            MembershipAction::Hold
        }
    } else if under_join && !is_drain {
        MembershipAction::Join
    } else {
        MembershipAction::Hold
    }
}

/// Pure self-election decision. `under_join` and `under_leave` say whether this tick's roll fell
/// under the join and the leave probability.
pub fn decide(am_member: bool, is_drain: bool, under_join: bool, under_leave: bool) -> (r:
    MembershipAction)
    ensures
        r == election(am_member, is_drain, under_join, under_leave),
{
    if is_drain {
        return if am_member {
            MembershipAction::Leave
        } else {
            MembershipAction::Hold
        };
    }
    if !am_member && under_join {
        return MembershipAction::Join;
    }
    if am_member && under_leave {
        return MembershipAction::Leave;
    }
    MembershipAction::Hold
}

/// One entry of a capability scan: its key, and whether its value decodes to a capability that the
/// group's filter matches.
#[derive(Debug, PartialEq, Eq)]
pub struct CapEntry {
    /// The key.
    pub key: String,
    /// Whether the filter matches.
    pub matched: bool,
}

/// The node an entry makes eligible.
pub open spec fn eligible_at(e: CapEntry) -> Option<NodeModel> {
    if e.matched && !is_locality(e.key@) {
        match cap_parts(e.key@) {
            Some((n, ns, name)) => Some(n),
            None => None,
        }
    } else {
        None
    }
}

/// The node an entry makes a member. An empty value is a tombstone: the node left.
pub open spec fn member_at(e: KvEntry, group: Seq<char>) -> Option<NodeModel> {
    match after_prefix(e.key@, grp_prefix_of(group)) {
        Some(node) if e.value@.len() > 0 => node_of(node),
        _ => None,
    }
}

/// A list of distinct nodes with one more, where it is not among them yet.
pub open spec fn with_node(list: Seq<NodeModel>, at: Option<NodeModel>) -> Seq<NodeModel> {
    match at {
        Some(n) if !list.contains(n) => list.push(n),
        _ => list,
    }
}

/// The nodes the first `k` entries make eligible.
pub open spec fn eligible_in(entries: Seq<CapEntry>, k: int) -> Seq<NodeModel>
    decreases k,
{
    if k <= 0 {
        Seq::empty()
    } else {
        with_node(eligible_in(entries, k - 1), eligible_at(entries[k - 1]))
    }
}

/// The nodes the first `k` entries make members.
pub open spec fn members_in(entries: Seq<KvEntry>, group: Seq<char>, k: int) -> Seq<NodeModel>
    decreases k,
{
    if k <= 0 {
        Seq::empty()
    } else {
        with_node(members_in(entries, group, k - 1), member_at(entries[k - 1], group))
    }
}

/// Nodes whose gossiped capabilities match the filter: the eligible set for a group.
pub fn resolve_eligible(entries: &Vec<CapEntry>) -> (r: Vec<NodeId>)
    ensures
        nodes(r@) == eligible_in(entries@, entries@.len() as int),
        nodes(r@).no_duplicates(),
        forall|n: NodeModel|
            nodes(r@).contains(n) <==> exists|i: int|
                0 <= i < entries@.len() && eligible_at(#[trigger] entries@[i]) == Some(n),
{
    let mut set: Vec<NodeId> = Vec::new();
    let mut k: usize = 0;
    assert(nodes(set@) =~= Seq::empty());
    while k < entries.len()
        invariant
            k <= entries@.len(),
            nodes(set@) == eligible_in(entries@, k as int),
            nodes(set@).no_duplicates(),
            forall|n: NodeModel|
                nodes(set@).contains(n) <==> exists|i: int|
                    0 <= i < k && eligible_at(#[trigger] entries@[i]) == Some(n),
        decreases entries@.len() - k,
    {
        let e = &entries[k];
        let ghost before = nodes(set@);
        let mut found: Option<NodeId> = None;
        if e.matched && !is_cap_locality_key(e.key.as_str()) {
            if let Some((n, _, _)) = parse_cap_key(e.key.as_str()) {
                found = Some(n);
            }
        }
        let ghost at = eligible_at(*e);
        assert(found is Some == at is Some);
        assert(found matches Some(n) ==> at == Some(n@));
        if let Some(n) = found {
            insert(&mut set, n);
        }
        proof {
            lemma_insert(before, at, nodes(set@));
            assert(entries@[k as int] == *e);
        }
        k += 1;
    }
    set
}

/// What inserting at most one node does to a list of distinct nodes.
proof fn lemma_insert(before: Seq<NodeModel>, at: Option<NodeModel>, after: Seq<NodeModel>)
    requires
        before.no_duplicates(),
        after == with_node(before, at),
    ensures
        after.no_duplicates(),
        forall|m: NodeModel| after.contains(m) <==> before.contains(m) || at == Some(m),
{
    if let Some(n) = at {
        if !before.contains(n) {
            assert(after[before.len() as int] == n);
            assert forall|m: NodeModel| after.contains(m) <==> before.contains(m) || at == Some(m) by {
                if before.contains(m) {
                    let i = choose|i: int| 0 <= i < before.len() && before[i] == m;
                    assert(after[i] == m);
                }
            }
        }
    }
}

/// Current live members of `group` (`grp/{group}/{node}`, tombstones excluded).
pub fn group_members(entries: &Vec<KvEntry>, group: &str) -> (r: Vec<NodeId>)
    ensures
        nodes(r@) == members_in(entries@, group@, entries@.len() as int),
        nodes(r@).no_duplicates(),
        forall|n: NodeModel|
            nodes(r@).contains(n) <==> exists|i: int|
                0 <= i < entries@.len() && member_at(#[trigger] entries@[i], group@) == Some(n),
{
    let prefix = grp_prefix(group);
    let mut set: Vec<NodeId> = Vec::new();
    let mut k: usize = 0;
    assert(nodes(set@) =~= Seq::empty());
    while k < entries.len()
        invariant
            k <= entries@.len(),
            nodes(set@) == members_in(entries@, group@, k as int),
            prefix@ == grp_prefix_of(group@),
            nodes(set@).no_duplicates(),
            forall|n: NodeModel|
                nodes(set@).contains(n) <==> exists|i: int|
                    0 <= i < k && member_at(#[trigger] entries@[i], group@) == Some(n),
        decreases entries@.len() - k,
    {
        let e = &entries[k];
        let ghost before = nodes(set@);
        let mut found: Option<NodeId> = None;
        if !e.value.is_empty() {
            if let Some(node) = strip_prefix(e.key.as_str(), prefix.as_str()) {
                found = NodeId::parse(node.as_str());
            }
        }
        let ghost at = member_at(*e, group@);
        assert(found is Some == at is Some);
        assert(found matches Some(n) ==> at == Some(n@));
        if let Some(n) = found {
            insert(&mut set, n);
        }
        proof {
            lemma_insert(before, at, nodes(set@));
            assert(entries@[k as int] == *e);
        }
        k += 1;
    }
    set
}

/// **Which class of action a membership decision is.**
///
/// - a join into an *empty* group is a rescue from zero;
/// - a join into a group below its declared `min` is a deficit fill: by cost a rescue, for a wrong
///   fill is one extra member and a wrong hold is a group stuck below its bound;
/// - a leave because the group reads *over* `max` is routine scale-down, the one class here that
///   uncertainty holds, because the observation may be a partition and leaving on a partition makes
///   it worse;
/// - a **drain** is an operator's instruction, not an inference from the fleet view, so the
///   confidence predicate has nothing to say about it;
/// - a hold is not an action.
pub fn classify(action: &MembershipAction, n: usize, is_drain: bool) -> (r: Option<ActionClass>)
    ensures
        r == class_of(*action, n as int, is_drain),
{
    match action {
        MembershipAction::Join => if n == 0 {
            Some(ActionClass::RescueFromZero)
        } else {
            Some(ActionClass::DeficitFill)
        },
        MembershipAction::Leave => if is_drain {
            None
        } else {
            Some(ActionClass::RoutineScaleDown)
        },
        MembershipAction::Hold => None,
    }
}

/// The class of a membership decision.
pub open spec fn class_of(action: MembershipAction, n: int, is_drain: bool) -> Option<ActionClass> {
    match action {
        MembershipAction::Join => Some(
            if n == 0 {
                ActionClass::RescueFromZero
            } else {
                ActionClass::DeficitFill
            },
        ),
        MembershipAction::Leave => if is_drain {
            None
        } else {
            Some(ActionClass::RoutineScaleDown)
        },
        MembershipAction::Hold => None,
    }
}

/// What a node sees of one governed group.
#[derive(Clone, Copy, Debug, PartialEq, Eq, Structural)]
pub struct GroupView {
    /// Live members.
    pub n: usize,
    /// Whether this node is one.
    pub am_member: bool,
    /// Whether this node could be one.
    pub am_eligible: bool,
    /// Whether the intent drains this node.
    pub is_drain: bool,
    /// Nodes that could be members and are not.
    pub eligible_non_members: usize,
}

/// How many of the first `k` eligible nodes are no members.
pub open spec fn outsiders(eligible: Seq<NodeModel>, members: Seq<NodeModel>, k: int) -> int
    decreases k,
{
    if k <= 0 {
        0
    } else {
        outsiders(eligible, members, k - 1) + if members.contains(eligible[k - 1]) {
            0int
        } else {
            1
        }
    }
}

/// What `me` sees of a group with these members and eligible nodes.
pub open spec fn group_view(
    members: Seq<NodeModel>,
    eligible: Seq<NodeModel>,
    drain: Seq<NodeModel>,
    me: NodeModel,
) -> GroupView {
    GroupView {
        n: members.len() as usize,
        am_member: members.contains(me),
        am_eligible: eligible.contains(me),
        is_drain: drain.contains(me),
        eligible_non_members: outsiders(eligible, members, eligible.len() as int) as usize,
    }
}

/// What `me` sees of a group with these members and eligible nodes.
pub fn view_group(members: &Vec<NodeId>, eligible: &Vec<NodeId>, drain: &Vec<NodeId>, me: &NodeId) -> (r:
    GroupView)
    ensures
        r.n == members@.len(),
        r.am_member == nodes(members@).contains(me@),
        r.am_eligible == nodes(eligible@).contains(me@),
        r.is_drain == nodes(drain@).contains(me@),
        r.eligible_non_members == outsiders(nodes(eligible@), nodes(members@), eligible@.len() as int),
        r == group_view(nodes(members@), nodes(eligible@), nodes(drain@), me@),
{
    let mut count: usize = 0;
    let mut k: usize = 0;
    while k < eligible.len()
        invariant
            k <= eligible@.len(),
            count <= k,
            count == outsiders(nodes(eligible@), nodes(members@), k as int),
        decreases eligible@.len() - k,
    {
        assert(nodes(eligible@)[k as int] == eligible@[k as int]@);
        if !contains(members, &eligible[k]) {
            count += 1;
        }
        k += 1;
    }
    GroupView {
        n: members.len(),
        am_member: contains(members, me),
        am_eligible: contains(eligible, me),
        is_drain: contains(drain, me),
        eligible_non_members: count,
    }
}

/// Is there a probability above zero to join with? Only an eligible node's, below `min`, where a
/// node could join at all.
pub open spec fn may_join(view: GroupView, min: usize) -> bool {
    view.am_eligible && view.n < min && view.eligible_non_members > 0
}

/// Is there a probability above zero to leave with? Only over a `max` that is set.
pub open spec fn may_leave(view: GroupView, max: Option<usize>) -> bool {
    max matches Some(m) && view.n > m && view.n > 0
}

/// One governed group's control state: the actuator's spacing and settling.
#[derive(Debug, PartialEq, Eq)]
pub struct GroupState {
    /// When this node last acted on the group. The cooldown, as spacing.
    pub last_action_ms: Option<u64>,
    /// Whether the last action has been observed to take effect.
    pub settle: SettleState,
    /// What the pending action was: `Some(true)` a join, `Some(false)` a leave. Observed when the
    /// group's membership reflects it.
    pub pending_join: Option<bool>,
    /// The governor's own sequence for this actuator.
    pub seq: u64,
}

/// What a convergence pass does about one group.
#[derive(Clone, Copy, Debug, PartialEq, Eq, Structural)]
pub enum GroupStep {
    /// It acted a moment ago.
    Spaced,
    /// Its last action is unobserved.
    Unsettled,
    /// The roll says stay.
    Hold,
    /// Uncertainty holds it back.
    Held,
    /// It acts.
    Act {
        /// Whether it leaves; else it joins.
        leaving: bool,
        /// Whether an enforcing profile would have held this.
        would_hold: bool,
    },
}

/// The state once the membership has been looked at: an action it reflects is settled.
pub open spec fn observed(s: GroupState, am_member: bool) -> GroupState {
    if s.pending_join == Some(am_member) {
        GroupState { settle: SettleState::Idle, pending_join: None, ..s }
    } else {
        s
    }
}

/// The state once an action past its settle timeout is given up on.
pub open spec fn timed_out(s: GroupState) -> GroupState {
    match s.settle {
        SettleState::Pending { .. } => GroupState { settle: SettleState::Idle, pending_join: None, ..s },
        SettleState::Idle => s,
    }
}

impl GroupState {
    /// A group nothing was done about yet.
    pub fn new() -> (r: Self)
        ensures
            r == (GroupState {
                last_action_ms: None,
                settle: SettleState::Idle,
                pending_join: None,
                seq: 0,
            }),
    {
        GroupState { last_action_ms: None, settle: SettleState::Idle, pending_join: None, seq: 0 }
    }

    /// May this pass act on the group? Settle what the membership reflects, then ask the spacing,
    /// then the settling; an action past its settle timeout counts as settled.
    pub fn ready(&mut self, spec: &ControlSpec, am_member: bool, now_ms: u64) -> (r: Result<(), GroupStep>)
        ensures
            ({
                let s = observed(*old(self), am_member);
                if !spaced(spec.spacing_ms, s.last_action_ms, now_ms) {
                    r == Err::<(), GroupStep>(GroupStep::Spaced) && *final(self) == s
                } else if unsettled(s.settle, spec.settle_timeout_ms, now_ms) {
                    r == Err::<(), GroupStep>(GroupStep::Unsettled) && *final(self) == s
                } else {
                    r == Ok::<(), GroupStep>(()) && *final(self) == timed_out(s)
                }
            }),
    {
        let reflected = match self.pending_join {
            Some(join) => join == am_member,
            None => false,
        };
        if reflected {
            self.settle = SettleState::Idle;
            self.pending_join = None;
        }
        if !spacing_allows(spec, self.last_action_ms, now_ms) {
            return Err(GroupStep::Spaced);
        }
        if !may_propose(&self.settle, spec, now_ms) {
            return Err(GroupStep::Unsettled);
        }
        let pending = match self.settle {
            SettleState::Idle => false,
            SettleState::Pending { .. } => true,
        };
        if pending {
            self.settle = SettleState::Idle;
            self.pending_join = None;
        }
        Ok(())
    }

    /// Elect, classify, ask the confidence predicate, and record the action if there is one.
    ///
    /// `under_join` and `under_leave` say whether this pass's roll fell under the join and the leave
    /// probability; where there is no such probability they do not count.
    pub fn elect(
        &mut self,
        spec: &ControlSpec,
        intent: &MembershipIntent,
        view: &GroupView,
        under_join: bool,
        under_leave: bool,
        confident: bool,
        profile: Profile,
        now_ms: u64,
    ) -> (r: GroupStep)
        ensures
            ({
                let action = election(
                    view.am_member,
                    view.is_drain,
                    under_join && may_join(*view, intent.min),
                    under_leave && may_leave(*view, intent.max),
                );
                let verdict = match class_of(action, view.n as int, view.is_drain) {
                    Some(class) => decision(class, confident, profile),
                    None => Decision::Proceed,
                };
                if action == MembershipAction::Hold {
                    r == GroupStep::Hold && *final(self) == *old(self)
                } else if verdict == Decision::Held {
                    r == GroupStep::Held && *final(self) == *old(self)
                } else {
                    &&& r == GroupStep::Act {
                        leaving: action == MembershipAction::Leave,
                        would_hold: verdict == Decision::WouldHold,
                    }
                    &&& final(self).seq == old(self).seq.wrapping_add(1)
                    &&& final(self).last_action_ms == Some(now_ms)
                    &&& final(self).pending_join == Some(action == MembershipAction::Join)
                    &&& final(self).settle matches SettleState::Pending { id, since_ms } && since_ms == now_ms
                        && id.governor@ == spec.governor@ && id.actuator@ == intent.group@ && id.seq
                        == final(self).seq
                }
            }),
    {
        let joins = under_join && view.am_eligible && view.n < intent.min && view.eligible_non_members > 0;
        let over = match intent.max {
            Some(m) => view.n > m && view.n > 0,
            None => false,
        };
        let action = decide(view.am_member, view.is_drain, joins, under_leave && over);
        let leaving = match action {
            MembershipAction::Hold => {
                return GroupStep::Hold;
            },
            MembershipAction::Leave => true,
            MembershipAction::Join => false,
        };
        let mut would_hold = false;
        if let Some(class) = classify(&action, view.n, view.is_drain) {
            match confidence(class, confident, profile) {
                Decision::Proceed => {},
                Decision::WouldHold => {
                    would_hold = true;
                },
                Decision::Held => {
                    return GroupStep::Held;
                },
            }
        }
        self.seq = self.seq.wrapping_add(1);
        let id = ActionId {
            governor: spec.governor.clone(),
            actuator: intent.group.clone(),
            seq: self.seq,
        };
        self.last_action_ms = Some(now_ms);
        self.settle = SettleState::Pending { id, since_ms: now_ms };
        self.pending_join = Some(!leaving);
        GroupStep::Act { leaving, would_hold }
    }
}

/// This pass's roll against the two probabilities, and whether the fleet view is inside its bound.
#[derive(Clone, Copy, Debug, PartialEq, Eq, Structural)]
pub struct Chance {
    /// Whether the roll fell under the join probability.
    pub under_join: bool,
    /// Whether the roll fell under the leave probability.
    pub under_leave: bool,
    /// Whether the fleet view is inside its bound.
    pub confident: bool,
}

/// Is this what a pass does about one governed group, and the state it leaves behind?
pub open spec fn converged(
    before: GroupState,
    after: GroupState,
    spec: ControlSpec,
    intent: MembershipIntent,
    view: GroupView,
    chance: Chance,
    profile: Profile,
    now_ms: u64,
    r: GroupStep,
) -> bool {
    let s = observed(before, view.am_member);
    let action = election(
        view.am_member,
        view.is_drain,
        chance.under_join && may_join(view, intent.min),
        chance.under_leave && may_leave(view, intent.max),
    );
    let verdict = match class_of(action, view.n as int, view.is_drain) {
        Some(class) => decision(class, chance.confident, profile),
        None => Decision::Proceed,
    };
    if !spaced(spec.spacing_ms, s.last_action_ms, now_ms) {
        r == GroupStep::Spaced && after == s
    } else if unsettled(s.settle, spec.settle_timeout_ms, now_ms) {
        r == GroupStep::Unsettled && after == s
    } else if action == MembershipAction::Hold {
        r == GroupStep::Hold && after == timed_out(s)
    } else if verdict == Decision::Held {
        r == GroupStep::Held && after == timed_out(s)
    } else {
        &&& r == GroupStep::Act {
            leaving: action == MembershipAction::Leave,
            would_hold: verdict == Decision::WouldHold,
        }
        &&& after.seq == before.seq.wrapping_add(1)
        &&& after.last_action_ms == Some(now_ms)
        &&& after.pending_join == Some(action == MembershipAction::Join)
        &&& after.settle matches SettleState::Pending { id, since_ms } && since_ms == now_ms && id.governor@
            == spec.governor@ && id.actuator@ == intent.group@ && id.seq == after.seq
    }
}

/// One pass over one governed group: whether it may act, and then what it elects.
pub fn converge(
    state: &mut GroupState,
    spec: &ControlSpec,
    intent: &MembershipIntent,
    view: &GroupView,
    chance: Chance,
    profile: Profile,
    now_ms: u64,
) -> (r: GroupStep)
    ensures
        converged(*old(state), *final(state), *spec, *intent, *view, chance, profile, now_ms, r),
{
    match state.ready(spec, view.am_member, now_ms) {
        Err(step) => step,
        Ok(_) => state.elect(
            spec,
            intent,
            view,
            chance.under_join,
            chance.under_leave,
            chance.confident,
            profile,
            now_ms,
        ),
    }
}

/// Names and the states beside them, as a table.
pub open spec fn table(names: Seq<Seq<char>>, states: Seq<GroupState>) -> Map<Seq<char>, GroupState> {
    Map::new(|g: Seq<char>| names.contains(g), |g: Seq<char>| states[names.index_of(g)])
}

/// The control state of every group this node has governed so far.
#[derive(Debug, PartialEq, Eq)]
pub struct GroupTable {
    names: Vec<String>,
    states: Vec<GroupState>,
}

impl View for GroupTable {
    type V = Map<Seq<char>, GroupState>;

    closed spec fn view(&self) -> Map<Seq<char>, GroupState> {
        table(texts(self.names@), self.states@)
    }
}

/// What is read for one entry of the intent scan.
#[derive(Debug, PartialEq, Eq)]
pub struct GovernedEntry {
    /// The intent, or `None` where the value does not decode.
    pub intent: Option<MembershipIntent>,
    /// The capability scan under the group's filter, or `None` where the group is not defined.
    pub capabilities: Option<Vec<CapEntry>>,
    /// The roll and the confidence.
    pub chance: Chance,
}

/// What a pass does about one entry.
#[derive(Clone, Copy, Debug, PartialEq, Eq, Structural)]
pub enum EntryStep {
    /// No intent is in force here.
    Passed,
    /// The group has no definition, so nobody is known to be eligible.
    Undefined,
    /// The group was looked at.
    Looked(GroupStep),
}

/// A group nothing was done about yet.
pub open spec fn untouched() -> GroupState {
    GroupState { last_action_ms: None, settle: SettleState::Idle, pending_join: None, seq: 0 }
}

/// The intent of an entry that is in force for `me`.
pub open spec fn intent_in_force(e: GovernedEntry, me: NodeModel, wall_ms: u64) -> Option<MembershipIntent> {
    match e.intent {
        Some(i) if in_force(i, me, MEMBERSHIP_INTENT_TTL_MS, wall_ms) => Some(i),
        _ => None,
    }
}

/// What `me` sees of the group of an intent.
pub open spec fn surveyed(
    intent: MembershipIntent,
    capabilities: Seq<CapEntry>,
    entries: Seq<KvEntry>,
    me: NodeModel,
) -> GroupView {
    group_view(
        members_in(entries, intent.group@, entries.len() as int),
        eligible_in(capabilities, capabilities.len() as int),
        nodes(intent.drain@),
        me,
    )
}

/// What `me` sees of the group of an intent: what the two probabilities are computed from.
pub fn survey(intent: &MembershipIntent, capabilities: &Vec<CapEntry>, entries: &Vec<KvEntry>, me: &NodeId) -> (r:
    GroupView)
    ensures
        r == surveyed(*intent, capabilities@, entries@, me@),
{
    let eligible = resolve_eligible(capabilities);
    let members = group_members(entries, intent.group.as_str());
    view_group(&members, &eligible, &intent.drain, me)
}

/// What a pass reads: the store's membership entries, who and when.
#[derive(Debug, PartialEq, Eq)]
pub struct PassInputs {
    /// The membership entries.
    pub entries: Vec<KvEntry>,
    /// This node.
    pub me: NodeId,
    /// The node's profile.
    pub profile: Profile,
    /// The wall clock, for evaporation.
    pub wall_ms: u64,
    /// The monotonic clock, for spacing and settling.
    pub now_ms: u64,
}

/// Is this what a pass does about one entry, and the table it leaves behind?
pub open spec fn governed(
    before: Map<Seq<char>, GroupState>,
    after: Map<Seq<char>, GroupState>,
    spec: ControlSpec,
    e: GovernedEntry,
    p: PassInputs,
    r: EntryStep,
) -> bool {
    match intent_in_force(e, p.me@, p.wall_ms) {
        None => r == EntryStep::Passed && after == before,
        Some(intent) => {
            let g = intent.group@;
            let s = if before.contains_key(g) {
                before[g]
            } else {
                untouched()
            };
            match e.capabilities {
                None => r == EntryStep::Undefined && after == before.insert(g, s),
                Some(capabilities) => {
                    &&& after.contains_key(g)
                    &&& after == before.insert(g, after[g])
                    &&& r matches EntryStep::Looked(step) && converged(
                        s,
                        after[g],
                        spec,
                        intent,
                        surveyed(intent, capabilities@, p.entries@, p.me@),
                        e.chance,
                        p.profile,
                        p.now_ms,
                        step,
                    )
                },
            }
        },
    }
}

/// Are these the tables between the entries of a pass?
pub open spec fn passed(
    tables: Seq<Map<Seq<char>, GroupState>>,
    spec: ControlSpec,
    entries: Seq<GovernedEntry>,
    p: PassInputs,
    steps: Seq<EntryStep>,
) -> bool {
    &&& tables.len() == entries.len() + 1
    &&& steps.len() == entries.len()
    &&& forall|i: int|
        0 <= i < entries.len() ==> governed(
            #[trigger] tables[i],
            tables[i + 1],
            spec,
            entries[i],
            p,
            steps[i],
        )
}

proof fn lemma_index(names: Seq<Seq<char>>, i: int)
    requires
        names.no_duplicates(),
        0 <= i < names.len(),
    ensures
        names.index_of(names[i]) == i,
        names.contains(names[i]),
{
}

/// Changing one state changes one entry of the table.
proof fn lemma_table_update(names: Seq<Seq<char>>, before: Seq<GroupState>, i: int, after: Seq<GroupState>)
    requires
        names.no_duplicates(),
        names.len() == before.len(),
        0 <= i < before.len(),
        after =~= before.update(i, after[i]),
    ensures
        table(names, after) == table(names, before).insert(names[i], after[i]),
{
    lemma_index(names, i);
    assert forall|g: Seq<char>| names.contains(g) && g != names[i] implies #[trigger] table(names, after)[g]
        == table(names, before)[g] by {
        let j = choose|j: int| 0 <= j < names.len() && names[j] == g;
        lemma_index(names, j);
    }
    assert(table(names, after) =~= table(names, before).insert(names[i], after[i]));
}

/// Where a group's state is; a group that is not there yet is put there.
fn slot(names: &mut Vec<String>, states: &mut Vec<GroupState>, group: &str) -> (i: usize)
    requires
        old(names)@.len() == old(states)@.len(),
        texts(old(names)@).no_duplicates(),
    ensures
        final(names)@.len() == final(states)@.len(),
        texts(final(names)@).no_duplicates(),
        i < final(states)@.len(),
        texts(final(names)@)[i as int] == group@,
        ({
            let before = table(texts(old(names)@), old(states)@);
            &&& final(states)@[i as int] == if before.contains_key(group@) {
                before[group@]
            } else {
                untouched()
            }
            &&& table(texts(final(names)@), final(states)@) == before.insert(group@, final(states)@[i as int])
        }),
{
    let ghost was = texts(names@);
    let ghost held = states@;
    let mut i: usize = 0;
    while i < names.len()
        invariant
            i <= names@.len(),
            names@.len() == states@.len(),
            was == texts(names@),
            held == states@,
            *names == *old(names),
            *states == *old(states),
            was.no_duplicates(),
            forall|j: int| 0 <= j < i ==> #[trigger] was[j] != group@,
        decreases names@.len() - i,
    {
        if same(names[i].as_str(), group) {
            proof {
                lemma_index(was, i as int);
                lemma_table_update(was, held, i as int, held);
            }
            return i;
        }
        i += 1;
    }
    names.push(group.to_owned());
    states.push(GroupState::new());
    proof {
        let now = texts(names@);
        let after = states@;
        assert(now =~= was.push(group@));
        assert(!was.contains(group@));
        lemma_index(now, i as int);
        assert forall|g: Seq<char>| was.contains(g) implies now.contains(g) && #[trigger] table(now, after)[g] == table(
            was,
            held,
        )[g] by {
            let j = choose|j: int| 0 <= j < was.len() && was[j] == g;
            assert(now[j] == g);
            lemma_index(was, j);
            lemma_index(now, j);
        }
        assert forall|g: Seq<char>| now.contains(g) implies was.contains(g) || g == group@ by {
            let j = choose|j: int| 0 <= j < now.len() && now[j] == g;
            if j < was.len() {
                assert(was[j] == g);
            }
        }
        let one = table(now, after);
        let two = table(was, held).insert(group@, after[i as int]);
        assert forall|g: Seq<char>| #[trigger] one.contains_key(g) == two.contains_key(g) by {
            if was.contains(g) {
                assert(table(now, after)[g] == table(was, held)[g]);
            }
        }
        assert(one.dom() =~= two.dom());
        assert(now[i as int] == group@);
        assert forall|g: Seq<char>| one.contains_key(g) implies #[trigger] one[g] == two[g] by {
            if g != group@ {
                assert(was.contains(g));
            }
        }
        assert(one =~= two);
    }
    i
}

impl GroupTable {
    #[verifier::type_invariant]
    spec fn wf(self) -> bool {
        &&& self.names@.len() == self.states@.len()
        &&& texts(self.names@).no_duplicates()
    }

    /// A node that has governed nothing yet.
    pub fn new() -> (r: Self)
        ensures
            r@ == Map::<Seq<char>, GroupState>::empty(),
    {
        let r = GroupTable { names: Vec::new(), states: Vec::new() };
        assert(r@ =~= Map::<Seq<char>, GroupState>::empty());
        r
    }

    /// What a pass does about one entry of the intent scan. A group with an intent in force is kept in
    /// the table from then on, defined or not.
    pub fn govern(&mut self, spec: &ControlSpec, e: &GovernedEntry, p: &PassInputs) -> (r: EntryStep)
        ensures
            governed(old(self)@, final(self)@, *spec, *e, *p, r),
    {
        let intent = match &e.intent {
            Some(i) => i,
            None => {
                return EntryStep::Passed;
            },
        };
        if !applies(intent, &p.me, MEMBERSHIP_INTENT_TTL_MS, p.wall_ms) {
            return EntryStep::Passed;
        }
        let ghost before = self@;
        let mut held = GroupTable::new();
        std::mem::swap(self, &mut held);
        proof {
            use_type_invariant(&held);
        }
        let GroupTable { mut names, mut states } = held;
        assert(table(texts(names@), states@) == before);
        let i: usize = slot(&mut names, &mut states, intent.group.as_str());
        let ghost mid = states@;
        let step = match &e.capabilities {
            None => EntryStep::Undefined,
            Some(capabilities) => {
                let view = survey(intent, capabilities, &p.entries, &p.me);
                let step = converge(&mut states[i], spec, intent, &view, e.chance, p.profile, p.now_ms);
                EntryStep::Looked(step)
            },
        };
        proof {
            lemma_table_update(texts(names@), mid, i as int, states@);
            lemma_index(texts(names@), i as int);
        }
        let ghost after = table(texts(names@), states@);
        *self = GroupTable { names, states };
        assert(self@ == after);
        assert(after =~= before.insert(intent.group@, after[intent.group@]));
        step
    }

    /// One pass over every entry of the intent scan, in order: what it does about each.
    pub fn converge_all(&mut self, spec: &ControlSpec, entries: &Vec<GovernedEntry>, p: &PassInputs) -> (r: Vec<
        EntryStep,
    >)
        ensures
            exists|tables: Seq<Map<Seq<char>, GroupState>>|
                #[trigger] passed(tables, *spec, entries@, *p, r@) && tables[0] == old(self)@ && tables.last()
                    == final(self)@,
    {
        let mut steps: Vec<EntryStep> = Vec::new();
        let ghost mut tables: Seq<Map<Seq<char>, GroupState>> = seq![self@];
        let mut k: usize = 0;
        while k < entries.len()
            invariant
                k <= entries@.len(),
                tables.len() == k + 1,
                steps@.len() == k,
                tables[0] == old(self)@,
                tables.last() == self@,
                forall|i: int|
                    0 <= i < k ==> governed(
                        #[trigger] tables[i],
                        tables[i + 1],
                        *spec,
                        entries@[i],
                        *p,
                        steps@[i],
                    ),
            decreases entries@.len() - k,
        {
            let ghost held = tables;
            let step = self.govern(spec, &entries[k], p);
            steps.push(step);
            proof {
                tables = tables.push(self@);
                assert forall|i: int| 0 <= i < k + 1 implies governed(
                    #[trigger] tables[i],
                    tables[i + 1],
                    *spec,
                    entries@[i],
                    *p,
                    steps@[i],
                ) by {
                    if i < k {
                        assert(held[i] == tables[i]);
                    }
                }
            }
            k += 1;
        }
        assert(passed(tables, *spec, entries@, *p, steps@));
        steps
    }
}

/// A pass leaves every group alone that no intent in force names.
pub proof fn lemma_other_groups_are_left_alone(
    tables: Seq<Map<Seq<char>, GroupState>>,
    spec: ControlSpec,
    entries: Seq<GovernedEntry>,
    p: PassInputs,
    steps: Seq<EntryStep>,
    g: Seq<char>,
    k: int,
)
    requires
        passed(tables, spec, entries, p, steps),
        0 <= k <= entries.len(),
        forall|i: int|
            0 <= i < entries.len() ==> (intent_in_force(#[trigger] entries[i], p.me@, p.wall_ms) matches Some(
                intent,
            ) ==> intent.group@ != g),
    ensures
        tables[k].contains_key(g) == tables[0].contains_key(g),
        tables[0].contains_key(g) ==> tables[k][g] == tables[0][g],
    decreases k,
{
    if k > 0 {
        lemma_other_groups_are_left_alone(tables, spec, entries, p, steps, g, k - 1);
        assert(governed(tables[k - 1], tables[k - 1 + 1], spec, entries[k - 1], p, steps[k - 1]));
    }
}

/// Having acted on a group, a pass that comes to it again at the same moment is kept back by the spacing,
/// whatever intent, view and roll it then has.
pub proof fn lemma_one_action_is_spaced(
    before: GroupState,
    after: GroupState,
    later: GroupState,
    spec: ControlSpec,
    intent: MembershipIntent,
    other: MembershipIntent,
    view: GroupView,
    seen: GroupView,
    chance: Chance,
    again: Chance,
    profile: Profile,
    now_ms: u64,
    first: GroupStep,
    second: GroupStep,
)
    requires
        spec.spacing_ms > 0,
        converged(before, after, spec, intent, view, chance, profile, now_ms, first),
        first is Act,
        converged(after, later, spec, other, seen, again, profile, now_ms, second),
    ensures
        second == GroupStep::Spaced,
{
}


/// The governor's contract: one actuator, the cooldown as its spacing, two health-check intervals
/// (of one second at least) as its settle timeout.
pub fn control_spec(config: &GossipConfig) -> (r: ControlSpec)
    ensures
        r.governor@ == "membership"@,
        r.actuator@ == "group-membership"@,
        r.profile == Profile::Legacy,
        r.spacing_ms == (config.cooldown() * 1000) as u64,
        r.settle_timeout_ms == saturating_product(
            2000,
            if config.health_check_interval_secs < 1 {
                1
            } else {
                config.health_check_interval_secs as int
            },
        ),
{
    let interval: u64 = if config.health_check_interval_secs < 1 {
        1
    } else {
        config.health_check_interval_secs
    };
    let spacing_ms: u128 = config.membership_cooldown() as u128 * 1000;
    ControlSpec {
        governor: "membership".to_owned(),
        actuator: "group-membership".to_owned(),
        spacing_ms: #[verifier::truncate] (spacing_ms as u64),
        settle_timeout_ms: saturating_mul(2000, interval),
        bound: ConfidenceBound {  },
        profile: Profile::Legacy,
    }
}

/// A join is never held on uncertainty, and a leave over `max` is held by an enforcing node whose
/// view is not inside its bound.
pub proof fn lemma_joins_are_never_held(n: int, is_drain: bool, confident: bool, profile: Profile)
    ensures
        class_of(MembershipAction::Join, n, is_drain) matches Some(c) && decision(c, confident, profile)
            == Decision::Proceed,
        class_of(MembershipAction::Leave, n, false) matches Some(c) && decision(c, false, Profile::Enforce)
            == Decision::Held,
        class_of(MembershipAction::Leave, n, true) is None,
{
}

/// Inside its band a group is left alone: nobody joins at or above `min`, and nobody who is not
/// drained leaves at or below `max`.
pub proof fn lemma_band_is_quiet(
    view: GroupView,
    min: usize,
    max: Option<usize>,
    under_join: bool,
    under_leave: bool,
)
    requires
        view.n >= min,
        max matches Some(m) ==> view.n <= m,
        !view.is_drain,
    ensures
        election(
            view.am_member,
            view.is_drain,
            under_join && may_join(view, min),
            under_leave && may_leave(view, max),
        ) == MembershipAction::Hold,
{
}

/// A drained member leaves, and a drained node that is no member stays out, whatever the band and the
/// roll say.
pub proof fn lemma_drain_wins(under_join: bool, under_leave: bool)
    ensures
        election(true, true, under_join, under_leave) == MembershipAction::Leave,
        election(false, true, under_join, under_leave) == MembershipAction::Hold,
{
}

} // verus!

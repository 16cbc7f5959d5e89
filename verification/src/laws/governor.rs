//! Laws of the membership governor: who joins, who leaves, when nothing happens.
use vstd::prelude::*;

use crate::control::{ControlSpec, Profile, SettleState};
use crate::membership_governor::{
    control_spec, converge, decide, eligible_at, group_members, member_at, outsiders, resolve_eligible, survey,
    view_group, CapEntry, Chance, EntryStep, GovernedEntry, GroupState, GroupStep, GroupTable, GroupView,
    MembershipAction, MembershipIntent, PassInputs,
};
use crate::config::GossipConfig;
use crate::keys::{lemma_after_prefix_of_joined, KvEntry};
use crate::node_id::{lemma_node_text_parses, nodes, valid_host, NodeId, NodeModel};

verus! {

/// A node joins exactly where it is eligible, is no member, is not being drained, the group is
/// below its minimum, some eligible node is outside the group, and the roll fell under the joining
/// probability. In particular a node that is not eligible never joins, whatever was rolled.
pub proof fn lemma_joins_exactly_when_eligible_and_short(
    state: &mut GroupState,
    spec: &ControlSpec,
    intent: &MembershipIntent,
    view: &GroupView,
    under_join: bool,
    under_leave: bool,
    confident: bool,
    profile: Profile,
    now_ms: u64,
    r: GroupStep,
)
    requires
        call_ensures(
            GroupState::elect,
            (state, spec, intent, view, under_join, under_leave, confident, profile, now_ms),
            r,
        ),
    ensures
        !view.am_eligible ==> !(r matches GroupStep::Act { leaving, .. } && !leaving),
        (r == GroupStep::Act { leaving: false, would_hold: false }) <==> {
            &&& view.am_eligible
            &&& !view.am_member
            &&& !view.is_drain
            &&& view.n < intent.min
            &&& view.eligible_non_members > 0
            &&& under_join
        },
        r != (GroupStep::Act { leaving: false, would_hold: true }),
{
}

/// A member leaves where it is being drained, always, or where the group is above its maximum, the
/// roll fell under the leaving probability and confidence allows it; without confidence the
/// enforcing profile holds the step and the observing one only marks it.
pub proof fn lemma_leaves_exactly_when_drained_or_over(
    state: &mut GroupState,
    spec: &ControlSpec,
    intent: &MembershipIntent,
    view: &GroupView,
    under_join: bool,
    under_leave: bool,
    confident: bool,
    profile: Profile,
    now_ms: u64,
    r: GroupStep,
)
    requires
        call_ensures(
            GroupState::elect,
            (state, spec, intent, view, under_join, under_leave, confident, profile, now_ms),
            r,
        ),
    ensures
        !view.am_member ==> !(r matches GroupStep::Act { leaving, .. } && leaving) && r != GroupStep::Held,
        view.am_member && view.is_drain ==> r == (GroupStep::Act { leaving: true, would_hold: false }),
        view.am_member && !view.is_drain ==> {
            let over = intent.max matches Some(m) && view.n > m;
            &&& (r == GroupStep::Hold) <==> !(over && under_leave)
            &&& (r == GroupStep::Held) <==> over && under_leave && !confident && profile == Profile::Enforce
            &&& (r == GroupStep::Act { leaving: true, would_hold: true }) <==> over && under_leave && !confident
                && profile == Profile::Observe
            &&& (r == GroupStep::Act { leaving: true, would_hold: false }) <==> over && under_leave && (
            confident || profile == Profile::Legacy)
        },
{
}

/// Looking without acting changes nothing; acting stamps the moment, counts the action and waits
/// to see the membership that the action aims at.
pub proof fn lemma_only_an_act_is_remembered(
    state: &mut GroupState,
    spec: &ControlSpec,
    intent: &MembershipIntent,
    view: &GroupView,
    under_join: bool,
    under_leave: bool,
    confident: bool,
    profile: Profile,
    now_ms: u64,
    r: GroupStep,
)
    requires
        call_ensures(
            GroupState::elect,
            (state, spec, intent, view, under_join, under_leave, confident, profile, now_ms),
            r,
        ),
    ensures
        !(r is Act) ==> *final(state) == *old(state),
        r matches GroupStep::Act { leaving, .. } ==> {
            &&& final(state).last_action_ms == Some(now_ms)
            &&& old(state).seq < u64::MAX ==> final(state).seq == old(state).seq + 1
            &&& final(state).pending_join == Some(!leaving)
            &&& final(state).settle matches SettleState::Pending { id, since_ms } && since_ms == now_ms
                && id.governor@ == spec.governor@ && id.actuator@ == intent.group@ && id.seq == final(state).seq
        },
{
}

/// The bare decision: a member leaves if it is drained or rolled to leave, an outsider joins if it
/// rolled to join and is not drained, and everything else holds.
pub proof fn lemma_decide(am_member: bool, is_drain: bool, under_join: bool, under_leave: bool, r: MembershipAction)
    requires
        call_ensures(decide, (am_member, is_drain, under_join, under_leave), r),
    ensures
        r == MembershipAction::Join <==> !am_member && under_join && !is_drain,
        r == MembershipAction::Leave <==> am_member && (is_drain || under_leave),
{
}

/// No step is taken before the spacing since the last one has passed, nor while an earlier one is
/// pending and its settling time is not over; a pending step that the group already shows no
/// longer waits.
pub proof fn lemma_steps_keep_their_distance(
    state: &mut GroupState,
    spec: &ControlSpec,
    intent: &MembershipIntent,
    view: &GroupView,
    chance: Chance,
    profile: Profile,
    now_ms: u64,
    r: GroupStep,
)
    requires
        call_ensures(converge, (state, spec, intent, view, chance, profile, now_ms), r),
    ensures
        (r == GroupStep::Spaced) <==> {
            &&& old(state).last_action_ms matches Some(last)
            &&& if now_ms >= last {
                now_ms - last < spec.spacing_ms
            } else {
                spec.spacing_ms > 0
            }
        },
        (r == GroupStep::Unsettled) ==> {
            &&& old(state).pending_join != Some(view.am_member)
            &&& old(state).settle matches SettleState::Pending { since_ms, .. } && if now_ms >= since_ms {
                now_ms - since_ms < spec.settle_timeout_ms
            } else {
                spec.settle_timeout_ms > 0
            }
        },
        old(state).last_action_ms is None && old(state).pending_join != Some(view.am_member) && (
        old(state).settle matches SettleState::Pending { since_ms, .. } && since_ms <= now_ms && now_ms - since_ms
            < spec.settle_timeout_ms) ==> r == GroupStep::Unsettled,
        r is Spaced || r is Unsettled || r is Hold || r is Held ==> final(state).seq == old(state).seq
            && final(state).last_action_ms == old(state).last_action_ms,
{
}

/// A pass over a group takes the step that the election takes: it never lets an ineligible node
/// join, joins where all the conditions hold and nothing is waited for, and lets a drained member
/// leave.
pub proof fn lemma_converging_joins_and_leaves(
    state: &mut GroupState,
    spec: &ControlSpec,
    intent: &MembershipIntent,
    view: &GroupView,
    chance: Chance,
    profile: Profile,
    now_ms: u64,
    r: GroupStep,
)
    requires
        call_ensures(converge, (state, spec, intent, view, chance, profile, now_ms), r),
    ensures
        r matches GroupStep::Act { leaving, would_hold } && !leaving ==> {
            &&& view.am_eligible
            &&& !view.am_member
            &&& !view.is_drain
            &&& view.n < intent.min
            &&& view.eligible_non_members > 0
            &&& chance.under_join
        },
        r matches GroupStep::Act { leaving, would_hold } && leaving ==> view.am_member && (view.is_drain || (
        chance.under_leave && (intent.max matches Some(m) && view.n > m))),
        !(r is Spaced) && !(r is Unsettled) && view.am_eligible && !view.am_member && !view.is_drain && view.n
            < intent.min && view.eligible_non_members > 0 && chance.under_join ==> r == (GroupStep::Act {
            leaving: false,
            would_hold: false,
        }),
        !(r is Spaced) && !(r is Unsettled) && view.am_member && view.is_drain ==> r == (GroupStep::Act {
            leaving: true,
            would_hold: false,
        }),
        r matches GroupStep::Act { leaving, .. } ==> final(state).last_action_ms == Some(now_ms)
            && final(state).pending_join == Some(!leaving),
{
}

/// What a node sees of a group: how many members there are, whether it is one itself, whether it is
/// eligible, whether it is on the drain list, and how many of the eligible are not members.
pub proof fn lemma_view_counts(
    members: &Vec<NodeId>,
    eligible: &Vec<NodeId>,
    drain: &Vec<NodeId>,
    me: &NodeId,
    r: GroupView,
)
    requires
        call_ensures(view_group, (members, eligible, drain, me), r),
    ensures
        r.n == members@.len(),
        r.am_member <==> exists|i: int| 0 <= i < members@.len() && (#[trigger] members@[i])@ == me@,
        r.am_eligible <==> exists|i: int| 0 <= i < eligible@.len() && (#[trigger] eligible@[i])@ == me@,
        r.is_drain <==> exists|i: int| 0 <= i < drain@.len() && (#[trigger] drain@[i])@ == me@,
        r.eligible_non_members == nodes(eligible@).filter(|n: NodeModel| !nodes(members@).contains(n)).len(),
        r.eligible_non_members == 0 <==> forall|i: int|
            0 <= i < eligible@.len() ==> nodes(members@).contains((#[trigger] eligible@[i])@),
{
    lemma_found(members@, me@);
    lemma_found(eligible@, me@);
    lemma_found(drain@, me@);
    let all = nodes(eligible@);
    let m = nodes(members@);
    lemma_outsiders_are_filtered(all, m, all.len() as int);
    assert(all.subrange(0, all.len() as int) =~= all);
    lemma_outsiders_are_none(all, m, all.len() as int);
    if r.eligible_non_members == 0 {
        assert forall|i: int| 0 <= i < eligible@.len() implies m.contains((#[trigger] eligible@[i])@) by {
            assert(m.contains(all[i]));
        }
    }
    if forall|i: int| 0 <= i < eligible@.len() ==> m.contains((#[trigger] eligible@[i])@) {
        assert forall|i: int| 0 <= i < all.len() implies m.contains(#[trigger] all[i]) by {
            assert(m.contains(eligible@[i]@));
        }
    }
}

/// A node is among the models of a list where it is the model of one of its elements.
pub proof fn lemma_found(v: Seq<NodeId>, n: NodeModel)
    ensures
        nodes(v).contains(n) <==> exists|i: int| 0 <= i < v.len() && (#[trigger] v[i])@ == n,
{
    if nodes(v).contains(n) {
        let i = choose|i: int| 0 <= i < nodes(v).len() && nodes(v)[i] == n;
        assert(v[i]@ == n);
    }
    if exists|i: int| 0 <= i < v.len() && (#[trigger] v[i])@ == n {
        let i = choose|i: int| 0 <= i < v.len() && (#[trigger] v[i])@ == n;
        assert(nodes(v)[i] == n);
    }
}

proof fn lemma_outsiders_are_filtered(eligible: Seq<NodeModel>, members: Seq<NodeModel>, k: int)
    requires
        0 <= k <= eligible.len(),
    ensures
        outsiders(eligible, members, k) == eligible.subrange(0, k).filter(
            |n: NodeModel| !members.contains(n),
        ).len(),
    decreases k,
{
    reveal(Seq::filter);
    if k > 0 {
        lemma_outsiders_are_filtered(eligible, members, k - 1);
        assert(eligible.subrange(0, k).drop_last() =~= eligible.subrange(0, k - 1));
    }
}

proof fn lemma_outsiders_are_none(eligible: Seq<NodeModel>, members: Seq<NodeModel>, k: int)
    requires
        0 <= k <= eligible.len(),
    ensures
        outsiders(eligible, members, k) >= 0,
        outsiders(eligible, members, k) == 0 <==> forall|i: int|
            0 <= i < k ==> members.contains(#[trigger] eligible[i]),
    decreases k,
{
    if k > 0 {
        lemma_outsiders_are_none(eligible, members, k - 1);
    }
}

/// Members are listed once each, and only nodes that a live entry under the group's own prefix
/// names: a node whose entry was emptied, or that stands under another prefix, is no member.
pub proof fn lemma_members_have_a_live_entry(entries: &Vec<KvEntry>, group: &str, r: Vec<NodeId>)
    requires
        call_ensures(group_members, (entries, group), r),
    ensures
        nodes(r@).no_duplicates(),
        forall|j: int|
            0 <= j < r@.len() ==> exists|i: int|
                #![trigger entries@[i]]
                {
                    let head = "grp/"@ + group@ + "/"@;
                    &&& 0 <= i < entries@.len()
                    &&& entries@[i].value@.len() > 0
                    &&& entries@[i].key@.len() >= head.len()
                    &&& entries@[i].key@.subrange(0, head.len() as int) == head
                    &&& crate::node_id::node_of(
                        entries@[i].key@.subrange(head.len() as int, entries@[i].key@.len() as int),
                    ) == Some((#[trigger] r@[j])@)
                },
        forall|i: int, n: NodeModel|
            #![trigger entries@[i], n.text()]
            0 <= i < entries@.len() && valid_host(n.host) && entries@[i].value@.len() > 0 && entries@[i].key@
                == "grp/"@ + group@ + "/"@ + n.text() ==> nodes(r@).contains(n),
{
    let head = "grp/"@ + group@ + "/"@;
    assert forall|j: int| 0 <= j < r@.len() implies exists|i: int|
        #![trigger entries@[i]]
        {
            &&& 0 <= i < entries@.len()
            &&& entries@[i].value@.len() > 0
            &&& entries@[i].key@.len() >= head.len()
            &&& entries@[i].key@.subrange(0, head.len() as int) == head
            &&& crate::node_id::node_of(
                entries@[i].key@.subrange(head.len() as int, entries@[i].key@.len() as int),
            ) == Some((#[trigger] r@[j])@)
        } by {
        assert(nodes(r@)[j] == r@[j]@);
        assert(nodes(r@).contains(r@[j]@));
        let i = choose|i: int| 0 <= i < entries@.len() && member_at(#[trigger] entries@[i], group@) == Some(r@[j]@);
        assert(entries@[i].value@.len() > 0);
    }
    assert forall|i: int, n: NodeModel|
        #![trigger entries@[i], n.text()]
        0 <= i < entries@.len() && valid_host(n.host) && entries@[i].value@.len() > 0 && entries@[i].key@ == head
            + n.text() implies nodes(r@).contains(n) by {
        lemma_after_prefix_of_joined(head, n.text());
        lemma_node_text_parses(n);
        assert(member_at(entries@[i], group@) == Some(n));
    }
}

/// The eligible are listed once each, and only nodes of a matching entry under `cap/` that is no
/// locality entry; every node that advertises a matching capability is listed.
pub proof fn lemma_eligible_have_a_matching_entry(entries: &Vec<CapEntry>, r: Vec<NodeId>)
    requires
        call_ensures(resolve_eligible, (entries,), r),
    ensures
        nodes(r@).no_duplicates(),
        forall|j: int|
            0 <= j < r@.len() ==> exists|i: int|
                #![trigger entries@[i]]
                {
                    &&& 0 <= i < entries@.len()
                    &&& entries@[i].matched
                    &&& entries@[i].key@.len() >= 4
                    &&& entries@[i].key@.subrange(0, 4) == "cap/"@
                    &&& (#[trigger] r@[j])@.host.len() > 0
                },
        forall|i: int, n: NodeModel, ns: Seq<char>, name: Seq<char>|
            #![trigger entries@[i], crate::keys::cap_key_of(n, ns, name)]
            0 <= i < entries@.len() && valid_host(n.host) && !ns.contains('/') && entries@[i].matched && ns
                != "locality"@ && entries@[i].key@ == crate::keys::cap_key_of(n, ns, name) ==> nodes(r@).contains(n),
{
    reveal_strlit("cap/");
    assert forall|j: int| 0 <= j < r@.len() implies exists|i: int|
        #![trigger entries@[i]]
        {
            &&& 0 <= i < entries@.len()
            &&& entries@[i].matched
            &&& entries@[i].key@.len() >= 4
            &&& entries@[i].key@.subrange(0, 4) == "cap/"@
            &&& (#[trigger] r@[j])@.host.len() > 0
        } by {
        assert(nodes(r@)[j] == r@[j]@);
        assert(nodes(r@).contains(r@[j]@));
        let i = choose|i: int| 0 <= i < entries@.len() && eligible_at(#[trigger] entries@[i]) == Some(r@[j]@);
        assert(entries@[i].matched);
    }
    assert forall|i: int, n: NodeModel, ns: Seq<char>, name: Seq<char>|
        #![trigger entries@[i], crate::keys::cap_key_of(n, ns, name)]
        0 <= i < entries@.len() && valid_host(n.host) && !ns.contains('/') && entries@[i].matched && ns
            != "locality"@ && entries@[i].key@ == crate::keys::cap_key_of(n, ns, name) implies nodes(
        r@,
    ).contains(n) by {
        crate::keys::lemma_cap_key_parts(n, ns, name);
        lemma_no_locality(n, ns, name);
        assert(eligible_at(entries@[i]) == Some(n));
    }
}

/// The key of a capability in any namespace but the locality's is no locality key.
pub proof fn lemma_no_locality(n: NodeModel, ns: Seq<char>, name: Seq<char>)
    requires
        valid_host(n.host),
        !ns.contains('/'),
        ns != "locality"@,
    ensures
        !crate::keys::is_locality(crate::keys::cap_key_of(n, ns, name)),
{
    let tail = crate::keys::slashed(ns, name);
    lemma_after_prefix_of_joined("cap/"@, crate::keys::slashed(n.text(), tail));
    crate::node_id::lemma_node_text_no_slash(n);
    crate::text::lemma_split_at_first_of_joined(n.text(), '/', tail);
    if tail == "locality/self"@ {
        reveal_strlit("locality/self");
        reveal_strlit("locality");
        reveal_strlit("self");
        assert("locality/self"@ =~= crate::keys::slashed("locality"@, "self"@));
        assert(!"locality"@.contains('/'));
        crate::text::lemma_split_at_first_of_joined(ns, '/', name);
        crate::text::lemma_split_at_first_of_joined("locality"@, '/', "self"@);
    }
}

/// A survey looks at the intent's own group and drain list and at nothing else: it is the view of
/// that group's members, the eligible and the drained.
pub proof fn lemma_survey_is_a_view(
    intent: &MembershipIntent,
    capabilities: &Vec<CapEntry>,
    entries: &Vec<KvEntry>,
    me: &NodeId,
    group: &str,
    members: Vec<NodeId>,
    eligible: Vec<NodeId>,
    seen: GroupView,
    r: GroupView,
)
    requires
        call_ensures(survey, (intent, capabilities, entries, me), r),
        group@ == intent.group@,
        call_ensures(group_members, (entries, group), members),
        call_ensures(resolve_eligible, (capabilities,), eligible),
        call_ensures(view_group, (&members, &eligible, &intent.drain, me), seen),
    ensures
        r == seen,
        r.is_drain <==> exists|i: int| 0 <= i < intent.drain@.len() && (#[trigger] intent.drain@[i])@ == me@,
        r.n == members@.len(),
{
    lemma_found(intent.drain@, me@);
    assert(nodes(members@).len() == members@.len());
}

/// A pass acts on no intent that is older than its five minutes or that aims at another node, and
/// changes nothing on account of it; where the capability asked for is not known, no step is taken.
pub proof fn lemma_lapsed_intents_are_passed_over(
    t: &mut GroupTable,
    spec: &ControlSpec,
    e: &GovernedEntry,
    p: &PassInputs,
    r: EntryStep,
)
    requires
        call_ensures(GroupTable::govern, (t, spec, e, p), r),
    ensures
        (r == EntryStep::Passed) <==> {
            ||| e.intent is None
            ||| p.wall_ms > (e.intent->0).written_at_ms && p.wall_ms - (e.intent->0).written_at_ms > 300_000
            ||| (e.intent->0).target matches Some(n) && n@ != p.me@
        },
        r == EntryStep::Passed ==> final(t)@ == old(t)@,
        !(r is Passed) && e.capabilities is None ==> r == EntryStep::Undefined,
        !(r is Passed) && e.capabilities is Some ==> r is Looked,
        forall|g: Seq<char>|
            #![trigger final(t)@.contains_key(g)]
            (e.intent matches Some(i) ==> i.group@ != g) ==> final(t)@.contains_key(g) == old(t)@.contains_key(g)
                && (old(t)@.contains_key(g) ==> final(t)@[g] == old(t)@[g]),
{
}

/// The step that a pass takes for a group is the step of converging on what the survey of that
/// group shows: an outsider joins only where it is eligible, not drained, and the group is short.
pub proof fn lemma_governing_joins_the_eligible(
    t: &mut GroupTable,
    spec: &ControlSpec,
    e: &GovernedEntry,
    p: &PassInputs,
    r: EntryStep,
    seen: GroupView,
)
    requires
        call_ensures(GroupTable::govern, (t, spec, e, p), r),
        e.intent is Some,
        e.capabilities is Some,
        call_ensures(survey, (&e.intent->0, &e.capabilities->0, &p.entries, &p.me), seen),
    ensures
        r matches EntryStep::Looked(GroupStep::Act { leaving, .. }) && !leaving ==> {
            &&& seen.am_eligible
            &&& !seen.am_member
            &&& !seen.is_drain
            &&& seen.n < (e.intent->0).min
            &&& seen.eligible_non_members > 0
            &&& e.chance.under_join
        },
        r matches EntryStep::Looked(GroupStep::Act { leaving, .. }) && leaving ==> seen.am_member && (seen.is_drain || (
        e.chance.under_leave && ((e.intent->0).max matches Some(m) && seen.n > m))),
        r matches EntryStep::Looked(step) ==> (!(step is Spaced) && !(step is Unsettled) && seen.am_eligible
            && !seen.am_member && !seen.is_drain && seen.n < (e.intent->0).min && seen.eligible_non_members > 0
            && e.chance.under_join ==> step == (GroupStep::Act { leaving: false, would_hold: false })),
        r matches EntryStep::Looked(GroupStep::Act { leaving, .. }) ==> final(t)@.contains_key(
            (e.intent->0).group@,
        ) && final(t)@[(e.intent->0).group@].last_action_ms == Some(p.now_ms),
{
}

/// A pass over many intents answers each of them in its place.
pub proof fn lemma_pass_answers_each(
    t: &mut GroupTable,
    spec: &ControlSpec,
    entries: &Vec<GovernedEntry>,
    p: &PassInputs,
    r: Vec<EntryStep>,
)
    requires
        call_ensures(GroupTable::converge_all, (t, spec, entries, p), r),
    ensures
        r@.len() == entries@.len(),
        forall|i: int|
            0 <= i < entries@.len() ==> ((#[trigger] r@[i]) == EntryStep::Passed <==> {
                ||| entries@[i].intent is None
                ||| p.wall_ms > (entries@[i].intent->0).written_at_ms && p.wall_ms - (
                entries@[i].intent->0).written_at_ms > 300_000
                ||| (entries@[i].intent->0).target matches Some(n) && n@ != p.me@
            }),
        entries@.len() == 0 ==> final(t)@ == old(t)@,
{
    let tables = choose|tables: Seq<Map<Seq<char>, GroupState>>|
        #[trigger] crate::membership_governor::passed(tables, *spec, entries@, *p, r@) && tables[0] == old(t)@
            && tables.last() == final(t)@;
    assert forall|i: int| 0 <= i < entries@.len() implies ((#[trigger] r@[i]) == EntryStep::Passed <==> {
        ||| entries@[i].intent is None
        ||| p.wall_ms > (entries@[i].intent->0).written_at_ms && p.wall_ms - (entries@[i].intent->0).written_at_ms
            > 300_000
        ||| (entries@[i].intent->0).target matches Some(n) && n@ != p.me@
    }) by {
        assert(crate::membership_governor::governed(tables[i], tables[i + 1], *spec, entries@[i], *p, r@[i]));
    }
}

/// The governor's spacing is the configured cooldown, at least a second of it, and three health
/// checks where none is configured; a step settles within two health checks.
pub proof fn lemma_spacing_is_the_cooldown(config: &GossipConfig, r: ControlSpec)
    requires
        call_ensures(control_spec, (config,), r),
    ensures
        r.profile == Profile::Legacy,
        config.membership_cooldown_secs matches Some(s) ==> (1 <= s <= 18_000_000_000_000_000 ==> r.spacing_ms == s
            * 1000),
        config.membership_cooldown_secs == Some(0u64) ==> r.spacing_ms == 1000,
        config.membership_cooldown_secs is None && 1 <= config.health_check_interval_secs <= 1_000_000_000_000
            ==> r.spacing_ms == config.health_check_interval_secs * 3000,
        1 <= config.health_check_interval_secs <= 1_000_000_000_000 ==> r.settle_timeout_ms
            == config.health_check_interval_secs * 2000,
        config.health_check_interval_secs == 0 ==> r.settle_timeout_ms == 2000,
{
}

/// A join is a rescue where the group is empty and fills a deficit else; a leave is routine unless
/// the node is drained; holding is nothing.
pub proof fn lemma_actions_are_classed(
    action: MembershipAction,
    n: usize,
    is_drain: bool,
    r: Option<crate::control::ActionClass>,
)
    requires
        call_ensures(crate::membership_governor::classify, (&action, n, is_drain), r),
    ensures
        action == MembershipAction::Join ==> r == Some(
            if n == 0 {
                crate::control::ActionClass::RescueFromZero
            } else {
                crate::control::ActionClass::DeficitFill
            },
        ),
        action == MembershipAction::Leave && !is_drain ==> r == Some(crate::control::ActionClass::RoutineScaleDown),
        action == MembershipAction::Leave && is_drain ==> r is None,
        action == MembershipAction::Hold ==> r is None,
{
}

/// A group is ready for a step where the last one is far enough back and has settled, timed out or
/// shown itself; a wait that is over is forgotten.
pub proof fn lemma_ready_after_the_wait(
    s: &mut GroupState,
    spec: &ControlSpec,
    am_member: bool,
    now_ms: u64,
    r: Result<(), GroupStep>,
)
    requires
        call_ensures(GroupState::ready, (s, spec, am_member, now_ms), r),
    ensures
        r matches Err(e) ==> e == GroupStep::Spaced || e == GroupStep::Unsettled,
        r == Err::<(), GroupStep>(GroupStep::Spaced) <==> {
            &&& old(s).last_action_ms matches Some(last)
            &&& if now_ms >= last {
                now_ms - last < spec.spacing_ms
            } else {
                spec.spacing_ms > 0
            }
        },
        r is Ok ==> final(s).settle is Idle,
        r == Err::<(), GroupStep>(GroupStep::Unsettled) ==> old(s).settle is Pending && old(s).pending_join != Some(
            am_member,
        ),
        old(s).pending_join == Some(am_member) ==> final(s).pending_join is None && final(s).settle is Idle,
        final(s).seq == old(s).seq && final(s).last_action_ms == old(s).last_action_ms,
{
}

/// An intent is made of what it is given, and a group starts with nothing behind it.
pub proof fn lemma_intents_are_built(
    group: &str,
    min: usize,
    max: Option<usize>,
    i: MembershipIntent,
    drain: Vec<NodeId>,
    d: MembershipIntent,
    node: NodeId,
    t: MembershipIntent,
    key: String,
    s: GroupState,
    table: GroupTable,
)
    requires
        call_ensures(MembershipIntent::new, (group, min, max), i),
        call_ensures(MembershipIntent::with_drain, (i, drain), d),
        call_ensures(MembershipIntent::for_node, (d, node), t),
        call_ensures(MembershipIntent::key, (&t,), key),
        call_ensures(GroupState::new, (), s),
        call_ensures(GroupTable::new, (), table),
    ensures
        t.group@ == group@ && t.min == min && t.max == max && t.drain == drain && t.target == Some(node),
        i.drain@.len() == 0 && i.target is None,
        key@ == "sys/govern/membership/"@ + group@,
        s.last_action_ms is None && s.settle is Idle && s.pending_join is None && s.seq == 0,
        forall|g: Seq<char>| !#[trigger] table@.contains_key(g),
{
}

/// A step waits for the last one to settle exactly while that one is pending, not yet shown, and its
/// time is not over; a look that ends in no step leaves nothing pending behind.
pub proof fn lemma_waits_for_the_last_step_to_settle(
    state: &mut GroupState,
    spec: &ControlSpec,
    intent: &MembershipIntent,
    view: &GroupView,
    chance: Chance,
    profile: Profile,
    now_ms: u64,
    r: GroupStep,
)
    requires
        call_ensures(converge, (state, spec, intent, view, chance, profile, now_ms), r),
    ensures
        (r == GroupStep::Unsettled) <==> {
            &&& r != GroupStep::Spaced
            &&& old(state).pending_join != Some(view.am_member)
            &&& old(state).settle matches SettleState::Pending { since_ms, .. } && if now_ms >= since_ms {
                now_ms - since_ms < spec.settle_timeout_ms
            } else {
                spec.settle_timeout_ms > 0
            }
        },
        r is Hold || r is Held ==> final(state).settle is Idle,
{
}

/// A group that was not looked at before waits for nothing; one whose last step is too recent waits.
pub proof fn lemma_each_group_has_its_own_spacing(
    t: &mut GroupTable,
    spec: &ControlSpec,
    e: &GovernedEntry,
    p: &PassInputs,
    r: EntryStep,
)
    requires
        call_ensures(GroupTable::govern, (t, spec, e, p), r),
        e.intent is Some,
    ensures
        !old(t)@.contains_key((e.intent->0).group@) ==> r != EntryStep::Looked(GroupStep::Spaced) && r
            != EntryStep::Looked(GroupStep::Unsettled),
        old(t)@.contains_key((e.intent->0).group@) ==> (r matches EntryStep::Looked(step) ==> (step == GroupStep::Spaced
            <==> {
            &&& old(t)@[(e.intent->0).group@].last_action_ms matches Some(last)
            &&& if p.now_ms >= last {
                p.now_ms - last < spec.spacing_ms
            } else {
                spec.spacing_ms > 0
            }
        })),
        r is Looked && !(r->Looked_0 is Act) && old(t)@.contains_key((e.intent->0).group@) ==> final(t)@[(
        e.intent->0).group@].last_action_ms == old(t)@[(e.intent->0).group@].last_action_ms,
{
}

/// Within one pass a group acts at most once: every later intent of the same group is spaced.
pub proof fn lemma_one_step_per_group_and_pass(
    t: &mut GroupTable,
    spec: &ControlSpec,
    entries: &Vec<GovernedEntry>,
    p: &PassInputs,
    r: Vec<EntryStep>,
    i: int,
    j: int,
)
    requires
        call_ensures(GroupTable::converge_all, (t, spec, entries, p), r),
        spec.spacing_ms > 0,
        0 <= i < j < entries@.len(),
        r@[i] matches EntryStep::Looked(step) && step is Act,
        r@[j] is Looked,
        (entries@[i].intent->0).group@ == (entries@[j].intent->0).group@,
    ensures
        r@[j] == EntryStep::Looked(GroupStep::Spaced),
{
    let tables = choose|tables: Seq<Map<Seq<char>, GroupState>>|
        #[trigger] crate::membership_governor::passed(tables, *spec, entries@, *p, r@) && tables[0] == old(t)@
            && tables.last() == final(t)@;
    let g = (entries@[i].intent->0).group@;
    assert(crate::membership_governor::governed(tables[i], tables[i + 1], *spec, entries@[i], *p, r@[i]));
    lemma_acted_stays(tables, *spec, entries@, *p, r@, g, i + 1, j);
    assert(crate::membership_governor::governed(tables[j], tables[j + 1], *spec, entries@[j], *p, r@[j]));
}

proof fn lemma_acted_stays(
    tables: Seq<Map<Seq<char>, GroupState>>,
    spec: ControlSpec,
    entries: Seq<GovernedEntry>,
    p: PassInputs,
    steps: Seq<EntryStep>,
    g: Seq<char>,
    i: int,
    j: int,
)
    requires
        crate::membership_governor::passed(tables, spec, entries, p, steps),
        spec.spacing_ms > 0,
        0 <= i <= j <= entries.len(),
        tables[i].contains_key(g),
        tables[i][g].last_action_ms == Some(p.now_ms),
    ensures
        tables[j].contains_key(g),
        tables[j][g].last_action_ms == Some(p.now_ms),
    decreases j - i,
{
    if i < j {
        assert(crate::membership_governor::governed(tables[i], tables[i + 1], spec, entries[i], p, steps[i]));
        lemma_acted_stays(tables, spec, entries, p, steps, g, i + 1, j);
    }
}

} // verus!

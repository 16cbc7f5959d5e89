use ahash::AHashSet;
use mycelium_agent::config::{GossipConfig, DEFAULT_MEMBERSHIP_COOLDOWN_TICKS};
use mycelium_agent::control::{
    decide as confidence, holds_on_uncertainty, ActionClass, ConfidenceBound, ControlSpec, Decision, Profile,
};
use mycelium_agent::intent::{now_ms, publish_intent, read_fresh_intent, reconcile_intent, reconcile_tick_ms, FleetIntent, Reconcile};
use mycelium_agent::keys::KvEntry;
use mycelium_agent::membership_governor::{
    classify, control_spec, converge, decide, group_members, publish_membership_intent, resolve_eligible, survey, view_group, CapEntry, Chance,
    EntryStep, GovernedEntry, GroupState, GroupStep, GroupTable, MembershipAction, MembershipIntent, PassInputs,
};
use mycelium_agent::node_id::NodeId;
use mycelium_agent::opacity::{
    boundary_signal, boundary_spec, count_opaque_all_in_kv, count_opaque_members_in_kv, is_node_opaque, is_opaque,
    is_self_opaque, load_key, load_write, opacity_transition, peer_load, spaced_transition, BoundarySignal, FillReading,
    LoadEntry, LoadState, LoadWrite, OpacityGovernor, OpacityTransition,
};

fn node(port: u16) -> NodeId {
    NodeId::new("10.0.0.1", port).unwrap()
}

#[test]
fn a_membership_decision_classifies_by_cost_not_by_verb() {
    assert_eq!(classify(&MembershipAction::Join, 0, false), Some(ActionClass::RescueFromZero));
    assert_eq!(classify(&MembershipAction::Join, 2, false), Some(ActionClass::DeficitFill));
    assert_eq!(classify(&MembershipAction::Leave, 9, false), Some(ActionClass::RoutineScaleDown));
    assert_eq!(classify(&MembershipAction::Leave, 9, true), None, "a drain is an operator's instruction");
    assert_eq!(classify(&MembershipAction::Hold, 3, false), None);
}

#[test]
fn joins_are_never_held_and_an_over_max_leave_is() {
    for n in [0usize, 1, 5] {
        let class = classify(&MembershipAction::Join, n, false).expect("a join is an action");
        assert!(!holds_on_uncertainty(class), "a join at n={n} must never wait on the fleet");
    }
    let leave = classify(&MembershipAction::Leave, 9, false).expect("a leave is an action");
    assert!(holds_on_uncertainty(leave), "a leave on a possibly-partitioned view is held");
}

#[test]
fn cooldown_is_an_explicit_bounded_parameter() {
    let mut cfg = GossipConfig::default();
    cfg.health_check_interval_secs = 10;
    assert_eq!(
        cfg.membership_cooldown(),
        10 * DEFAULT_MEMBERSHIP_COOLDOWN_TICKS,
        "unset: the documented default is 3 × the health-check interval"
    );
    cfg.membership_cooldown_secs = Some(7);
    assert_eq!(cfg.membership_cooldown(), 7, "set: exactly the parameter");
    cfg.membership_cooldown_secs = Some(0);
    assert_eq!(cfg.membership_cooldown(), 1, "bounded below at 1 s");
    cfg.health_check_interval_secs = 1;
    cfg.membership_cooldown_secs = Some(3600);
    assert_eq!(cfg.membership_cooldown(), 3600, "independent of the ping cadence");
}

/// The self-election on probabilities and one roll, as the caller compares them.
fn rolled(am_member: bool, is_drain: bool, join_p: f64, leave_p: f64, roll: f64) -> MembershipAction {
    decide(am_member, is_drain, roll < join_p, roll < leave_p)
}

#[test]
fn decide_drain_leaves_even_within_band() {
    assert_eq!(rolled(true, true, 0.0, 0.0, 0.99), MembershipAction::Leave);
    assert_eq!(rolled(false, true, 0.0, 0.0, 0.99), MembershipAction::Hold);
}

#[test]
fn decide_rolls_join_and_leave() {
    assert_eq!(rolled(false, false, 0.7, 0.0, 0.5), MembershipAction::Join);
    assert_eq!(rolled(false, false, 0.7, 0.0, 0.8), MembershipAction::Hold);
    assert_eq!(rolled(true, false, 0.0, 0.6, 0.5), MembershipAction::Leave);
    assert_eq!(rolled(true, false, 0.0, 0.6, 0.7), MembershipAction::Hold);
    assert_eq!(rolled(true, false, 0.9, 0.0, 0.1), MembershipAction::Hold);
}

fn chance(under_join: bool, under_leave: bool) -> Chance {
    Chance { under_join, under_leave, confident: true }
}

#[test]
fn a_drained_node_that_is_no_member_stays_out() {
    assert_eq!(decide(false, true, true, true), MembershipAction::Hold);
    assert_eq!(decide(true, true, false, false), MembershipAction::Leave);
}

fn governed(intent: Option<MembershipIntent>, defined: bool) -> GovernedEntry {
    let capabilities = vec![
        CapEntry { key: "cap/10.0.0.1:1/nlp/sum".to_string(), matched: true },
        CapEntry { key: "cap/10.0.0.1:2/nlp/sum".to_string(), matched: true },
    ];
    GovernedEntry {
        intent,
        capabilities: if defined { Some(capabilities) } else { None },
        chance: chance(true, true),
    }
}

#[test]
fn a_pass_goes_over_every_governed_group() {
    let mut cfg = GossipConfig::default();
    cfg.membership_cooldown_secs = Some(1);
    let spec = control_spec(&cfg);
    let at = 1_000_000;
    let (key, stamped) = publish_membership_intent(MembershipIntent::new("short", 2, None), at);
    assert_eq!((key.as_str(), stamped.written_at_ms, stamped.min), ("sys/govern/membership/short", at, 2));
    let live = |group: &str, min: usize| Some(publish_intent(MembershipIntent::new(group, min, Some(1)), at));
    let entries = vec![
        governed(live("short", 2), true),
        governed(live("over", 0), true),
        governed(live("undefined", 2), false),
        governed(Some(MembershipIntent::new("stale", 2, None)), true),
        governed(None, true),
        governed(live("short", 2), true),
        governed(Some(publish_intent(MembershipIntent::new("theirs", 2, None).for_node(node(9)), at)), true),
    ];
    let kv = vec![
        KvEntry { key: format!("grp/over/{}", node(1).text()), value: vec![1] },
        KvEntry { key: format!("grp/over/{}", node(2).text()), value: vec![1] },
    ];
    let view = survey(entries[0].intent.as_ref().unwrap(), entries[0].capabilities.as_ref().unwrap(), &kv, &node(1));
    assert_eq!((view.n, view.am_eligible, view.eligible_non_members), (0, true, 2));
    let inputs =
        PassInputs { entries: kv, me: node(1), profile: Profile::Legacy, wall_ms: at, now_ms: 5_000 };
    let mut table = GroupTable::new();
    let steps = table.converge_all(&spec, &entries, &inputs);
    assert_eq!(
        steps,
        vec![
            EntryStep::Looked(GroupStep::Act { leaving: false, would_hold: false }),
            EntryStep::Looked(GroupStep::Act { leaving: true, would_hold: false }),
            EntryStep::Undefined,
            EntryStep::Passed,
            EntryStep::Passed,
            EntryStep::Looked(GroupStep::Spaced),
            EntryStep::Passed,
        ]
    );
    // The table keeps each group's own state: the next pass is spaced where this one acted.
    let steps = table.converge_all(&spec, &entries, &inputs);
    assert_eq!(steps[0], EntryStep::Looked(GroupStep::Spaced));
    assert_eq!(steps[1], EntryStep::Looked(GroupStep::Spaced));
    let defined = vec![governed(live("undefined", 2), true)];
    assert_eq!(
        table.converge_all(&spec, &defined, &inputs),
        vec![EntryStep::Looked(GroupStep::Act { leaving: false, would_hold: false })]
    );
}

#[test]
fn a_group_converges_and_waits_for_its_action_to_settle() {
    let mut cfg = GossipConfig::default();
    cfg.membership_cooldown_secs = Some(1);
    let spec = control_spec(&cfg);
    let intent = MembershipIntent::new("workers", 2, Some(4));
    let me = node(1);
    let view = view_group(&vec![], &vec![node(1), node(2)], &vec![], &me);
    assert_eq!((view.n, view.am_member, view.am_eligible), (0, false, true));
    let mut state = GroupState::new();
    let step = converge(&mut state, &spec, &intent, &view, chance(true, false), Profile::Legacy, 10_000);
    assert_eq!(step, GroupStep::Act { leaving: false, would_hold: false });
    // Within the cooldown nothing more is done.
    let step = converge(&mut state, &spec, &intent, &view, chance(true, false), Profile::Legacy, 10_500);
    assert_eq!(step, GroupStep::Spaced);
}

#[test]
fn an_uncertain_scale_down_is_held_only_where_that_is_enforced() {
    assert_eq!(confidence(ActionClass::RoutineScaleDown, false, Profile::Enforce), Decision::Held);
    assert_eq!(confidence(ActionClass::RoutineScaleDown, false, Profile::Observe), Decision::WouldHold);
    assert_eq!(confidence(ActionClass::RoutineScaleDown, false, Profile::Legacy), Decision::Proceed);
    assert_eq!(confidence(ActionClass::RescueFromZero, false, Profile::Enforce), Decision::Proceed);
}

#[test]
fn members_and_eligible_nodes_are_read_from_keys() {
    let kv = vec![
        KvEntry { key: format!("grp/g/{}", node(1).text()), value: vec![1] },
        KvEntry { key: format!("grp/g/{}", node(2).text()), value: vec![] },
        KvEntry { key: "grp/g/not-a-node".to_string(), value: vec![1] },
    ];
    assert_eq!(group_members(&kv, "g"), vec![node(1)]);
    let caps = vec![
        CapEntry { key: format!("cap/{}/compute/gpu", node(2).text()), matched: true },
        CapEntry { key: format!("cap/{}/locality/self", node(3).text()), matched: true },
        CapEntry { key: format!("cap/{}/compute/cpu", node(4).text()), matched: false },
    ];
    assert_eq!(resolve_eligible(&caps), vec![node(2)]);
}

#[test]
fn an_intent_evaporates_and_is_for_its_target() {
    let intent = publish_intent(MembershipIntent::new("g", 1, None).for_node(node(1)), 1_000);
    assert_eq!(intent.written_at_ms(), 1_000);
    assert!(matches!(reconcile_intent(Some(intent), &node(1), 300, 1_200), Reconcile::Apply(_)));
    let intent = publish_intent(MembershipIntent::new("g", 1, None), 1_000);
    assert!(read_fresh_intent(Some(intent), &node(1), 300, 1_301).is_none());
    let other = publish_intent(MembershipIntent::new("g", 1, None).for_node(node(2)), 1_000);
    assert!(read_fresh_intent(Some(other), &node(1), 300, 1_100).is_none());
    assert!(matches!(reconcile_intent(None::<MembershipIntent>, &node(1), 300, 0), Reconcile::Revert));
    assert!(reconcile_tick_ms(300_000) >= 1);
    assert!(now_ms() > 1_600_000_000_000);
}

fn spec() -> ControlSpec {
    ControlSpec {
        governor: "opacity".to_string(),
        actuator: "boundary/k".to_string(),
        spacing_ms: 1_000,
        settle_timeout_ms: 0,
        bound: ConfidenceBound::default(),
        profile: Profile::Legacy,
    }
}

#[test]
fn release_spacing_holds_the_release_and_never_the_shed() {
    let spec = spec();
    assert_eq!(spaced_transition(OpacityTransition::GoTransparent, &spec, Some(0), 500), OpacityTransition::Hold);
    assert_eq!(
        spaced_transition(OpacityTransition::GoTransparent, &spec, Some(0), 1_000),
        OpacityTransition::GoTransparent
    );
    assert_eq!(
        spaced_transition(OpacityTransition::GoTransparent, &spec, None, 1),
        OpacityTransition::GoTransparent
    );
    assert_eq!(spaced_transition(OpacityTransition::GoOpaque, &spec, Some(499), 500), OpacityTransition::GoOpaque);
    assert_eq!(spaced_transition(OpacityTransition::Hold, &spec, Some(0), 1), OpacityTransition::Hold);
    let mut off = spec;
    off.spacing_ms = 0;
    assert_eq!(
        spaced_transition(OpacityTransition::GoTransparent, &off, Some(0), 0),
        OpacityTransition::GoTransparent
    );
}

/// What the governor reads off the channel: a rising trend lowers the effective threshold.
fn reading(fill: f32, previous: f32, threshold: f32, hysteresis: f32) -> FillReading {
    let trend = fill - previous;
    let effective = threshold * (1.0 - (trend.max(0.0) * 2.0).min(0.4));
    FillReading {
        at_threshold: fill >= effective,
        at_full: fill >= 1.0,
        below_release: fill < effective - hysteresis,
    }
}

#[test]
fn opacity_gate_vetoes_below_full_then_the_library_overrides_at_full() {
    assert_eq!(opacity_transition(false, reading(0.75, 0.75, 0.75, 0.20), false), OpacityTransition::Hold);
    assert_eq!(opacity_transition(false, reading(1.0, 0.75, 0.75, 0.20), false), OpacityTransition::GoOpaque);
    assert_eq!(opacity_transition(false, reading(0.80, 0.80, 0.75, 0.20), true), OpacityTransition::GoOpaque);
    assert_eq!(opacity_transition(false, reading(0.50, 0.50, 0.75, 0.20), true), OpacityTransition::Hold);
}

#[test]
fn opacity_clears_only_after_fill_falls_a_full_hysteresis_below_threshold() {
    assert_eq!(opacity_transition(true, reading(0.60, 1.0, 0.75, 0.20), true), OpacityTransition::Hold);
    assert_eq!(opacity_transition(true, reading(0.50, 1.0, 0.75, 0.20), true), OpacityTransition::GoTransparent);
}

#[test]
fn probe_r31_opacity_override_boundary_is_exactly_at_full() {
    assert_eq!(
        opacity_transition(false, reading(0.999, 0.999, 0.75, 0.20), false),
        OpacityTransition::Hold,
        "no override a hair below full"
    );
    assert_eq!(
        opacity_transition(false, reading(1.0, 1.0, 0.75, 0.20), false),
        OpacityTransition::GoOpaque,
        "override triggers exactly at a full channel"
    );
}

#[test]
fn a_governor_sheds_at_once_and_spaces_its_release() {
    let mut g = OpacityGovernor {
        spec: boundary_spec("k", 1_000),
        is_opaque: false,
        last_action_ms: None,
        releases_spaced: 0,
    };
    assert_eq!(g.tick(reading(1.0, 1.0, 0.75, 0.20), false, 100), OpacityTransition::GoOpaque);
    assert!(g.is_opaque);
    assert_eq!(g.tick(reading(0.1, 0.1, 0.75, 0.20), true, 200), OpacityTransition::Hold);
    assert_eq!(g.releases_spaced, 1);
    assert_eq!(g.tick(reading(0.1, 0.1, 0.75, 0.20), true, 1_100), OpacityTransition::GoTransparent);
    assert!(!g.is_opaque);
}

fn load(n: u16, kind: &str, opaque: bool, at: u64) -> LoadEntry {
    LoadEntry {
        key: load_key(&node(n), kind),
        state: Some(LoadState { fill_bits: 0.5f32.to_bits(), is_opaque: opaque, written_at_ms: at }),
    }
}

#[test]
fn opaque_nodes_are_counted_while_their_load_is_fresh() {
    let entries = vec![load(1, "k", true, 900), load(2, "k", true, 100), load(3, "k", false, 900)];
    assert_eq!(count_opaque_all_in_kv(&entries, 200, 1_000), 1);
    let mut members: AHashSet<String> = AHashSet::new();
    members.insert(node(2).text());
    assert_eq!(count_opaque_members_in_kv(&entries, &members, 200, 1_000), 0);
    assert_eq!(count_opaque_members_in_kv(&entries, &members, 900, 1_000), 1);
    assert!(is_self_opaque(&entries, &node(1)));
    assert!(!is_self_opaque(&entries, &node(3)));
    assert!(is_opaque(&entries, &node(2), "k"));
    assert!(!is_opaque(&entries, &node(2), "other"));
    assert!(!is_node_opaque(&entries, &node(2), "k", 200, 1_000), "too old");
    assert!(is_node_opaque(&entries, &node(2), "k", 900, 1_000));
    assert!(!is_node_opaque(&entries, &node(3), "k", 900, 1_000));
    assert_eq!(peer_load(&entries, 200, 1_000).len(), 2);
}

#[test]
fn a_node_that_sheds_twice_is_one_node() {
    let entries = vec![load(1, "a", true, 900), load(1, "b", true, 900)];
    assert_eq!(count_opaque_all_in_kv(&entries, 200, 1_000), 1);
    let mut members: AHashSet<String> = AHashSet::new();
    members.insert(node(1).text());
    assert_eq!(count_opaque_members_in_kv(&entries, &members, 200, 1_000), 1);
}

#[test]
fn peers_are_listed_fullest_first() {
    let with = |n: u16, kind: &str, fill: f32| LoadEntry {
        key: load_key(&node(n), kind),
        state: Some(LoadState { fill_bits: fill.to_bits(), is_opaque: false, written_at_ms: 900 }),
    };
    let entries = vec![with(1, "a", 0.25), with(2, "a", 1.0), with(3, "b", 0.25), with(4, "a", 0.5)];
    let nodes: Vec<String> = peer_load(&entries, 200, 1_000).into_iter().map(|p| p.node).collect();
    let ordered: Vec<String> = [2, 4, 1, 3].iter().map(|n| node(*n).text()).collect();
    assert_eq!(nodes, ordered, "and equally full ones in the order they were found");
}

#[test]
fn a_boundary_is_written_and_tombstoned() {
    let state = LoadState { fill_bits: 7, is_opaque: true, written_at_ms: 9 };
    assert_eq!(load_write(OpacityTransition::GoOpaque, 7, 9), LoadWrite::Store(state));
    assert_eq!(load_write(OpacityTransition::GoTransparent, 7, 9), LoadWrite::Tombstone);
    assert_eq!(load_write(OpacityTransition::Hold, 7, 9), LoadWrite::Nothing);
    let said = |t: OpacityTransition| boundary_signal(t, b"busy".to_vec());
    assert_eq!(said(OpacityTransition::GoOpaque), Some(BoundarySignal::Opaque(b"busy".to_vec())));
    assert_eq!(said(OpacityTransition::GoTransparent), Some(BoundarySignal::Transparent));
    assert_eq!(said(OpacityTransition::Hold), None);
}

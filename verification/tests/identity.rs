use ed25519_dalek::SigningKey;
use mycelium_agent::agent::{
    role_key, AgentState, GossipAgent, MigrationError, RoleClaim, Rotation, RotationStep, SystemStats,
};
use mycelium_agent::agent::{cluster_estimate, next_power_of_two};
use mycelium_agent::config::GossipConfig;
use mycelium_agent::error::GossipError;
use mycelium_agent::http::consensus::ConsensusResult;
use mycelium_agent::json::Json;
use mycelium_agent::keys::KvEntry;
use mycelium_agent::knowledge_keys::{
    knowledge_member_keys, member_keys, revoked_key_set, sign_knowledge_record, view_members, SeenKeys,
    SignAsMemberError,
};
use mycelium_agent::membership_ops::{
    removal_effects, removal_key, Authorities, Membership, RemovalOffer, RemovedMembers,
};
use mycelium_agent::node_id::NodeId;
use mycelium_agent::revocation::{
    revocation_key, revocation_nodes, validated_signed_revocations, verifying_key_of, RevocationEvent, SignedRevocation,
};

fn key(seed: u8) -> ([u8; 32], [u8; 32]) {
    let sk = SigningKey::from_bytes(&[seed; 32]);
    (sk.verifying_key().to_bytes(), [seed; 32])
}

fn node(port: u16) -> NodeId {
    NodeId::new("127.0.0.1", port).unwrap()
}

#[test]
fn signed_revocation_round_trips_and_verifies() {
    let (pub_a, sk_a) = key(1);
    let event = RevocationEvent {
        node_id: NodeId::parse("127.0.0.1:9000").unwrap(),
        hlc: 42,
        revoked_key: [9u8; 32],
        reason: Some("compromise".to_string()),
    };
    let signed = SignedRevocation::sign(event, &sk_a);
    assert!(signed.verify(&pub_a), "verifies against the signer");
    let (pub_b, _) = key(2);
    assert!(!signed.verify(&pub_b), "rejects a different key");
    let round = SignedRevocation::decode(&signed.encode()).unwrap();
    assert_eq!(round, signed, "encode/decode round-trips");
}

#[test]
fn tampering_the_event_breaks_the_signature() {
    let (pub_a, sk_a) = key(1);
    let event = RevocationEvent {
        node_id: NodeId::parse("127.0.0.1:9000").unwrap(),
        hlc: 1,
        revoked_key: [9u8; 32],
        reason: None,
    };
    let mut signed = SignedRevocation::sign(event, &sk_a);
    signed.event.revoked_key = [7u8; 32];
    assert!(!signed.verify(&pub_a), "a tampered event fails verification");
}

#[test]
fn the_verifying_key_is_the_librarys() {
    let (public, seed) = key(7);
    assert_eq!(verifying_key_of(&seed), public);
    assert_ne!(verifying_key_of(&seed), seed);
}

#[test]
fn only_the_current_key_revokes_and_only_own_keys() {
    let me = node(9000);
    let (cur, cur_seed) = key(1);
    let (old, old_seed) = key(2);
    let (foreign, _) = key(3);
    let identity = vec![cur, old];
    let revoke = |k: [u8; 32], by: &[u8; 32]| {
        SignedRevocation::sign(RevocationEvent { node_id: me.clone(), hlc: 1, revoked_key: k, reason: None }, by)
    };
    let at = |k: &[u8; 32], value: Vec<u8>| KvEntry { key: revocation_key(&me, k), value };
    let stored = vec![
        at(&old, revoke(old, &cur_seed).encode()),
        at(&cur, revoke(cur, &old_seed).encode()),
        at(&foreign, revoke(foreign, &cur_seed).encode()),
        at(&old, b"no revocation".to_vec()),
        KvEntry { key: revocation_key(&node(9001), &cur), value: revoke(cur, &cur_seed).encode() },
    ];
    let ok = validated_signed_revocations(&stored, &me, &identity);
    assert_eq!(ok.len(), 1);
    assert_eq!(ok[0].event.revoked_key, old);
    assert!(validated_signed_revocations(&stored, &me, &vec![]).is_empty(), "without an identity nothing counts");
    assert!(validated_signed_revocations(&stored, &node(9001), &identity).is_empty(), "it is another node's log");
    let removed = vec![[5u8; 32], [5u8; 32]];
    let known = vec![(node(9001), vec![foreign]), (me.clone(), identity)];
    assert_eq!(revoked_key_set(&removed, &stored, &known), vec![[5u8; 32], old]);
    assert_eq!(revoked_key_set(&removed, &stored, &vec![]), vec![[5u8; 32]]);
}

#[test]
fn revocations_are_published_under_their_node_and_key() {
    let k = revocation_key(&node(9000), &[0xab; 32]);
    assert_eq!(k, format!("sys/revocation/127.0.0.1:9000/{}", "ab".repeat(32)));
    let nodes = revocation_nodes(&vec![k.clone(), "sys/revocation/nonsense".to_string(), k]);
    assert_eq!(nodes, vec![node(9000)]);
}

#[test]
fn test_rotate_on_compromise_revokes_old_key() {
    let mut agent = GossipAgent::new(node(7400), GossipConfig::default());
    assert!(matches!(agent.rotate_identity_on_compromise(), Err(GossipError::InvalidField { .. })));
    let (old_public, old_seed) = key(1);
    let (new_public, new_seed) = key(2);
    agent.identity = Some(old_seed);
    let old = agent.rotate_identity_on_compromise().unwrap();
    assert_eq!(old, old_public);
    let keys = agent.rotate_identity(true).unwrap();
    assert_eq!(keys.identity, "sys/identity/127.0.0.1:7400");
    assert_eq!(keys.proof, "sys/identity-proof/127.0.0.1:7400");
    assert_eq!(keys.sealed, "sys/identity-signed/127.0.0.1:7400");
    let mut rotation = Rotation::new(true);
    let mut steps = Vec::new();
    while rotation.step != RotationStep::Revoke {
        // Until it cuts over, the node signs with the key it rotates away from.
        assert_eq!(agent.identity_public_key(), Some(old_public));
        steps.push(agent.advance_rotation(&mut rotation, &new_seed));
    }
    assert_eq!(
        steps,
        vec![RotationStep::Publish, RotationStep::Prove, RotationStep::Seal, RotationStep::Wait, RotationStep::CutOver]
    );
    assert_eq!(agent.identity_public_key(), Some(new_public));
    assert!(agent.egress_policy().allow_hosts.is_empty());
    let (at, signed) = agent.revoke_identity_key(old, 3).unwrap();
    assert_eq!(at, revocation_key(&node(7400), &old));
    assert!(signed.verify(&new_public), "the new key revokes");
    let stored = vec![KvEntry { key: at, value: signed.encode() }];
    let valid = validated_signed_revocations(&stored, &node(7400), &vec![new_public, old_public]);
    assert_eq!(valid, vec![signed]);
    let known = vec![(node(7400), vec![new_public, old_public])];
    assert_eq!(revoked_key_set(&vec![], &stored, &known), vec![old_public]);
}

#[test]
fn advertise_roles_requires_tls_identity() {
    let n = node(7400);
    let mut agent = GossipAgent::new(n.clone(), GossipConfig::default());
    let err = agent.advertise_roles(vec!["admin".to_string()], 3, 0).unwrap_err();
    assert!(matches!(&err, GossipError::InvalidField { field, .. } if field == "tls"));
    agent.identity = Some([1; 32]);
    let (at, claim) = agent.advertise_roles(vec!["admin".to_string()], 3, 9).unwrap();
    assert_eq!(at, "sys/role/127.0.0.1:7400");
    assert_eq!(
        claim,
        RoleClaim { node_id: n.clone(), roles: vec!["admin".to_string()], clearance: 3, issued_at_ms: 9 }
    );
    let own = agent.identity_public_key().unwrap();
    let sign = || {
        let (_, claim) = agent.advertise_roles(vec!["admin".to_string()], 3, 9).unwrap();
        Some(agent.sign_role_claim(claim, b"claim").unwrap())
    };
    let roles = |r: Option<RoleClaim>| r.map(|c| c.roles);
    let keys = vec![key(9).0, own];
    assert_eq!(roles(agent.roles_of(&n, sign(), b"claim", &keys)), Some(vec!["admin".to_string()]));
    assert_eq!(agent.roles_of(&n, sign(), b"altered", &keys), None, "a forged claim reads as none");
    assert_eq!(agent.roles_of(&node(1), sign(), b"claim", &keys), None, "and so does another node's");
    assert_eq!(agent.roles_of(&n, sign(), b"claim", &vec![key(9).0]), None);
    assert_eq!(agent.roles_of(&n, None, b"claim", &keys), None);
}

#[test]
fn caller_authorized_open_nodeid_and_roleless() {
    let agent = GossipAgent::new(node(7401), GossipConfig::default());
    let caller = NodeId::new("10.0.0.5", 8000).unwrap();
    let caller_str = caller.text();
    let none = vec![];
    assert_eq!(role_key(&caller), "sys/role/10.0.0.5:8000");
    assert!(agent.caller_authorized(&caller, &vec![], None, b"", &none));
    assert!(!agent.caller_authorized(&caller, &vec!["orchestrator".to_string()], None, b"", &none));
    assert!(agent.caller_authorized(&caller, &vec![caller_str], None, b"", &none));
}

#[test]
fn a_role_lets_its_holder_in_only_by_a_claim_it_signed() {
    let agent = GossipAgent::new(node(7401), GossipConfig::default());
    let caller = NodeId::new("10.0.0.5", 8000).unwrap();
    let allow = vec!["orchestrator".to_string()];
    let claim = || RoleClaim {
        node_id: caller.clone(),
        roles: vec!["guest".to_string(), "orchestrator".to_string()],
        clearance: 0,
        issued_at_ms: 0,
    };
    assert!(agent.admits(&caller, &allow, Some(&claim())));
    assert!(!agent.admits(&caller, &allow, None));
    let (public, seed) = key(4);
    let mut theirs = GossipAgent::new(caller.clone(), GossipConfig::default());
    theirs.identity = Some(seed);
    let signed = || theirs.sign_role_claim(claim(), b"claim").ok();
    let keys = vec![public];
    assert!(agent.caller_authorized(&caller, &allow, signed(), b"claim", &keys));
    assert!(!agent.caller_authorized(&caller, &allow, signed(), b"altered", &keys));
    assert!(!agent.caller_authorized(&caller, &allow, signed(), b"claim", &vec![key(5).0]));
    assert!(!agent.caller_authorized(&node(1), &allow, signed(), b"claim", &keys), "the claim is another node's");
}

#[test]
fn a_node_signs_only_with_an_identity() {
    let mut agent = GossipAgent::new(node(7400), GossipConfig::default());
    assert_eq!(agent.sign_with_identity(b"m"), None);
    assert_eq!(agent.identity_public_key(), None);
    assert!(matches!(agent.rotate_identity(true), Err(GossipError::InvalidField { .. })));
    assert!(matches!(agent.revoke_key([0; 32], None, 0), Err(GossipError::InvalidField { .. })));
    let (public, seed) = key(5);
    agent.identity = Some(seed);
    assert!(matches!(agent.rotate_identity(false), Err(GossipError::InvalidField { .. })));
    assert_eq!(agent.identity_public_key(), Some(public));
    let sig = agent.sign_with_identity(b"m").unwrap();
    let vk = ed25519_dalek::VerifyingKey::from_bytes(&public).unwrap();
    assert!(vk.verify_strict(b"m", &ed25519_dalek::Signature::from_bytes(&sig)).is_ok());
}

#[test]
fn a_new_node_is_sized_and_knows_others() {
    let mut cfg = GossipConfig::default();
    cfg.bootstrap_peers = vec![node(1), node(2), node(1)];
    assert_eq!(cluster_estimate(&node(1), &cfg.bootstrap_peers), 2);
    cfg.gossip_shards = 5;
    let agent = GossipAgent::new(node(1), cfg);
    assert_eq!(agent.bootstrap_peers, vec![node(2)]);
    assert_eq!(agent.n_shards, 8);
    assert_eq!(agent.config.gossip_shards, 8, "what the node runs with is what its configuration says");
    assert_eq!(agent.seen_shards, 16);
    assert_eq!(agent.state, AgentState::Idle);
    assert_eq!(next_power_of_two(0), 1);
    assert_eq!(next_power_of_two(17), 32);
    assert_eq!(next_power_of_two(64), 64);
}

#[test]
fn states_are_bytes() {
    for s in [AgentState::Idle, AgentState::Running, AgentState::Stopped] {
        assert_eq!(AgentState::from_u8(s.as_u8()), s);
    }
    assert_eq!(AgentState::from_u8(9), AgentState::Stopped);
}

#[test]
fn what_an_operator_reports_is_kept() {
    let mut agent = GossipAgent::new(node(1), GossipConfig::default());
    assert_eq!(agent.deployed_policy_revision(), None);
    agent.set_deployed_policy_revision("r7");
    assert_eq!(agent.deployed_policy_revision(), Some("r7".to_string()));
    let partners = vec!["a".to_string(), "b".to_string(), "a".to_string()];
    assert!(agent.with_federation_clients(&partners));
    assert_eq!(agent.partners, Some(vec!["a".to_string(), "b".to_string()]));
    assert!(!agent.with_federation_clients(&vec!["c".to_string()]), "the first set is kept");
    assert_eq!(agent.partners, Some(vec!["a".to_string(), "b".to_string()]));
    assert!(agent.a2a_is_open(false, 0));
    assert!(!agent.a2a_is_open(true, 0));
    assert!(!agent.a2a_is_open(false, 1));
    assert_eq!(agent.capability_authz_slot("compute", "gpu"), "capauthz/compute/gpu");
    let at = "sys/capauthz/compute/gpu".to_string();
    assert_eq!(agent.set_capability_authz("compute", "gpu", vec![1]), (at.clone(), vec![1]));
    let decided = |r: ConsensusResult| agent.set_capability_authz_via_consensus("compute", "gpu", vec![1], &r);
    assert_eq!(decided(ConsensusResult::Committed), Some((at, vec![1])));
    assert_eq!(decided(ConsensusResult::Superseded), None);
    assert_eq!(decided(ConsensusResult::Timeout { ballots_tried: 3 }), None);
    assert_eq!(decided(ConsensusResult::TopologyUnsatisfied), None);
}

#[test]
fn a_missing_migration_path_is_counted() {
    let mut agent = GossipAgent::new(node(1), GossipConfig::default());
    assert_eq!(agent.migration_input(br#"[1]"#).map(|v| v.item(0)), Ok(Json::UInt(1)));
    let unread = || MigrationError::InvalidJson("EOF while parsing a list at line 1 column 1".to_string());
    let no_path = || MigrationError::NoMigrationPath { from: "a".to_string(), to: "b".to_string() };
    assert_eq!(agent.migration_input(b"["), Err(unread()));
    assert_eq!(agent.migrate_payload(b"[1]", Ok(Json::UInt(2))), Ok(Json::UInt(2)));
    assert_eq!(agent.migrate_payload(b"[", Err(no_path())), Err(unread()), "the chain is never asked");
    let failed = MigrationError::Step("x".to_string());
    assert_eq!(agent.migrate_payload(b"[1]", Err(failed)), Err(MigrationError::Step("x".to_string())));
    assert_eq!(agent.schema_mismatch, 0);
    assert_eq!(agent.migrate_payload(b"[1]", Err(no_path())), Err(no_path()));
    assert_eq!(agent.schema_mismatch, 1);
}

#[test]
fn the_revocation_head_is_none_without_revocations() {
    let agent = GossipAgent::new(node(1), GossipConfig::default());
    assert_eq!(agent.revocation_head(&[0; 32], 0), None);
    assert_eq!(agent.revocation_head(&[0xcd; 32], 2), Some(("cd".repeat(32), 2)));
}

#[test]
fn member_keys_keep_history_and_mark_what_is_revoked() {
    let m = member_keys(&node(1), &vec![[1; 32], [2; 32], [1; 32]], Some(&[3; 32]), &vec![[2; 32], [9; 32]]);
    assert_eq!(m.retained, vec![[3; 32], [1; 32], [2; 32]]);
    assert_eq!(m.revoked, vec![[2; 32]]);
    let seen = vec![SeenKeys { node: node(2), keys: vec![[4; 32]] }];
    let all = knowledge_member_keys(&seen, &node(1), Some(&[3; 32]), &vec![[4; 32]], &vec![], &vec![]);
    assert_eq!(all, view_members(&seen, &node(1), Some(&[3; 32]), &vec![[4; 32]]));
    assert_eq!(all[0].revoked, vec![[4; 32]], "a removed member's key reads as revoked");
    assert_eq!(all.len(), 2);
    assert_eq!(all[1].node, node(1));
    assert_eq!(all[1].retained, vec![[3; 32]]);
    assert_eq!(view_members(&seen, &node(1), None, &vec![]).len(), 1);
}

#[test]
fn a_record_is_signed_only_for_its_own_issuer() {
    assert_eq!(
        sign_knowledge_record("other", "me", b"r", Some(&[1; 32])),
        Err(SignAsMemberError::NotThisMember { issuer: "other".to_string() })
    );
    assert_eq!(sign_knowledge_record("me", "me", b"r", None), Err(SignAsMemberError::NoIdentity));
    let sig = sign_knowledge_record("me", "me", b"r", Some(&[1; 32])).unwrap();
    let vk = SigningKey::from_bytes(&[1; 32]).verifying_key();
    assert!(vk.verify_strict(b"r", &ed25519_dalek::Signature::from_bytes(&sig)).is_ok());
}

#[test]
fn a_removal_applies_once_and_takes_every_key() {
    let mut removed = RemovedMembers::new();
    let n = node(3);
    assert_eq!(
        removed.apply(&n, Some("not an authority".to_string()), &vec![], &vec![], &vec![]),
        RemovalOffer::Refused("not an authority".to_string())
    );
    assert!(!removed.is_node_removed(&n));
    assert_eq!(removed.apply(&n, None, &vec![[1; 32]], &vec![[2; 32], [1; 32]], &vec![[3; 32]]), RemovalOffer::Accepted);
    assert!(removed.is_node_removed(&n));
    assert_eq!(removed.keys, vec![[1; 32], [2; 32], [3; 32]]);
    assert_eq!(removed.apply(&n, None, &vec![[9; 32]], &vec![], &vec![]), RemovalOffer::AlreadyRemoved);
    assert_eq!(removed.keys.len(), 3);
    assert_eq!(removal_key(&n), "sys/membership/removed/127.0.0.1:3");
}

#[test]
fn system_stats_hold_what_they_are_given() {
    let s = SystemStats {
        peers: 1,
        store_entries: 2,
        cached_connections: 3,
        gossip_shard_queue_depths: vec![0, 1],
        dead_shards: 0,
        gc_alive: true,
        health_monitor_alive: true,
        intern_pool_size: 4,
        dropped_frames: 5,
        individual_flood_fallbacks: 6,
        task_count: 7,
        active_bulk_handlers: 8,
        commit_conflicts: 9,
        sys_namespace_violations: 10,
        identity_anchor_conflicts: 11,
        cap_authz_violations: 12,
        schema_mismatch: 13,
        rate_limited_senders: 14,
    };
    assert_eq!(s.gossip_shard_queue_depths.len(), 2);
    assert!(s.gc_alive && s.health_monitor_alive);
}

#[test]
fn a_rotation_that_is_no_remedy_revokes_nothing() {
    let mut agent = GossipAgent::new(node(7400), GossipConfig::default());
    let (new_public, new_seed) = key(2);
    agent.identity = Some(key(1).1);
    let mut rotation = Rotation::new(false);
    for _ in 0..5 {
        agent.advance_rotation(&mut rotation, &new_seed);
    }
    assert_eq!(rotation.step, RotationStep::Done);
    assert_eq!(agent.identity_public_key(), Some(new_public));
    assert_eq!(agent.advance_rotation(&mut rotation, &[9; 32]), RotationStep::Done);
    assert_eq!(agent.identity_public_key(), Some(new_public));
}

#[test]
fn what_was_removed_stays_removed() {
    let mut removed = RemovedMembers { nodes: vec![], keys: vec![] };
    assert_eq!(removed.apply(&node(1), None, &vec![[1; 32]], &vec![[2; 32]], &vec![[3; 32]]), RemovalOffer::Accepted);
    assert_eq!(removed.apply(&node(1), None, &vec![[4; 32]], &vec![], &vec![]), RemovalOffer::AlreadyRemoved);
    let refused = removed.apply(&node(2), Some("no".to_string()), &vec![[4; 32]], &vec![], &vec![]);
    assert_eq!(refused, RemovalOffer::Refused("no".to_string()));
    assert_eq!(removed.apply(&node(2), None, &vec![[1; 32]], &vec![], &vec![]), RemovalOffer::Accepted);
    assert_eq!(removed.nodes, vec![node(1), node(2)]);
    let effects = removal_effects(&RemovalOffer::Accepted, &node(1), true);
    assert_eq!((effects.cut_off, effects.publish_at), (true, Some(removal_key(&node(1)))));
    assert_eq!(removal_effects(&RemovalOffer::Accepted, &node(1), false).publish_at, None);
    assert!(!removal_effects(&RemovalOffer::AlreadyRemoved, &node(1), true).cut_off);
    assert_eq!(removed.keys, vec![[1; 32], [2; 32], [3; 32]]);
}

#[test]
fn removals_are_taken_only_from_configured_authorities() {
    let mut m = Membership::new();
    let n = node(3);
    assert_eq!(m.offer_member_removal(&n, None, &vec![[1; 32]], &vec![], &vec![]), None);
    assert_eq!(m.ingest_removal(&n, None, &vec![[1; 32]], &vec![], &vec![]), None);
    assert!(!m.removed.is_node_removed(&n));
    let from = |who: &str| Authorities { issuers: vec![who.to_string()] };
    assert!(m.with_membership_authorities(from("ops")));
    assert!(!m.with_membership_authorities(from("others")), "they are set once");
    assert_eq!(m.authorities, Some(from("ops")));
    let (offer, effects) = m.offer_member_removal(&n, None, &vec![[1; 32]], &vec![], &vec![]).unwrap();
    assert_eq!((offer, effects.cut_off), (RemovalOffer::Accepted, true));
    assert_eq!(effects.publish_at.as_deref(), Some("sys/membership/removed/127.0.0.1:3"));
    let (offer, effects) = m.ingest_removal(&node(4), None, &vec![[2; 32]], &vec![], &vec![]).unwrap();
    assert_eq!((offer, effects.cut_off, effects.publish_at), (RemovalOffer::Accepted, true, None));
    let (offer, effects) = m.offer_member_removal(&n, None, &vec![], &vec![], &vec![]).unwrap();
    assert_eq!((offer, effects.cut_off, effects.publish_at), (RemovalOffer::AlreadyRemoved, false, None));
}

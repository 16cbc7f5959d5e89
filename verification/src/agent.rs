//! A node's own state: what it was built with, whether it runs, whom it lets call.
use crate::config::{EgressPolicy, GossipConfig};
use crate::error::{invalid, is_invalid, GossipError};
use crate::hex::{hex32, hex_of};
use crate::http::consensus::ConsensusResult;
use crate::json::{json_read, read_json, Json};
use crate::keys::{slash, slashed};
use crate::node_id::{nodes, NodeId, NodeModel};
use crate::revocation::{
    ed25519_public, ed25519_signature, ed25519_verifies, revocation_key, revocation_key_of, signature_bytes,
    signature_verifies, signed_by,
    verifying_key_of, RevocationEvent, SignedRevocation,
};
use crate::text::{join, same, texts};
use vstd::prelude::*;
use vstd::string::*;

verus! {

/// Whether a node runs.
#[derive(Clone, Copy, Debug, PartialEq, Eq, Structural)]
pub enum AgentState {
    /// It has not started.
    Idle,
    /// It runs.
    Running,
    /// It ran, and does not run again.
    Stopped,
}

impl AgentState {
    /// The state a byte stands for.
    pub fn from_u8(v: u8) -> (r: Self)
        ensures
            r == if v == 0 {
                AgentState::Idle
            } else if v == 1 {
                AgentState::Running
            } else {
                AgentState::Stopped
            },
    {
        match v {
            0 => AgentState::Idle,
            1 => AgentState::Running,
            _ => AgentState::Stopped,
        }
    }

    /// The byte that stands for the state.
    pub fn as_u8(self) -> (r: u8)
        ensures
            r == match self {
                AgentState::Idle => 0u8,
                AgentState::Running => 1,
                AgentState::Stopped => 2,
            },
    {
        match self {
            AgentState::Idle => 0,
            AgentState::Running => 1,
            AgentState::Stopped => 2,
        }
    }
}

/// Snapshot of live protocol state.
#[derive(Debug, PartialEq, Eq)]
pub struct SystemStats {
    /// How many peers the node knows.
    pub peers: usize,
    /// How many live entries its store holds.
    pub store_entries: usize,
    /// How many connections it keeps.
    pub cached_connections: usize,
    /// Pending message count per gossip shard (index matches shard number).
    pub gossip_shard_queue_depths: Vec<usize>,
    /// Number of gossip shards that have crashed while the node is running.
    pub dead_shards: usize,
    /// `false` only when the node is running and the collector has exited unexpectedly.
    pub gc_alive: bool,
    /// `false` only when the node is running and the health monitor has exited unexpectedly.
    pub health_monitor_alive: bool,
    /// Number of entries in the process-wide key intern pool.
    pub intern_pool_size: usize,
    /// Cumulative gossip frames dropped due to full channels.
    pub dropped_frames: u64,
    /// Times a frame for one node had no direct route and fell back to flooding.
    pub individual_flood_fallbacks: u64,
    /// Number of background tasks currently tracked.
    pub task_count: usize,
    /// Number of bulk request handlers currently executing.
    pub active_bulk_handlers: u64,
    /// Cumulative commit-conflict detections by this node's consensus listener.
    pub commit_conflicts: u64,
    /// Cumulative count of remote writes to a `sys/` key this node owns.
    pub sys_namespace_violations: u64,
    /// Cumulative identity-anchor conflicts.
    pub identity_anchor_conflicts: u64,
    /// Cumulative count of advertisements declined for want of a required role.
    pub cap_authz_violations: u64,
    /// Cumulative count of schema-version mismatches detected.
    pub schema_mismatch: u64,
    /// Number of senders this node is currently rate-limiting.
    pub rate_limited_senders: u64,
}

/// The nodes among the first `k` that are not this one.
pub open spec fn others(v: Seq<NodeId>, me: NodeModel, k: int) -> Seq<NodeModel>
    decreases k,
{
    if k <= 0 {
        Seq::empty()
    } else {
        let front = others(v, me, k - 1);
        if v[k - 1]@ == me {
            front
        } else {
            front.push(v[k - 1]@)
        }
    }
}

fn without(v: &Vec<NodeId>, me: &NodeId) -> (r: Vec<NodeId>)
    ensures
        nodes(r@) == others(v@, me@, v@.len() as int),
        r@.len() <= v@.len(),
{
    let mut out: Vec<NodeId> = Vec::new();
    let mut k: usize = 0;
    assert(nodes(out@) =~= Seq::empty());
    while k < v.len()
        invariant
            k <= v@.len(),
            out@.len() <= k,
            nodes(out@) == others(v@, me@, k as int),
        decreases v@.len() - k,
    {
        let ghost before = out@;
        if !v[k].is(me) {
            let n = v[k].clone();
            let ghost m = n@;
            out.push(n);
            assert(nodes(out@) =~= nodes(before).push(m));
        }
        k += 1;
    }
    out
}

/// How many nodes the cluster has at least, as far as a node knows before it starts: the bootstrap peers
/// that are not itself, and itself.
pub fn cluster_estimate(me: &NodeId, bootstrap_peers: &Vec<NodeId>) -> (r: u128)
    ensures
        r == others(bootstrap_peers@, me@, bootstrap_peers@.len() as int).len() + 1,
{
    let kept = without(bootstrap_peers, me);
    assert(nodes(kept@).len() == kept@.len());
    kept.len() as u128 + 1
}

/// Is this a power of two?
pub open spec fn is_power_of_two(n: int) -> bool
    decreases n,
{
    if n <= 1 {
        n == 1
    } else {
        n % 2 == 0 && is_power_of_two(n / 2)
    }
}

/// The least power of two that is not below `n`.
pub fn next_power_of_two(n: usize) -> (r: usize)
    requires
        n <= usize::MAX / 2 + 1,
    ensures
        is_power_of_two(r as int),
        r >= n,
        forall|p: int| #[trigger] is_power_of_two(p) && p >= n ==> r <= p,
{
    let mut r: usize = 1;
    proof {
        assert(is_power_of_two(1));
        assert forall|p: int| #[trigger] is_power_of_two(p) && p >= n implies 1 <= p by {}
    }
    while r < n
        invariant
            r >= 1,
            n <= usize::MAX / 2 + 1,
            is_power_of_two(r as int),
            forall|p: int| #[trigger] is_power_of_two(p) && p >= n ==> r <= p,
        decreases 2 * n - r,
    {
        let ghost was = r as int;
        r = r * 2;
        proof {
            assert(is_power_of_two(r as int));
            assert forall|p: int| #[trigger] is_power_of_two(p) && p >= n implies r <= p by {
                assert(was < p);
                lemma_next_power(was, p);
            }
        }
    }
    r
}

/// Between a power of two and its double there is no other.
proof fn lemma_next_power(a: int, b: int)
    requires
        is_power_of_two(a),
        is_power_of_two(b),
        a < b,
    ensures
        2 * a <= b,
    decreases b,
{
    if a > 1 {
        lemma_next_power(a / 2, b / 2);
    }
}

/// A node: its identity, what it was built with, and whether it runs.
#[derive(Debug, PartialEq, Eq)]
pub struct GossipAgent {
    /// Its id.
    pub node_id: NodeId,
    /// Its configuration.
    pub config: GossipConfig,
    /// The peers it knows from the start, itself left out.
    pub bootstrap_peers: Vec<NodeId>,
    /// How many gossip shards it has: a power of two.
    pub n_shards: usize,
    /// How many shards its memory of seen frames has.
    pub seen_shards: usize,
    /// Whether it runs.
    pub state: AgentState,
    /// Its identity's signing key, where it has one.
    pub identity: Option<[u8; 32]>,
    /// The policy revision an operator has reported as deployed.
    pub policy_revision: Option<String>,
    /// The partners it may call out to; configured once.
    pub partners: Option<Vec<String>>,
    /// How often no migration path was found.
    pub schema_mismatch: u64,
}

/// A role claim of a node's.
#[derive(Debug, PartialEq, Eq)]
pub struct RoleClaim {
    /// The node.
    pub node_id: NodeId,
    /// Its roles.
    pub roles: Vec<String>,
    /// Its data-classification clearance.
    pub clearance: u8,
    /// When it was issued.
    pub issued_at_ms: u64,
}

/// A role claim and its node's signature.
#[derive(Debug, PartialEq, Eq)]
pub struct SignedRoleClaim {
    /// The claim.
    pub claim: RoleClaim,
    /// The signature over the claim's bytes.
    pub sig: [u8; 64],
}

/// Where a node's role claim is stored.
pub open spec fn role_key_of(node: NodeModel) -> Seq<char> {
    "sys/role/"@ + node.text()
}

/// Where a node's role claim is stored.
pub fn role_key(node: &NodeId) -> (r: String)
    ensures
        r@ == role_key_of(node@),
{
    join("sys/role/", node.text().as_str())
}

/// The roles a stored claim gives a node: none where the claim is not attributed to it.
pub open spec fn proven_roles(
    signed: Option<SignedRoleClaim>,
    canonical: Seq<u8>,
    node: NodeModel,
    keys: Seq<[u8; 32]>,
) -> Seq<Seq<char>> {
    match signed {
        Some(s) if attributed(s, canonical, node, keys) => texts(s.claim.roles@),
        _ => Seq::empty(),
    }
}

/// Is this claim `node`'s own: it names the node, and its signature over its bytes verifies under one of
/// the keys known for the node?
pub open spec fn attributed(signed: SignedRoleClaim, canonical: Seq<u8>, node: NodeModel, keys: Seq<[u8; 32]>) -> bool {
    &&& signed.claim.node_id@ == node
    &&& exists|i: int| 0 <= i < keys.len() && ed25519_verifies((#[trigger] keys[i])@, canonical, signed.sig@)
}

/// The keys a rotation writes.
#[derive(Debug, PartialEq, Eq)]
pub struct RotationKeys {
    /// The key history.
    pub identity: String,
    /// Its proof, signed by the key that is rotated away from.
    pub proof: String,
    /// Both in one record.
    pub sealed: String,
}

/// The first of each partner among the first `k`.
pub open spec fn first_of_each(v: Seq<Seq<char>>, k: int) -> Seq<Seq<char>>
    decreases k,
{
    if k <= 0 {
        Seq::empty()
    } else {
        let front = first_of_each(v, k - 1);
        if front.contains(v[k - 1]) {
            front
        } else {
            front.push(v[k - 1])
        }
    }
}

/// Is the text among these?
pub fn has_text(v: &Vec<String>, s: &str) -> (r: bool)
    ensures
        r == texts(v@).contains(s@),
{
    let mut i: usize = 0;
    while i < v.len()
        invariant
            i <= v@.len(),
            forall|j: int| 0 <= j < i ==> (#[trigger] v@[j])@ != s@,
        decreases v@.len() - i,
    {
        if same(v[i].as_str(), s) {
            assert(texts(v@)[i as int] == s@);
            return true;
        }
        i += 1;
    }
    false
}

/// Is one of these among those?
pub open spec fn share_one(a: Seq<Seq<char>>, b: Seq<Seq<char>>) -> bool {
    exists|i: int| 0 <= i < a.len() && b.contains(#[trigger] a[i])
}

/// May a sender call: anybody may where the list is empty; else its id is listed, or a role it holds is.
pub open spec fn admitted(sender: NodeModel, allow: Seq<Seq<char>>, roles: Seq<Seq<char>>) -> bool {
    allow.len() == 0 || allow.contains(sender.text()) || share_one(roles, allow)
}

/// A migration came to nothing.
#[derive(Debug, PartialEq, Eq)]
pub enum MigrationError {
    /// The payload is not JSON.
    InvalidJson(String),
    /// No registered chain connects the versions.
    NoMigrationPath {
        /// The version the payload has.
        from: String,
        /// The version asked for.
        to: String,
    },
    /// A step of the chain failed.
    Step(String),
}

impl GossipAgent {
    /// A node that has not started. How many gossip shards are configured is brought up to a power of
    /// two. The node is never its own bootstrap peer.
    pub fn new(node_id: NodeId, config: GossipConfig) -> (r: Self)
        requires
            config.gossip_shards <= usize::MAX / 2 + 1,
        ensures
            r.node_id == node_id,
            r.config == (GossipConfig { gossip_shards: r.n_shards, ..config }),
            nodes(r.bootstrap_peers@) == others(
                config.bootstrap_peers@,
                node_id@,
                config.bootstrap_peers@.len() as int,
            ),
            is_power_of_two(r.n_shards as int),
            r.n_shards >= config.gossip_shards,
            forall|p: int| #[trigger] is_power_of_two(p) && p >= config.gossip_shards ==> r.n_shards <= p,
            r.seen_shards == if r.n_shards < 16 {
                16
            } else {
                r.n_shards as int
            },
            r.state == AgentState::Idle,
            r.identity is None,
            r.policy_revision is None,
            r.partners is None,
            r.schema_mismatch == 0,
    {
        let bootstrap_peers = without(&config.bootstrap_peers, &node_id);
        let n_shards: usize = next_power_of_two(config.gossip_shards);
        let mut config = config;
        config.gossip_shards = n_shards;
        GossipAgent {
            node_id,
            config,
            bootstrap_peers,
            n_shards,
            seen_shards: if n_shards < 16 {
                16
            } else {
                n_shards
            },
            state: AgentState::Idle,
            identity: None,
            policy_revision: None,
            partners: None,
            schema_mismatch: 0,
        }
    }

    /// Report the policy revision that is deployed.
    pub fn set_deployed_policy_revision(&mut self, revision: &str)
        ensures
            final(self).policy_revision matches Some(s) && s@ == revision@,
            *final(self) == (GossipAgent { policy_revision: final(self).policy_revision, ..*old(self) }),
    {
        self.policy_revision = Some(revision.to_owned());
    }

    /// The policy revision that was last reported.
    pub fn deployed_policy_revision(&self) -> (r: Option<String>)
        ensures
            match self.policy_revision {
                Some(s) => r matches Some(t) && t@ == s@,
                None => r is None,
            },
    {
        match &self.policy_revision {
            Some(s) => Some(s.clone()),
            None => None,
        }
    }

    /// Configure the partners this node may call out to: the first client of each partner is kept, and
    /// the first set that is configured. Says whether this set was.
    pub fn with_federation_clients(&mut self, clients: &Vec<String>) -> (r: bool)
        ensures
            r == (old(self).partners is None),
            match old(self).partners {
                Some(_) => *final(self) == *old(self),
                None => {
                    &&& final(self).partners matches Some(p) && texts(p@) == first_of_each(
                        texts(clients@),
                        clients@.len() as int,
                    )
                    &&& *final(self) == (GossipAgent { partners: final(self).partners, ..*old(self) })
                },
            },
    {
        if self.partners.is_some() {
            return false;
        }
        let mut kept: Vec<String> = Vec::new();
        let mut k: usize = 0;
        assert(texts(kept@) =~= Seq::empty());
        while k < clients.len()
            invariant
                k <= clients@.len(),
                texts(kept@) == first_of_each(texts(clients@), k as int),
            decreases clients@.len() - k,
        {
            let ghost before = kept@;
            assert(texts(clients@)[k as int] == clients@[k as int]@);
            if !has_text(&kept, clients[k].as_str()) {
                kept.push(clients[k].clone());
                assert(texts(kept@) =~= texts(before).push(clients@[k as int]@));
            }
            k += 1;
        }
        self.partners = Some(kept);
        true
    }

    /// Is the agent-to-agent route open to anybody: no evaluator attached, and no bearer configured?
    /// `named_tokens` is how many named bearers there are.
    pub fn a2a_is_open(&self, has_evaluator: bool, named_tokens: usize) -> (r: bool)
        ensures
            r == (!has_evaluator && self.config.gateway_auth_token is None
                && self.config.gateway_scoped_tokens@.len() == 0 && named_tokens == 0),
    {
        !has_evaluator && self.config.gateway_auth_token.is_none() && self.config.gateway_scoped_tokens.len() == 0
            && named_tokens == 0
    }

    /// Sign with this node's identity; nothing, where it has none.
    pub fn sign_with_identity(&self, msg: &[u8]) -> (r: Option<[u8; 64]>)
        ensures
            match self.identity {
                Some(k) => r matches Some(s) && s@ == ed25519_signature(k@, msg@) && ed25519_verifies(
                    ed25519_public(k@),
                    msg@,
                    s@,
                ),
                None => r is None,
            },
    {
        match &self.identity {
            Some(k) => Some(signature_bytes(k, msg)),
            None => None,
        }
    }

    /// This node's public key, which checks what it signs; none, where it has no identity.
    pub fn identity_public_key(&self) -> (r: Option<[u8; 32]>)
        ensures
            match self.identity {
                Some(k) => r matches Some(p) && p@ == ed25519_public(k@),
                None => r is None,
            },
    {
        match &self.identity {
            Some(k) => Some(verifying_key_of(k)),
            None => None,
        }
    }

    /// Begin a rotation: the keys it writes. The new key history is published, with a proof signed by
    /// the key rotated away from, before the new key is used; the old key stays accepted.
    pub fn rotate_identity(&self, has_tls_config: bool) -> (r: Result<RotationKeys, GossipError>)
        ensures
            if self.identity is None {
                r matches Err(e) && is_invalid(
                    e,
                    "tls"@,
                    "rotate_identity requires the tls identity (set GossipConfig::tls)"@,
                )
            } else if !has_tls_config {
                r matches Err(e) && is_invalid(e, "tls"@, "rotate_identity requires GossipConfig::tls"@)
            } else {
                r matches Ok(k) && k.identity@ == "sys/identity/"@ + self.node_id@.text() && k.proof@
                    == "sys/identity-proof/"@ + self.node_id@.text() && k.sealed@ == "sys/identity-signed/"@
                    + self.node_id@.text()
            },
    {
        if self.identity.is_none() {
            return Err(invalid("tls", "rotate_identity requires the tls identity (set GossipConfig::tls)"));
        }
        if !has_tls_config {
            return Err(invalid("tls", "rotate_identity requires GossipConfig::tls"));
        }
        let me = self.node_id.text();
        Ok(
            RotationKeys {
                identity: join("sys/identity/", me.as_str()),
                proof: join("sys/identity-proof/", me.as_str()),
                sealed: join("sys/identity-signed/", me.as_str()),
            },
        )
    }

    /// The key a rotation away from a compromise revokes, once the new one is in use: the one in use now.
    pub fn rotate_identity_on_compromise(&self) -> (r: Result<[u8; 32], GossipError>)
        ensures
            match self.identity {
                Some(k) => r matches Ok(p) && p@ == ed25519_public(k@),
                None => r matches Err(e) && is_invalid(
                    e,
                    "tls"@,
                    "rotate_identity_on_compromise requires the tls identity"@,
                ),
            },
    {
        match &self.identity {
            Some(k) => Ok(verifying_key_of(k)),
            None => Err(invalid("tls", "rotate_identity_on_compromise requires the tls identity")),
        }
    }

    /// Revoke one of this node's own keys: the signed revocation and where it is published. It is signed
    /// with the current key, so the key that is revoked cannot undo it.
    pub fn revoke_key(&self, revoked_key: [u8; 32], reason: Option<String>, hlc: u64) -> (r: Result<
        (String, SignedRevocation),
        GossipError,
    >)
        ensures
            match self.identity {
                None => r matches Err(e) && is_invalid(
                    e,
                    "tls"@,
                    "revocation requires the tls identity (set GossipConfig::tls)"@,
                ),
                Some(k) => r matches Ok((key, signed)) && {
                    &&& key@ == revocation_key_of(self.node_id@, revoked_key@)
                    &&& signed.event@ == (RevocationEvent { node_id: self.node_id, hlc, revoked_key, reason })@
                    &&& signed_by(signed.event@, signed.sig@, ed25519_public(k@))
                },
            },
    {
        match &self.identity {
            None => Err(invalid("tls", "revocation requires the tls identity (set GossipConfig::tls)")),
            Some(k) => {
                let key = revocation_key(&self.node_id, &revoked_key);
                let event = RevocationEvent { node_id: self.node_id.clone(), hlc, revoked_key, reason };
                let signed = SignedRevocation::sign(event, k);
                Ok((key, signed))
            },
        }
    }

    /// Revoke one of this node's own keys, without a reason.
    pub fn revoke_identity_key(&self, revoked_key: [u8; 32], hlc: u64) -> (r: Result<
        (String, SignedRevocation),
        GossipError,
    >)
        ensures
            match self.identity {
                None => r matches Err(e) && is_invalid(
                    e,
                    "tls"@,
                    "revocation requires the tls identity (set GossipConfig::tls)"@,
                ),
                Some(k) => r matches Ok((key, signed)) && {
                    &&& key@ == revocation_key_of(self.node_id@, revoked_key@)
                    &&& signed.event@ == (RevocationEvent {
                        node_id: self.node_id,
                        hlc,
                        revoked_key,
                        reason: None,
                    })@
                    &&& signed_by(signed.event@, signed.sig@, ed25519_public(k@))
                },
            },
    {
        self.revoke_key(revoked_key, None, hlc)
    }

    /// Which hosts this node may reach outside the mesh.
    pub fn egress_policy(&self) -> (r: &EgressPolicy)
        ensures
            *r == self.config.egress,
    {
        &self.config.egress
    }

    /// Claim roles for this node: where the claim is published, and the claim. It is published
    /// [signed](Self::sign_role_claim), so it takes an identity.
    pub fn advertise_roles(&self, roles: Vec<String>, clearance: u8, issued_at_ms: u64) -> (r: Result<
        (String, RoleClaim),
        GossipError,
    >)
        ensures
            match self.identity {
                None => r matches Err(e) && is_invalid(
                    e,
                    "tls"@,
                    "role advertisement requires the tls identity (set GossipConfig::tls)"@,
                ),
                Some(_) => r matches Ok((key, c)) && key@ == "sys/role/"@ + self.node_id@.text() && c.node_id@
                    == self.node_id@ && c.roles == roles && c.clearance == clearance && c.issued_at_ms
                    == issued_at_ms,
            },
    {
        if self.identity.is_none() {
            return Err(
                invalid("tls", "role advertisement requires the tls identity (set GossipConfig::tls)"),
            );
        }
        Ok((role_key(&self.node_id), RoleClaim { node_id: self.node_id.clone(), roles, clearance, issued_at_ms }))
    }

    /// A claim of this node's as it is published: signed under the node's own key. `canonical` is the
    /// claim's bytes.
    pub fn sign_role_claim(&self, claim: RoleClaim, canonical: &[u8]) -> (r: Result<SignedRoleClaim, GossipError>)
        ensures
            match self.identity {
                None => r matches Err(e) && is_invalid(
                    e,
                    "tls"@,
                    "role advertisement requires the tls identity (set GossipConfig::tls)"@,
                ),
                Some(k) => r matches Ok(s) && s.claim == claim && s.sig@ == ed25519_signature(k@, canonical@)
                    && ed25519_verifies(ed25519_public(k@), canonical@, s.sig@),
            },
    {
        match &self.identity {
            None => Err(invalid("tls", "role advertisement requires the tls identity (set GossipConfig::tls)")),
            Some(k) => Ok(SignedRoleClaim { claim, sig: signature_bytes(k, canonical) }),
        }
    }

    /// The role claim read for a node, where it is the node's own: a claim for another node, or one that
    /// no key known for the node has signed, reads as none. `canonical` is the claim's bytes.
    pub fn roles_of(
        &self,
        node: &NodeId,
        signed: Option<SignedRoleClaim>,
        canonical: &[u8],
        keys: &Vec<[u8; 32]>,
    ) -> (r: Option<RoleClaim>)
        ensures
            r == match signed {
                Some(s) if attributed(s, canonical@, node@, keys@) => Some(s.claim),
                _ => None,
            },
    {
        let s = match signed {
            Some(s) => s,
            None => {
                return None;
            },
        };
        if !s.claim.node_id.is(node) {
            return None;
        }
        let mut i: usize = 0;
        while i < keys.len()
            invariant
                signed == Some(s),
                s.claim.node_id@ == node@,
                i <= keys@.len(),
                forall|j: int| 0 <= j < i ==> !ed25519_verifies((#[trigger] keys@[j])@, canonical@, s.sig@),
            decreases keys@.len() - i,
        {
            if signature_verifies(&keys[i], canonical, &s.sig) {
                assert(attributed(s, canonical@, s.claim.node_id@, keys@));
                return Some(s.claim);
            }
            i += 1;
        }
        None
    }

    /// May the sender invoke a capability with this list of callers? `signed` is what is stored as the
    /// sender's role claim, `canonical` that claim's bytes and `keys` the keys known for the sender: only
    /// a claim that one of them has signed, and that is the sender's own, speaks for it.
    pub fn caller_authorized(
        &self,
        sender: &NodeId,
        allow: &Vec<String>,
        signed: Option<SignedRoleClaim>,
        canonical: &[u8],
        keys: &Vec<[u8; 32]>,
    ) -> (r: bool)
        ensures
            r == admitted(sender@, texts(allow@), proven_roles(signed, canonical@, sender@, keys@)),
    {
        match self.roles_of(sender, signed, canonical, keys) {
            Some(claim) => self.admits(sender, allow, Some(&claim)),
            None => self.admits(sender, allow, None),
        }
    }

    /// May the sender invoke a capability with this list of callers? `claim` is the sender's verified
    /// role claim, where it has one.
    pub fn admits(&self, sender: &NodeId, allow: &Vec<String>, claim: Option<&RoleClaim>) -> (r: bool)
        ensures
            r == admitted(
                sender@,
                texts(allow@),
                match claim {
                    Some(c) => texts(c.roles@),
                    None => Seq::empty(),
                },
            ),
    {
        if allow.len() == 0 {
            return true;
        }
        if has_text(allow, sender.text().as_str()) {
            return true;
        }
        if let Some(c) = claim {
            let mut i: usize = 0;
            while i < c.roles.len()
                invariant
                    claim == Some(c),
                    allow@.len() > 0,
                    i <= c.roles@.len(),
                    !texts(allow@).contains(sender@.text()),
                    forall|j: int| 0 <= j < i ==> !texts(allow@).contains((#[trigger] c.roles@[j])@),
                decreases c.roles@.len() - i,
            {
                if has_text(allow, c.roles[i].as_str()) {
                    assert(texts(c.roles@)[i as int] == c.roles@[i as int]@);
                    return true;
                }
                i += 1;
            }
            assert(!share_one(texts(c.roles@), texts(allow@)));
        }
        false
    }

    /// This node's revocation-log head: the root in hexadecimal and the count; none, where nothing was
    /// revoked.
    pub fn revocation_head(&self, root: &[u8; 32], count: usize) -> (r: Option<(String, usize)>)
        ensures
            if count == 0 {
                r is None
            } else {
                r matches Some((hex, n)) && hex@ == hex_of(root@) && n == count
            },
    {
        if count == 0 {
            None
        } else {
            Some((hex32(root), count))
        }
    }

    /// The value a migration of this payload starts from.
    pub fn migration_input(&self, payload: &[u8]) -> (r: Result<Json, MigrationError>)
        ensures
            match json_read(payload@) {
                Ok(v) => r matches Ok(j) && j@ == v,
                Err(e) => r matches Err(MigrationError::InvalidJson(t)) && t@ == e,
            },
    {
        match read_json(payload) {
            Ok(j) => Ok(j),
            Err(e) => Err(MigrationError::InvalidJson(e)),
        }
    }

    /// What migrating this payload returns. `migrated` is what the registered chain made of
    /// [`migration_input`](Self::migration_input). Where no chain connects the versions, the mismatch is
    /// counted; a payload that is not JSON is none of the chain's, and counts nothing.
    pub fn migrate_payload(&mut self, payload: &[u8], migrated: Result<Json, MigrationError>) -> (r: Result<
        Json,
        MigrationError,
    >)
        ensures
            match json_read(payload@) {
                Ok(_) => r == migrated && *final(self) == (GossipAgent {
                    schema_mismatch: if migrated matches Err(MigrationError::NoMigrationPath { .. }) {
                        old(self).schema_mismatch.wrapping_add(1)
                    } else {
                        old(self).schema_mismatch
                    },
                    ..*old(self)
                }),
                Err(e) => r matches Err(MigrationError::InvalidJson(t)) && t@ == e && *final(self) == *old(self),
            },
    {
        if let Err(e) = self.migration_input(payload) {
            return Err(e);
        }
        if let Err(MigrationError::NoMigrationPath { .. }) = &migrated {
            self.schema_mismatch = self.schema_mismatch.wrapping_add(1);
        }
        migrated
    }

    /// Where the agreed policy for a capability is proposed.
    pub fn capability_authz_slot(&self, ns: &str, name: &str) -> (r: String)
        ensures
            r@ == "capauthz/"@ + slashed(ns@, name@),
    {
        join("capauthz/", slash(ns, name).as_str())
    }

    /// What setting a capability's policy writes, and where every resolver reads it.
    pub fn set_capability_authz(&self, ns: &str, name: &str, policy: Vec<u8>) -> (r: (String, Vec<u8>))
        ensures
            r.0@ == "sys/capauthz/"@ + slashed(ns@, name@),
            r.1 == policy,
    {
        (join("sys/capauthz/", slash(ns, name).as_str()), policy)
    }

    /// What is written once a proposed policy has been decided: the policy where resolvers read it, if
    /// it was committed, and nothing otherwise.
    pub fn set_capability_authz_via_consensus(
        &self,
        ns: &str,
        name: &str,
        policy: Vec<u8>,
        result: &ConsensusResult,
    ) -> (r: Option<(String, Vec<u8>)>)
        ensures
            r is Some <==> *result is Committed,
            r matches Some((key, value)) ==> key@ == "sys/capauthz/"@ + slashed(ns@, name@) && value == policy,
    {
        match result {
            ConsensusResult::Committed => Some(self.set_capability_authz(ns, name, policy)),
            _ => None,
        }
    }

    /// Take the next step of a rotation. `seed` is the new signing key, which this node takes up when it
    /// cuts over and not before: what it signs until then, the proof of the new key history among it, is
    /// signed with the key it rotates away from, and what it signs after, the revocation of that key
    /// among it, with the new one.
    pub fn advance_rotation(&mut self, rotation: &mut Rotation, seed: &[u8; 32]) -> (r: RotationStep)
        ensures
            *final(self) == after_step(*old(self), *old(rotation), *seed),
            *final(rotation) == (Rotation { step: next_step(*old(rotation)), ..*old(rotation) }),
            r == old(rotation).step,
    {
        let step = rotation.step;
        rotation.step = match step {
            RotationStep::Publish => RotationStep::Prove,
            RotationStep::Prove => RotationStep::Seal,
            RotationStep::Seal => RotationStep::Wait,
            RotationStep::Wait => RotationStep::CutOver,
            RotationStep::CutOver => if rotation.compromise {
                RotationStep::Revoke
            } else {
                RotationStep::Done
            },
            RotationStep::Revoke => RotationStep::Done,
            RotationStep::Done => RotationStep::Done,
        };
        if let RotationStep::CutOver = step {
            self.identity = Some(*seed);
        }
        step
    }
}

/// What a rotation does next.
#[derive(Clone, Copy, Debug, PartialEq, Eq, Structural)]
pub enum RotationStep {
    /// Publish the new key and every key before it.
    Publish,
    /// Publish the proof of that history, signed with the key in use.
    Prove,
    /// Publish both in one record.
    Seal,
    /// Let them propagate.
    Wait,
    /// Take up the new key.
    CutOver,
    /// Revoke the key rotated away from.
    Revoke,
    /// Nothing is left to do.
    Done,
}

/// A rotation under way.
#[derive(Clone, Copy, Debug, PartialEq, Eq, Structural)]
pub struct Rotation {
    /// What it does next.
    pub step: RotationStep,
    /// Whether it rotates away from a key that may be compromised.
    pub compromise: bool,
}

impl Rotation {
    /// A rotation that has not done anything yet.
    pub fn new(compromise: bool) -> (r: Self)
        ensures
            r == (Rotation { step: RotationStep::Publish, compromise }),
    {
        Rotation { step: RotationStep::Publish, compromise }
    }
}

/// What a rotation does once it has done what it does next.
pub open spec fn next_step(r: Rotation) -> RotationStep {
    match r.step {
        RotationStep::Publish => RotationStep::Prove,
        RotationStep::Prove => RotationStep::Seal,
        RotationStep::Seal => RotationStep::Wait,
        RotationStep::Wait => RotationStep::CutOver,
        RotationStep::CutOver if r.compromise => RotationStep::Revoke,
        _ => RotationStep::Done,
    }
}

/// The node once the rotation has taken its next step.
pub open spec fn after_step(agent: GossipAgent, r: Rotation, seed: [u8; 32]) -> GossipAgent {
    if r.step == RotationStep::CutOver {
        GossipAgent { identity: Some(seed), ..agent }
    } else {
        agent
    }
}

/// The node and its rotation after `k` steps.
pub open spec fn after_steps(agent: GossipAgent, r: Rotation, seed: [u8; 32], k: nat) -> (GossipAgent, Rotation)
    decreases k,
{
    if k == 0 {
        (agent, r)
    } else {
        let (a, s) = after_steps(agent, r, seed, (k - 1) as nat);
        (after_step(a, s, seed), Rotation { step: next_step(s), ..s })
    }
}

/// A rotation publishes the key history, its proof and their one record before it waits, and waits before
/// it cuts over: until then the node keeps the key it had. Only a rotation away from a compromise revokes,
/// and it does so once the new key is in use. Nothing but the key ever changes.
pub proof fn lemma_rotation_order(agent: GossipAgent, compromise: bool, seed: [u8; 32], k: nat)
    ensures
        ({
            let r = Rotation { step: RotationStep::Publish, compromise };
            let (a, s) = after_steps(agent, r, seed, k);
            &&& s == (Rotation {
                step: if k == 0 {
                    RotationStep::Publish
                } else if k == 1 {
                    RotationStep::Prove
                } else if k == 2 {
                    RotationStep::Seal
                } else if k == 3 {
                    RotationStep::Wait
                } else if k == 4 {
                    RotationStep::CutOver
                } else if k == 5 && compromise {
                    RotationStep::Revoke
                } else {
                    RotationStep::Done
                },
                compromise,
            })
            &&& a == if k <= 4 {
                agent
            } else {
                GossipAgent { identity: Some(seed), ..agent }
            }
        }),
    decreases k,
{
    if k > 0 {
        lemma_rotation_order(agent, compromise, seed, (k - 1) as nat);
    }
}

/// A list of callers that names neither the sender nor a role it holds keeps it out; the empty list
/// lets everybody in.
pub proof fn lemma_unlisted_caller_is_refused(sender: NodeModel, allow: Seq<Seq<char>>, roles: Seq<Seq<char>>)
    requires
        allow.len() > 0,
        !allow.contains(sender.text()),
        forall|i: int| 0 <= i < roles.len() ==> !allow.contains(#[trigger] roles[i]),
    ensures
        !admitted(sender, allow, roles),
        admitted(sender, Seq::empty(), roles),
{
}

/// A stored claim that is not the sender's own, or that none of its keys has signed, lets nobody in whom
/// the list does not name.
pub proof fn lemma_forged_claim_admits_nobody(
    sender: NodeModel,
    allow: Seq<Seq<char>>,
    signed: SignedRoleClaim,
    canonical: Seq<u8>,
    keys: Seq<[u8; 32]>,
)
    requires
        allow.len() > 0,
        !allow.contains(sender.text()),
        !attributed(signed, canonical, sender, keys),
    ensures
        !admitted(sender, allow, proven_roles(Some(signed), canonical, sender, keys)),
{
}

/// What a node claims is read back as its own wherever the key it signed with is known for it, and for no
/// other node.
pub proof fn lemma_claims_read_back(
    signed: SignedRoleClaim,
    seed: Seq<u8>,
    canonical: Seq<u8>,
    keys: Seq<[u8; 32]>,
    i: int,
    other: NodeModel,
)
    requires
        ed25519_verifies(ed25519_public(seed), canonical, signed.sig@),
        0 <= i < keys.len(),
        keys[i]@ == ed25519_public(seed),
        other != signed.claim.node_id@,
    ensures
        attributed(signed, canonical, signed.claim.node_id@, keys),
        !attributed(signed, canonical, other, keys),
{
}

/// The node is never its own bootstrap peer.
pub proof fn lemma_never_its_own_peer(v: Seq<NodeId>, me: NodeModel, k: int)
    requires
        0 <= k <= v.len(),
    ensures
        !others(v, me, k).contains(me),
    decreases k,
{
    if k > 0 {
        lemma_never_its_own_peer(v, me, k - 1);
        let front = others(v, me, k - 1);
        let all = others(v, me, k);
        if all.contains(me) {
            let i = choose|i: int| 0 <= i < all.len() && all[i] == me;
            if i < front.len() {
                assert(front[i] == me);
            }
        }
    }
}

} // verus!

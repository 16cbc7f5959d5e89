//! A node's life: start, warm-up, shutdown.
//!
//! What binds, spawns and waits is at the edge; what is decided on the way is decided here: whether a
//! start is admitted, in what order its stages run, what a failed stage leaves behind, what is seeded
//! from the store, and what is retracted at the end.
use crate::agent::AgentState;
use crate::error::{invalid, is_invalid, GossipError};
use crate::keys::KvEntry;
use crate::node_id::{node_of, NodeId, NodeModel};
use crate::text::{
    after_prefix, before_suffix, chars_of, copy_texts, has_prefix, join, rsplit_once, same, split_at_last,
    starts_with, strip_prefix, strip_suffix, texts,
};
use crate::wire::{number_at, read_u64};
use vstd::prelude::*;
use vstd::string::*;

verus! {

/// The namespace of recent signal senders.
pub const QUORUM: &'static str = "sys/quorum/";

/// The namespace of published identities.
pub const IDENTITY: &'static str = "sys/identity/";

/// The namespace of their proofs.
pub const IDENTITY_PROOF: &'static str = "sys/identity-proof/";

/// How long the caller-context marker waits for a first peer, at most.
pub const MARKER_GRACE_MS: u64 = 5000;

/// How often it looks.
pub const MARKER_POLL_MS: u64 = 200;

/// What a start was given: the configuration's own verdict, the bind address as it was read, and whether
/// the node's id names it.
#[derive(Debug, PartialEq, Eq)]
pub struct StartRequest {
    /// Why the configuration is refused, if it is.
    pub invalid: Option<GossipError>,
    /// The bind address as configured.
    pub bind_address: String,
    /// The socket address it stands for, or why it stands for none.
    pub bind_addr: Result<String, String>,
    /// The socket address the node's id stands for.
    pub node_addr: String,
}

/// `'{what}'{rest}`.
pub open spec fn quoted_of(what: Seq<char>, rest: Seq<char>) -> Seq<char> {
    "'"@ + what + "'"@ + rest
}

fn quoted(what: &str, rest: &str) -> (r: String)
    ensures
        r@ == quoted_of(what@, rest@),
{
    join(join(join("'", what).as_str(), "'").as_str(), rest)
}

/// Admit a start: the configuration holds, the address can be read, the node's id names it, and the
/// node is idle. Only then does the state change.
pub fn admit_start(state: &mut AgentState, node: &NodeId, request: StartRequest) -> (r: Result<(), GossipError>)
    ensures
        match (request.invalid, request.bind_addr) {
            (Some(e), _) => r == Err::<(), GossipError>(e) && *final(state) == *old(state),
            (None, Err(why)) => (r matches Err(e) && is_invalid(
                e,
                "bind_address"@,
                quoted_of(request.bind_address@, ": "@ + why@),
            )) && *final(state) == *old(state),
            (None, Ok(addr)) => if request.node_addr@ != addr@ {
                (r matches Err(GossipError::NodeIdMismatch { node_id, bind_addr }) && node_id@ == node@.text()
                    && bind_addr@ == addr@) && *final(state) == *old(state)
            } else {
                match *old(state) {
                    AgentState::Idle => r is Ok && *final(state) == AgentState::Running,
                    AgentState::Running => r == Err::<(), GossipError>(GossipError::AlreadyRunning)
                        && *final(state) == AgentState::Running,
                    AgentState::Stopped => r == Err::<(), GossipError>(GossipError::Shutdown)
                        && *final(state) == AgentState::Stopped,
                }
            },
        },
{
    if let Some(e) = request.invalid {
        return Err(e);
    }
    let addr = match request.bind_addr {
        Ok(a) => a,
        Err(why) => {
            let rest = join(": ", why.as_str());
            let reason = quoted(request.bind_address.as_str(), rest.as_str());
            return Err(invalid("bind_address", reason.as_str()));
        },
    };
    if !same(request.node_addr.as_str(), addr.as_str()) {
        return Err(GossipError::NodeIdMismatch { node_id: node.text(), bind_addr: addr });
    }
    match *state {
        AgentState::Idle => {
            *state = AgentState::Running;
            Ok(())
        },
        AgentState::Running => Err(GossipError::AlreadyRunning),
        AgentState::Stopped => Err(GossipError::Shutdown),
    }
}

/// One stage of a start.
#[derive(Clone, Copy, Debug, PartialEq, Eq, Structural)]
pub enum StartStage {
    /// Replay what was persisted. What cannot be replayed is reported and passed over.
    Replay,
    /// Rebuild the boundary, the recent senders and the peers' localities from the store; advertise
    /// this node's own.
    WarmUp,
    /// Load the identity and publish it.
    Identity,
    /// Bind the listeners.
    Listen,
    /// Run the gossip shards, the health monitor and the collector.
    Loops,
    /// Bind the failure detector.
    Detector,
    /// Serve the gateway.
    Gateway,
    /// Watch the capability groups.
    Groups,
    /// Mirror the audit trail.
    AuditExport,
    /// Decide on senders' rates.
    RateDecider,
    /// Detect emergent conditions and answer for them.
    Emergent,
    /// Reconcile timing intents, and be ready.
    Ready,
}

/// Which of the optional stages a node has.
#[derive(Clone, Copy, Debug, PartialEq, Eq, Structural)]
pub struct StartPlan {
    /// Persistence.
    pub persistence: bool,
    /// An identity.
    pub identity: bool,
    /// The failure detector.
    pub detector: bool,
    /// The gateway.
    pub gateway: bool,
    /// An audit sink.
    pub audit_sink: bool,
    /// Rate observation.
    pub rate_observation: bool,
    /// The emergent detectors.
    pub emergent: bool,
}

/// Does the plan have the stage? Those that are not optional, every plan has.
pub open spec fn planned(p: StartPlan, s: StartStage) -> bool {
    match s {
        StartStage::Replay => p.persistence,
        StartStage::Identity => p.identity,
        StartStage::Detector => p.detector,
        StartStage::Gateway => p.gateway,
        StartStage::AuditExport => p.audit_sink,
        StartStage::RateDecider => p.rate_observation,
        StartStage::Emergent => p.emergent,
        _ => true,
    }
}

/// A stage's place in the order.
pub open spec fn place(s: StartStage) -> int {
    match s {
        StartStage::Replay => 0,
        StartStage::WarmUp => 1,
        StartStage::Identity => 2,
        StartStage::Listen => 3,
        StartStage::Loops => 4,
        StartStage::Detector => 5,
        StartStage::Gateway => 6,
        StartStage::Groups => 7,
        StartStage::AuditExport => 8,
        StartStage::RateDecider => 9,
        StartStage::Emergent => 10,
        StartStage::Ready => 11,
    }
}

fn following(s: Option<StartStage>) -> (r: Option<StartStage>)
    ensures
        match r {
            Some(n) => place(n) == match s {
                Some(c) => place(c) + 1,
                None => 0,
            },
            None => s == Some(StartStage::Ready),
        },
{
    match s {
        None => Some(StartStage::Replay),
        Some(StartStage::Replay) => Some(StartStage::WarmUp),
        Some(StartStage::WarmUp) => Some(StartStage::Identity),
        Some(StartStage::Identity) => Some(StartStage::Listen),
        Some(StartStage::Listen) => Some(StartStage::Loops),
        Some(StartStage::Loops) => Some(StartStage::Detector),
        Some(StartStage::Detector) => Some(StartStage::Gateway),
        Some(StartStage::Gateway) => Some(StartStage::Groups),
        Some(StartStage::Groups) => Some(StartStage::AuditExport),
        Some(StartStage::AuditExport) => Some(StartStage::RateDecider),
        Some(StartStage::RateDecider) => Some(StartStage::Emergent),
        Some(StartStage::Emergent) => Some(StartStage::Ready),
        Some(StartStage::Ready) => None,
    }
}

fn has_stage(p: &StartPlan, s: StartStage) -> (r: bool)
    ensures
        r == planned(*p, s),
{
    match s {
        StartStage::Replay => p.persistence,
        StartStage::Identity => p.identity,
        StartStage::Detector => p.detector,
        StartStage::Gateway => p.gateway,
        StartStage::AuditExport => p.audit_sink,
        StartStage::RateDecider => p.rate_observation,
        StartStage::Emergent => p.emergent,
        _ => true,
    }
}

/// Is this the next stage of the plan: planned, behind the last one, with no planned one between?
pub open spec fn is_next_stage(p: StartPlan, last: Option<StartStage>, next: StartStage) -> bool {
    let from = match last {
        Some(s) => place(s),
        None => -1,
    };
    planned(p, next) && place(next) > from && forall|s: StartStage|
        #[trigger] planned(p, s) && place(s) > from ==> place(next) <= place(s)
}

/// The stage that comes next; none, once the node is ready.
pub fn next_stage(p: &StartPlan, last: Option<StartStage>) -> (r: Option<StartStage>)
    ensures
        match r {
            Some(next) => is_next_stage(*p, last, next),
            None => last == Some(StartStage::Ready),
        },
{
    let ghost from = match last {
        Some(s) => place(s),
        None => -1,
    };
    let mut at = last;
    loop
        invariant
            from == (match last {
                Some(s) => place(s),
                None => -1,
            }),
            (match at {
                Some(s) => place(s),
                None => -1,
            }) >= from,
            at != Some(StartStage::Ready) || at == last,
            forall|s: StartStage|
                #[trigger] planned(*p, s) && place(s) > from ==> place(s) > (match at {
                    Some(c) => place(c),
                    None => -1,
                }),
        decreases
            12 - match at {
                Some(s) => place(s),
                None => -1,
            },
    {
        match following(at) {
            None => {
                return None;
            },
            Some(n) => {
                if has_stage(p, n) {
                    assert(planned(*p, n));
                    assert forall|s: StartStage| #[trigger] planned(*p, s) && place(s) > from implies place(n)
                        <= place(s) by {}
                    return Some(n);
                }
                assert(!planned(*p, n));
                assert forall|s: StartStage| #[trigger] planned(*p, s) && place(s) > from implies place(s)
                    > place(n) by {
                    lemma_places_differ(s, n);
                }
                at = Some(n);
            },
        }
    }
}

proof fn lemma_places_differ(a: StartStage, b: StartStage)
    ensures
        place(a) == place(b) ==> a == b,
{
}

/// The state after a stage failed. A port that could not be bound gives the node back, so that it can be
/// started again; an identity or a gateway address that cannot be used ends the start as it stands.
pub fn after_failure(stage: StartStage, state: AgentState) -> (r: AgentState)
    ensures
        r == if stage == StartStage::Listen || stage == StartStage::Detector {
            AgentState::Idle
        } else {
            state
        },
{
    if stage == StartStage::Listen || stage == StartStage::Detector {
        AgentState::Idle
    } else {
        state
    }
}

/// The error on a gateway address that cannot be read.
pub fn http_addr_error(http_addr: &str) -> (r: GossipError)
    ensures
        is_invalid(r, "http_addr"@, quoted_of(http_addr@, " is not a valid IP address"@)),
{
    invalid("http_addr", quoted(http_addr, " is not a valid IP address").as_str())
}

/// The state after a shutdown: a running node is stopped, for good.
pub fn after_shutdown(state: AgentState) -> (r: AgentState)
    ensures
        r == if state == AgentState::Running {
            AgentState::Stopped
        } else {
            state
        },
{
    if state == AgentState::Running {
        AgentState::Stopped
    } else {
        state
    }
}

/// How many accept tasks a listener has: one for each shard, from one up to four.
pub fn listener_count(shards: usize) -> (r: usize)
    ensures
        r == if shards < 1 {
            1
        } else if shards > 4 {
            4
        } else {
            shards as int
        },
{
    if shards < 1 {
        1
    } else if shards > 4 {
        4
    } else {
        shards
    }
}

/// The failure detector's port: its own, or the gossip port's number.
pub fn detector_port(configured: Option<u16>, bind_port: u16) -> (r: u16)
    ensures
        r == match configured {
            Some(p) => p,
            None => bind_port,
        },
{
    match configured {
        Some(p) => p,
        None => bind_port,
    }
}

/// What the caller-context marker does next.
#[derive(Clone, Copy, Debug, PartialEq, Eq, Structural)]
pub enum MarkerStep {
    /// Look again in a while: a write now would go to peers that are not listening yet.
    Wait,
    /// Publish it.
    Publish,
    /// The node is stopping.
    Stop,
}

/// The marker waits for a first peer, up to its grace; a stopping node publishes nothing.
pub fn marker_step(has_peers: bool, waited_ms: u64, stopping: bool) -> (r: MarkerStep)
    ensures
        r == if stopping {
            MarkerStep::Stop
        } else if !has_peers && waited_ms < MARKER_GRACE_MS {
            MarkerStep::Wait
        } else {
            MarkerStep::Publish
        },
{
    if stopping {
        MarkerStep::Stop
    } else if !has_peers && waited_ms < MARKER_GRACE_MS {
        MarkerStep::Wait
    } else {
        MarkerStep::Publish
    }
}

/// A recent sender, as a restart remembers it.
#[derive(Debug, PartialEq, Eq)]
pub struct SenderSeed {
    /// The signal's kind.
    pub kind: String,
    /// Who sent it.
    pub sender: NodeId,
    /// How long ago.
    pub age_ms: u64,
}

/// What a [`SenderSeed`] stands for.
#[verifier::ext_equal]
pub struct SeedModel {
    /// The signal's kind.
    pub kind: Seq<char>,
    /// Who sent it.
    pub sender: NodeModel,
    /// How long ago.
    pub age_ms: int,
}

impl View for SenderSeed {
    type V = SeedModel;

    open spec fn view(&self) -> SeedModel {
        SeedModel { kind: self.kind@, sender: self.sender@, age_ms: self.age_ms as int }
    }
}

/// The models of some seeds.
pub open spec fn seed_models(v: Seq<SenderSeed>) -> Seq<SeedModel> {
    Seq::new(v.len(), |i: int| v[i]@)
}

/// How long before `now` the moment `then` was; zero, where it was not before.
pub open spec fn age(now: int, then: int) -> int {
    if now > then {
        now - then
    } else {
        0
    }
}

/// The sender an entry stands for, where it is well formed and within the window: its key names the
/// kind, and behind the last slash the sender; its value begins with the moment.
pub open spec fn seed_of(key: Seq<char>, value: Seq<u8>, now_ms: int, window_ms: int) -> Option<SeedModel> {
    match after_prefix(key, QUORUM@) {
        Some(tail) => match split_at_last(tail, '/') {
            Some((kind, id)) => match node_of(id) {
                Some(sender) => if value.len() >= 8 && age(now_ms, number_at(value, 0) as int) <= window_ms {
                    Some(SeedModel { kind, sender, age_ms: age(now_ms, number_at(value, 0) as int) })
                } else {
                    None
                },
                None => None,
            },
            None => None,
        },
        None => None,
    }
}

/// The senders the first `k` entries stand for.
pub open spec fn seeds_of(kv: Seq<KvEntry>, now_ms: int, window_ms: int, k: int) -> Seq<SeedModel>
    decreases k,
{
    if k <= 0 {
        Seq::empty()
    } else {
        let front = seeds_of(kv, now_ms, window_ms, k - 1);
        match seed_of(kv[k - 1].key@, kv[k - 1].value@, now_ms, window_ms) {
            Some(s) => front.push(s),
            None => front,
        }
    }
}

fn read_seed(e: &KvEntry, now_ms: u64, window_ms: u64) -> (r: Option<SenderSeed>)
    ensures
        match seed_of(e.key@, e.value@, now_ms as int, window_ms as int) {
            Some(m) => r matches Some(s) && s@ == m,
            None => r is None,
        },
{
    let tail = match strip_prefix(e.key.as_str(), QUORUM) {
        Some(t) => t,
        None => {
            return None;
        },
    };
    let (kind, id) = match rsplit_once(tail.as_str(), '/') {
        Some(p) => p,
        None => {
            return None;
        },
    };
    let sender = match NodeId::parse(id.as_str()) {
        Some(n) => n,
        None => {
            return None;
        },
    };
    if e.value.len() < 8 {
        return None;
    }
    let written: u64 = read_u64(e.value.as_slice(), 0);
    let age_ms: u64 = if now_ms > written {
        now_ms - written
    } else {
        0
    };
    if age_ms > window_ms {
        return None;
    }
    Some(SenderSeed { kind, sender, age_ms })
}

/// The senders within the window that the store remembers, so that a restarted node counts its quorum
/// from the first moment.
pub fn warm_quorum(kv: &Vec<KvEntry>, now_ms: u64, window_secs: u64) -> (r: Vec<SenderSeed>)
    requires
        window_secs * 1000 <= u64::MAX,
    ensures
        seed_models(r@) == seeds_of(kv@, now_ms as int, window_secs * 1000, kv@.len() as int),
{
    let window_ms: u64 = window_secs * 1000;
    let mut out: Vec<SenderSeed> = Vec::new();
    let mut k: usize = 0;
    assert(seed_models(out@) =~= Seq::empty());
    while k < kv.len()
        invariant
            k <= kv@.len(),
            seed_models(out@) == seeds_of(kv@, now_ms as int, window_ms as int, k as int),
        decreases kv@.len() - k,
    {
        let ghost before = out@;
        if let Some(seed) = read_seed(&kv[k], now_ms, window_ms) {
            let ghost m = seed@;
            out.push(seed);
            assert(seed_models(out@) =~= seed_models(before).push(m));
        }
        k += 1;
    }
    out
}

/// Where a node's locality is advertised.
pub open spec fn locality_key_of(node: NodeModel) -> Seq<char> {
    "cap/"@ + node.text() + "/locality/self"@
}

/// Where a node's locality is advertised.
pub fn locality_key(node: &NodeId) -> (r: String)
    ensures
        r@ == locality_key_of(node@),
{
    join(join("cap/", node.text().as_str()).as_str(), "/locality/self")
}

/// Where to advertise this node's locality: nowhere, where it has none.
pub fn advertise_locality(node: &NodeId, path: &Vec<String>) -> (r: Option<String>)
    ensures
        r is Some == (path@.len() > 0),
        r matches Some(k) ==> k@ == locality_key_of(node@),
{
    if path.len() == 0 {
        None
    } else {
        Some(locality_key(node))
    }
}

/// An entry under `cap/`, with the locality its value decodes to.
#[derive(Debug, PartialEq, Eq)]
pub struct LocalityEntry {
    /// Its key.
    pub key: String,
    /// The locality, where it decodes to one.
    pub path: Option<Vec<String>>,
}

/// A peer's locality.
#[derive(Debug, PartialEq, Eq)]
pub struct PeerLocality {
    /// The peer.
    pub node: NodeId,
    /// Where it is.
    pub path: Vec<String>,
}

/// The node whose locality a key advertises.
pub open spec fn locality_owner(key: Seq<char>) -> Option<NodeModel> {
    match after_prefix(key, "cap/"@) {
        Some(rest) => match before_suffix(rest, "/locality/self"@) {
            Some(id) => if id.contains('/') {
                None
            } else {
                node_of(id)
            },
            None => None,
        },
        None => None,
    }
}

/// The localities the first `k` entries advertise.
pub open spec fn localities_of(v: Seq<LocalityEntry>, k: int) -> Seq<(NodeModel, Seq<Seq<char>>)>
    decreases k,
{
    if k <= 0 {
        Seq::empty()
    } else {
        let front = localities_of(v, k - 1);
        match (locality_owner(v[k - 1].key@), v[k - 1].path) {
            (Some(n), Some(p)) => front.push((n, texts(p@))),
            _ => front,
        }
    }
}

/// The models of some localities.
pub open spec fn locality_models(v: Seq<PeerLocality>) -> Seq<(NodeModel, Seq<Seq<char>>)> {
    Seq::new(v.len(), |i: int| (v[i].node@, texts(v[i].path@)))
}

fn read_owner(key: &str) -> (r: Option<NodeId>)
    ensures
        match locality_owner(key@) {
            Some(m) => r matches Some(n) && n@ == m,
            None => r is None,
        },
{
    let rest = match strip_prefix(key, "cap/") {
        Some(t) => t,
        None => {
            return None;
        },
    };
    let id = match strip_suffix(rest.as_str(), "/locality/self") {
        Some(t) => t,
        None => {
            return None;
        },
    };
    let chars = chars_of(id.as_str());
    let mut i: usize = 0;
    while i < chars.len()
        invariant
            chars@ == id@,
            i <= chars@.len(),
            after_prefix(key@, "cap/"@) == Some(rest@),
            before_suffix(rest@, "/locality/self"@) == Some(id@),
            forall|j: int| 0 <= j < i ==> chars@[j] != '/',
        decreases chars@.len() - i,
    {
        if chars[i] == '/' {
            assert(id@.contains('/'));
            return None;
        }
        i += 1;
    }
    assert(!id@.contains('/'));
    NodeId::parse(id.as_str())
}

/// The peers' localities that the store holds, so that resolution by locality works from the first
/// moment.
pub fn prewarm_peer_localities(entries: &Vec<LocalityEntry>) -> (r: Vec<PeerLocality>)
    ensures
        locality_models(r@) == localities_of(entries@, entries@.len() as int),
{
    let mut out: Vec<PeerLocality> = Vec::new();
    let mut k: usize = 0;
    assert(locality_models(out@) =~= Seq::empty());
    while k < entries.len()
        invariant
            k <= entries@.len(),
            locality_models(out@) == localities_of(entries@, k as int),
        decreases entries@.len() - k,
    {
        let ghost before = out@;
        if let Some(node) = read_owner(entries[k].key.as_str()) {
            if let Some(p) = &entries[k].path {
                let ghost m = (node@, texts(p@));
                out.push(PeerLocality { node, path: copy_texts(p) });
                assert(locality_models(out@) =~= locality_models(before).push(m));
            }
        }
        k += 1;
    }
    out
}

/// An entry under the identity namespace: the keys it publishes, or nothing where it was removed.
#[derive(Debug, PartialEq, Eq)]
pub struct IdentityEntry {
    /// Its key.
    pub key: String,
    /// The keys it publishes.
    pub keys: Option<Vec<[u8; 32]>>,
}

/// What an identity entry does to the keys known of its node.
#[derive(Debug, PartialEq, Eq)]
pub enum IdentityStep {
    /// Nothing: it names no node, or publishes no key.
    Ignore,
    /// Validate the keys and merge them: rotation never drops a key that is still needed.
    Merge(NodeId),
    /// Forget the node.
    Forget(NodeId),
}

/// What an identity entry does to the keys known of its node.
pub fn identity_step(e: &IdentityEntry) -> (r: IdentityStep)
    ensures
        ({
            let owner = match after_prefix(e.key@, IDENTITY@) {
                Some(id) => node_of(id),
                None => None,
            };
            match (owner, e.keys) {
                (None, _) => r == IdentityStep::Ignore,
                (Some(n), None) => r matches IdentityStep::Forget(m) && m@ == n,
                (Some(n), Some(keys)) => if keys@.len() == 0 {
                    r == IdentityStep::Ignore
                } else {
                    r matches IdentityStep::Merge(m) && m@ == n
                },
            }
        }),
{
    let id = match strip_prefix(e.key.as_str(), IDENTITY) {
        Some(t) => t,
        None => {
            return IdentityStep::Ignore;
        },
    };
    match NodeId::parse(id.as_str()) {
        None => IdentityStep::Ignore,
        Some(n) => match &e.keys {
            None => IdentityStep::Forget(n),
            Some(keys) => if keys.len() == 0 {
                IdentityStep::Ignore
            } else {
                IdentityStep::Merge(n)
            },
        },
    }
}

/// Where a node's identity proof is kept.
pub fn identity_proof_key(node: &NodeId) -> (r: String)
    ensures
        r@ == IDENTITY_PROOF@ + node@.text(),
{
    join(IDENTITY_PROOF, node.text().as_str())
}

/// The prefix of a node's own keys in a namespace.
pub open spec fn own_prefix_of(namespace: Seq<char>, node: NodeModel) -> Seq<char> {
    namespace + node.text() + "/"@
}

fn own_prefix(namespace: &str, node: &NodeId) -> (r: String)
    ensures
        r@ == own_prefix_of(namespace@, node@),
{
    join(join(namespace, node.text().as_str()).as_str(), "/")
}

/// Is this one of the node's own load entries?
pub open spec fn is_own_load(key: Seq<char>, node: NodeModel) -> bool {
    has_prefix(key, own_prefix_of("sys/load/"@, node))
}

/// Is this one of the node's own advertisements: a capability, a requirement, or the load of one?
pub open spec fn is_own_advert(key: Seq<char>, node: NodeModel) -> bool {
    ||| has_prefix(key, own_prefix_of("cap/"@, node))
    ||| has_prefix(key, own_prefix_of("req/"@, node))
    ||| has_prefix(key, own_prefix_of("sys/load/"@, node) + "req/"@)
    ||| has_prefix(key, own_prefix_of("sys/load/"@, node) + "group-req/"@)
}

/// The keys among the first `k` live entries that are the node's own load.
pub open spec fn own_loads(kv: Seq<KvEntry>, node: NodeModel, k: int) -> Seq<Seq<char>>
    decreases k,
{
    if k <= 0 {
        Seq::empty()
    } else {
        let front = own_loads(kv, node, k - 1);
        if is_own_load(kv[k - 1].key@, node) {
            front.push(kv[k - 1].key@)
        } else {
            front
        }
    }
}

/// The keys among the first `k` live entries that are the node's own advertisements.
pub open spec fn own_adverts(kv: Seq<KvEntry>, node: NodeModel, k: int) -> Seq<Seq<char>>
    decreases k,
{
    if k <= 0 {
        Seq::empty()
    } else {
        let front = own_adverts(kv, node, k - 1);
        if is_own_advert(kv[k - 1].key@, node) {
            front.push(kv[k - 1].key@)
        } else {
            front
        }
    }
}

/// What a shutdown retracts first: the node's own load, and its locality where it advertises one.
pub fn shutdown_loads(kv: &Vec<KvEntry>, node: &NodeId, has_locality: bool) -> (r: Vec<String>)
    ensures
        texts(r@) == own_loads(kv@, node@, kv@.len() as int) + if has_locality {
            Seq::empty().push(locality_key_of(node@))
        } else {
            Seq::empty()
        },
{
    let prefix = own_prefix("sys/load/", node);
    let mut out: Vec<String> = Vec::new();
    let mut k: usize = 0;
    assert(texts(out@) =~= Seq::empty());
    while k < kv.len()
        invariant
            k <= kv@.len(),
            prefix@ == own_prefix_of("sys/load/"@, node@),
            texts(out@) == own_loads(kv@, node@, k as int),
        decreases kv@.len() - k,
    {
        let ghost before = out@;
        if starts_with(kv[k].key.as_str(), prefix.as_str()) {
            out.push(kv[k].key.clone());
            assert(texts(out@) =~= texts(before).push(kv@[k as int].key@));
        }
        k += 1;
    }
    if has_locality {
        let ghost before = out@;
        out.push(locality_key(node));
        assert(texts(out@) =~= texts(before) + Seq::empty().push(locality_key_of(node@)));
    } else {
        assert(texts(out@) =~= texts(out@) + Seq::empty());
    }
    out
}

/// What a shutdown retracts next, of what is then still live: every advertisement of the node's own. A
/// group's definition stays: it outlives the node that published it.
pub fn shutdown_adverts(kv: &Vec<KvEntry>, node: &NodeId) -> (r: Vec<String>)
    ensures
        texts(r@) == own_adverts(kv@, node@, kv@.len() as int),
{
    let caps = own_prefix("cap/", node);
    let reqs = own_prefix("req/", node);
    let loads = own_prefix("sys/load/", node);
    let req_loads = join(loads.as_str(), "req/");
    let group_loads = join(loads.as_str(), "group-req/");
    let mut out: Vec<String> = Vec::new();
    let mut k: usize = 0;
    assert(texts(out@) =~= Seq::empty());
    while k < kv.len()
        invariant
            k <= kv@.len(),
            caps@ == own_prefix_of("cap/"@, node@),
            reqs@ == own_prefix_of("req/"@, node@),
            req_loads@ == own_prefix_of("sys/load/"@, node@) + "req/"@,
            group_loads@ == own_prefix_of("sys/load/"@, node@) + "group-req/"@,
            texts(out@) == own_adverts(kv@, node@, k as int),
        decreases kv@.len() - k,
    {
        let ghost before = out@;
        let key = kv[k].key.as_str();
        if starts_with(key, caps.as_str()) || starts_with(key, reqs.as_str()) || starts_with(
            key,
            req_loads.as_str(),
        ) || starts_with(key, group_loads.as_str()) {
            out.push(kv[k].key.clone());
            assert(texts(out@) =~= texts(before).push(kv@[k as int].key@));
        }
        k += 1;
    }
    out
}

/// A start that fails to bind leaves an idle node, which a later start admits.
pub proof fn lemma_failed_bind_leaves_idle(stage: StartStage, back: AgentState)
    requires
        stage == StartStage::Listen || stage == StartStage::Detector,
        call_ensures(after_failure, (stage, AgentState::Running), back),
    ensures
        back == AgentState::Idle,
{
}

/// A shutdown is final: whatever was, a node that ran does not run again.
pub proof fn lemma_shutdown_is_final(state: AgentState, after: AgentState)
    requires
        state != AgentState::Idle,
        call_ensures(after_shutdown, (state,), after),
    ensures
        after == AgentState::Stopped,
{
}

/// A shutdown retracts every live advertisement of the node: nobody routes to a provider that is gone.
pub proof fn lemma_every_advert_is_retracted(kv: Seq<KvEntry>, node: NodeModel, k: int, i: int)
    requires
        0 <= i < k <= kv.len(),
        is_own_advert(kv[i].key@, node),
    ensures
        own_adverts(kv, node, k).contains(kv[i].key@),
    decreases k,
{
    let front = own_adverts(kv, node, k - 1);
    let all = own_adverts(kv, node, k);
    if i == k - 1 {
        assert(all[front.len() as int] == kv[i].key@);
    } else {
        lemma_every_advert_is_retracted(kv, node, k - 1, i);
        let j = choose|j: int| 0 <= j < front.len() && front[j] == kv[i].key@;
        assert(all[j] == kv[i].key@);
    }
}

/// What a shutdown retracts is the node's own: no entry of another node's is touched.
pub proof fn lemma_only_own_adverts_are_retracted(kv: Seq<KvEntry>, node: NodeModel, k: int, j: int)
    requires
        0 <= k <= kv.len(),
        0 <= j < own_adverts(kv, node, k).len(),
    ensures
        is_own_advert(own_adverts(kv, node, k)[j], node),
    decreases k,
{
    if k > 0 {
        let front = own_adverts(kv, node, k - 1);
        if j < front.len() {
            lemma_only_own_adverts_are_retracted(kv, node, k - 1, j);
            assert(own_adverts(kv, node, k)[j] == front[j]);
        }
    }
}

} // verus!

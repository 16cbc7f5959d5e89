//! Removing members: an operator-signed removal is applied once, and there is no un-removal.

use crate::knowledge_keys::add_key;
use crate::node_id::{contains, insert, nodes, NodeId, NodeModel};
use crate::revocation::key_bytes;
use crate::text::join;
use vstd::prelude::*;
use vstd::string::*;

verus! {

/// How often a node reads removals that arrived by gossip.
pub const INGEST_INTERVAL_MS: u64 = 1000;

/// The namespace of published removals.
pub const MEMBERSHIP_REMOVED: &'static str = "sys/membership/removed/";

/// What became of an offered removal.
#[derive(Debug, PartialEq, Eq)]
pub enum RemovalOffer {
    /// It was applied.
    Accepted,
    /// The member had been removed before.
    AlreadyRemoved,
    /// It did not verify.
    Refused(String),
}

/// The members this node has removed, and the keys that went with them.
#[derive(Debug, PartialEq, Eq)]
pub struct RemovedMembers {
    /// The members.
    pub nodes: Vec<NodeId>,
    /// Their keys, each once.
    pub keys: Vec<[u8; 32]>,
}

/// `have`, and behind it those of the first `k` of `more` that are new.
pub open spec fn merged(have: Seq<Seq<u8>>, more: Seq<Seq<u8>>, k: int) -> Seq<Seq<u8>>
    decreases k,
{
    if k <= 0 {
        have
    } else {
        let so_far = merged(have, more, k - 1);
        if so_far.contains(more[k - 1]) {
            so_far
        } else {
            so_far.push(more[k - 1])
        }
    }
}

fn merge(v: &mut Vec<[u8; 32]>, more: &Vec<[u8; 32]>)
    ensures
        key_bytes(final(v)@) == merged(
            key_bytes(old(v)@),
            key_bytes(more@),
            more@.len() as int,
        ),
{
    let ghost have = key_bytes(v@);
    let mut k: usize = 0;
    while k < more.len()
        invariant
            k <= more@.len(),
            key_bytes(v@) == merged(have, key_bytes(more@), k as int),
        decreases more@.len() - k,
    {
        assert(key_bytes(more@)[k as int] == more@[k as int]@);
        add_key(v, more[k]);
        k += 1;
    }
}

impl RemovedMembers {
    /// Nobody is removed.
    pub fn new() -> (r: Self)
        ensures
            r.nodes@.len() == 0,
            r.keys@.len() == 0,
    {
        RemovedMembers { nodes: Vec::new(), keys: Vec::new() }
    }

    /// Was this member removed?
    pub fn is_node_removed(&self, node: &NodeId) -> (r: bool)
        ensures
            r == nodes(self.nodes@).contains(node@),
    {
        contains(&self.nodes, node)
    }

    /// Apply a removal. `refusal` is why it does not verify, if it does not. The keys that go are
    /// those the removal names and every key this node has seen the member hold or has anchored for
    /// it, so that a rotation before or after the removal does not escape it.
    pub fn apply(
        &mut self,
        node: &NodeId,
        refusal: Option<String>,
        named: &Vec<[u8; 32]>,
        seen: &Vec<[u8; 32]>,
        anchored: &Vec<[u8; 32]>,
    ) -> (r: RemovalOffer)
        ensures
            applied(
                *old(self),
                *final(self),
                r,
                node@,
                refusal,
                key_bytes(named@),
                key_bytes(seen@),
                key_bytes(anchored@),
            ),
    {
        if self.is_node_removed(node) {
            return RemovalOffer::AlreadyRemoved;
        }
        if let Some(why) = refusal {
            return RemovalOffer::Refused(why);
        }
        merge(&mut self.keys, named);
        merge(&mut self.keys, seen);
        merge(&mut self.keys, anchored);
        insert(&mut self.nodes, node.clone());
        RemovalOffer::Accepted
    }
}

/// What an offer has the node do besides: cut the member off, and spread the removal.
#[derive(Debug, PartialEq, Eq)]
pub struct RemovalEffects {
    /// Whether the member leaves the peer table and its writer ends.
    pub cut_off: bool,
    /// Where the removal is published, if it is.
    pub publish_at: Option<String>,
}

/// Is this what follows from an offer?
pub open spec fn follows(e: RemovalEffects, offer: RemovalOffer, node: NodeModel, publish: bool) -> bool {
    &&& e.cut_off == (offer == RemovalOffer::Accepted)
    &&& e.publish_at is Some == (offer == RemovalOffer::Accepted && publish)
    &&& e.publish_at matches Some(key) ==> key@ == MEMBERSHIP_REMOVED@ + node.text()
}

/// What follows from an offer: an accepted removal cuts the member off, and spreads unless it arrived by
/// gossip itself. Nothing follows from any other.
pub fn removal_effects(offer: &RemovalOffer, node: &NodeId, publish: bool) -> (r: RemovalEffects)
    ensures
        follows(r, *offer, node@, publish),
{
    match offer {
        RemovalOffer::Accepted => RemovalEffects {
            cut_off: true,
            publish_at: if publish {
                Some(removal_key(node))
            } else {
                None
            },
        },
        _ => RemovalEffects { cut_off: false, publish_at: None },
    }
}

/// The issuers whose removals a node takes.
#[derive(Debug, PartialEq, Eq)]
pub struct Authorities {
    /// The issuers.
    pub issuers: Vec<String>,
}

/// A node's part in removing members: whose removals it takes, if it takes any, and whom it has removed.
#[derive(Debug, PartialEq, Eq)]
pub struct Membership {
    /// Whose removals it takes; configured once.
    pub authorities: Option<Authorities>,
    /// Whom it has removed.
    pub removed: RemovedMembers,
}

impl Membership {
    /// No authorities are configured, and nobody is removed.
    pub fn new() -> (r: Self)
        ensures
            r.authorities is None,
            r.removed.nodes@.len() == 0,
            r.removed.keys@.len() == 0,
    {
        Membership { authorities: None, removed: RemovedMembers::new() }
    }

    /// Take removals from these authorities. Set once: `false` where some were configured before, which
    /// then stay. Where it was `true`, removals that arrive by gossip are read from now on.
    pub fn with_membership_authorities(&mut self, authorities: Authorities) -> (r: bool)
        ensures
            r == (old(self).authorities is None),
            *final(self) == if r {
                Membership { authorities: Some(authorities), removed: old(self).removed }
            } else {
                *old(self)
            },
    {
        if self.authorities.is_some() {
            return false;
        }
        self.authorities = Some(authorities);
        true
    }

    /// Remove a member: apply a removal, where it is new and verifies, and spread it. `None` where no
    /// authorities are configured: nothing is removed.
    pub fn offer_member_removal(
        &mut self,
        node: &NodeId,
        refusal: Option<String>,
        named: &Vec<[u8; 32]>,
        seen: &Vec<[u8; 32]>,
        anchored: &Vec<[u8; 32]>,
    ) -> (r: Option<(RemovalOffer, RemovalEffects)>)
        ensures
            offered(
                *old(self),
                *final(self),
                r,
                node@,
                refusal,
                key_bytes(named@),
                key_bytes(seen@),
                key_bytes(anchored@),
                true,
            ),
    {
        self.take(node, refusal, named, seen, anchored, true)
    }

    /// Apply a removal that arrived by gossip, where it is new and verifies. It is not spread again.
    pub fn ingest_removal(
        &mut self,
        node: &NodeId,
        refusal: Option<String>,
        named: &Vec<[u8; 32]>,
        seen: &Vec<[u8; 32]>,
        anchored: &Vec<[u8; 32]>,
    ) -> (r: Option<(RemovalOffer, RemovalEffects)>)
        ensures
            offered(
                *old(self),
                *final(self),
                r,
                node@,
                refusal,
                key_bytes(named@),
                key_bytes(seen@),
                key_bytes(anchored@),
                false,
            ),
    {
        self.take(node, refusal, named, seen, anchored, false)
    }

    fn take(
        &mut self,
        node: &NodeId,
        refusal: Option<String>,
        named: &Vec<[u8; 32]>,
        seen: &Vec<[u8; 32]>,
        anchored: &Vec<[u8; 32]>,
        publish: bool,
    ) -> (r: Option<(RemovalOffer, RemovalEffects)>)
        ensures
            offered(
                *old(self),
                *final(self),
                r,
                node@,
                refusal,
                key_bytes(named@),
                key_bytes(seen@),
                key_bytes(anchored@),
                publish,
            ),
    {
        if self.authorities.is_none() {
            return None;
        }
        let offer = self.removed.apply(node, refusal, named, seen, anchored);
        let effects = removal_effects(&offer, node, publish);
        Some((offer, effects))
    }
}

/// Is `r` what an offered removal is answered, and `after` what it leaves behind?
pub open spec fn offered(
    before: Membership,
    after: Membership,
    r: Option<(RemovalOffer, RemovalEffects)>,
    node: NodeModel,
    refusal: Option<String>,
    named: Seq<Seq<u8>>,
    seen: Seq<Seq<u8>>,
    anchored: Seq<Seq<u8>>,
    publish: bool,
) -> bool {
    match before.authorities {
        None => r is None && after == before,
        Some(_) => r matches Some((offer, effects)) && after.authorities == before.authorities && applied(
            before.removed,
            after.removed,
            offer,
            node,
            refusal,
            named,
            seen,
            anchored,
        ) && follows(effects, offer, node, publish),
    }
}

/// The key a removal is published under.
pub fn removal_key(node: &NodeId) -> (r: String)
    ensures
        r@ == MEMBERSHIP_REMOVED@ + node@.text(),
{
    join(MEMBERSHIP_REMOVED, node.text().as_str())
}

/// Merging keeps every key there was and adds every key it is given: a removal takes all of them.
pub proof fn lemma_merged(have: Seq<Seq<u8>>, more: Seq<Seq<u8>>, k: int, x: Seq<u8>)
    requires
        0 <= k <= more.len(),
    ensures
        have.contains(x) ==> merged(have, more, k).contains(x),
        more.take(k).contains(x) ==> merged(have, more, k).contains(x),
    decreases k,
{
    if k > 0 {
        lemma_merged(have, more, k - 1, x);
        let so_far = merged(have, more, k - 1);
        let now = merged(have, more, k);
        if so_far.contains(x) {
            let i = choose|i: int| 0 <= i < so_far.len() && so_far[i] == x;
            assert(now[i] == x);
        }
        if !so_far.contains(more[k - 1]) {
            assert(now[so_far.len() as int] == more[k - 1]);
        }
        let t = more.take(k);
        let u = more.take(k - 1);
        if t.contains(x) && x != more[k - 1] {
            let i = choose|i: int| 0 <= i < t.len() && t[i] == x;
            assert(u[i] == x);
        }
    } else {
        assert(more.take(0) =~= Seq::empty());
    }
}

/// Is `after` what an offer leaves behind?
pub open spec fn applied(
    before: RemovedMembers,
    after: RemovedMembers,
    r: RemovalOffer,
    node: NodeModel,
    refusal: Option<String>,
    named: Seq<Seq<u8>>,
    seen: Seq<Seq<u8>>,
    anchored: Seq<Seq<u8>>,
) -> bool {
    if nodes(before.nodes@).contains(node) {
        r == RemovalOffer::AlreadyRemoved && after == before
    } else {
        match refusal {
            Some(why) => r == RemovalOffer::Refused(why) && after == before,
            None => {
                let a = merged(key_bytes(before.keys@), named, named.len() as int);
                let b = merged(a, seen, seen.len() as int);
                &&& r == RemovalOffer::Accepted
                &&& nodes(after.nodes@) == nodes(before.nodes@).push(node)
                &&& key_bytes(after.keys@) == merged(b, anchored, anchored.len() as int)
            },
        }
    }
}

/// Removal is monotonic: whatever is offered next, a removed member stays removed and a removed key stays
/// removed; and an accepted removal removes the member and every key named, seen or anchored.
pub proof fn lemma_removal_is_monotonic(
    before: RemovedMembers,
    after: RemovedMembers,
    r: RemovalOffer,
    node: NodeModel,
    refusal: Option<String>,
    named: Seq<Seq<u8>>,
    seen: Seq<Seq<u8>>,
    anchored: Seq<Seq<u8>>,
)
    requires
        applied(before, after, r, node, refusal, named, seen, anchored),
    ensures
        forall|n: NodeModel| nodes(before.nodes@).contains(n) ==> #[trigger] nodes(after.nodes@).contains(n),
        forall|k: Seq<u8>| key_bytes(before.keys@).contains(k) ==> #[trigger] key_bytes(after.keys@).contains(k),
        r == RemovalOffer::Accepted ==> nodes(after.nodes@).contains(node),
        r == RemovalOffer::Accepted ==> forall|k: Seq<u8>|
            named.contains(k) || seen.contains(k) || anchored.contains(k)
                ==> #[trigger] key_bytes(after.keys@).contains(k),
{
    let v = nodes(before.nodes@);
    let w = nodes(after.nodes@);
    assert forall|n: NodeModel| v.contains(n) implies #[trigger] w.contains(n) by {
        let i = choose|i: int| 0 <= i < v.len() && v[i] == n;
        assert(w[i] == n);
    }
    if r == RemovalOffer::Accepted {
        assert(w[v.len() as int] == node);
        let have = key_bytes(before.keys@);
        let a = merged(have, named, named.len() as int);
        let b = merged(a, seen, seen.len() as int);
        assert(named.take(named.len() as int) =~= named);
        assert(seen.take(seen.len() as int) =~= seen);
        assert(anchored.take(anchored.len() as int) =~= anchored);
        assert forall|k: Seq<u8>|
            have.contains(k) || named.contains(k) || seen.contains(k) || anchored.contains(
                k,
            ) implies #[trigger] key_bytes(after.keys@).contains(k) by {
            lemma_merged(have, named, named.len() as int, k);
            lemma_merged(a, seen, seen.len() as int, k);
            lemma_merged(b, anchored, anchored.len() as int, k);
        }
    }
}

} // verus!

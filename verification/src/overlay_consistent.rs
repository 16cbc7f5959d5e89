//! The consistency overlay: what a consensus round came to, who leads, and a lock that only its
//! holder releases.
use crate::node_id::{lemma_node_text_injective, valid_host, NodeId, NodeModel};
use crate::numeral::{decimal, hex16, lemma_hex16_parses, to_decimal, to_hex16};
use crate::text::{join, utf8_of};
use vstd::prelude::*;
use vstd::string::*;
use vstd::utf8::{encode_utf8, encode_utf8_decode_utf8};

verus! {

/// A consensus round did not commit.
#[derive(Debug, Clone, Copy, PartialEq, Eq, Structural)]
#[non_exhaustive]
pub enum ConsistencyError {
    /// All ballot attempts timed out without reaching quorum.
    Timeout {
        /// How many there were.
        ballots_tried: u32,
    },
    /// Another node committed a value to the same slot first.
    Superseded,
    /// Quorum met in headcount but the hard topology gate was not satisfied.
    TopologyUnsatisfied,
    /// No electorate could be established, so nothing was decided: the roster is empty, or smaller
    /// than what is declared, meaning this node's view is partial. What is refused is inferring
    /// authority from absence.
    ElectorateUnavailable {
        /// How many members this node sees.
        observed_members: usize,
        /// How many are declared.
        declared_min: usize,
    },
}

impl ConsistencyError {
    /// The error as text.
    pub open spec fn text(self) -> Seq<char> {
        match self {
            ConsistencyError::Timeout { ballots_tried } => "consensus timed out after "@ + decimal(
                ballots_tried as nat,
            ) + " ballot(s)"@,
            ConsistencyError::Superseded => "another node committed to this slot first"@,
            ConsistencyError::TopologyUnsatisfied =>
                "quorum met but Hard topology gate not satisfied"@,
            ConsistencyError::ElectorateUnavailable { observed_members, declared_min } =>
                if observed_members == 0 {
                    "no electorate: the group roster is empty (unknown or unjoined group) \u{2014} an election needs members, and absence is not authority"@
                } else {
                    "no electorate: this node sees "@ + decimal(observed_members as nat)
                        + " member(s) but the group declares at least "@ + decimal(declared_min as nat)
                        + " \u{2014} the view is partial"@
                },
        }
    }

    /// The error as text.
    pub fn message(&self) -> (r: String)
        ensures
            r@ == self.text(),
    {
        match self {
            ConsistencyError::Timeout { ballots_tried } => {
                let head = join("consensus timed out after ", to_decimal(*ballots_tried as u64).as_str());
                join(head.as_str(), " ballot(s)")
            },
            ConsistencyError::Superseded => "another node committed to this slot first".to_owned(),
            ConsistencyError::TopologyUnsatisfied =>
                "quorum met but Hard topology gate not satisfied".to_owned(),
            ConsistencyError::ElectorateUnavailable { observed_members, declared_min } =>
                if *observed_members == 0 {
                    "no electorate: the group roster is empty (unknown or unjoined group) \u{2014} an election needs members, and absence is not authority".to_owned()
                } else {
                    let seen = join(
                        "no electorate: this node sees ",
                        to_decimal(*observed_members as u64).as_str(),
                    );
                    let but = join(seen.as_str(), " member(s) but the group declares at least ");
                    let least = join(but.as_str(), to_decimal(*declared_min as u64).as_str());
                    join(least.as_str(), " \u{2014} the view is partial")
                },
        }
    }
}

/// How this node came to believe in a leader: the rung a [`Leadership`] reached, and nothing above.
#[derive(Clone, Copy, Debug, PartialEq, Eq, Structural)]
pub enum LeadershipBasis {
    /// This node's own proposal committed at a quorum.
    Decided,
    /// Read from the converged slot: somebody else decided, and this is what this node sees. Sound
    /// for following a leader, and no evidence that the cluster currently agrees.
    Observed,
}

/// The answer to "who leads this group", with the rung it reached and a fencing token.
#[derive(Debug, PartialEq, Eq)]
pub struct Leadership {
    /// The node this answer names as leader.
    pub leader: NodeId,
    /// The commit's timestamp: a monotonic fencing token. If exclusivity is needed, this is the
    /// field that provides it.
    pub epoch: u64,
    /// Which rung this answer reached.
    pub basis: LeadershipBasis,
}

impl Leadership {
    /// `true` only for [`LeadershipBasis::Decided`]: a quorum chose this node's value.
    pub fn was_decided_here(&self) -> (r: bool)
        ensures
            r == (self.basis == LeadershipBasis::Decided),
    {
        match self.basis {
            LeadershipBasis::Decided => true,
            LeadershipBasis::Observed => false,
        }
    }
}

/// A held lock. On release it clears the lock's slot, but only if it is still the converged holder.
#[derive(Debug, PartialEq, Eq)]
pub struct LockGuard {
    /// The lock's name.
    pub name: String,
    /// The exact committed value this guard holds (`{holder}:{nonce}`).
    pub value: Vec<u8>,
    /// The timestamp of the winning commit, monotonic across successive holders: a resource that
    /// refuses a lower token is fenced.
    pub token: u64,
    /// Whether it was released.
    pub released: bool,
}

/// The slot of a lock.
pub open spec fn lock_slot_of(name: Seq<char>) -> Seq<char> {
    "lock/"@ + name
}

/// Where a slot's committed value is.
pub open spec fn committed_key_of(slot: Seq<char>) -> Seq<char> {
    "consensus/committed/"@ + slot
}

/// Where a slot's lease is.
pub open spec fn lease_key_of(slot: Seq<char>) -> Seq<char> {
    "consensus/lease/"@ + slot
}

/// The slot of a lock.
pub fn lock_slot(name: &str) -> (r: String)
    ensures
        r@ == lock_slot_of(name@),
{
    join("lock/", name)
}

/// Where a slot's committed value is.
pub fn committed_key(slot: &str) -> (r: String)
    ensures
        r@ == committed_key_of(slot@),
{
    join("consensus/committed/", slot)
}

/// Where a slot's lease is.
pub fn lease_key(slot: &str) -> (r: String)
    ensures
        r@ == lease_key_of(slot@),
{
    join("consensus/lease/", slot)
}

/// Are the two byte strings the same?
pub fn same_bytes(a: &[u8], b: &[u8]) -> (r: bool)
    ensures
        r == (a@ == b@),
{
    if a.len() != b.len() {
        return false;
    }
    let mut i: usize = 0;
    while i < a.len()
        invariant
            i <= a@.len() == b@.len(),
            forall|j: int| 0 <= j < i ==> a@[j] == b@[j],
        decreases a@.len() - i,
    {
        if a[i] != b[i] {
            return false;
        }
        i += 1;
    }
    assert(a@ =~= b@);
    true
}

impl LockGuard {
    /// What releasing the lock removes: the committed value and its lease, and nothing at all where
    /// the guard was released before or the live committed value is no longer exactly this guard's.
    /// A stale guard (its lease lapsed, or another acquire won, or this very node acquired again
    /// under a fresh nonce) therefore never clears the live holder's claim.
    pub fn release(&mut self, live: Option<&[u8]>) -> (r: Vec<String>)
        ensures
            final(self).released,
            final(self).name == old(self).name,
            final(self).value == old(self).value,
            final(self).token == old(self).token,
            if !old(self).released && (live matches Some(v) && v@ == old(self).value@) {
                &&& r@.len() == 2
                &&& r@[0]@ == committed_key_of(lock_slot_of(old(self).name@))
                &&& r@[1]@ == lease_key_of(lock_slot_of(old(self).name@))
            } else {
                r@.len() == 0
            },
    {
        let mut keys: Vec<String> = Vec::new();
        if self.released {
            return keys;
        }
        self.released = true;
        let still_ours = match live {
            Some(v) => same_bytes(v, self.value.as_slice()),
            None => false,
        };
        if !still_ours {
            return keys;
        }
        let slot = lock_slot(self.name.as_str());
        keys.push(committed_key(slot.as_str()));
        keys.push(lease_key(slot.as_str()));
        keys
    }
}

/// The value a node commits to take a lock: itself and a nonce.
pub open spec fn lock_value_of(holder: NodeModel, nonce: u64) -> Seq<u8> {
    encode_utf8(holder.text() + ":"@ + hex16(nonce))
}

/// The value a node commits to take a lock, given its nonce.
pub fn lock_value(holder: &NodeId, nonce: u64) -> (r: Vec<u8>)
    ensures
        r@ == lock_value_of(holder@, nonce),
{
    let head = join(holder.text().as_str(), ":");
    utf8_of(join(head.as_str(), to_hex16(nonce).as_str()).as_str())
}

/// `fastrand::u64(..)`: a random number. Nothing is claimed of it.
#[verifier::external_body]
fn random_u64() -> (r: u64) {
    fastrand::u64(..)
}

/// The value a node commits to take a lock, under a fresh nonce.
pub fn fresh_lock_value(holder: &NodeId) -> (r: Vec<u8>)
    ensures
        exists|nonce: u64| r@ == #[trigger] lock_value_of(holder@, nonce),
{
    let nonce: u64 = random_u64();
    lock_value(holder, nonce)
}

/// The identifier a held lock is known to its client by: sixteen hexadecimal digits.
pub fn guard_id(nonce: u64) -> (r: String)
    ensures
        r@ == hex16(nonce),
{
    to_hex16(nonce)
}

/// A fresh identifier for a held lock.
pub fn fresh_guard_id() -> (r: String)
    ensures
        exists|nonce: u64| r@ == #[trigger] hex16(nonce),
{
    let nonce: u64 = random_u64();
    guard_id(nonce)
}

/// The token of the lock, when the live value is this one.
pub open spec fn confirms(value: Seq<u8>, live: Option<(Seq<u8>, u64)>) -> Option<u64> {
    match live {
        Some((v, token)) if v == value => Some(token),
        _ => None,
    }
}

/// A live value and its timestamp.
pub open spec fn live_of(live: Option<(&[u8], u64)>) -> Option<(Seq<u8>, u64)> {
    match live {
        Some((v, token)) => Some((v@, token)),
        None => None,
    }
}

/// Is this the converged holder, once a winning commit has settled? Then the token is the commit's
/// timestamp. An optimistic commit alone is not exclusive: two proposers can both see theirs
/// succeed, and exactly one value converges.
pub fn confirmed_token(value: &[u8], live: Option<(&[u8], u64)>) -> (r: Option<u64>)
    ensures
        r == confirms(value@, live_of(live)),
{
    match live {
        Some((v, token)) => if same_bytes(v, value) {
            Some(token)
        } else {
            None
        },
        None => None,
    }
}

/// A lock's value says who holds it and under which nonce.
pub proof fn lemma_lock_value_injective(a: NodeModel, m: u64, b: NodeModel, n: u64)
    requires
        valid_host(a.host),
        valid_host(b.host),
        lock_value_of(a, m) == lock_value_of(b, n),
    ensures
        a == b,
        m == n,
{
    let s = a.text() + ":"@ + hex16(m);
    let t = b.text() + ":"@ + hex16(n);
    encode_utf8_decode_utf8(s);
    encode_utf8_decode_utf8(t);
    assert(s == t);
    lemma_hex16_parses(m);
    lemma_hex16_parses(n);
    assert(s.subrange(s.len() - 16, s.len() as int) =~= hex16(m));
    assert(t.subrange(t.len() - 16, t.len() as int) =~= hex16(n));
    reveal_strlit(":");
    assert(s.subrange(0, s.len() - 17) =~= a.text());
    assert(t.subrange(0, t.len() - 17) =~= b.text());
    lemma_node_text_injective(a, b);
}

/// On one live value at most one claim is confirmed: two claims that both are were made by one node
/// under one nonce.
pub proof fn lemma_one_holder(a: NodeModel, m: u64, b: NodeModel, n: u64, live: Option<(Seq<u8>, u64)>)
    requires
        valid_host(a.host),
        valid_host(b.host),
        confirms(lock_value_of(a, m), live) is Some,
        confirms(lock_value_of(b, n), live) is Some,
    ensures
        a == b,
        m == n,
{
    lemma_lock_value_injective(a, m, b, n);
}

} // verus!

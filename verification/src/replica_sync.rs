//! Persisted-by-peer replica sync: the origin of a write asks each peer about the peer's **own**
//! state, and the answer is the evidence.
//!
//! [`Answer::Persisted`] from a peer means that, when it answered, its store held this key at this
//! exact stamp with this exact content and its log was synced. A non-answer establishes nothing: a
//! peer that is unreachable, slow or mid-restart is *unknown*, never "did not persist".
use crate::control::minus;
use crate::node_id::{contains, insert, nodes, NodeId, NodeModel};
use crate::text::from_utf8;
use crate::wire::{lemma_number_reads_back, number_at, put_bytes, put_u64, read_u64};
use vstd::bytes::spec_u64_to_le_bytes;
use vstd::prelude::*;
use vstd::slice::slice_subrange;
use vstd::string::*;
use vstd::utf8::{decode_utf8, encode_utf8, encode_utf8_decode_utf8, encode_utf8_valid_utf8, valid_utf8};

verus! {

/// RPC kind for the persisted-by-peer query. Versioned in the name: a future incompatible question
/// is a new kind, never a reinterpreted payload.
pub const RPC_KIND: &'static str = "sys.replica-sync.v1";

/// How long the origin waits for one peer, whatever the caller's deadline.
pub const PER_PEER_TIMEOUT_MS: u64 = 5000;

/// Gap between rounds when some peer has not yet answered `Persisted`.
pub const RETRY_INTERVAL_MS: u64 = 100;

/// What a peer says about one operation. Encoded as a single leading byte.
#[derive(Debug, Clone, Copy, PartialEq, Eq, Structural)]
pub enum Answer {
    /// The store holds this exact stamp and content, and the log sync succeeded.
    Persisted,
    /// The store does not hold this operation: absent, or superseded by a different value.
    NotHeld,
    /// This node has no persistence configured, so it never promised durability for anything.
    NotConfigured,
    /// The operation is held, but durability could not be established now. Denies nothing.
    Failed,
}

impl Answer {
    /// The answer's byte.
    pub open spec fn byte(self) -> u8 {
        match self {
            Answer::Persisted => 0,
            Answer::NotHeld => 1,
            Answer::NotConfigured => 2,
            Answer::Failed => 3,
        }
    }

    /// The answer's byte.
    pub fn tag(self) -> (r: u8)
        ensures
            r == self.byte(),
    {
        match self {
            Answer::Persisted => 0,
            Answer::NotHeld => 1,
            Answer::NotConfigured => 2,
            Answer::Failed => 3,
        }
    }

    /// The answer with this byte; an unknown byte is not an answer.
    pub fn from_tag(b: u8) -> (r: Option<Self>)
        ensures
            r is Some <==> b <= 3,
            r matches Some(a) ==> a.byte() == b,
    {
        match b {
            0 => Some(Answer::Persisted),
            1 => Some(Answer::NotHeld),
            2 => Some(Answer::NotConfigured),
            3 => Some(Answer::Failed),
            _ => None,
        }
    }
}

/// The operation's identity as it travels to a peer: stamp, content, key.
#[derive(Debug, PartialEq, Eq)]
pub struct Query {
    /// The write's timestamp.
    pub stamp: u64,
    /// The hash of its content.
    pub content_hash: u64,
    /// Its key.
    pub key: String,
}

/// What a [`Query`] stands for.
#[verifier::ext_equal]
pub struct QueryModel {
    /// The write's timestamp.
    pub stamp: u64,
    /// The hash of its content.
    pub content_hash: u64,
    /// Its key.
    pub key: Seq<char>,
}

impl View for Query {
    type V = QueryModel;

    open spec fn view(&self) -> QueryModel {
        QueryModel { stamp: self.stamp, content_hash: self.content_hash, key: self.key@ }
    }
}

/// A query's bytes: the stamp, the content hash, the key.
pub open spec fn query_bytes(q: QueryModel) -> Seq<u8> {
    spec_u64_to_le_bytes(q.stamp) + spec_u64_to_le_bytes(q.content_hash) + encode_utf8(q.key)
}

/// The query these bytes are, if they are one.
pub open spec fn query_of(b: Seq<u8>) -> Option<QueryModel> {
    if b.len() > 16 && valid_utf8(b.subrange(16, b.len() as int)) {
        Some(
            QueryModel {
                stamp: number_at(b, 0),
                content_hash: number_at(b, 8),
                key: decode_utf8(b.subrange(16, b.len() as int)),
            },
        )
    } else {
        None
    }
}

/// A query's bytes.
pub fn encode_query(q: &Query) -> (r: Vec<u8>)
    ensures
        r@ == query_bytes(q@),
{
    let mut b: Vec<u8> = Vec::new();
    put_u64(&mut b, q.stamp);
    put_u64(&mut b, q.content_hash);
    put_bytes(&mut b, q.key.as_str().as_bytes());
    assert(b@ =~= query_bytes(q@));
    b
}

/// Decodes a query. Anything malformed (a short frame, a key that is empty or not UTF-8) is refused
/// and never guessed at, so a corrupted question cannot be answered as though it were a different
/// one.
pub fn decode_query(b: &[u8]) -> (r: Option<Query>)
    ensures
        r is Some == query_of(b@) is Some,
        r matches Some(q) ==> query_of(b@) == Some(q@),
{
    if b.len() < 16 {
        return None;
    }
    let stamp: u64 = read_u64(b, 0);
    let content_hash: u64 = read_u64(b, 8);
    let key = match from_utf8(slice_subrange(b, 16, b.len())) {
        Some(k) => k,
        None => {
            return None;
        },
    };
    if b.len() == 16 {
        return None;
    }
    Some(Query { stamp, content_hash, key })
}

/// An answer's bytes.
pub fn encode_answer(a: Answer) -> (r: Vec<u8>)
    ensures
        r@ == seq![a.byte()],
{
    let mut v: Vec<u8> = Vec::new();
    v.push(a.tag());
    assert(v@ =~= seq![a.byte()]);
    v
}

/// The answer these bytes are: their first byte decides.
pub fn decode_answer(b: &[u8]) -> (r: Option<Answer>)
    ensures
        r is Some <==> b@.len() > 0 && b@[0] <= 3,
        r matches Some(a) ==> a.byte() == b@[0],
{
    if b.len() == 0 {
        return None;
    }
    Answer::from_tag(b[0])
}

/// A query decodes to what it was encoded from: all three fields are bound.
pub proof fn lemma_query_round_trips(q: QueryModel)
    requires
        q.key.len() > 0,
    ensures
        query_of(query_bytes(q)) == Some(q),
{
    let b = query_bytes(q);
    let key = encode_utf8(q.key);
    lemma_number_reads_back(Seq::empty(), q.stamp, spec_u64_to_le_bytes(q.content_hash) + key);
    assert(Seq::<u8>::empty() + spec_u64_to_le_bytes(q.stamp) + (spec_u64_to_le_bytes(q.content_hash) + key)
        =~= b);
    lemma_number_reads_back(spec_u64_to_le_bytes(q.stamp), q.content_hash, key);
    assert(b.subrange(16, b.len() as int) =~= key);
    encode_utf8_valid_utf8(q.key);
    encode_utf8_decode_utf8(q.key);
    if key.len() == 0 {
        assert(key =~= encode_utf8(Seq::empty())) by {
            assert(encode_utf8(Seq::<char>::empty()) =~= Seq::empty());
        }
        encode_utf8_decode_utf8(Seq::empty());
    }
}

/// What the store holds under a query's key: the entry's timestamp and the hash of its content.
#[derive(Debug, Clone, Copy, PartialEq, Eq, Structural)]
pub struct Stored {
    /// The entry's timestamp.
    pub stamp: u64,
    /// The hash of its content.
    pub content_hash: u64,
}

/// Does the store hold exactly this operation?
pub open spec fn holds(q: QueryModel, entry: Option<Stored>) -> bool {
    entry matches Some(e) && e.stamp == q.stamp && e.content_hash == q.content_hash
}

/// What became of the log sync.
#[derive(Debug, Clone, Copy, PartialEq, Eq, Structural)]
pub enum WalSync {
    /// There is no log.
    NotConfigured,
    /// It is synced.
    Synced,
    /// It could not be synced.
    Failed,
}

/// Does the store hold exactly this operation? Asked **before** the sync, so a value that arrives
/// between the two cannot be reported as this operation.
pub fn is_held(q: &Query, entry: Option<Stored>) -> (r: bool)
    ensures
        r == holds(q@, entry),
{
    match entry {
        Some(e) => e.stamp == q.stamp && e.content_hash == q.content_hash,
        None => false,
    }
}

/// Answers one query from this node's own state: the entry it had, and, where that was the
/// operation asked about, what became of the sync that followed.
pub fn answer(q: &Query, entry: Option<Stored>, sync: WalSync) -> (r: Answer)
    ensures
        r == if !holds(q@, entry) {
            Answer::NotHeld
        } else {
            match sync {
                WalSync::NotConfigured => Answer::NotConfigured,
                WalSync::Synced => Answer::Persisted,
                WalSync::Failed => Answer::Failed,
            }
        },
{
    if !is_held(q, entry) {
        return Answer::NotHeld;
    }
    match sync {
        WalSync::NotConfigured => Answer::NotConfigured,
        WalSync::Synced => Answer::Persisted,
        WalSync::Failed => Answer::Failed,
    }
}

/// The receipt: who has established that it holds the operation, and of whom nothing is known.
#[derive(Debug, PartialEq, Eq)]
pub struct ReplicaSync {
    /// Peers that answered `Persisted`.
    pub persisted_by: Vec<NodeId>,
    /// Peers that did not: unknown, not "did not persist".
    pub missing: Vec<NodeId>,
}

/// What a round of asking begins with.
#[derive(Debug, PartialEq, Eq)]
pub enum Round {
    /// There is nobody left to ask, or no time.
    Done(ReplicaSync),
    /// Ask these peers, each for so long.
    Ask {
        /// The peers that have not answered `Persisted`.
        outstanding: Vec<NodeId>,
        /// How long to wait for each.
        per_peer_ms: u64,
    },
}

/// What a round of asking ends with.
#[derive(Debug, PartialEq, Eq)]
pub enum Verdict {
    /// The receipt is complete, or the time is up.
    Done(ReplicaSync),
    /// Ask again after so long.
    Retry {
        /// How long.
        wait_ms: u64,
    },
}

/// The members of the first list that are not in the second, in order.
pub open spec fn without(all: Seq<NodeModel>, some: Seq<NodeModel>) -> Seq<NodeModel> {
    all.filter(|n: NodeModel| !some.contains(n))
}

/// The lesser of the two.
pub open spec fn lesser(a: int, b: int) -> int {
    if a <= b {
        a
    } else {
        b
    }
}

/// The peers that have answered `Persisted`, each once, in the order they were heard.
pub open spec fn heard(before: Seq<NodeModel>, replies: Seq<(NodeId, Option<Answer>)>, k: int) -> Seq<
    NodeModel,
>
    decreases k,
{
    if k <= 0 {
        before
    } else {
        let so_far = heard(before, replies, k - 1);
        let (peer, answer) = replies[k - 1];
        if answer == Some(Answer::Persisted) && !so_far.contains(peer@) {
            so_far.push(peer@)
        } else {
            so_far
        }
    }
}

fn difference(all: &Vec<NodeId>, some: &Vec<NodeId>) -> (r: Vec<NodeId>)
    ensures
        nodes(r@) == without(nodes(all@), nodes(some@)),
{
    let mut out: Vec<NodeId> = Vec::new();
    let mut k: usize = 0;
    let ghost keep = |n: NodeModel| !nodes(some@).contains(n);
    proof {
        reveal(Seq::filter);
        assert(nodes(out@) =~= nodes(all@).take(0).filter(keep));
    }
    while k < all.len()
        invariant
            k <= all@.len(),
            keep == (|n: NodeModel| !nodes(some@).contains(n)),
            nodes(out@) == nodes(all@).take(k as int).filter(keep),
        decreases all@.len() - k,
    {
        let ghost front = nodes(all@).take(k as int);
        let ghost before = out@;
        proof {
            reveal(Seq::filter);
            assert(nodes(all@).take(k + 1).drop_last() =~= front);
            assert(nodes(all@).take(k + 1).last() == all@[k as int]@);
        }
        if !contains(some, &all[k]) {
            let c = all[k].clone();
            let ghost m = c@;
            out.push(c);
            assert(nodes(out@) =~= nodes(before).push(m));
        }
        k += 1;
    }
    assert(nodes(all@).take(all@.len() as int) =~= nodes(all@));
    out
}

fn copy_nodes(v: &Vec<NodeId>) -> (r: Vec<NodeId>)
    ensures
        nodes(r@) == nodes(v@),
{
    let mut out: Vec<NodeId> = Vec::new();
    let mut k: usize = 0;
    while k < v.len()
        invariant
            k <= v@.len(),
            out@.len() == k,
            forall|j: int| 0 <= j < k ==> (#[trigger] out@[j])@ == v@[j]@,
        decreases v@.len() - k,
    {
        out.push(v[k].clone());
        k += 1;
    }
    assert(nodes(out@) =~= nodes(v@));
    out
}

/// The origin's side: who has answered `Persisted` so far.
#[derive(Debug, PartialEq, Eq)]
pub struct Collector {
    /// Peers that answered `Persisted`, each once.
    pub persisted_by: Vec<NodeId>,
}

impl Collector {
    /// Nobody has answered yet.
    pub fn new() -> (r: Self)
        ensures
            nodes(r.persisted_by@) == Seq::<NodeModel>::empty(),
    {
        let r = Collector { persisted_by: Vec::new() };
        assert(nodes(r.persisted_by@) =~= Seq::empty());
        r
    }

    /// Begin a round over the peers there are now: a peer that joined mid-window is asked, and one
    /// that left is not waited on.
    pub fn begin(&self, peers: &Vec<NodeId>, elapsed_ms: u64, deadline_ms: u64) -> (r: Round)
        ensures
            ({
                let out = without(nodes(peers@), nodes(self.persisted_by@));
                let left = minus(deadline_ms, elapsed_ms);
                if out.len() == 0 || left == 0 {
                    r matches Round::Done(s) && nodes(s.persisted_by@) == nodes(self.persisted_by@)
                        && nodes(s.missing@) == out
                } else {
                    r matches Round::Ask { outstanding, per_peer_ms } && nodes(outstanding@) == out
                        && per_peer_ms == lesser(PER_PEER_TIMEOUT_MS as int, left)
                }
            }),
    {
        let outstanding = difference(peers, &self.persisted_by);
        assert(nodes(outstanding@).len() == outstanding@.len());
        let left: u64 = deadline_ms.saturating_sub(elapsed_ms);
        if outstanding.len() == 0 || left == 0 {
            return Round::Done(
                ReplicaSync { persisted_by: copy_nodes(&self.persisted_by), missing: outstanding },
            );
        }
        let per_peer_ms: u64 = if PER_PEER_TIMEOUT_MS <= left {
            PER_PEER_TIMEOUT_MS
        } else {
            left
        };
        Round::Ask { outstanding, per_peer_ms }
    }

    /// End a round with what came back. `persisted_by` names only peers that answered
    /// [`Answer::Persisted`]; everyone else is still outstanding, for no other answer establishes
    /// that the peer does not hold the operation.
    pub fn end(
        &mut self,
        outstanding: &Vec<NodeId>,
        replies: &Vec<(NodeId, Option<Answer>)>,
        elapsed_ms: u64,
        deadline_ms: u64,
    ) -> (r: Verdict)
        ensures
            nodes(final(self).persisted_by@) == heard(
                nodes(old(self).persisted_by@),
                replies@,
                replies@.len() as int,
            ),
            ({
                let out = without(nodes(outstanding@), nodes(final(self).persisted_by@));
                if out.len() == 0 || elapsed_ms >= deadline_ms {
                    r matches Verdict::Done(s) && nodes(s.persisted_by@) == nodes(
                        final(self).persisted_by@,
                    ) && nodes(s.missing@) == out
                } else {
                    r matches Verdict::Retry { wait_ms } && wait_ms == lesser(
                        RETRY_INTERVAL_MS as int,
                        deadline_ms - elapsed_ms,
                    )
                }
            }),
    {
        let ghost before = nodes(self.persisted_by@);
        let mut k: usize = 0;
        while k < replies.len()
            invariant
                k <= replies@.len(),
                nodes(self.persisted_by@) == heard(before, replies@, k as int),
            decreases replies@.len() - k,
        {
            let persisted = match replies[k].1 {
                Some(Answer::Persisted) => true,
                _ => false,
            };
            if persisted {
                insert(&mut self.persisted_by, replies[k].0.clone());
            }
            k += 1;
        }
        let still_out = difference(outstanding, &self.persisted_by);
        assert(nodes(still_out@).len() == still_out@.len());
        if still_out.len() == 0 || elapsed_ms >= deadline_ms {
            return Verdict::Done(
                ReplicaSync { persisted_by: copy_nodes(&self.persisted_by), missing: still_out },
            );
        }
        let left: u64 = deadline_ms - elapsed_ms;
        Verdict::Retry {
            wait_ms: if RETRY_INTERVAL_MS <= left {
                RETRY_INTERVAL_MS
            } else {
                left
            },
        }
    }
}

/// Nobody is named as holding the operation who did not say so: a peer heard in a round answered
/// `Persisted` in it or was named before, and a list of distinct peers stays one.
pub proof fn lemma_only_persisted_is_heard(
    before: Seq<NodeModel>,
    replies: Seq<(NodeId, Option<Answer>)>,
    k: int,
)
    requires
        0 <= k <= replies.len(),
        before.no_duplicates(),
    ensures
        heard(before, replies, k).no_duplicates(),
        forall|n: NodeModel|
            heard(before, replies, k).contains(n) <==> before.contains(n) || exists|i: int|
                0 <= i < k && (#[trigger] replies[i]).0@ == n && replies[i].1 == Some(Answer::Persisted),
    decreases k,
{
    if k > 0 {
        lemma_only_persisted_is_heard(before, replies, k - 1);
        let so_far = heard(before, replies, k - 1);
        let now = heard(before, replies, k);
        let peer = replies[k - 1].0@;
        assert forall|n: NodeModel| #[trigger] now.contains(n) <==> before.contains(n) || exists|i: int|
            0 <= i < k && (#[trigger] replies[i]).0@ == n && replies[i].1 == Some(Answer::Persisted) by {
            if so_far.contains(n) {
                let i = choose|i: int| 0 <= i < so_far.len() && so_far[i] == n;
                assert(now[i] == n);
            }
            if now.contains(n) && !so_far.contains(n) {
                let i = choose|i: int| 0 <= i < now.len() && now[i] == n;
                assert(i == so_far.len());
                assert(replies[k - 1].0@ == n);
            }
            if replies[k - 1].0@ == n && replies[k - 1].1 == Some(Answer::Persisted) && !so_far.contains(peer) {
                assert(now[so_far.len() as int] == n);
            }
        }
    }
}

/// Who has answered `Persisted` after the first `k` rounds.
pub open spec fn collected(rounds: Seq<Seq<(NodeId, Option<Answer>)>>, k: int) -> Seq<NodeModel>
    decreases k,
{
    if k <= 0 {
        Seq::empty()
    } else {
        heard(collected(rounds, k - 1), rounds[k - 1], rounds[k - 1].len() as int)
    }
}

/// Did the peer answer `Persisted` in the round?
pub open spec fn answered(round: Seq<(NodeId, Option<Answer>)>, n: NodeModel) -> bool {
    exists|i: int| 0 <= i < round.len() && (#[trigger] round[i]).0@ == n && round[i].1 == Some(Answer::Persisted)
}

/// Over any rounds nobody is collected twice, the list only grows, and it names exactly the peers that
/// answered `Persisted` in one of them.
pub proof fn lemma_rounds_only_grow(rounds: Seq<Seq<(NodeId, Option<Answer>)>>, k: int)
    requires
        0 <= k <= rounds.len(),
    ensures
        collected(rounds, k).no_duplicates(),
        k > 0 ==> collected(rounds, k - 1).is_prefix_of(collected(rounds, k)),
        forall|n: NodeModel| #[trigger]
            collected(rounds, k).contains(n) <==> exists|j: int| 0 <= j < k && answered(#[trigger] rounds[j], n),
    decreases k,
{
    if k > 0 {
        lemma_rounds_only_grow(rounds, k - 1);
        let before = collected(rounds, k - 1);
        let round = rounds[k - 1];
        let after = collected(rounds, k);
        lemma_only_persisted_is_heard(before, round, round.len() as int);
        lemma_heard_grows(before, round, round.len() as int);
        assert forall|n: NodeModel| #[trigger] after.contains(n) <==> exists|j: int|
            0 <= j < k && answered(#[trigger] rounds[j], n) by {
            assert(after.contains(n) <==> before.contains(n) || answered(round, n));
            if before.contains(n) {
                let j = choose|j: int| 0 <= j < k - 1 && answered(#[trigger] rounds[j], n);
                assert(answered(rounds[j], n));
            }
        }
    }
}

proof fn lemma_heard_grows(before: Seq<NodeModel>, replies: Seq<(NodeId, Option<Answer>)>, k: int)
    requires
        0 <= k <= replies.len(),
    ensures
        before.is_prefix_of(heard(before, replies, k)),
    decreases k,
{
    if k > 0 {
        lemma_heard_grows(before, replies, k - 1);
    }
}

/// A receipt's two lists share no peer.
pub proof fn lemma_missing_is_disjoint(all: Seq<NodeModel>, persisted: Seq<NodeModel>, n: NodeModel)
    requires
        without(all, persisted).contains(n),
    ensures
        !persisted.contains(n),
        all.contains(n),
{
    let keep = |m: NodeModel| !persisted.contains(m);
    let kept = all.filter(keep);
    let i = choose|i: int| 0 <= i < kept.len() && kept[i] == n;
    all.lemma_filter_pred(keep, i);
    all.lemma_filter_contains_rev(keep, n);
}

} // verus!

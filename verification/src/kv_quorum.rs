//! Acknowledgements of one write, counted by distinct peers.
//!
//! A tracker belongs to a write, not to a key: each key maps to a *list* of trackers, so concurrent
//! writers of one key coexist, every inbound update is observed by all of them, and each removes
//! exactly its own tracker when it is done.
use crate::numeral::{decimal, to_decimal};
use crate::text::join;
use vstd::prelude::*;
use vstd::string::*;

verus! {

/// A concurrent hash map of `papaya`: opaque here but for what it holds.
#[verifier::external_type_specification]
#[verifier::external_body]
#[verifier::reject_recursive_types(K)]
#[verifier::reject_recursive_types(V)]
#[verifier::reject_recursive_types(S)]
pub struct ExPapayaHashMap<K, V, S>(papaya::HashMap<K, V, S>);

/// The keys a `papaya` map of senders holds.
pub uninterp spec fn senders_in(map: papaya::HashMap<u64, ()>) -> Set<u64>;

/// The tracker lists a `papaya` map holds, by the text of their key.
pub uninterp spec fn lists_in(map: papaya::HashMap<String, Vec<u64>>) -> Map<Seq<char>, Seq<u64>>;

/// No list under any key.
pub open spec fn no_list() -> Map<Seq<char>, Seq<u64>> {
    Map::empty()
}

/// `HashMap::new`: a map that holds nothing.
#[verifier::external_body]
fn no_senders() -> (r: papaya::HashMap<u64, ()>)
    ensures
        senders_in(r) == Set::<u64>::empty(),
{
    papaya::HashMap::new()
}

/// `HashMap::insert`, with nobody else holding the map: the key is in it and nothing else changed.
#[verifier::external_body]
fn add_sender(map: &mut papaya::HashMap<u64, ()>, sender: u64)
    ensures
        senders_in(*final(map)) == senders_in(*old(map)).insert(sender),
{
    map.pin().insert(sender, ());
}

/// `HashMap::len`, with nobody else holding the map: how many keys are in it.
#[verifier::external_body]
fn sender_count(map: &papaya::HashMap<u64, ()>) -> (r: usize)
    ensures
        r == senders_in(*map).len(),
{
    map.len()
}

/// `HashMap::new`: a map that holds nothing.
#[verifier::external_body]
fn no_lists() -> (r: papaya::HashMap<String, Vec<u64>>)
    ensures
        lists_in(r) == no_list(),
{
    papaya::HashMap::new()
}

/// `HashMap::get`: a copy of the value under that key, if there is one.
#[verifier::external_body]
fn list_at(map: &papaya::HashMap<String, Vec<u64>>, key: &str) -> (r: Option<Vec<u64>>)
    ensures
        r is Some == lists_in(*map).contains_key(key@),
        r matches Some(v) ==> v@ == lists_in(*map)[key@],
{
    map.pin().get(key).cloned()
}

/// `HashMap::insert`, with nobody else holding the map: the key maps to the value and nothing else
/// changed.
#[verifier::external_body]
fn put_list(map: &mut papaya::HashMap<String, Vec<u64>>, key: &str, list: Vec<u64>)
    ensures
        lists_in(*final(map)) == lists_in(*old(map)).insert(key@, list@),
{
    map.pin().insert(key.to_owned(), list);
}

/// `HashMap::remove`, with nobody else holding the map: the key maps to nothing and nothing else
/// changed.
#[verifier::external_body]
fn drop_list(map: &mut papaya::HashMap<String, Vec<u64>>, key: &str)
    ensures
        lists_in(*final(map)) == lists_in(*old(map)).remove(key@),
{
    map.pin().remove(key);
}

/// Tracks how many distinct peers have confirmed a particular write.
pub struct QuorumAckTracker {
    /// Lower bound on the tracked write's timestamp, taken immediately before the write. Evidence
    /// older than this cannot be about this write.
    write_ts: u64,
    /// This node's own hash: its own loopback is never an acknowledgement.
    self_hash: u64,
    /// The hash of the exact payload this write carries. An update that does not hash to this is a
    /// different value.
    write_content: u64,
    /// The peers that have confirmed the write.
    acked_by: papaya::HashMap<u64, ()>,
}

/// Is an update evidence for this write: this exact payload, from somebody else, at or after it?
pub open spec fn counts(t: QuorumAckTracker, sender: u64, timestamp: u64, content_hash: u64) -> bool {
    sender != t.own_hash() && timestamp >= t.since() && content_hash == t.content()
}

impl QuorumAckTracker {
    /// The lower bound on the tracked write's timestamp.
    pub closed spec fn since(self) -> u64 {
        self.write_ts
    }

    /// This node's own hash.
    pub closed spec fn own_hash(self) -> u64 {
        self.self_hash
    }

    /// The hash of the payload the write carries.
    pub closed spec fn content(self) -> u64 {
        self.write_content
    }

    /// The peers that have confirmed the write.
    pub closed spec fn acked(self) -> Set<u64> {
        senders_in(self.acked_by)
    }

    /// A tracker nobody has confirmed to.
    pub fn new(write_ts: u64, self_hash: u64, write_content: u64) -> (r: Self)
        ensures
            r.since() == write_ts,
            r.own_hash() == self_hash,
            r.content() == write_content,
            r.acked() == Set::<u64>::empty(),
    {
        QuorumAckTracker { write_ts, self_hash, write_content, acked_by: no_senders() }
    }

    /// How many distinct peers have confirmed the write.
    pub fn acks(&self) -> (r: usize)
        ensures
            r == self.acked().len(),
    {
        sender_count(&self.acked_by)
    }

    /// The identity-less observation establishes nothing and therefore **never counts**: a newer
    /// overwrite of the same key would satisfy it while carrying a payload the peer never received
    /// from us.
    pub fn observe(&mut self, sender: u64, timestamp: u64)
        ensures
            *final(self) == *old(self),
    {
    }

    /// An incoming update on the tracked key. Counts only when it is **this exact payload**, from an
    /// origin that is not this node, at or after the tracked write; then the new count is returned.
    pub fn observe_update(&mut self, sender: u64, timestamp: u64, nonce: u64, content_hash: u64) -> (r:
        Option<usize>)
        ensures
            final(self).since() == old(self).since(),
            final(self).own_hash() == old(self).own_hash(),
            final(self).content() == old(self).content(),
            if counts(*old(self), sender, timestamp, content_hash) {
                &&& final(self).acked() == old(self).acked().insert(sender)
                &&& r matches Some(n) && n == final(self).acked().len()
            } else {
                r is None && *final(self) == *old(self)
            },
    {
        if sender != self.self_hash && timestamp >= self.write_ts && content_hash == self.write_content {
            add_sender(&mut self.acked_by, sender);
            Some(sender_count(&self.acked_by))
        } else {
            None
        }
    }
}

/// A peer counts once however often it is heard, the order in which peers are heard does not matter,
/// and a peer not heard before raises the count by one.
pub proof fn lemma_distinct_peers_count(acked: Set<u64>, a: u64, b: u64)
    requires
        acked.finite(),
    ensures
        acked.insert(a).insert(a) == acked.insert(a),
        acked.insert(a).insert(b) == acked.insert(b).insert(a),
        acked.insert(a).len() == acked.len() + if acked.contains(a) {
            0nat
        } else {
            1
        },
{
    assert(acked.insert(a).insert(a) =~= acked.insert(a));
    assert(acked.insert(a).insert(b) =~= acked.insert(b).insert(a));
    if acked.contains(a) {
        assert(acked.insert(a) =~= acked);
    }
}

/// The trackers in flight, by key. A tracker is known by its number.
pub struct QuorumTrackers {
    lists: papaya::HashMap<String, Vec<u64>>,
}

/// The trackers of a key: none where there is no list.
pub open spec fn trackers_of(lists: Map<Seq<char>, Seq<u64>>, key: Seq<char>) -> Seq<u64> {
    if lists.contains_key(key) {
        lists[key]
    } else {
        Seq::empty()
    }
}

impl QuorumTrackers {
    /// The lists, by key.
    pub closed spec fn lists(self) -> Map<Seq<char>, Seq<u64>> {
        lists_in(self.lists)
    }

    /// Nothing is in flight.
    pub fn new() -> (r: Self)
        ensures
            r.lists() == no_list(),
    {
        QuorumTrackers { lists: no_lists() }
    }

    /// The trackers that observe an update of `key`.
    pub fn observers(&self, key: &str) -> (r: Vec<u64>)
        ensures
            r@ == trackers_of(self.lists(), key@),
    {
        match list_at(&self.lists, key) {
            Some(v) => v,
            None => {
                let none: Vec<u64> = Vec::new();
                assert(none@ =~= Seq::empty());
                none
            },
        }
    }

    /// Is there a list under `key` at all?
    pub fn has(&self, key: &str) -> (r: bool)
        ensures
            r == self.lists().contains_key(key@),
    {
        list_at(&self.lists, key).is_some()
    }

    /// Adds the tracker to `key`'s list, coexisting with any concurrent callers' trackers on the
    /// same key.
    pub fn install_tracker(&mut self, key: &str, tracker: u64)
        ensures
            final(self).lists() == old(self).lists().insert(
                key@,
                trackers_of(old(self).lists(), key@).push(tracker),
            ),
    {
        let mut v = self.observers(key);
        v.push(tracker);
        put_list(&mut self.lists, key, v);
    }

    /// Removes exactly this tracker from `key`'s list, never a concurrent caller's. Drops the entry
    /// when the list empties.
    pub fn remove_tracker(&mut self, key: &str, tracker: u64)
        ensures
            ({
                let before = old(self).lists();
                let left = trackers_of(before, key@).filter(|t: u64| t != tracker);
                final(self).lists() == if left.len() == trackers_of(before, key@).len() {
                    before
                } else if left.len() == 0 {
                    before.remove(key@)
                } else {
                    before.insert(key@, left)
                }
            }),
    {
        let v = self.observers(key);
        let mut left: Vec<u64> = Vec::new();
        let ghost keep = |t: u64| t != tracker;
        let mut k: usize = 0;
        proof {
            reveal(Seq::filter);
            assert(left@ =~= v@.take(0).filter(keep));
        }
        while k < v.len()
            invariant
                k <= v@.len(),
                keep == (|t: u64| t != tracker),
                left@ == v@.take(k as int).filter(keep),
            decreases v@.len() - k,
        {
            proof {
                reveal(Seq::filter);
                assert(v@.take(k + 1).drop_last() =~= v@.take(k as int));
                assert(v@.take(k + 1).last() == v@[k as int]);
            }
            if v[k] != tracker {
                left.push(v[k]);
            }
            k += 1;
        }
        assert(v@.take(v@.len() as int) =~= v@);
        if left.len() == v.len() {
        } else if left.is_empty() {
            drop_list(&mut self.lists, key);
        } else {
            put_list(&mut self.lists, key, left);
        }
    }
}

/// Removing a tracker leaves every other tracker of every key observed.
pub proof fn lemma_removal_keeps_the_others(list: Seq<u64>, tracker: u64, other: u64)
    requires
        other != tracker,
        list.contains(other),
    ensures
        list.filter(|t: u64| t != tracker).contains(other),
        !list.filter(|t: u64| t != tracker).contains(tracker),
{
    let keep = |t: u64| t != tracker;
    let i = choose|i: int| 0 <= i < list.len() && list[i] == other;
    list.lemma_filter_contains(keep, i);
    let kept = list.filter(keep);
    if kept.contains(tracker) {
        let j = choose|j: int| 0 <= j < kept.len() && kept[j] == tracker;
        list.lemma_filter_pred(keep, j);
    }
}

/// The durability threshold was not reached in time.
#[derive(Debug, Clone, PartialEq)]
#[non_exhaustive]
pub enum QuorumError {
    /// The write propagated to fewer peers than requested within the deadline.
    Timeout {
        /// How many distinct peers had confirmed the write before the timeout.
        acks_received: usize,
    },
}

impl QuorumError {
    /// The error as text.
    pub fn message(&self) -> (r: String)
        ensures
            r@ == match *self {
                QuorumError::Timeout { acks_received } => "set_with_min_acks timed out ("@ + decimal(
                    acks_received as nat,
                ) + " peer(s) acknowledged)"@,
            },
    {
        match self {
            QuorumError::Timeout { acks_received } => {
                let head = join("set_with_min_acks timed out (", to_decimal(*acks_received as u64).as_str());
                join(head.as_str(), " peer(s) acknowledged)")
            },
        }
    }
}

/// What the waiter of a write heard last.
#[derive(Debug, Clone, Copy, PartialEq, Eq, Structural)]
pub enum WaitEvent {
    /// So many peers have confirmed.
    Acks(usize),
    /// Nobody will report any more; so many had confirmed.
    Closed(usize),
    /// The time is up; so many had confirmed.
    TimedOut(usize),
}

/// Must a write that asks for so many acknowledgements wait at all?
pub fn must_wait(min_acks: usize) -> (r: bool)
    ensures
        r == (min_acks > 0),
{
    min_acks > 0
}

/// What a write that waits for `min_acks` acknowledgements returns on what it hears; `None` while
/// it has to wait on. It succeeds only with as many as it asked for.
pub fn wait_step(min_acks: usize, event: WaitEvent) -> (r: Option<Result<usize, QuorumError>>)
    ensures
        r == match event {
            WaitEvent::Acks(n) => if n >= min_acks {
                Some(Ok::<usize, QuorumError>(n))
            } else {
                None
            },
            WaitEvent::Closed(n) => if n >= min_acks {
                Some(Ok::<usize, QuorumError>(n))
            } else {
                Some(Err::<usize, QuorumError>(QuorumError::Timeout { acks_received: n }))
            },
            WaitEvent::TimedOut(n) => Some(
                Err::<usize, QuorumError>(QuorumError::Timeout { acks_received: n }),
            ),
        },
{
    match event {
        WaitEvent::Acks(n) => if n >= min_acks {
            Some(Ok(n))
        } else {
            None
        },
        WaitEvent::Closed(n) => if n >= min_acks {
            Some(Ok(n))
        } else {
            Some(Err(QuorumError::Timeout { acks_received: n }))
        },
        WaitEvent::TimedOut(n) => Some(Err(QuorumError::Timeout { acks_received: n })),
    }
}

} // verus!

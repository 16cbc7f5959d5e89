//! Mailboxes: durable event delivery through the shared store.
//!
//! An event for a node is an entry under `mailbox/{target}/{kind}/{hlc}` whose value is the sender's
//! text behind its length in two little-endian bytes, and then the payload. The watcher delivers
//! entries in the order of their keys, which is the order of their timestamps, and removes each once
//! it is delivered.
use crate::keys::{slash, slashed, KvEntry};
use crate::node_id::{lemma_node_text_parses, node_of, valid_host, NodeId, NodeModel};
use crate::numeral::{hex16, lemma_hex16_order, lemma_hex16_parses, parse_radix, parsed, to_hex16};
use crate::order::{lemma_text_le_prefix, lemma_text_le_total, lemma_text_le_transitive, sort, sorted, text_at_or_before, text_le, Ranked};
use crate::text::{after_prefix, from_utf8, join, strip_prefix, utf8_of};
use crate::wire::{put_bytes, tail};
use vstd::bytes::{
    lemma_auto_spec_u16_to_from_le_bytes, spec_u16_from_le_bytes, spec_u16_to_le_bytes, u16_from_le_bytes,
    u16_to_le_bytes,
};
use vstd::prelude::*;
use vstd::slice::slice_subrange;
use vstd::string::*;
use vstd::utf8::{decode_utf8, encode_utf8, encode_utf8_decode_utf8, encode_utf8_valid_utf8, valid_utf8};

verus! {

/// Maximum entries delivered (and removed) per chunk: a large backlog must not keep the watcher from
/// yielding.
pub const DRAIN_CHUNK: usize = 64;

/// An event received from a node's mailbox.
#[derive(Debug, PartialEq, Eq)]
pub struct MeshEvent {
    /// Its kind.
    pub kind: String,
    /// Who sent it.
    pub sender: NodeId,
    /// What it carries.
    pub payload: Vec<u8>,
    /// The timestamp of the delivery key.
    pub hlc_ts: u64,
}

/// An entry's value: the sender's length, the sender, the payload.
pub open spec fn value_bytes(sender: NodeModel, payload: Seq<u8>) -> Seq<u8> {
    let s = encode_utf8(sender.text());
    spec_u16_to_le_bytes(s.len() as u16) + s + payload
}

/// The sender and the payload of a value, where it is well formed.
pub open spec fn value_parts(b: Seq<u8>) -> Option<(NodeModel, Seq<u8>)> {
    if b.len() < 2 {
        None
    } else {
        let end = 2 + spec_u16_from_le_bytes(b.subrange(0, 2));
        if end <= b.len() && valid_utf8(b.subrange(2, end)) {
            match node_of(decode_utf8(b.subrange(2, end))) {
                Some(n) => Some((n, b.subrange(end, b.len() as int))),
                None => None,
            }
        } else {
            None
        }
    }
}

/// An entry's value.
pub fn encode_value(sender: &NodeId, payload: &[u8]) -> (r: Vec<u8>)
    ensures
        r@ == value_bytes(sender@, payload@),
{
    let s = utf8_of(sender.text().as_str());
    let len: usize = s.len();
    let mut b: Vec<u8> = u16_to_le_bytes(#[verifier::truncate] (len as u16));
    put_bytes(&mut b, s.as_slice());
    put_bytes(&mut b, payload);
    b
}

/// The sender and the payload of a value; `None` where it is malformed.
pub fn decode_value(b: &[u8]) -> (r: Option<(NodeId, Vec<u8>)>)
    ensures
        r is Some == value_parts(b@) is Some,
        r matches Some((n, payload)) ==> value_parts(b@) == Some((n@, payload@)),
{
    if b.len() < 2 {
        return None;
    }
    let len: u16 = u16_from_le_bytes(slice_subrange(b, 0, 2));
    let end: usize = 2 + len as usize;
    if b.len() < end {
        return None;
    }
    let text = match from_utf8(slice_subrange(b, 2, end)) {
        Some(t) => t,
        None => {
            return None;
        },
    };
    match NodeId::parse(text.as_str()) {
        Some(n) => Some((n, tail(b, end))),
        None => None,
    }
}

/// A value decodes to what it was encoded from, when two bytes hold the length of the sender's text.
pub proof fn lemma_value_round_trips(sender: NodeModel, payload: Seq<u8>)
    requires
        valid_host(sender.host),
        encode_utf8(sender.text()).len() <= u16::MAX,
    ensures
        value_parts(value_bytes(sender, payload)) == Some((sender, payload)),
{
    let s = encode_utf8(sender.text());
    let b = value_bytes(sender, payload);
    lemma_auto_spec_u16_to_from_le_bytes();
    assert(b.subrange(0, 2) =~= spec_u16_to_le_bytes(s.len() as u16));
    assert(b.subrange(2, 2 + s.len() as int) =~= s);
    assert(b.subrange(2 + s.len() as int, b.len() as int) =~= payload);
    encode_utf8_valid_utf8(sender.text());
    encode_utf8_decode_utf8(sender.text());
    lemma_node_text_parses(sender);
}

/// The prefix of a node's mailbox for a kind.
pub open spec fn prefix_of(target: NodeModel, kind: Seq<char>) -> Seq<char> {
    "mailbox/"@ + slashed(target.text(), slashed(kind, Seq::empty()))
}

/// The key of an event for a node.
pub open spec fn key_of(target: NodeModel, kind: Seq<char>, ts: u64) -> Seq<char> {
    prefix_of(target, kind) + hex16(ts)
}

/// The prefix of a node's mailbox for a kind: `mailbox/{target}/{kind}/`.
pub fn mailbox_prefix(target: &NodeId, kind: &str) -> (r: String)
    ensures
        r@ == prefix_of(target@, kind@),
{
    proof {
        reveal_strlit("");
        assert(""@ =~= Seq::empty());
    }
    let tail = slash(target.text().as_str(), slash(kind, "").as_str());
    join("mailbox/", tail.as_str())
}

/// The key of an event for a node: the mailbox's prefix and the timestamp in sixteen hexadecimal
/// digits.
pub fn mailbox_key(target: &NodeId, kind: &str, ts: u64) -> (r: String)
    ensures
        r@ == key_of(target@, kind@, ts),
{
    join(mailbox_prefix(target, kind).as_str(), to_hex16(ts).as_str())
}

/// What delivering an event writes: its sender and its payload, into the target's mailbox.
pub fn deliver_event(sender: &NodeId, target: &NodeId, kind: &str, payload: &[u8], ts: u64) -> (r: KvEntry)
    ensures
        r.key@ == key_of(target@, kind@, ts),
        r.value@ == value_bytes(sender@, payload@),
{
    KvEntry { key: mailbox_key(target, kind, ts), value: encode_value(sender, payload) }
}

/// What the watcher does with one entry.
#[derive(Debug, PartialEq, Eq)]
pub enum DrainStep {
    /// The value is malformed: remove the entry.
    Evict(String),
    /// Hand the event out, and remove the entry once it is taken.
    Deliver(String, MeshEvent),
}

/// What an entry of a mailbox calls for.
pub open spec fn step_fits(step: DrainStep, e: KvEntry, prefix: Seq<char>, kind: Seq<char>) -> bool {
    match value_parts(e.value@) {
        None => step matches DrainStep::Evict(k) && k@ == e.key@,
        Some((sender, payload)) => {
            &&& step matches DrainStep::Deliver(k, event)
            &&& k@ == e.key@
            &&& event.kind@ == kind
            &&& event.sender@ == sender
            &&& event.payload@ == payload
            &&& event.hlc_ts == match after_prefix(e.key@, prefix) {
                Some(hex) => match parsed(hex, 16) {
                    Some(ts) => ts as int,
                    None => 0,
                },
                None => 0,
            }
        },
    }
}

impl Ranked for KvEntry {
    open spec fn at_or_before(&self, other: &Self) -> bool {
        text_le(self.key@, other.key@)
    }

    proof fn lemma_order(a: &Self, b: &Self, c: &Self) {
        lemma_text_le_total(a.key@, b.key@);
        if text_le(a.key@, b.key@) && text_le(b.key@, c.key@) {
            lemma_text_le_transitive(a.key@, b.key@, c.key@);
        }
    }

    fn rank(&self, other: &Self) -> (r: bool) {
        text_at_or_before(self.key.as_str(), other.key.as_str())
    }
}

/// What the watcher does with one entry.
fn drain_step(e: &KvEntry, prefix: &str, kind: &str) -> (r: DrainStep)
    ensures
        step_fits(r, *e, prefix@, kind@),
{
    match decode_value(e.value.as_slice()) {
        None => DrainStep::Evict(e.key.clone()),
        Some((sender, payload)) => {
            let hlc_ts: u64 = match strip_prefix(e.key.as_str(), prefix) {
                Some(hex) => match parse_radix(hex.as_str(), 16) {
                    Some(ts) => ts,
                    None => 0,
                },
                None => 0,
            };
            DrainStep::Deliver(
                e.key.clone(),
                MeshEvent { kind: kind.to_owned(), sender, payload, hlc_ts },
            )
        },
    }
}

/// One chunk of a mailbox: the entries in the order of their keys, at most [`DRAIN_CHUNK`] of them,
/// each with what to do about it.
pub fn drain_chunk(entries: Vec<KvEntry>, prefix: &str, kind: &str) -> (r: (Vec<DrainStep>, Vec<KvEntry>))
    ensures
        sorted(r.1@),
        r.1@.to_multiset() == entries@.to_multiset(),
        r.0@.len() == if entries@.len() < DRAIN_CHUNK {
            entries@.len() as int
        } else {
            DRAIN_CHUNK as int
        },
        forall|i: int|
            0 <= i < r.0@.len() ==> step_fits(#[trigger] r.0@[i], r.1@[i], prefix@, kind@),
{
    let ordered = sort(entries);
    let n: usize = if ordered.len() < DRAIN_CHUNK {
        ordered.len()
    } else {
        DRAIN_CHUNK
    };
    let mut steps: Vec<DrainStep> = Vec::new();
    let mut k: usize = 0;
    while k < n
        invariant
            k <= n <= ordered@.len(),
            steps@.len() == k,
            forall|i: int|
                0 <= i < k ==> step_fits(#[trigger] steps@[i], ordered@[i], prefix@, kind@),
        decreases n - k,
    {
        let step = drain_step(&ordered[k], prefix, kind);
        steps.push(step);
        k += 1;
    }
    (steps, ordered)
}

/// May the watcher remove the entry of a step? An eviction always; a delivery only when the event
/// was taken, so an event is never lost to a receiver that is gone.
pub fn removes(step: &DrainStep, taken: bool) -> (r: bool)
    ensures
        r == match *step {
            DrainStep::Evict(_) => true,
            DrainStep::Deliver(_, _) => taken,
        },
{
    match step {
        DrainStep::Evict(_) => true,
        DrainStep::Deliver(_, _) => taken,
    }
}

/// The keys of one mailbox are ordered as their timestamps are, and each gives its timestamp back:
/// delivery in the order of keys is delivery in causal order.
pub proof fn lemma_key_order_is_time_order(target: NodeModel, kind: Seq<char>, a: u64, b: u64)
    ensures
        text_le(key_of(target, kind, a), key_of(target, kind, b)) == (a <= b),
        after_prefix(key_of(target, kind, a), prefix_of(target, kind)) == Some(hex16(a)),
        parsed(hex16(a), 16) == Some(a as nat),
{
    lemma_text_le_prefix(prefix_of(target, kind), hex16(a), hex16(b));
    lemma_hex16_order(a, b);
    crate::keys::lemma_after_prefix_of_joined(prefix_of(target, kind), hex16(a));
    lemma_hex16_parses(a);
}

} // verus!

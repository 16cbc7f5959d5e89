//! Key revocation: a node retires one of its own verifying keys as compromised.
//!
//! A revocation of key `R` for node `N` counts **iff** it is signed by `N`'s **current** identity
//! key and `R` is in `N`'s identity history. So only the holder of the current key can revoke (a
//! compromised old key revokes nothing), and a node can only revoke its own keys. A forged entry is
//! accepted by the store and fails this validation when it is read, so it has no effect.
use crate::hex::{hex32, hex_of};
use crate::keys::{slashed, KvEntry};
use crate::node_id::{contains, insert, lemma_node_text_parses, node_of, nodes, valid_host, NodeId, NodeModel};
use crate::order::{
    lemma_text_le_total, lemma_text_le_transitive, sort, sorted, text_at_or_before, text_le, Ranked,
};
use crate::text::{after_prefix, has_prefix, join, split_at_first, split_once, starts_with, strip_prefix};
use crate::wire::{
    counted, counted_at, lemma_number_reads_back, lemma_text_reads_back, number_at, put_bytes, put_text,
    put_u64, read_text, read_u64, tail,
};
use vstd::bytes::spec_u64_to_le_bytes;
use vstd::prelude::*;
use vstd::slice::slice_to_vec;
use vstd::string::*;
use vstd::utf8::encode_utf8;

verus! {

/// The namespace of the revocation log: `sys/revocation/{node}/{revoked-key-hex}`.
pub const REVOCATION_PREFIX: &'static str = "sys/revocation/";

/// The key under which a node's revocation of one verifying key is stored.
pub open spec fn revocation_key_of(node: NodeModel, revoked_key: Seq<u8>) -> Seq<char> {
    REVOCATION_PREFIX@ + slashed(node.text(), hex_of(revoked_key))
}

/// The key under which a node's revocation of one verifying key is stored.
pub fn revocation_key(node: &NodeId, revoked_key: &[u8; 32]) -> (r: String)
    ensures
        r@ == revocation_key_of(node@, revoked_key@),
{
    let tail = crate::keys::slash(node.text().as_str(), hex32(revoked_key).as_str());
    join(REVOCATION_PREFIX, tail.as_str())
}

/// One revocation event: node `node_id` retires `revoked_key` as compromised.
#[derive(Debug, PartialEq, Eq)]
pub struct RevocationEvent {
    /// Whose key it is.
    pub node_id: NodeId,
    /// The timestamp at seal time.
    pub hlc: u64,
    /// The verifying key being revoked (one of `node_id`'s own keys).
    pub revoked_key: [u8; 32],
    /// Why.
    pub reason: Option<String>,
}

/// What a [`RevocationEvent`] stands for.
#[verifier::ext_equal]
pub struct EventModel {
    /// Whose key it is.
    pub node: NodeModel,
    /// The timestamp at seal time.
    pub hlc: u64,
    /// The verifying key being revoked.
    pub revoked_key: Seq<u8>,
    /// Why.
    pub reason: Option<Seq<char>>,
}

impl View for RevocationEvent {
    type V = EventModel;

    open spec fn view(&self) -> EventModel {
        EventModel {
            node: self.node_id@,
            hlc: self.hlc,
            revoked_key: self.revoked_key@,
            reason: match self.reason {
                Some(s) => Some(s@),
                None => None,
            },
        }
    }
}

/// An optional text's bytes: a mark, and the counted text behind it.
pub open spec fn reason_bytes(reason: Option<Seq<char>>) -> Seq<u8> {
    match reason {
        None => seq![0u8],
        Some(s) => seq![1u8] + counted(s),
    }
}

/// The bytes an event's signature is over: the node's counted text, the timestamp, the key, the
/// reason.
pub open spec fn canonical_of(e: EventModel) -> Seq<u8> {
    counted(e.node.text()) + spec_u64_to_le_bytes(e.hlc) + e.revoked_key + reason_bytes(e.reason)
}

impl RevocationEvent {
    /// The bytes the signature is over.
    pub fn canonical(&self) -> (r: Vec<u8>)
        ensures
            r@ == canonical_of(self@),
    {
        let mut b: Vec<u8> = Vec::new();
        put_text(&mut b, self.node_id.text().as_str());
        put_u64(&mut b, self.hlc);
        put_bytes(&mut b, self.revoked_key.as_slice());
        let ghost head = b@;
        match &self.reason {
            None => {
                b.push(0);
                assert(b@ =~= head + reason_bytes(self@.reason));
            },
            Some(s) => {
                b.push(1);
                put_text(&mut b, s.as_str());
                assert(b@ =~= head + reason_bytes(self@.reason));
            },
        }
        assert(b@ =~= canonical_of(self@));
        b
    }
}

/// A [`RevocationEvent`] plus the writer's Ed25519 signature over its canonical bytes.
#[derive(Debug, PartialEq, Eq)]
pub struct SignedRevocation {
    /// The event.
    pub event: RevocationEvent,
    /// The signature.
    pub sig: Vec<u8>,
}

/// The verifying key that belongs to a signing key.
pub uninterp spec fn ed25519_public(signing_key: Seq<u8>) -> Seq<u8>;

/// The signature of a message under a signing key.
pub uninterp spec fn ed25519_signature(signing_key: Seq<u8>, message: Seq<u8>) -> Seq<u8>;

/// Does the signature of the message verify under the verifying key? A verifying key that is no
/// point of the curve verifies nothing.
pub uninterp spec fn ed25519_verifies(verifying_key: Seq<u8>, message: Seq<u8>, sig: Seq<u8>) -> bool;

/// `SigningKey::from_bytes` and `verifying_key` of `ed25519-dalek`: the verifying key of a signing
/// key.
#[verifier::external_body]
fn public_key_bytes(signing_key: &[u8; 32]) -> (r: [u8; 32])
    ensures
        r@ == ed25519_public(signing_key@),
{
    ed25519_dalek::SigningKey::from_bytes(signing_key).verifying_key().to_bytes()
}

/// `SigningKey::sign` of `ed25519-dalek`: sixty-four bytes that depend on the key and the message
/// alone, and that verify under the key's own verifying key.
#[verifier::external_body]
pub(crate) fn signature_bytes(signing_key: &[u8; 32], message: &[u8]) -> (r: [u8; 64])
    ensures
        r@ == ed25519_signature(signing_key@, message@),
        ed25519_verifies(ed25519_public(signing_key@), message@, r@),
{
    let key = ed25519_dalek::SigningKey::from_bytes(signing_key);
    ed25519_dalek::Signer::sign(&key, message).to_bytes()
}

/// `VerifyingKey::from_bytes` and `verify` of `ed25519-dalek`: whether the key is a point and the
/// signature of the message verifies under it.
#[verifier::external_body]
pub(crate) fn signature_verifies(verifying_key: &[u8; 32], message: &[u8], sig: &[u8; 64]) -> (r: bool)
    ensures
        r == ed25519_verifies(verifying_key@, message@, sig@),
{
    let sig = ed25519_dalek::Signature::from_bytes(sig);
    match ed25519_dalek::VerifyingKey::from_bytes(verifying_key) {
        Ok(vk) => ed25519_dalek::Verifier::verify(&vk, message, &sig).is_ok(),
        Err(_) => false,
    }
}

/// The verifying key of a signing key.
pub fn verifying_key_of(signing_key: &[u8; 32]) -> (r: [u8; 32])
    ensures
        r@ == ed25519_public(signing_key@),
{
    public_key_bytes(signing_key)
}

/// Exactly sixty-four bytes.
fn sixty_four(v: &Vec<u8>) -> (r: Option<[u8; 64]>)
    ensures
        r is Some <==> v@.len() == 64,
        r matches Some(a) ==> a@ == v@,
{
    if v.len() != 64 {
        return None;
    }
    let mut a: [u8; 64] = [0u8; 64];
    let mut i: usize = 0;
    while i < 64
        invariant
            i <= 64,
            v@.len() == 64,
            a@.len() == 64,
            forall|j: int| 0 <= j < i ==> a@[j] == v@[j],
        decreases 64 - i,
    {
        a[i] = v[i];
        i += 1;
    }
    assert(a@ =~= v@);
    Some(a)
}

/// Thirty-two of the bytes, from `at` on.
fn thirty_two(b: &[u8], at: usize) -> (r: [u8; 32])
    requires
        at + 32 <= b@.len(),
    ensures
        r@ == b@.subrange(at as int, at + 32),
{
    let len: usize = b.len();
    let mut a: [u8; 32] = [0u8; 32];
    let mut i: usize = 0;
    while i < 32
        invariant
            i <= 32,
            len == b@.len(),
            at + 32 <= len,
            a@.len() == 32,
            forall|j: int| 0 <= j < i ==> a@[j] == b@[at + j],
        decreases 32 - i,
    {
        a[i] = b[at + i];
        i += 1;
    }
    assert(a@ =~= b@.subrange(at as int, at + 32));
    a
}

/// Is the revocation signed by this key?
pub open spec fn signed_by(e: EventModel, sig: Seq<u8>, verifying_key: Seq<u8>) -> bool {
    sig.len() == 64 && ed25519_verifies(verifying_key, canonical_of(e), sig)
}

/// The stored bytes of a signed revocation: the event's and, counted, the signature's.
pub open spec fn signed_bytes(e: EventModel, sig: Seq<u8>) -> Seq<u8> {
    canonical_of(e) + spec_u64_to_le_bytes(sig.len() as u64) + sig
}

/// The reason that starts at `at`, and where it ends.
pub open spec fn reason_at(b: Seq<u8>, at: int) -> Option<(Option<Seq<char>>, int)> {
    if 0 <= at < b.len() && b[at] == 0 {
        Some((None, at + 1))
    } else if 0 <= at < b.len() && b[at] == 1 {
        match counted_at(b, at + 1) {
            Some((s, end)) => Some((Some(s), end)),
            None => None,
        }
    } else {
        None
    }
}

/// The event at the start of the bytes, and where it ends.
pub open spec fn event_at(b: Seq<u8>) -> Option<(EventModel, int)> {
    match counted_at(b, 0) {
        Some((text, at)) => match node_of(text) {
            Some(node) if at + 40 <= b.len() => match reason_at(b, at + 40) {
                Some((reason, end)) => Some(
                    (
                        EventModel {
                            node,
                            hlc: number_at(b, at),
                            revoked_key: b.subrange(at + 8, at + 40),
                            reason,
                        },
                        end,
                    ),
                ),
                None => None,
            },
            _ => None,
        },
        None => None,
    }
}

/// The signed revocation these bytes are, if they are one, and nothing behind it.
pub open spec fn signed_of(b: Seq<u8>) -> Option<(EventModel, Seq<u8>)> {
    match event_at(b) {
        Some((e, at)) if at + 8 <= b.len() && at + 8 + number_at(b, at) == b.len() => Some(
            (e, b.subrange(at + 8, b.len() as int)),
        ),
        _ => None,
    }
}

impl SignedRevocation {
    /// Sign an event.
    pub fn sign(event: RevocationEvent, signing_key: &[u8; 32]) -> (r: Self)
        ensures
            r.event@ == event@,
            r.sig@ == ed25519_signature(signing_key@, canonical_of(event@)),
            signed_by(r.event@, r.sig@, ed25519_public(signing_key@)),
    {
        let message = event.canonical();
        let sig = signature_bytes(signing_key, message.as_slice());
        let bytes = slice_to_vec(sig.as_slice());
        SignedRevocation { event, sig: bytes }
    }

    /// Verify the event signature against `verifying_key`. Public so an external auditor can
    /// independently confirm that a revocation is signed by the claimed key before trusting it.
    pub fn verify(&self, verifying_key: &[u8; 32]) -> (r: bool)
        ensures
            r == signed_by(self.event@, self.sig@, verifying_key@),
    {
        match sixty_four(&self.sig) {
            Some(sig) => signature_verifies(verifying_key, self.event.canonical().as_slice(), &sig),
            None => false,
        }
    }

    /// Canonical stored encoding.
    pub fn encode(&self) -> (r: Vec<u8>)
        ensures
            r@ == signed_bytes(self.event@, self.sig@),
    {
        let mut b = self.event.canonical();
        put_u64(&mut b, self.sig.len() as u64);
        put_bytes(&mut b, self.sig.as_slice());
        b
    }

    /// Decode from the stored encoding. `None` on malformed bytes.
    pub fn decode(b: &[u8]) -> (r: Option<Self>)
        ensures
            r is Some == signed_of(b@) is Some,
            r matches Some(s) ==> signed_of(b@) == Some((s.event@, s.sig@)),
    {
        let len: usize = b.len();
        let (text, at) = match read_text(b, 0) {
            Some(parts) => parts,
            None => {
                return None;
            },
        };
        let node_id = match NodeId::parse(text.as_str()) {
            Some(n) => n,
            None => {
                return None;
            },
        };
        if len - at < 41 {
            assert(signed_of(b@) is None);
            return None;
        }
        let hlc: u64 = read_u64(b, at);
        let revoked_key = thirty_two(b, at + 8);
        let mark: u8 = b[at + 40];
        let (reason, end): (Option<String>, usize) = if mark == 0 {
            (None, at + 41)
        } else if mark == 1 {
            match read_text(b, at + 41) {
                Some((s, end)) => (Some(s), end),
                None => {
                    return None;
                },
            }
        } else {
            return None;
        };
        if len - end < 8 {
            return None;
        }
        let count: u64 = read_u64(b, end);
        if count != (len - end - 8) as u64 {
            return None;
        }
        let sig = tail(b, end + 8);
        Some(SignedRevocation { event: RevocationEvent { node_id, hlc, revoked_key, reason }, sig })
    }
}

/// A stored revocation decodes to what it was encoded from.
pub proof fn lemma_revocation_round_trips(e: EventModel, sig: Seq<u8>)
    requires
        valid_host(e.node.host),
        e.revoked_key.len() == 32,
        encode_utf8(e.node.text()).len() <= u64::MAX,
        e.reason matches Some(s) ==> encode_utf8(s).len() <= u64::MAX,
        sig.len() <= u64::MAX,
    ensures
        signed_of(signed_bytes(e, sig)) == Some((e, sig)),
{
    let b = signed_bytes(e, sig);
    let name = counted(e.node.text());
    let stamp = spec_u64_to_le_bytes(e.hlc);
    let why = reason_bytes(e.reason);
    let count = spec_u64_to_le_bytes(sig.len() as u64);
    let at = name.len() as int;
    lemma_text_reads_back(Seq::empty(), e.node.text(), stamp + e.revoked_key + why + count + sig);
    assert(Seq::<u8>::empty() + name + (stamp + e.revoked_key + why + count + sig) =~= b);
    lemma_node_text_parses(e.node);
    lemma_number_reads_back(name, e.hlc, e.revoked_key + why + count + sig);
    assert(name + stamp + (e.revoked_key + why + count + sig) =~= b);
    assert(b.subrange(at + 8, at + 40) =~= e.revoked_key);
    let head = name + stamp + e.revoked_key;
    assert(b[at + 40] == why[0]);
    match e.reason {
        None => {},
        Some(s) => {
            lemma_text_reads_back(head + seq![1u8], s, count + sig);
            assert(head + seq![1u8] + counted(s) + (count + sig) =~= b);
        },
    }
    let end = (head.len() + why.len()) as int;
    lemma_number_reads_back(head + why, sig.len() as u64, sig);
    assert(head + why + count + sig =~= b);
    assert(b.subrange(end + 8, b.len() as int) =~= sig);
}

/// Two events with the same canonical bytes are one event: a signature binds every field.
pub proof fn lemma_canonical_binds_every_field(a: EventModel, b: EventModel)
    requires
        valid_host(a.node.host),
        valid_host(b.node.host),
        a.revoked_key.len() == 32,
        b.revoked_key.len() == 32,
        encode_utf8(a.node.text()).len() <= u64::MAX,
        encode_utf8(b.node.text()).len() <= u64::MAX,
        a.reason matches Some(s) ==> encode_utf8(s).len() <= u64::MAX,
        b.reason matches Some(s) ==> encode_utf8(s).len() <= u64::MAX,
        canonical_of(a) == canonical_of(b),
    ensures
        a == b,
{
    lemma_revocation_round_trips(a, Seq::empty());
    lemma_revocation_round_trips(b, Seq::empty());
}

/// Does a signed revocation count for the node: is it the node's, signed by its current key, of one of
/// its own keys? `identity` is the node's identity history, current key first.
pub open spec fn counts(e: EventModel, sig: Seq<u8>, node: NodeModel, identity: Seq<Seq<u8>>) -> bool {
    &&& identity.len() > 0
    &&& e.node == node
    &&& signed_by(e, sig, identity[0])
    &&& identity.contains(e.revoked_key)
}

/// Where a node's part of the revocation log lies.
pub open spec fn revocation_log_of(node: NodeModel) -> Seq<char> {
    REVOCATION_PREFIX@ + slashed(node.text(), Seq::empty())
}

/// What a stored entry says for the node: the revocation it holds, where it lies in the node's part of
/// the log, decodes, and counts.
pub open spec fn counted_entry(e: KvEntry, node: NodeModel, identity: Seq<Seq<u8>>) -> Option<
    (EventModel, Seq<u8>),
> {
    if has_prefix(e.key@, revocation_log_of(node)) {
        match signed_of(e.value@) {
            Some((event, sig)) => if counts(event, sig, node, identity) {
                Some((event, sig))
            } else {
                None
            },
            None => None,
        }
    } else {
        None
    }
}

/// The keys of a list.
pub open spec fn key_bytes(v: Seq<[u8; 32]>) -> Seq<Seq<u8>> {
    Seq::new(v.len(), |i: int| v[i]@)
}

/// Are the two keys the same?
pub fn same_key(a: &[u8; 32], b: &[u8; 32]) -> (r: bool)
    ensures
        r == (a@ == b@),
{
    let mut i: usize = 0;
    while i < 32
        invariant
            i <= 32,
            a@.len() == 32,
            b@.len() == 32,
            forall|j: int| 0 <= j < i ==> a@[j] == b@[j],
        decreases 32 - i,
    {
        if a[i] != b[i] {
            return false;
        }
        i += 1;
    }
    assert(a@ =~= b@);
    true
}

/// Is the key in the list?
pub fn has_key(v: &Vec<[u8; 32]>, k: &[u8; 32]) -> (r: bool)
    ensures
        r == key_bytes(v@).contains(k@),
{
    let mut i: usize = 0;
    while i < v.len()
        invariant
            i <= v@.len(),
            forall|j: int| 0 <= j < i ==> (#[trigger] key_bytes(v@)[j]) != k@,
        decreases v@.len() - i,
    {
        if same_key(&v[i], k) {
            assert(key_bytes(v@)[i as int] == k@);
            return true;
        }
        i += 1;
    }
    false
}

/// The revocations that the first `k` entries hold for a node, in order.
pub open spec fn counted_revocations(
    entries: Seq<KvEntry>,
    node: NodeModel,
    identity: Seq<Seq<u8>>,
    k: int,
) -> Seq<(EventModel, Seq<u8>)>
    decreases k,
{
    if k <= 0 {
        Seq::empty()
    } else {
        let front = counted_revocations(entries, node, identity, k - 1);
        match counted_entry(entries[k - 1], node, identity) {
            Some(r) => front.push(r),
            None => front,
        }
    }
}

/// What a list of revocations stands for.
pub open spec fn revocations(v: Seq<SignedRevocation>) -> Seq<(EventModel, Seq<u8>)> {
    Seq::new(v.len(), |i: int| (v[i].event@, v[i].sig@))
}

/// The **validated** signed revocations published by one node, in the order of the entries. `entries`
/// is what the store holds; `identity` is the node's identity history, current key first. Where there is
/// no identity nothing counts.
pub fn validated_signed_revocations(
    entries: &Vec<KvEntry>,
    node: &NodeId,
    identity: &Vec<[u8; 32]>,
) -> (r: Vec<SignedRevocation>)
    ensures
        revocations(r@) == counted_revocations(
            entries@,
            node@,
            key_bytes(identity@),
            entries@.len() as int,
        ),
{
    let mut out: Vec<SignedRevocation> = Vec::new();
    let ghost id = key_bytes(identity@);
    let own = join(REVOCATION_PREFIX, crate::keys::slash(node.text().as_str(), "").as_str());
    proof {
        reveal_strlit("");
        assert(own@ =~= revocation_log_of(node@));
    }
    let mut k: usize = 0;
    assert(revocations(out@) =~= Seq::empty());
    while k < entries.len()
        invariant
            k <= entries@.len(),
            own@ == revocation_log_of(node@),
            id == key_bytes(identity@),
            revocations(out@) == counted_revocations(entries@, node@, id, k as int),
        decreases entries@.len() - k,
    {
        let ghost before = out@;
        if identity.len() > 0 && starts_with(entries[k].key.as_str(), own.as_str()) {
            assert(id[0] == identity@[0]@);
            if let Some(s) = SignedRevocation::decode(entries[k].value.as_slice()) {
                if s.event.node_id.is(node) && s.verify(&identity[0]) && has_key(
                    identity,
                    &s.event.revoked_key,
                ) {
                    let ghost pair = (s.event@, s.sig@);
                    out.push(s);
                    assert(revocations(out@) =~= revocations(before).push(pair));
                }
            }
        }
        k += 1;
    }
    out
}

/// Does the entry revoke this key for the node?
pub open spec fn entry_revokes(e: KvEntry, node: NodeModel, identity: Seq<Seq<u8>>, key: Seq<u8>) -> bool {
    counted_entry(e, node, identity) matches Some((event, sig)) && event.revoked_key == key
}

/// Does one of the first `k` entries revoke this key for the node?
pub open spec fn revokes(
    entries: Seq<KvEntry>,
    node: NodeModel,
    identity: Seq<Seq<u8>>,
    k: int,
    key: Seq<u8>,
) -> bool {
    exists|j: int| 0 <= j < k && #[trigger] entry_revokes(entries[j], node, identity, key)
}

/// Is one of the listed revocations of this key?
pub open spec fn lists_key(list: Seq<(EventModel, Seq<u8>)>, key: Seq<u8>) -> bool {
    exists|i: int| 0 <= i < list.len() && (#[trigger] list[i]).0.revoked_key == key
}

/// The validated revocations are of exactly the keys that the entries revoke, and each of them is the
/// node's own, signed by its current key, of one of its own keys: a forged entry has no effect.
pub proof fn lemma_only_valid_revocations_count(
    entries: Seq<KvEntry>,
    node: NodeModel,
    identity: Seq<Seq<u8>>,
    k: int,
    key: Seq<u8>,
)
    requires
        0 <= k <= entries.len(),
    ensures
        lists_key(counted_revocations(entries, node, identity, k), key) <==> revokes(
            entries,
            node,
            identity,
            k,
            key,
        ),
        forall|i: int|
            0 <= i < counted_revocations(entries, node, identity, k).len() ==> {
                let r = #[trigger] counted_revocations(entries, node, identity, k)[i];
                counts(r.0, r.1, node, identity)
            },
    decreases k,
{
    if k > 0 {
        lemma_only_valid_revocations_count(entries, node, identity, k - 1, key);
        let front = counted_revocations(entries, node, identity, k - 1);
        let now = counted_revocations(entries, node, identity, k);
        let last = entries[k - 1];
        assert(revokes(entries, node, identity, k, key) <==> revokes(entries, node, identity, k - 1, key)
            || entry_revokes(last, node, identity, key)) by {
            if revokes(entries, node, identity, k, key) {
                let j: int = choose|j: int| 0 <= j < k && #[trigger] entry_revokes(entries[j], node, identity, key);
                assert(j < k - 1 ==> entry_revokes(entries[j], node, identity, key));
            }
            if revokes(entries, node, identity, k - 1, key) {
                let j: int = choose|j: int|
                    0 <= j < k - 1 && #[trigger] entry_revokes(entries[j], node, identity, key);
                assert(entry_revokes(entries[j], node, identity, key));
            }
        }
        assert(lists_key(now, key) <==> lists_key(front, key) || entry_revokes(last, node, identity, key)) by {
            if lists_key(front, key) {
                let i: int = choose|i: int| 0 <= i < front.len() && (#[trigger] front[i]).0.revoked_key == key;
                assert(now[i] == front[i]);
            }
            if entry_revokes(last, node, identity, key) {
                assert(now[front.len() as int].0.revoked_key == key);
            }
            if lists_key(now, key) {
                let i: int = choose|i: int| 0 <= i < now.len() && (#[trigger] now[i]).0.revoked_key == key;
                assert(i < front.len() ==> front[i] == now[i]);
            }
        }
        assert forall|i: int| 0 <= i < now.len() implies {
            let r = #[trigger] now[i];
            counts(r.0, r.1, node, identity)
        } by {
            if i < front.len() {
                assert(now[i] == front[i]);
            }
        }
    }
}

/// The node a revocation entry's key names.
pub open spec fn revocation_node_of(key: Seq<char>) -> Option<NodeModel> {
    match after_prefix(key, REVOCATION_PREFIX@) {
        Some(rest) => match split_at_first(rest, '/') {
            Some((node, hex)) => node_of(node),
            None => None,
        },
        None => None,
    }
}

impl Ranked for NodeId {
    open spec fn at_or_before(&self, other: &Self) -> bool {
        text_le(self@.text(), other@.text())
    }

    proof fn lemma_order(a: &Self, b: &Self, c: &Self) {
        lemma_text_le_total(a@.text(), b@.text());
        if text_le(a@.text(), b@.text()) && text_le(b@.text(), c@.text()) {
            lemma_text_le_transitive(a@.text(), b@.text(), c@.text());
        }
    }

    fn rank(&self, other: &Self) -> (r: bool) {
        text_at_or_before(self.text().as_str(), other.text().as_str())
    }
}

/// Sorting neither adds a node nor loses one.
proof fn lemma_same_nodes(a: Seq<NodeId>, b: Seq<NodeId>)
    requires
        a.to_multiset() == b.to_multiset(),
    ensures
        forall|n: NodeModel| nodes(a).contains(n) ==> nodes(b).contains(n),
{
    broadcast use vstd::seq_lib::group_to_multiset_ensures;

    assert forall|n: NodeModel| nodes(a).contains(n) implies nodes(b).contains(n) by {
        let i = choose|i: int| 0 <= i < nodes(a).len() && nodes(a)[i] == n;
        assert(a.contains(a[i]));
        assert(a.to_multiset().count(a[i]) > 0);
        assert(b.to_multiset().count(a[i]) > 0);
        assert(b.contains(a[i]));
        let j = choose|j: int| 0 <= j < b.len() && b[j] == a[i];
        assert(nodes(b)[j] == n);
    }
}

/// Distinct nodes that have published at least one revocation, in the order of their texts.
pub fn revocation_nodes(keys: &Vec<String>) -> (r: Vec<NodeId>)
    ensures
        sorted(r@),
        forall|n: NodeModel|
            nodes(r@).contains(n) <==> exists|i: int|
                0 <= i < keys@.len() && revocation_node_of((#[trigger] keys@[i])@) == Some(n),
        r@.len() == distinct(keys@, keys@.len() as int).len(),
{
    let mut set: Vec<NodeId> = Vec::new();
    let mut k: usize = 0;
    assert(nodes(set@) =~= distinct(keys@, 0));
    while k < keys.len()
        invariant
            k <= keys@.len(),
            nodes(set@) == distinct(keys@, k as int),
        decreases keys@.len() - k,
    {
        let mut found: Option<NodeId> = None;
        if let Some(rest) = strip_prefix(keys[k].as_str(), REVOCATION_PREFIX) {
            if let Some((node, _)) = split_once(rest.as_str(), '/') {
                found = NodeId::parse(node.as_str());
            }
        }
        assert(found is Some == revocation_node_of(keys@[k as int]@) is Some);
        if let Some(n) = found {
            insert(&mut set, n);
        }
        k += 1;
    }
    proof {
        lemma_distinct(keys@, keys@.len() as int);
    }
    let ghost unsorted = set@;
    let r = sort(set);
    proof {
        lemma_same_nodes(unsorted, r@);
        lemma_same_nodes(r@, unsorted);
        assert(r@.len() == nodes(unsorted).len());
    }
    r
}

/// The nodes the first `k` keys name, each once.
pub open spec fn distinct(keys: Seq<String>, k: int) -> Seq<NodeModel>
    decreases k,
{
    if k <= 0 {
        Seq::empty()
    } else {
        let front = distinct(keys, k - 1);
        match revocation_node_of(keys[k - 1]@) {
            Some(n) if !front.contains(n) => front.push(n),
            _ => front,
        }
    }
}

/// Each node is named once, and exactly those the keys name are.
pub proof fn lemma_distinct(keys: Seq<String>, k: int)
    requires
        0 <= k <= keys.len(),
    ensures
        distinct(keys, k).no_duplicates(),
        forall|n: NodeModel|
            distinct(keys, k).contains(n) <==> exists|i: int|
                0 <= i < k && revocation_node_of((#[trigger] keys[i])@) == Some(n),
    decreases k,
{
    if k > 0 {
        lemma_distinct(keys, k - 1);
        let front = distinct(keys, k - 1);
        let now = distinct(keys, k);
        let at = revocation_node_of(keys[k - 1]@);
        assert forall|n: NodeModel| now.contains(n) <==> front.contains(n) || at == Some(n) by {
            if now.len() > front.len() {
                assert(now[front.len() as int] == at->0);
                if front.contains(n) {
                    let i = choose|i: int| 0 <= i < front.len() && front[i] == n;
                    assert(now[i] == n);
                }
            }
        }
    }
}

/// A stored revocation that is signed by anything but the node's current key does not count, whatever it
/// says.
pub proof fn lemma_only_the_current_key_revokes(
    e: KvEntry,
    event: EventModel,
    sig: Seq<u8>,
    node: NodeModel,
    identity: Seq<Seq<u8>>,
)
    requires
        signed_of(e.value@) == Some((event, sig)),
        identity.len() == 0 || !signed_by(event, sig, identity[0]),
    ensures
        counted_entry(e, node, identity) is None,
{
}

/// A node's stored revocation of a key that was never its own does not count.
pub proof fn lemma_only_own_keys_are_revoked(
    e: KvEntry,
    event: EventModel,
    sig: Seq<u8>,
    node: NodeModel,
    identity: Seq<Seq<u8>>,
)
    requires
        signed_of(e.value@) == Some((event, sig)),
        !identity.contains(event.revoked_key) || event.node != node,
    ensures
        counted_entry(e, node, identity) is None,
{
}

/// A node's revocation of one of its own keys, signed by its current key and stored as it is published,
/// counts.
pub proof fn lemma_own_revocation_counts(e: KvEntry, event: EventModel, sig: Seq<u8>, identity: Seq<Seq<u8>>)
    requires
        valid_host(event.node.host),
        event.revoked_key.len() == 32,
        encode_utf8(event.node.text()).len() <= u64::MAX,
        event.reason matches Some(s) ==> encode_utf8(s).len() <= u64::MAX,
        identity.len() > 0,
        signed_by(event, sig, identity[0]),
        identity.contains(event.revoked_key),
        e.key@ == revocation_key_of(event.node, event.revoked_key),
        e.value@ == signed_bytes(event, sig),
    ensures
        counted_entry(e, event.node, identity) == Some((event, sig)),
{
    lemma_revocation_round_trips(event, sig);
    let own = revocation_log_of(event.node);
    assert(e.key@.subrange(0, own.len() as int) =~= own);
}

} // verus!

//! Laws of identity: what a revocation revokes, which keys a member has, who is removed.
use vstd::prelude::*;
use vstd::utf8::*;

use crate::keys::{lemma_after_prefix_of_joined, KvEntry};
use crate::knowledge_keys::{
    knowledge_member_keys, lemma_once, member_keys, once, revoked_among, revoked_key_set, sign_knowledge_record,
    view_members, MemberKeys, SeenKeys, SignAsMemberError,
};
use crate::membership_ops::{
    merged, removal_effects, removal_key, Authorities, Membership, RemovalEffects, RemovalOffer, RemovedMembers,
};
use crate::node_id::{nodes, valid_host, NodeId, NodeModel};
use crate::revocation::{
    counted_entry, counted_revocations, ed25519_public, ed25519_signature, ed25519_verifies, has_key, key_bytes,
    lemma_canonical_binds_every_field, lemma_own_revocation_counts, lemma_revocation_round_trips, revocation_key,
    revocation_nodes, revocations, revokes, signed_of, validated_signed_revocations, RevocationEvent,
    SignedRevocation,
};

verus! {

/// A signed revocation says what was signed, and the signer's own public key verifies it.
pub proof fn lemma_signed_revocation_verifies(
    event: RevocationEvent,
    signing_key: &[u8; 32],
    s: SignedRevocation,
    public: &[u8; 32],
    r: bool,
)
    requires
        call_ensures(SignedRevocation::sign, (event, signing_key), s),
        public@ == ed25519_public(signing_key@),
        call_ensures(SignedRevocation::verify, (&s, public), r),
    ensures
        r,
        s.event.node_id@ == event.node_id@,
        s.event.hlc == event.hlc,
        s.event.revoked_key@ == event.revoked_key@,
        s.sig@.len() == 64,
{
    assert(s.event@ == event@);
}

/// A revocation verifies only where its signature, of sixty-four bytes, is one of the key over its
/// canonical bytes.
pub proof fn lemma_verified_means_signed(s: &SignedRevocation, key: &[u8; 32], canonical: Vec<u8>, r: bool)
    requires
        call_ensures(SignedRevocation::verify, (s, key), r),
        call_ensures(RevocationEvent::canonical, (&s.event,), canonical),
    ensures
        r <==> s.sig@.len() == 64 && ed25519_verifies(key@, canonical@, s.sig@),
{
}

/// Two events have the same canonical bytes only where they agree in every field: no signature of
/// one stands for the other.
pub proof fn lemma_canonical_bytes_tell_events_apart(
    a: &RevocationEvent,
    b: &RevocationEvent,
    ca: Vec<u8>,
    cb: Vec<u8>,
)
    requires
        call_ensures(RevocationEvent::canonical, (a,), ca),
        call_ensures(RevocationEvent::canonical, (b,), cb),
        valid_host(a.node_id@.host),
        valid_host(b.node_id@.host),
        encode_utf8(a.node_id@.text()).len() <= u64::MAX,
        encode_utf8(b.node_id@.text()).len() <= u64::MAX,
        a.reason matches Some(s) ==> encode_utf8(s@).len() <= u64::MAX,
        b.reason matches Some(s) ==> encode_utf8(s@).len() <= u64::MAX,
        ca@ == cb@,
    ensures
        a.node_id@ == b.node_id@,
        a.hlc == b.hlc,
        a.revoked_key@ == b.revoked_key@,
        a.reason is Some <==> b.reason is Some,
        a.reason is Some ==> (a.reason->0)@ == (b.reason->0)@,
{
    lemma_canonical_binds_every_field(a@, b@);
    let x = a@;
    let y = b@;
    assert(x.reason == y.reason);
}

/// A revocation reads back as it was written.
pub proof fn lemma_revocation_reads_back(s: &SignedRevocation, b: Vec<u8>, bytes: &[u8], r: Option<SignedRevocation>)
    requires
        call_ensures(SignedRevocation::encode, (s,), b),
        bytes@ == b@,
        call_ensures(SignedRevocation::decode, (bytes,), r),
        valid_host(s.event.node_id@.host),
        encode_utf8(s.event.node_id@.text()).len() <= u64::MAX,
        s.event.reason matches Some(t) ==> encode_utf8(t@).len() <= u64::MAX,
        s.sig@.len() <= u64::MAX,
    ensures
        r matches Some(t) && t.event.node_id@ == s.event.node_id@ && t.event.hlc == s.event.hlc && t.event.revoked_key@
            == s.event.revoked_key@ && t.sig@ == s.sig@,
{
    lemma_revocation_round_trips(s.event@, s.sig@);
    if r is Some {
        assert((r->0).event@ == s.event@);
    }
}

/// A revocation counts only where it lies in the node's own log, speaks of that node, is signed by
/// the node's current key and revokes one of the node's own keys.
pub proof fn lemma_counted_revocations_are_the_nodes_own(
    entries: &Vec<KvEntry>,
    node: &NodeId,
    identity: &Vec<[u8; 32]>,
    r: Vec<SignedRevocation>,
    i: int,
    canonical: Vec<u8>,
)
    requires
        call_ensures(validated_signed_revocations, (entries, node, identity), r),
        0 <= i < r@.len(),
        call_ensures(RevocationEvent::canonical, (&r@[i].event,), canonical),
    ensures
        identity@.len() > 0,
        r@[i].event.node_id@ == node@,
        r@[i].sig@.len() == 64,
        ed25519_verifies(identity@[0]@, canonical@, r@[i].sig@),
        exists|p: int| 0 <= p < identity@.len() && (#[trigger] identity@[p])@ == r@[i].event.revoked_key@,
        exists|e: int|
            #![trigger entries@[e]]
            {
                let head = "sys/revocation/"@ + node@.text() + "/"@;
                &&& 0 <= e < entries@.len()
                &&& entries@[e].key@.len() >= head.len()
                &&& entries@[e].key@.subrange(0, head.len() as int) == head
                &&& signed_of(entries@[e].value@) == Some((r@[i].event@, r@[i].sig@))
            },
{
    let ids = key_bytes(identity@);
    let k = entries@.len() as int;
    let list = counted_revocations(entries@, node@, ids, k);
    assert(revocations(r@)[i] == (r@[i].event@, r@[i].sig@));
    let e = lemma_counted_from(entries@, node@, ids, k, i);
    let head = "sys/revocation/"@ + node@.text() + "/"@;
    reveal_strlit("/");
    assert(crate::revocation::revocation_log_of(node@) =~= head);
    let p = choose|p: int| 0 <= p < ids.len() && ids[p] == r@[i].event@.revoked_key;
    assert(identity@[p]@ == ids[p]);
    assert(ids[0] == identity@[0]@);
    assert(entries@[e].key@.len() >= head.len());
}

proof fn lemma_counted_from(entries: Seq<KvEntry>, node: NodeModel, identity: Seq<Seq<u8>>, k: int, i: int) -> (e: int)
    requires
        0 <= k <= entries.len(),
        0 <= i < counted_revocations(entries, node, identity, k).len(),
    ensures
        0 <= e < k,
        counted_entry(entries[e], node, identity) == Some(counted_revocations(entries, node, identity, k)[i]),
    decreases k,
{
    let front = counted_revocations(entries, node, identity, k - 1);
    if k <= 0 {
        0
    } else if i < front.len() {
        lemma_counted_from(entries, node, identity, k - 1, i)
    } else {
        k - 1
    }
}

proof fn lemma_counted_is_listed(entries: Seq<KvEntry>, node: NodeModel, identity: Seq<Seq<u8>>, k: int, e: int)
    requires
        0 <= e < k <= entries.len(),
        counted_entry(entries[e], node, identity) is Some,
    ensures
        counted_revocations(entries, node, identity, k).contains(counted_entry(entries[e], node, identity)->0),
    decreases k,
{
    let front = counted_revocations(entries, node, identity, k - 1);
    let now = counted_revocations(entries, node, identity, k);
    let x = counted_entry(entries[e], node, identity)->0;
    if e < k - 1 {
        lemma_counted_is_listed(entries, node, identity, k - 1, e);
        let j = choose|j: int| 0 <= j < front.len() && front[j] == x;
        assert(now[j] == x);
    } else {
        assert(now[front.len() as int] == x);
    }
}

/// A revocation that a node signed with its current key, of a key of its own, and published at its
/// place counts.
pub proof fn lemma_own_published_revocation_counts(
    s: &SignedRevocation,
    b: Vec<u8>,
    key: String,
    entries: &Vec<KvEntry>,
    e: int,
    identity: &Vec<[u8; 32]>,
    verified: bool,
    r: Vec<SignedRevocation>,
)
    requires
        call_ensures(SignedRevocation::encode, (s,), b),
        call_ensures(revocation_key, (&s.event.node_id, &s.event.revoked_key), key),
        0 <= e < entries@.len(),
        entries@[e].key@ == key@,
        entries@[e].value@ == b@,
        identity@.len() > 0,
        call_ensures(SignedRevocation::verify, (s, &identity@[0]), verified),
        verified,
        exists|p: int| 0 <= p < identity@.len() && (#[trigger] identity@[p])@ == s.event.revoked_key@,
        valid_host(s.event.node_id@.host),
        encode_utf8(s.event.node_id@.text()).len() <= u64::MAX,
        s.event.reason matches Some(t) ==> encode_utf8(t@).len() <= u64::MAX,
        call_ensures(validated_signed_revocations, (entries, &s.event.node_id, identity), r),
    ensures
        exists|i: int|
            0 <= i < r@.len() && (#[trigger] r@[i]).event.revoked_key@ == s.event.revoked_key@ && r@[i].event.hlc
                == s.event.hlc && r@[i].sig@ == s.sig@,
{
    let ids = key_bytes(identity@);
    let p = choose|p: int| 0 <= p < identity@.len() && (#[trigger] identity@[p])@ == s.event.revoked_key@;
    assert(ids[p] == s.event@.revoked_key);
    assert(ids.contains(s.event@.revoked_key));
    assert(ids[0] == identity@[0]@);
    lemma_own_revocation_counts(entries@[e], s.event@, s.sig@, ids);
    lemma_counted_is_listed(entries@, s.event.node_id@, ids, entries@.len() as int, e);
    let list = revocations(r@);
    let i = choose|i: int| 0 <= i < list.len() && list[i] == (s.event@, s.sig@);
    assert(list[i] == (r@[i].event@, r@[i].sig@));
    assert(r@[i].event@.revoked_key == s.event@.revoked_key && r@[i].event@.hlc == s.event@.hlc);
}

/// A revocation's place tells the node and the key.
pub proof fn lemma_revocation_place(node: &NodeId, revoked: &[u8; 32], r: String)
    requires
        call_ensures(revocation_key, (node, revoked), r),
    ensures
        r@ == "sys/revocation/"@ + node@.text() + "/"@ + crate::hex::hex_of(revoked@),
{
    reveal_strlit("/");
    assert(r@ =~= "sys/revocation/"@ + node@.text() + "/"@ + crate::hex::hex_of(revoked@));
}

/// A key is held where it is one of the list.
pub proof fn lemma_key_is_held(v: &Vec<[u8; 32]>, k: &[u8; 32], r: bool)
    requires
        call_ensures(has_key, (v, k), r),
    ensures
        r <==> exists|i: int| 0 <= i < v@.len() && (#[trigger] v@[i])@ == k@,
{
    lemma_key_found(v@, k@);
}

/// Bytes are among the keys of a list where they are those of one of its keys.
pub proof fn lemma_key_found(v: Seq<[u8; 32]>, k: Seq<u8>)
    ensures
        key_bytes(v).contains(k) <==> exists|i: int| 0 <= i < v.len() && (#[trigger] v[i])@ == k,
{
    if key_bytes(v).contains(k) {
        let i = choose|i: int| 0 <= i < key_bytes(v).len() && key_bytes(v)[i] == k;
        assert(v[i]@ == k);
    }
    if exists|i: int| 0 <= i < v.len() && (#[trigger] v[i])@ == k {
        let i = choose|i: int| 0 <= i < v.len() && (#[trigger] v[i])@ == k;
        assert(key_bytes(v)[i] == k);
    }
}

/// A member keeps the keys that were seen of it, each once, and its current one; of those it keeps,
/// the revoked ones are marked, and no other.
pub proof fn lemma_member_keeps_its_keys(
    node: &NodeId,
    seen: &Vec<[u8; 32]>,
    own: Option<&[u8; 32]>,
    revoked: &Vec<[u8; 32]>,
    r: MemberKeys,
)
    requires
        call_ensures(member_keys, (node, seen, own, revoked), r),
    ensures
        r.node@ == node@,
        forall|k: Seq<u8>| #[trigger]
            key_bytes(r.retained@).contains(k) <==> key_bytes(seen@).contains(k) || (own matches Some(c) && c@ == k),
        key_bytes(r.retained@).no_duplicates(),
        forall|k: Seq<u8>| #[trigger]
            key_bytes(r.revoked@).contains(k) <==> key_bytes(r.retained@).contains(k) && key_bytes(revoked@).contains(k),
        own matches Some(c) ==> (!key_bytes(seen@).contains(c@) ==> r.retained@.len() > 0 && r.retained@[0]@ == c@),
{
    let s = key_bytes(seen@);
    let o = crate::knowledge_keys::maybe_bytes(own);
    lemma_retained(s, o);
    let kept = crate::knowledge_keys::retained_for(s, o);
    lemma_revoked_among(kept, key_bytes(revoked@).to_set(), kept.len() as int);
    assert(kept.take(kept.len() as int) =~= kept);
    assert(key_bytes(r.retained@).len() == r.retained@.len());
    assert forall|k: Seq<u8>| #[trigger] key_bytes(revoked@).contains(k) <==> key_bytes(revoked@).to_set().contains(k) by {}
    if own is Some && !s.contains((own->0)@) {
        lemma_once(s, s.len() as int);
        assert(s.take(s.len() as int) =~= s);
        assert(kept[0] == (own->0)@);
        assert(key_bytes(r.retained@)[0] == r.retained@[0]@);
    }
}

proof fn lemma_retained(seen: Seq<Seq<u8>>, own: Option<Seq<u8>>)
    ensures
        forall|k: Seq<u8>| #[trigger]
            crate::knowledge_keys::retained_for(seen, own).contains(k) <==> seen.contains(k) || own == Some(k),
        crate::knowledge_keys::retained_for(seen, own).no_duplicates(),
{
    let keys = once(seen, seen.len() as int);
    let kept = crate::knowledge_keys::retained_for(seen, own);
    lemma_once(seen, seen.len() as int);
    assert(seen.take(seen.len() as int) =~= seen);
    if own is Some && !keys.contains(own->0) {
        let c = own->0;
        assert(kept == seq![c] + keys);
        assert forall|k: Seq<u8>| #[trigger] kept.contains(k) <==> seen.contains(k) || own == Some(k) by {
            if keys.contains(k) {
                let i = choose|i: int| 0 <= i < keys.len() && keys[i] == k;
                assert(kept[i + 1] == k);
            }
            if kept.contains(k) {
                let i = choose|i: int| 0 <= i < kept.len() && kept[i] == k;
                if i > 0 {
                    assert(keys[i - 1] == k);
                }
            }
            assert(kept[0] == c);
        }
        assert forall|i: int, j: int| 0 <= i < kept.len() && 0 <= j < kept.len() && i != j implies kept[i] != kept[j] by {
            if i > 0 {
                assert(kept[i] == keys[i - 1]);
            }
            if j > 0 {
                assert(kept[j] == keys[j - 1]);
            }
        }
    }
}

proof fn lemma_revoked_among(keys: Seq<Seq<u8>>, revoked: Set<Seq<u8>>, k: int)
    requires
        0 <= k <= keys.len(),
    ensures
        forall|x: Seq<u8>| #[trigger]
            revoked_among(keys, revoked, k).contains(x) <==> keys.take(k).contains(x) && revoked.contains(x),
    decreases k,
{
    if k > 0 {
        lemma_revoked_among(keys, revoked, k - 1);
        let front = revoked_among(keys, revoked, k - 1);
        let now = revoked_among(keys, revoked, k);
        assert forall|x: Seq<u8>| #[trigger] now.contains(x) <==> keys.take(k).contains(x) && revoked.contains(x) by {
            if front.contains(x) {
                let j = choose|j: int| 0 <= j < front.len() && front[j] == x;
                assert(now[j] == x);
                let prior = keys.take(k - 1);
                let l = choose|l: int| 0 <= l < prior.len() && prior[l] == x;
                assert(keys.take(k)[l] == x);
            }
            if now.contains(x) && !front.contains(x) {
                let j = choose|j: int| 0 <= j < now.len() && now[j] == x;
                assert(j == front.len());
                assert(keys.take(k)[k - 1] == x);
            }
            if keys.take(k).contains(x) && revoked.contains(x) {
                let l = choose|l: int| 0 <= l < keys.take(k).len() && keys.take(k)[l] == x;
                if l == k - 1 {
                    assert(now[front.len() as int] == x);
                } else {
                    assert(keys.take(k - 1)[l] == x);
                }
            }
        }
    } else {
        assert(keys.take(0).len() == 0);
    }
}

/// A view of the members has each member seen, in order, and the node itself where it has a key and
/// was not seen; the current key is the node's own alone.
pub proof fn lemma_view_has_every_member(
    seen: &Vec<SeenKeys>,
    me: &NodeId,
    current: Option<&[u8; 32]>,
    revoked: &Vec<[u8; 32]>,
    r: Vec<MemberKeys>,
)
    requires
        call_ensures(view_members, (seen, me, current, revoked), r),
    ensures
        r@.len() >= seen@.len(),
        r@.len() <= seen@.len() + 1,
        forall|i: int|
            0 <= i < seen@.len() ==> (#[trigger] r@[i]).node@ == seen@[i].node@ && (forall|k: Seq<u8>| #[trigger]
                key_bytes(r@[i].retained@).contains(k) <==> key_bytes(seen@[i].keys@).contains(k) || (
                seen@[i].node@ == me@ && (current matches Some(c) && c@ == k))) && (forall|k: Seq<u8>| #[trigger]
                key_bytes(r@[i].revoked@).contains(k) <==> key_bytes(r@[i].retained@).contains(k) && key_bytes(
                    revoked@,
                ).contains(k)),
        r@.len() > seen@.len() <==> current is Some && forall|i: int|
            0 <= i < seen@.len() ==> (#[trigger] seen@[i]).node@ != me@,
        r@.len() > seen@.len() ==> r@.last().node@ == me@ && (forall|k: Seq<u8>| #[trigger]
            key_bytes(r@.last().retained@).contains(k) <==> k == (current->0)@),
{
    let rev = key_bytes(revoked@).to_set();
    let cur = crate::knowledge_keys::maybe_bytes(current);
    assert forall|i: int| 0 <= i < seen@.len() implies (#[trigger] r@[i]).node@ == seen@[i].node@ && (forall|
        k: Seq<u8>,
    | #[trigger]
        key_bytes(r@[i].retained@).contains(k) <==> key_bytes(seen@[i].keys@).contains(k) || (seen@[i].node@ == me@ && (
        current matches Some(c) && c@ == k))) && (forall|k: Seq<u8>| #[trigger]
        key_bytes(r@[i].revoked@).contains(k) <==> key_bytes(r@[i].retained@).contains(k) && key_bytes(
            revoked@,
        ).contains(k)) by {
        let own = if seen@[i].node@ == me@ {
            cur
        } else {
            None
        };
        assert(crate::knowledge_keys::keys_of_member(r@[i], seen@[i].node@, key_bytes(seen@[i].keys@), own, rev));
        lemma_retained(key_bytes(seen@[i].keys@), own);
        let kept = crate::knowledge_keys::retained_for(key_bytes(seen@[i].keys@), own);
        lemma_revoked_among(kept, rev, kept.len() as int);
        assert(kept.take(kept.len() as int) =~= kept);
        assert forall|k: Seq<u8>| #[trigger] key_bytes(revoked@).contains(k) <==> rev.contains(k) by {}
    }
    if r@.len() > seen@.len() {
        lemma_retained(Seq::empty(), cur);
        assert(crate::knowledge_keys::keys_of_member(r@.last(), me@, Seq::empty(), cur, rev));
    }
}

/// The keys of the members, with what was revoked looked up: what the view says of the set of
/// revoked keys.
pub proof fn lemma_knowledge_view_marks_the_revoked(
    seen: &Vec<SeenKeys>,
    me: &NodeId,
    current: Option<&[u8; 32]>,
    removed: &Vec<[u8; 32]>,
    entries: &Vec<KvEntry>,
    identities: &Vec<(NodeId, Vec<[u8; 32]>)>,
    set: Vec<[u8; 32]>,
    r: Vec<MemberKeys>,
    i: int,
)
    requires
        call_ensures(knowledge_member_keys, (seen, me, current, removed, entries, identities), r),
        call_ensures(revoked_key_set, (removed, entries, identities), set),
        0 <= i < seen@.len(),
    ensures
        r@[i].node@ == seen@[i].node@,
        forall|k: Seq<u8>| #[trigger]
            key_bytes(r@[i].revoked@).contains(k) <==> key_bytes(r@[i].retained@).contains(k) && key_bytes(set@).contains(
                k,
            ),
        forall|k: Seq<u8>| #[trigger]
            key_bytes(removed@).contains(k) && key_bytes(r@[i].retained@).contains(k) ==> key_bytes(
                r@[i].revoked@,
            ).contains(k),
{
    let rev = key_bytes(set@).to_set();
    let cur = crate::knowledge_keys::maybe_bytes(current);
    let own = if seen@[i].node@ == me@ {
        cur
    } else {
        None
    };
    assert(crate::knowledge_keys::keys_of_member(r@[i], seen@[i].node@, key_bytes(seen@[i].keys@), own, rev));
    let kept = crate::knowledge_keys::retained_for(key_bytes(seen@[i].keys@), own);
    lemma_revoked_among(kept, rev, kept.len() as int);
    assert(kept.take(kept.len() as int) =~= kept);
    assert forall|k: Seq<u8>| #[trigger] key_bytes(set@).contains(k) <==> rev.contains(k) by {}
    assert forall|k: Seq<u8>| #[trigger] key_bytes(removed@).contains(k) && key_bytes(r@[i].retained@).contains(
        k,
    ) implies key_bytes(r@[i].revoked@).contains(k) by {
        assert(rev.contains(k));
    }
}

/// A key is revoked where it belonged to a removed member, or where a node's own counted revocation
/// names it; the counted revocations of every node that published one are heeded.
pub proof fn lemma_revoked_keys_have_a_reason(
    removed: &Vec<[u8; 32]>,
    entries: &Vec<KvEntry>,
    identities: &Vec<(NodeId, Vec<[u8; 32]>)>,
    r: Vec<[u8; 32]>,
)
    requires
        call_ensures(revoked_key_set, (removed, entries, identities), r),
    ensures
        key_bytes(r@).no_duplicates(),
        forall|k: Seq<u8>| key_bytes(removed@).contains(k) ==> #[trigger] key_bytes(r@).contains(k),
        forall|k: Seq<u8>| #[trigger]
            key_bytes(r@).contains(k) && !key_bytes(removed@).contains(k) ==> exists|e: int|
                #![trigger entries@[e]]
                0 <= e < entries@.len() && (signed_of(entries@[e].value@) matches Some((event, sig))
                    && event.revoked_key == k && sig.len() == 64),
{
    let set = key_bytes(r@).to_set();
    assert forall|k: Seq<u8>| key_bytes(removed@).contains(k) implies #[trigger] key_bytes(r@).contains(k) by {
        assert(set.contains(k));
    }
    assert forall|k: Seq<u8>| #[trigger]
        key_bytes(r@).contains(k) && !key_bytes(removed@).contains(k) implies exists|e: int|
        #![trigger entries@[e]]
        0 <= e < entries@.len() && (signed_of(entries@[e].value@) matches Some((event, sig)) && event.revoked_key == k
            && sig.len() == 64) by {
        assert(set.contains(k));
        let n = choose|n: NodeModel|
            crate::knowledge_keys::publishes(entries@, n) && #[trigger] crate::knowledge_keys::revoked_by(
                entries@,
                identities@,
                n,
                k,
            );
        let ids = crate::knowledge_keys::identity_of(identities@, n, 0);
        let e = choose|e: int|
            0 <= e < entries@.len() && #[trigger] crate::revocation::entry_revokes(entries@[e], n, ids, k);
        assert(signed_of(entries@[e].value@) is Some);
    }
}

/// A record is signed only for the member that this node is, with its own key.
pub proof fn lemma_signs_only_as_itself(
    issuer: &str,
    mine: &str,
    canonical: &[u8],
    key: Option<&[u8; 32]>,
    r: Result<[u8; 64], SignAsMemberError>,
)
    requires
        call_ensures(sign_knowledge_record, (issuer, mine, canonical, key), r),
    ensures
        r is Ok <==> issuer@ == mine@ && key is Some,
        r matches Ok(sig) ==> sig@ == ed25519_signature((key->0)@, canonical@),
        issuer@ != mine@ ==> r is Err && r->Err_0 is NotThisMember,
        issuer@ == mine@ && key is None ==> r == Err::<[u8; 64], SignAsMemberError>(SignAsMemberError::NoIdentity),
{
}

/// A removal that is accepted removes the node with every key that was named, seen or anchored; one
/// that is refused, or of a node already removed, changes nothing. Nothing removed ever comes back.
pub proof fn lemma_removal_takes_the_node_and_its_keys(
    m: &mut RemovedMembers,
    node: &NodeId,
    refusal: Option<String>,
    named: &Vec<[u8; 32]>,
    seen: &Vec<[u8; 32]>,
    anchored: &Vec<[u8; 32]>,
    r: RemovalOffer,
    was: bool,
    is: bool,
)
    requires
        call_ensures(RemovedMembers::is_node_removed, (&*old(m), node), was),
        call_ensures(RemovedMembers::apply, (m, node, refusal, named, seen, anchored), r),
        call_ensures(RemovedMembers::is_node_removed, (&*final(m), node), is),
    ensures
        was ==> r == RemovalOffer::AlreadyRemoved,
        !was && refusal is Some ==> r == RemovalOffer::Refused(refusal->0),
        !was && refusal is None ==> r == RemovalOffer::Accepted,
        r != RemovalOffer::Accepted ==> *final(m) == *old(m),
        r == RemovalOffer::Accepted ==> is,
        r == RemovalOffer::Accepted ==> forall|k: Seq<u8>| #[trigger]
            key_bytes(final(m).keys@).contains(k) <==> key_bytes(old(m).keys@).contains(k) || key_bytes(named@).contains(
                k,
            ) || key_bytes(seen@).contains(k) || key_bytes(anchored@).contains(k),
        forall|n: NodeModel| nodes(old(m).nodes@).contains(n) ==> #[trigger] nodes(final(m).nodes@).contains(n),
        forall|n: NodeModel| #[trigger]
            nodes(final(m).nodes@).contains(n) ==> nodes(old(m).nodes@).contains(n) || (n == node@ && r
                == RemovalOffer::Accepted),
{
    if r == RemovalOffer::Accepted {
        let h = key_bytes(old(m).keys@);
        let n = key_bytes(named@);
        let s = key_bytes(seen@);
        let x = key_bytes(anchored@);
        let a = merged(h, n, n.len() as int);
        let b = merged(a, s, s.len() as int);
        lemma_merged_is_the_union(h, n, n.len() as int);
        lemma_merged_is_the_union(a, s, s.len() as int);
        lemma_merged_is_the_union(b, x, x.len() as int);
        assert(n.take(n.len() as int) =~= n);
        assert(s.take(s.len() as int) =~= s);
        assert(x.take(x.len() as int) =~= x);
        let before = nodes(old(m).nodes@);
        let after = nodes(final(m).nodes@);
        assert(after == before.push(node@));
        assert(after[before.len() as int] == node@);
        assert forall|q: NodeModel| before.contains(q) implies #[trigger] after.contains(q) by {
            let i = choose|i: int| 0 <= i < before.len() && before[i] == q;
            assert(after[i] == q);
        }
        assert forall|q: NodeModel| #[trigger] after.contains(q) implies before.contains(q) || q == node@ by {
            let i = choose|i: int| 0 <= i < after.len() && after[i] == q;
            if i < before.len() {
                assert(before[i] == q);
            }
        }
    }
}

proof fn lemma_merged_is_the_union(have: Seq<Seq<u8>>, more: Seq<Seq<u8>>, k: int)
    requires
        0 <= k <= more.len(),
    ensures
        forall|x: Seq<u8>| #[trigger]
            merged(have, more, k).contains(x) <==> have.contains(x) || more.take(k).contains(x),
    decreases k,
{
    if k > 0 {
        lemma_merged_is_the_union(have, more, k - 1);
        let front = merged(have, more, k - 1);
        let now = merged(have, more, k);
        assert forall|x: Seq<u8>| #[trigger] now.contains(x) <==> have.contains(x) || more.take(k).contains(x) by {
            if front.contains(x) {
                let j = choose|j: int| 0 <= j < front.len() && front[j] == x;
                assert(now[j] == x);
            }
            if more.take(k - 1).contains(x) {
                let prior = more.take(k - 1);
                let l = choose|l: int| 0 <= l < prior.len() && prior[l] == x;
                assert(more.take(k)[l] == x);
            }
            if now.contains(x) && !front.contains(x) {
                let j = choose|j: int| 0 <= j < now.len() && now[j] == x;
                assert(j == front.len());
                assert(more.take(k)[k - 1] == x);
            }
            if more.take(k).contains(x) && !more.take(k - 1).contains(x) {
                let l = choose|l: int| 0 <= l < more.take(k).len() && more.take(k)[l] == x;
                if l < k - 1 {
                    assert(more.take(k - 1)[l] == x);
                }
                if !front.contains(more[k - 1]) {
                    assert(now[front.len() as int] == x);
                }
            }
        }
    } else {
        assert(more.take(0).len() == 0);
    }
}

/// Only an accepted removal cuts a node off, and it is published where this node offered it.
pub proof fn lemma_only_an_accepted_removal_cuts_off(
    offer: &RemovalOffer,
    node: &NodeId,
    publish: bool,
    r: RemovalEffects,
    key: String,
)
    requires
        call_ensures(removal_effects, (offer, node, publish), r),
        call_ensures(removal_key, (node,), key),
    ensures
        r.cut_off <==> offer is Accepted,
        r.publish_at is Some <==> offer is Accepted && publish,
        r.publish_at matches Some(k) ==> k@ == key@,
        key@ == "sys/membership/removed/"@ + node@.text(),
{
}

/// Without authorities no removal is heard; with them one is decided, published where it was
/// offered here and not where it was only heard. Authorities are set once.
pub proof fn lemma_removals_need_authorities(
    m: &mut Membership,
    p: &mut Membership,
    node: &NodeId,
    refusal: Option<String>,
    named: &Vec<[u8; 32]>,
    seen: &Vec<[u8; 32]>,
    anchored: &Vec<[u8; 32]>,
    r: Option<(RemovalOffer, RemovalEffects)>,
    s: Option<(RemovalOffer, RemovalEffects)>,
    q: &mut Membership,
    authorities: Authorities,
    set: bool,
)
    requires
        call_ensures(Membership::offer_member_removal, (m, node, refusal, named, seen, anchored), r),
        call_ensures(Membership::ingest_removal, (p, node, refusal, named, seen, anchored), s),
        call_ensures(Membership::with_membership_authorities, (q, authorities), set),
    ensures
        r is None <==> old(m).authorities is None,
        r is None ==> *final(m) == *old(m),
        r matches Some((offer, effects)) ==> {
            &&& effects.cut_off <==> offer is Accepted
            &&& effects.publish_at is Some <==> offer is Accepted
            &&& offer is Accepted ==> refusal is None && !nodes(old(m).removed.nodes@).contains(node@) && nodes(
                final(m).removed.nodes@,
            ).contains(node@)
            &&& !(offer is Accepted) ==> final(m).removed == old(m).removed
        },
        s matches Some((offer, effects)) ==> effects.publish_at is None && (effects.cut_off <==> offer is Accepted),
        final(m).authorities == old(m).authorities,
        set <==> old(q).authorities is None,
        set ==> final(q).authorities == Some(authorities),
        !set ==> *final(q) == *old(q),
{
    if r is Some && (r->0).0 is Accepted {
        let after = nodes(final(m).removed.nodes@);
        let before = nodes(old(m).removed.nodes@);
        assert(after[before.len() as int] == node@);
    }
}

/// The nodes that published a revocation are listed in the order of their names.
pub proof fn lemma_publishers_are_sorted(keys: &Vec<String>, r: Vec<NodeId>)
    requires
        call_ensures(revocation_nodes, (keys,), r),
    ensures
        forall|a: int, b: int|
            #![trigger r@[a], r@[b]]
            0 <= a < b < r@.len() ==> crate::order::text_le(r@[a]@.text(), r@[b]@.text()),
{
    assert forall|a: int, b: int|
        #![trigger r@[a], r@[b]]
        0 <= a < b < r@.len() implies crate::order::text_le(r@[a]@.text(), r@[b]@.text()) by {
        assert(crate::order::Ranked::at_or_before(&r@[a], &r@[b]));
    }
}

/// What a node validly revoked is revoked: every revocation that counts under the identity held for
/// the node is heeded.
pub proof fn lemma_counted_revocations_are_heeded(
    removed: &Vec<[u8; 32]>,
    entries: &Vec<KvEntry>,
    identities: &Vec<(NodeId, Vec<[u8; 32]>)>,
    r: Vec<[u8; 32]>,
    d: int,
    list: Vec<SignedRevocation>,
    i: int,
)
    requires
        call_ensures(revoked_key_set, (removed, entries, identities), r),
        0 <= d < identities@.len(),
        forall|l: int| 0 <= l < d ==> (#[trigger] identities@[l]).0@ != identities@[d].0@,
        valid_host(identities@[d].0@.host),
        call_ensures(validated_signed_revocations, (entries, &identities@[d].0, &identities@[d].1), list),
        0 <= i < list@.len(),
    ensures
        exists|k: int| 0 <= k < r@.len() && (#[trigger] r@[k])@ == list@[i].event.revoked_key@,
{
    let n = identities@[d].0@;
    let ids = key_bytes(identities@[d].1@);
    lemma_identity_first(identities@, 0, d);
    let e = lemma_counted_from(entries@, n, ids, entries@.len() as int, i);
    assert(revocations(list@)[i] == (list@[i].event@, list@[i].sig@));
    let key = list@[i].event.revoked_key@;
    assert(crate::revocation::entry_revokes(entries@[e], n, ids, key));
    assert(revokes(entries@, n, ids, entries@.len() as int, key));
    let at = entries@[e].key@;
    let head = crate::revocation::revocation_log_of(n);
    let rest = at.subrange(head.len() as int, at.len() as int);
    assert(at =~= head + rest);
    assert(head =~= "sys/revocation/"@ + (n.text() + seq!['/']));
    assert(at =~= "sys/revocation/"@ + (n.text() + seq!['/'] + rest));
    lemma_after_prefix_of_joined("sys/revocation/"@, n.text() + seq!['/'] + rest);
    crate::node_id::lemma_node_text_no_slash(n);
    crate::text::lemma_split_at_first_of_joined(n.text(), '/', rest);
    crate::node_id::lemma_node_text_parses(n);
    assert(crate::revocation::revocation_node_of(at) == Some(n));
    assert(crate::knowledge_keys::publishes(entries@, n));
    assert(crate::knowledge_keys::revoked_by(entries@, identities@, n, key));
    assert(key_bytes(r@).to_set().contains(key));
    lemma_key_found(r@, key);
}

proof fn lemma_identity_first(identities: Seq<(NodeId, Vec<[u8; 32]>)>, i: int, d: int)
    requires
        0 <= i <= d < identities.len(),
        forall|l: int| 0 <= l < d ==> (#[trigger] identities[l]).0@ != identities[d].0@,
    ensures
        crate::knowledge_keys::identity_of(identities, identities[d].0@, i) == key_bytes(identities[d].1@),
    decreases d - i,
{
    if i < d {
        lemma_identity_first(identities, i + 1, d);
    }
}

/// A node is listed as having published a revocation exactly where a key of the revocations names it.
pub proof fn lemma_publishers_are_named(keys: &Vec<String>, r: Vec<NodeId>, n: NodeModel, i: int, rest: Seq<char>)
    requires
        call_ensures(revocation_nodes, (keys,), r),
        valid_host(n.host),
        0 <= i < keys@.len(),
        keys@[i]@ == "sys/revocation/"@ + n.text() + "/"@ + rest,
    ensures
        nodes(r@).contains(n),
{
    reveal_strlit("/");
    let tail = n.text() + seq!['/'] + rest;
    assert(keys@[i]@ =~= "sys/revocation/"@ + tail);
    lemma_after_prefix_of_joined("sys/revocation/"@, tail);
    crate::node_id::lemma_node_text_no_slash(n);
    crate::text::lemma_split_at_first_of_joined(n.text(), '/', rest);
    crate::node_id::lemma_node_text_parses(n);
    assert(crate::revocation::revocation_node_of(keys@[i]@) == Some(n));
}

/// No node is listed that no key of the revocations names.
pub proof fn lemma_only_publishers_are_listed(keys: &Vec<String>, r: Vec<NodeId>, j: int)
    requires
        call_ensures(revocation_nodes, (keys,), r),
        0 <= j < r@.len(),
    ensures
        exists|i: int|
            #![trigger keys@[i]]
            0 <= i < keys@.len() && keys@[i]@.len() >= 15 && keys@[i]@.subrange(0, 15) == "sys/revocation/"@,
{
    reveal_strlit("sys/revocation/");
    assert(nodes(r@)[j] == r@[j]@);
    assert(nodes(r@).contains(r@[j]@));
    let i = choose|i: int|
        0 <= i < keys@.len() && crate::revocation::revocation_node_of((#[trigger] keys@[i])@) == Some(r@[j]@);
    assert(keys@[i]@.len() >= 15);
}

} // verus!

//! Members' identity keys, as far as this node knows them: which are retained, which revoked.
use crate::keys::KvEntry;
use crate::node_id::{nodes, NodeId, NodeModel};
use crate::revocation::{
    ed25519_public, ed25519_signature, ed25519_verifies, has_key, key_bytes, lemma_only_valid_revocations_count,
    lists_key, revocation_node_of, revocation_nodes, revocations, revokes, signature_bytes,
    validated_signed_revocations, SignedRevocation,
};
use crate::text::same;
use vstd::prelude::*;
use vstd::string::*;

verus! {

/// One member's keys.
#[derive(Debug, PartialEq, Eq)]
pub struct MemberKeys {
    /// The member.
    pub node: NodeId,
    /// Its keys, current and historical, each once. A revoked key stays here: a record signed under
    /// it is still attributable as history.
    pub retained: Vec<[u8; 32]>,
    /// Those of them that are validly revoked.
    pub revoked: Vec<[u8; 32]>,
}

/// The first `k` keys, each once.
pub open spec fn once(keys: Seq<Seq<u8>>, k: int) -> Seq<Seq<u8>>
    decreases k,
{
    if k <= 0 {
        Seq::empty()
    } else {
        let front = once(keys, k - 1);
        if front.contains(keys[k - 1]) {
            front
        } else {
            front.push(keys[k - 1])
        }
    }
}

/// `keys` with `current` in front, unless it is among them.
pub open spec fn with_current(keys: Seq<Seq<u8>>, current: Seq<u8>) -> Seq<Seq<u8>> {
    if keys.contains(current) {
        keys
    } else {
        seq![current] + keys
    }
}

/// The keys among the first `k` that are revoked.
pub open spec fn revoked_among(keys: Seq<Seq<u8>>, revoked: Set<Seq<u8>>, k: int) -> Seq<Seq<u8>>
    decreases k,
{
    if k <= 0 {
        Seq::empty()
    } else {
        let front = revoked_among(keys, revoked, k - 1);
        if revoked.contains(keys[k - 1]) {
            front.push(keys[k - 1])
        } else {
            front
        }
    }
}

/// The keys retained for a member: those seen, each once, and this node's own current key in front
/// where the member is this node.
pub open spec fn retained_for(seen: Seq<Seq<u8>>, own: Option<Seq<u8>>) -> Seq<Seq<u8>> {
    let keys = once(seen, seen.len() as int);
    match own {
        Some(current) => with_current(keys, current),
        None => keys,
    }
}

/// Add a key to the end of the list, unless it is there.
pub fn add_key(v: &mut Vec<[u8; 32]>, k: [u8; 32])
    ensures
        key_bytes(final(v)@) == if key_bytes(old(v)@).contains(k@) {
            key_bytes(old(v)@)
        } else {
            key_bytes(old(v)@).push(k@)
        },
{
    if !has_key(v, &k) {
        let ghost before = v@;
        v.push(k);
        assert(key_bytes(v@) =~= key_bytes(before).push(k@));
    }
}

fn dedup(seen: &Vec<[u8; 32]>) -> (r: Vec<[u8; 32]>)
    ensures
        key_bytes(r@) == once(key_bytes(seen@), seen@.len() as int),
{
    let mut out: Vec<[u8; 32]> = Vec::new();
    let mut k: usize = 0;
    assert(key_bytes(out@) =~= Seq::empty());
    while k < seen.len()
        invariant
            k <= seen@.len(),
            key_bytes(out@) == once(key_bytes(seen@), k as int),
        decreases seen@.len() - k,
    {
        assert(key_bytes(seen@)[k as int] == seen@[k as int]@);
        add_key(&mut out, seen[k]);
        k += 1;
    }
    out
}

/// Are these a member's keys: those retained, and among them those revoked?
pub open spec fn keys_of_member(
    m: MemberKeys,
    node: NodeModel,
    seen: Seq<Seq<u8>>,
    own: Option<Seq<u8>>,
    revoked: Set<Seq<u8>>,
) -> bool {
    let retained = retained_for(seen, own);
    &&& m.node@ == node
    &&& key_bytes(m.retained@) == retained
    &&& key_bytes(m.revoked@) == revoked_among(retained, revoked, retained.len() as int)
}

/// A key's bytes, where there is one.
pub open spec fn maybe_bytes(key: Option<&[u8; 32]>) -> Option<Seq<u8>> {
    match key {
        Some(k) => Some(k@),
        None => None,
    }
}

/// One member's keys: `seen` are the keys this node has seen it hold, `own` is this node's current
/// key where the member is this node, `revoked` are all validly revoked keys.
pub fn member_keys(node: &NodeId, seen: &Vec<[u8; 32]>, own: Option<&[u8; 32]>, revoked: &Vec<[u8; 32]>) -> (r:
    MemberKeys)
    ensures
        keys_of_member(r, node@, key_bytes(seen@), maybe_bytes(own), key_bytes(revoked@).to_set()),
{
    let mut retained = dedup(seen);
    if let Some(current) = own {
        if !has_key(&retained, current) {
            let ghost before = retained@;
            retained.insert(0, *current);
            assert(key_bytes(retained@) =~= seq![current@] + key_bytes(before));
        }
    }
    let ghost kept = key_bytes(retained@);
    let mut out: Vec<[u8; 32]> = Vec::new();
    let mut k: usize = 0;
    assert(key_bytes(out@) =~= Seq::empty());
    while k < retained.len()
        invariant
            k <= retained@.len(),
            kept == key_bytes(retained@),
            key_bytes(out@) == revoked_among(kept, key_bytes(revoked@).to_set(), k as int),
        decreases retained@.len() - k,
    {
        let ghost held = out@;
        assert(kept[k as int] == retained@[k as int]@);
        if has_key(revoked, &retained[k]) {
            out.push(retained[k]);
            assert(key_bytes(out@) =~= key_bytes(held).push(kept[k as int]));
        }
        k += 1;
    }
    MemberKeys { node: node.clone(), retained, revoked: out }
}

/// The keys this node has seen one member hold.
#[derive(Debug, PartialEq, Eq)]
pub struct SeenKeys {
    /// The member.
    pub node: NodeId,
    /// Its keys, in the order they were seen.
    pub keys: Vec<[u8; 32]>,
}

/// Is this node's entry among the first `k`?
pub open spec fn seen_before(seen: Seq<SeenKeys>, me: NodeModel, k: int) -> bool {
    exists|i: int| 0 <= i < k && (#[trigger] seen[i]).node@ == me
}

/// Is this the view of every member's keys: one entry for each member seen, in that order, and behind
/// them one for `me` where it has a key and was not seen?
pub open spec fn is_view(
    r: Seq<MemberKeys>,
    seen: Seq<SeenKeys>,
    me: NodeModel,
    current: Option<Seq<u8>>,
    revoked: Set<Seq<u8>>,
) -> bool {
    let extra = current is Some && !seen_before(seen, me, seen.len() as int);
    &&& r.len() == seen.len() + if extra {
        1int
    } else {
        0
    }
    &&& forall|i: int|
        0 <= i < seen.len() ==> keys_of_member(
            #[trigger] r[i],
            seen[i].node@,
            key_bytes(seen[i].keys@),
            if seen[i].node@ == me {
                current
            } else {
                None
            },
            revoked,
        )
    &&& extra ==> keys_of_member(r.last(), me, Seq::empty(), current, revoked)
}

/// This node's current view of every member's identity keys: one entry for each member it has seen,
/// and one for itself with its current key, even before its own identity has come back to it. What is
/// revoked is read from what was removed and from the revocations in the store, as
/// [`revoked_key_set`] does.
pub fn knowledge_member_keys(
    seen: &Vec<SeenKeys>,
    me: &NodeId,
    current: Option<&[u8; 32]>,
    removed: &Vec<[u8; 32]>,
    entries: &Vec<KvEntry>,
    identities: &Vec<(NodeId, Vec<[u8; 32]>)>,
) -> (r: Vec<MemberKeys>)
    ensures
        is_view(
            r@,
            seen@,
            me@,
            maybe_bytes(current),
            revoked_keys(key_bytes(removed@), entries@, identities@),
        ),
{
    let revoked = revoked_key_set(removed, entries, identities);
    view_members(seen, me, current, &revoked)
}

/// The view of every member's keys, given the revoked keys.
pub fn view_members(
    seen: &Vec<SeenKeys>,
    me: &NodeId,
    current: Option<&[u8; 32]>,
    revoked: &Vec<[u8; 32]>,
) -> (r: Vec<MemberKeys>)
    ensures
        is_view(r@, seen@, me@, maybe_bytes(current), key_bytes(revoked@).to_set()),
{
    let mut out: Vec<MemberKeys> = Vec::new();
    let mut mine = false;
    let mut k: usize = 0;
    while k < seen.len()
        invariant
            k <= seen@.len(),
            out@.len() == k,
            mine == seen_before(seen@, me@, k as int),
            forall|i: int|
                0 <= i < k ==> keys_of_member(
                    #[trigger] out@[i],
                    seen@[i].node@,
                    key_bytes(seen@[i].keys@),
                    if seen@[i].node@ == me@ {
                        maybe_bytes(current)
                    } else {
                        None
                    },
                    key_bytes(revoked@).to_set(),
                ),
        decreases seen@.len() - k,
    {
        let is_me = seen[k].node.is(me);
        let own = if is_me {
            current
        } else {
            None
        };
        let entry = member_keys(&seen[k].node, &seen[k].keys, own, revoked);
        out.push(entry);
        proof {
            if is_me {
                assert(seen@[k as int].node@ == me@);
            }
            if seen_before(seen@, me@, k + 1) && !is_me {
                let i = choose|i: int| 0 <= i < k + 1 && (#[trigger] seen@[i]).node@ == me@;
                assert(seen@[i].node@ == me@);
            }
            if seen_before(seen@, me@, k as int) {
                let i = choose|i: int| 0 <= i < k && (#[trigger] seen@[i]).node@ == me@;
                assert(seen@[i].node@ == me@);
            }
        }
        if is_me {
            mine = true;
        }
        k += 1;
    }
    if !mine {
        if let Some(key) = current {
            let none: Vec<[u8; 32]> = Vec::new();
            assert(key_bytes(none@) =~= Seq::empty());
            let entry = member_keys(me, &none, Some(key), revoked);
            out.push(entry);
        }
    }
    out
}

/// Why a record was not signed.
#[derive(Debug, PartialEq, Eq)]
pub enum SignAsMemberError {
    /// The record is issued by somebody else.
    NotThisMember {
        /// By whom.
        issuer: String,
    },
    /// This node has no identity.
    NoIdentity,
}

/// Sign a record with this node's identity key, **only if the record is issued by this node**: this
/// never produces a signature that a reader would check against another member's keys.
pub fn sign_knowledge_record(
    issuer: &str,
    mine: &str,
    canonical: &[u8],
    signing_key: Option<&[u8; 32]>,
) -> (r: Result<[u8; 64], SignAsMemberError>)
    ensures
        if issuer@ != mine@ {
            r matches Err(SignAsMemberError::NotThisMember { issuer: i }) && i@ == issuer@
        } else {
            match signing_key {
                None => r == Err::<[u8; 64], SignAsMemberError>(SignAsMemberError::NoIdentity),
                Some(k) => r matches Ok(sig) && sig@ == ed25519_signature(k@, canonical@)
                    && ed25519_verifies(ed25519_public(k@), canonical@, sig@),
            }
        },
{
    if !same(issuer, mine) {
        return Err(SignAsMemberError::NotThisMember { issuer: issuer.to_owned() });
    }
    match signing_key {
        None => Err(SignAsMemberError::NoIdentity),
        Some(k) => Ok(signature_bytes(k, canonical)),
    }
}

/// The identity history known for a node: that of the first entry from `i` on that is the node's.
pub open spec fn identity_of(identities: Seq<(NodeId, Vec<[u8; 32]>)>, node: NodeModel, i: int) -> Seq<Seq<u8>>
    decreases identities.len() - i,
{
    if i < 0 || i >= identities.len() {
        Seq::empty()
    } else if identities[i].0@ == node {
        key_bytes(identities[i].1@)
    } else {
        identity_of(identities, node, i + 1)
    }
}

/// Has the node published a revocation: does an entry's key name it?
pub open spec fn publishes(entries: Seq<KvEntry>, node: NodeModel) -> bool {
    exists|i: int| 0 <= i < entries.len() && revocation_node_of((#[trigger] entries[i]).key@) == Some(node)
}

/// Is the key revoked in the log by this node, which owns it?
pub open spec fn revoked_by(
    entries: Seq<KvEntry>,
    identities: Seq<(NodeId, Vec<[u8; 32]>)>,
    node: NodeModel,
    key: Seq<u8>,
) -> bool {
    revokes(entries, node, identity_of(identities, node, 0), entries.len() as int, key)
}

/// The keys that read as revoked: those removed, and every one that a node which owns it has revoked.
pub open spec fn revoked_keys(
    removed: Seq<Seq<u8>>,
    entries: Seq<KvEntry>,
    identities: Seq<(NodeId, Vec<[u8; 32]>)>,
) -> Set<Seq<u8>> {
    Set::new(
        |k: Seq<u8>|
            removed.contains(k) || exists|n: NodeModel|
                publishes(entries, n) && #[trigger] revoked_by(entries, identities, n, k),
    )
}

/// The identity history known for a node, current key first; empty where none is known.
fn identity_for(identities: &Vec<(NodeId, Vec<[u8; 32]>)>, node: &NodeId) -> (r: Vec<[u8; 32]>)
    ensures
        key_bytes(r@) == identity_of(identities@, node@, 0),
{
    let mut i: usize = 0;
    while i < identities.len()
        invariant
            i <= identities@.len(),
            identity_of(identities@, node@, 0) == identity_of(identities@, node@, i as int),
        decreases identities@.len() - i,
    {
        if identities[i].0.is(node) {
            let out = vstd::slice::slice_to_vec(identities[i].1.as_slice());
            assert(key_bytes(out@) =~= key_bytes(identities@[i as int].1@));
            return out;
        }
        i += 1;
    }
    let none: Vec<[u8; 32]> = Vec::new();
    assert(key_bytes(none@) =~= Seq::empty());
    none
}

/// The keys of entries.
fn entry_keys(entries: &Vec<KvEntry>) -> (r: Vec<String>)
    ensures
        r@.len() == entries@.len(),
        forall|i: int| 0 <= i < r@.len() ==> (#[trigger] r@[i])@ == entries@[i].key@,
{
    let mut out: Vec<String> = Vec::new();
    let mut i: usize = 0;
    while i < entries.len()
        invariant
            i <= entries@.len(),
            out@.len() == i,
            forall|j: int| 0 <= j < i ==> (#[trigger] out@[j])@ == entries@[j].key@,
        decreases entries@.len() - i,
    {
        out.push(entries[i].key.clone());
        i += 1;
    }
    out
}

/// Add the keys of these revocations, each once.
fn add_revoked(out: &mut Vec<[u8; 32]>, list: &Vec<SignedRevocation>)
    requires
        key_bytes(old(out)@).no_duplicates(),
    ensures
        key_bytes(final(out)@).no_duplicates(),
        forall|k: Seq<u8>|
            #[trigger] key_bytes(final(out)@).contains(k) <==> key_bytes(old(out)@).contains(k) || lists_key(
                revocations(list@),
                k,
            ),
{
    let ghost first = key_bytes(out@);
    let mut n: usize = 0;
    assert(revocations(list@).take(0) =~= Seq::empty());
    while n < list.len()
        invariant
            n <= list@.len(),
            first == key_bytes(old(out)@),
            key_bytes(out@).no_duplicates(),
            forall|k: Seq<u8>|
                #[trigger] key_bytes(out@).contains(k) <==> first.contains(k) || lists_key(
                    revocations(list@).take(n as int),
                    k,
                ),
        decreases list@.len() - n,
    {
        let ghost before = key_bytes(out@);
        let ghost all = revocations(list@);
        let ghost x = list@[n as int].event.revoked_key@;
        add_key(out, list[n].event.revoked_key);
        proof {
            lemma_push_once(before, x, key_bytes(out@));
            let shorter = all.take(n as int);
            let longer = all.take(n + 1);
            assert forall|k: Seq<u8>|
                #[trigger] key_bytes(out@).contains(k) <==> first.contains(k) || lists_key(longer, k) by {
                if lists_key(shorter, k) {
                    let i: int = choose|i: int| 0 <= i < shorter.len() && (#[trigger] shorter[i]).0.revoked_key == k;
                    assert(longer[i] == shorter[i]);
                }
                assert(longer[n as int].0.revoked_key == x);
                if lists_key(longer, k) {
                    let i: int = choose|i: int| 0 <= i < longer.len() && (#[trigger] longer[i]).0.revoked_key == k;
                    assert(i < n ==> shorter[i] == longer[i]);
                }
                assert(before.contains(k) <==> first.contains(k) || lists_key(shorter, k));
            }
        }
        n += 1;
    }
    assert(revocations(list@).take(list@.len() as int) =~= revocations(list@));
}

/// The keys that read as revoked: a removed member's, and every one that the node it belongs to has
/// validly revoked, each once. `entries` is what the store holds and `identities` the identity history
/// known for each node.
pub fn revoked_key_set(
    removed: &Vec<[u8; 32]>,
    entries: &Vec<KvEntry>,
    identities: &Vec<(NodeId, Vec<[u8; 32]>)>,
) -> (r: Vec<[u8; 32]>)
    ensures
        key_bytes(r@).no_duplicates(),
        key_bytes(r@).to_set() == revoked_keys(key_bytes(removed@), entries@, identities@),
{
    let mut out = dedup(removed);
    proof {
        lemma_once(key_bytes(removed@), removed@.len() as int);
        assert(key_bytes(removed@).take(removed@.len() as int) =~= key_bytes(removed@));
    }
    let keys = entry_keys(entries);
    let owners = revocation_nodes(&keys);
    let ghost all = nodes(owners@);
    let mut n: usize = 0;
    while n < owners.len()
        invariant
            n <= owners@.len(),
            all == nodes(owners@),
            key_bytes(out@).no_duplicates(),
            forall|k: Seq<u8>|
                #[trigger] key_bytes(out@).contains(k) <==> key_bytes(removed@).contains(k) || exists|i: int|
                    0 <= i < n && revoked_by(entries@, identities@, #[trigger] all[i], k),
        decreases owners@.len() - n,
    {
        let ghost before = key_bytes(out@);
        let ghost owner = all[n as int];
        let identity = identity_for(identities, &owners[n]);
        let list = validated_signed_revocations(entries, &owners[n], &identity);
        add_revoked(&mut out, &list);
        proof {
            assert(owner == owners@[n as int]@);
            assert forall|k: Seq<u8>|
                #[trigger] key_bytes(out@).contains(k) <==> key_bytes(removed@).contains(k) || exists|i: int|
                    0 <= i < n + 1 && revoked_by(entries@, identities@, #[trigger] all[i], k) by {
                lemma_only_valid_revocations_count(
                    entries@,
                    owner,
                    key_bytes(identity@),
                    entries@.len() as int,
                    k,
                );
                assert(lists_key(revocations(list@), k) <==> revoked_by(entries@, identities@, owner, k));
                assert(before.contains(k) <==> key_bytes(removed@).contains(k) || exists|i: int|
                    0 <= i < n && revoked_by(entries@, identities@, #[trigger] all[i], k));
                if before.contains(k) && !key_bytes(removed@).contains(k) {
                    let i: int = choose|i: int|
                        0 <= i < n && revoked_by(entries@, identities@, #[trigger] all[i], k);
                    assert(revoked_by(entries@, identities@, all[i], k));
                }
                if revoked_by(entries@, identities@, owner, k) {
                    assert(revoked_by(entries@, identities@, all[n as int], k));
                }
            }
        }
        n += 1;
    }
    proof {
        assert forall|k: Seq<u8>|
            #[trigger] key_bytes(out@).contains(k) <==> key_bytes(removed@).contains(k) || exists|n: NodeModel|
                publishes(entries@, n) && #[trigger] revoked_by(entries@, identities@, n, k) by {
            if key_bytes(out@).contains(k) && !key_bytes(removed@).contains(k) {
                let i: int = choose|i: int|
                    0 <= i < all.len() && revoked_by(entries@, identities@, #[trigger] all[i], k);
                assert(nodes(owners@).contains(all[i]));
                let j: int = choose|j: int|
                    0 <= j < keys@.len() && revocation_node_of((#[trigger] keys@[j])@) == Some(all[i]);
                assert(revocation_node_of(entries@[j].key@) == Some(all[i]));
                assert(publishes(entries@, all[i]));
            }
            if exists|n: NodeModel|
                publishes(entries@, n) && #[trigger] revoked_by(entries@, identities@, n, k) {
                let owner = choose|n: NodeModel|
                    publishes(entries@, n) && #[trigger] revoked_by(entries@, identities@, n, k);
                let j: int = choose|j: int|
                    0 <= j < entries@.len() && revocation_node_of((#[trigger] entries@[j]).key@) == Some(owner);
                assert(revocation_node_of(keys@[j]@) == Some(owner));
                assert(all.contains(owner));
                let i: int = choose|i: int| 0 <= i < all.len() && all[i] == owner;
                assert(revoked_by(entries@, identities@, all[i], k));
            }
        }
        assert(key_bytes(out@).to_set() =~= revoked_keys(key_bytes(removed@), entries@, identities@));
    }
    out
}

proof fn lemma_push_once(before: Seq<Seq<u8>>, x: Seq<u8>, after: Seq<Seq<u8>>)
    requires
        before.no_duplicates(),
        after == if before.contains(x) {
            before
        } else {
            before.push(x)
        },
    ensures
        after.no_duplicates(),
        forall|k: Seq<u8>| after.contains(k) <==> before.contains(k) || k == x,
{
    if !before.contains(x) {
        assert(after[before.len() as int] == x);
        assert forall|k: Seq<u8>| after.contains(k) <==> before.contains(k) || k == x by {
            if before.contains(k) {
                let i = choose|i: int| 0 <= i < before.len() && before[i] == k;
                assert(after[i] == k);
            }
        }
    }
}

/// Taking each key once neither adds a key nor loses one.
pub proof fn lemma_once(keys: Seq<Seq<u8>>, k: int)
    requires
        0 <= k <= keys.len(),
    ensures
        once(keys, k).no_duplicates(),
        forall|x: Seq<u8>| once(keys, k).contains(x) <==> keys.take(k).contains(x),
    decreases k,
{
    if k > 0 {
        lemma_once(keys, k - 1);
        lemma_push_once(once(keys, k - 1), keys[k - 1], once(keys, k));
        let u = keys.take(k - 1);
        let t = keys.take(k);
        assert forall|x: Seq<u8>| t.contains(x) <==> u.contains(x) || x == keys[k - 1] by {
            if u.contains(x) {
                let i = choose|i: int| 0 <= i < u.len() && u[i] == x;
                assert(t[i] == x);
            }
            if x == keys[k - 1] {
                assert(t[k - 1] == x);
            }
            if t.contains(x) && x != keys[k - 1] {
                let i = choose|i: int| 0 <= i < t.len() && t[i] == x;
                assert(u[i] == x);
            }
        }
    } else {
        assert(keys.take(0) =~= Seq::empty());
    }
}

} // verus!

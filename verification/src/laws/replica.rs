//! Laws of the replica sync: what is answered as persisted, and who counts as having answered.
use vstd::prelude::*;

use crate::node_id::{nodes, NodeId};
use crate::replica_sync::{
    answer, decode_answer, decode_query, encode_answer, encode_query, heard, is_held, lemma_missing_is_disjoint,
    lemma_query_round_trips, without, Answer, Collector, Query, Round, Stored, Verdict, WalSync,
};

verus! {

/// A query is answered `Persisted` exactly where an entry is stored, its stamp and its content
/// hash are both those of the query, and the log was synced; a different stamp or hash, or no
/// entry at all, is answered `NotHeld` whatever the log did.
pub proof fn lemma_persisted_means_this_very_write(q: &Query, entry: Option<Stored>, sync: WalSync, r: Answer)
    requires
        call_ensures(answer, (q, entry, sync), r),
    ensures
        r == Answer::Persisted <==> (entry matches Some(e) && e.stamp == q.stamp && e.content_hash
            == q.content_hash && sync == WalSync::Synced),
        r == Answer::NotHeld <==> (entry matches Some(e) ==> e.stamp != q.stamp || e.content_hash
            != q.content_hash),
        r == Answer::NotConfigured ==> sync == WalSync::NotConfigured,
        r == Answer::Failed ==> sync == WalSync::Failed,
{
}

/// An entry is held exactly where it is stored under the stamp and the hash asked for.
pub proof fn lemma_held_means_same_stamp_and_hash(q: &Query, entry: Option<Stored>, r: bool)
    requires
        call_ensures(is_held, (q, entry), r),
    ensures
        r <==> (entry matches Some(e) && e.stamp == q.stamp && e.content_hash == q.content_hash),
{
}

/// A query with a key reads back as it was written, field by field.
pub proof fn lemma_query_reads_back(q: &Query, bytes: &[u8], written: Vec<u8>, read: Option<Query>)
    requires
        call_ensures(encode_query, (q,), written),
        bytes@ == written@,
        call_ensures(decode_query, (bytes,), read),
        q.key@.len() > 0,
    ensures
        read matches Some(p) && p.stamp == q.stamp && p.content_hash == q.content_hash && p.key@ == q.key@,
{
    lemma_query_round_trips(q@);
}

/// Each answer reads back as itself, and no two answers share a byte.
pub proof fn lemma_answer_reads_back(a: Answer, bytes: &[u8], written: Vec<u8>, read: Option<Answer>)
    requires
        call_ensures(encode_answer, (a,), written),
        bytes@ == written@,
        call_ensures(decode_answer, (bytes,), read),
    ensures
        read == Some(a),
        written@.len() == 1,
        a == Answer::Persisted <==> written@[0] == 0,
{
}

/// The round's opening: everyone who has not persisted yet is asked, nobody who has is, and no
/// answer is waited for longer than the time left. Only with nobody left or no time left is the
/// collection over.
pub proof fn lemma_round_asks_the_rest(c: &Collector, peers: &Vec<NodeId>, elapsed_ms: u64, deadline_ms: u64, r: Round)
    requires
        call_ensures(Collector::begin, (c, peers, elapsed_ms, deadline_ms), r),
    ensures
        r matches Round::Ask { outstanding, per_peer_ms } ==> {
            &&& elapsed_ms < deadline_ms
            &&& 0 < per_peer_ms <= deadline_ms - elapsed_ms
            &&& per_peer_ms <= 5000
            &&& per_peer_ms == 5000 || per_peer_ms == deadline_ms - elapsed_ms
            &&& outstanding@.len() > 0
            &&& forall|i: int|
                0 <= i < peers@.len() ==> (nodes(outstanding@).contains((#[trigger] peers@[i])@) <==> !nodes(
                    c.persisted_by@,
                ).contains(peers@[i]@))
            &&& forall|i: int|
                0 <= i < outstanding@.len() ==> nodes(peers@).contains((#[trigger] outstanding@[i])@)
        },
        r matches Round::Done(s) ==> {
            &&& nodes(s.persisted_by@) == nodes(c.persisted_by@)
            &&& forall|i: int|
                0 <= i < peers@.len() ==> (nodes(s.missing@).contains((#[trigger] peers@[i])@) <==> !nodes(
                    c.persisted_by@,
                ).contains(peers@[i]@))
            &&& s.missing@.len() == 0 || elapsed_ms >= deadline_ms
        },
        elapsed_ms >= deadline_ms ==> r is Done,
        (forall|i: int| 0 <= i < peers@.len() ==> nodes(c.persisted_by@).contains((#[trigger] peers@[i])@))
            ==> r is Done,
{
    let all = nodes(peers@);
    let held = nodes(c.persisted_by@);
    let rest = without(all, held);
    assert forall|i: int| 0 <= i < peers@.len() implies (rest.contains((#[trigger] peers@[i])@) <==> !held.contains(
        peers@[i]@,
    )) by {
        lemma_without(all, held, all[i]);
    }
    assert forall|j: int| 0 <= j < rest.len() implies all.contains(#[trigger] rest[j]) by {
        lemma_missing_is_disjoint(all, held, rest[j]);
    }
    if r is Ask {
        let v = r->outstanding@;
        assert(nodes(v) == rest);
        assert forall|i: int| 0 <= i < v.len() implies all.contains((#[trigger] v[i])@) by {
            assert(rest[i] == v[i]@);
        }
    }
    if forall|i: int| 0 <= i < peers@.len() ==> held.contains((#[trigger] peers@[i])@) {
        if rest.len() > 0 {
            lemma_missing_is_disjoint(all, held, rest[0]);
            let i = choose|i: int| 0 <= i < all.len() && all[i] == rest[0];
            assert(held.contains(peers@[i]@));
        }
    }
}

/// What is left of a list without some of its elements holds the others and nothing else.
proof fn lemma_without(
    all: Seq<crate::node_id::NodeModel>,
    some: Seq<crate::node_id::NodeModel>,
    n: crate::node_id::NodeModel,
)
    requires
        all.contains(n),
    ensures
        without(all, some).contains(n) <==> !some.contains(n),
{
    let keep = |m: crate::node_id::NodeModel| !some.contains(m);
    if some.contains(n) {
        if without(all, some).contains(n) {
            lemma_missing_is_disjoint(all, some, n);
        }
    } else {
        let i = choose|i: int| 0 <= i < all.len() && all[i] == n;
        all.lemma_filter_contains(keep, i);
    }
}

/// The round's end: a peer counts as having persisted where it did before or where one of its
/// replies says so; every peer asked that does not count is missing; and another round follows,
/// after at most the retry interval and the time left, only while there is time and someone left.
pub proof fn lemma_round_counts_the_persisted(
    c: &mut Collector,
    outstanding: &Vec<NodeId>,
    replies: &Vec<(NodeId, Option<Answer>)>,
    elapsed_ms: u64,
    deadline_ms: u64,
    r: Verdict,
)
    requires
        call_ensures(Collector::end, (c, outstanding, replies, elapsed_ms, deadline_ms), r),
    ensures
        forall|n: crate::node_id::NodeModel| #[trigger]
            nodes(final(c).persisted_by@).contains(n) <==> nodes(old(c).persisted_by@).contains(n) || exists|i: int|
                0 <= i < replies@.len() && (#[trigger] replies@[i]).0@ == n && replies@[i].1 == Some(
                    Answer::Persisted,
                ),
        r matches Verdict::Done(s) ==> {
            &&& nodes(s.persisted_by@) == nodes(final(c).persisted_by@)
            &&& forall|i: int|
                0 <= i < outstanding@.len() ==> (nodes(s.missing@).contains((#[trigger] outstanding@[i])@)
                    <==> !nodes(final(c).persisted_by@).contains(outstanding@[i]@))
            &&& s.missing@.len() == 0 || elapsed_ms >= deadline_ms
        },
        r matches Verdict::Retry { wait_ms } ==> {
            &&& elapsed_ms < deadline_ms
            &&& 0 < wait_ms <= 100
            &&& wait_ms == 100 || wait_ms == deadline_ms - elapsed_ms
            &&& wait_ms <= deadline_ms - elapsed_ms
            &&& exists|i: int|
                0 <= i < outstanding@.len() && !nodes(final(c).persisted_by@).contains((#[trigger] outstanding@[i])@)
        },
        elapsed_ms >= deadline_ms ==> r is Done,
{
    let all = nodes(outstanding@);
    let held = nodes(final(c).persisted_by@);
    let rest = without(all, held);
    lemma_heard_is_persisted(nodes(old(c).persisted_by@), replies@, replies@.len() as int);
    assert forall|i: int| 0 <= i < outstanding@.len() implies (rest.contains((#[trigger] outstanding@[i])@)
        <==> !held.contains(outstanding@[i]@)) by {
        lemma_without(all, held, all[i]);
    }
    if r is Retry {
        lemma_missing_is_disjoint(all, held, rest[0]);
        let i = choose|i: int| 0 <= i < all.len() && all[i] == rest[0];
        assert(!held.contains(outstanding@[i]@));
    }
}

/// Whoever is heard answered that it persisted.
proof fn lemma_heard_is_persisted(
    before: Seq<crate::node_id::NodeModel>,
    replies: Seq<(NodeId, Option<Answer>)>,
    k: int,
)
    requires
        0 <= k <= replies.len(),
    ensures
        forall|n: crate::node_id::NodeModel| #[trigger]
            heard(before, replies, k).contains(n) <==> before.contains(n) || exists|i: int|
                0 <= i < k && (#[trigger] replies[i]).0@ == n && replies[i].1 == Some(Answer::Persisted),
    decreases k,
{
    if k > 0 {
        lemma_heard_is_persisted(before, replies, k - 1);
        let front = heard(before, replies, k - 1);
        let now = heard(before, replies, k);
        let p = replies[k - 1].0@;
        assert forall|n: crate::node_id::NodeModel| #[trigger] now.contains(n) <==> before.contains(n) || exists|i: int|
            0 <= i < k && (#[trigger] replies[i]).0@ == n && replies[i].1 == Some(Answer::Persisted) by {
            if front.contains(n) {
                let i = choose|i: int| 0 <= i < front.len() && front[i] == n;
                assert(now[i] == n);
            }
            if now.contains(n) && !front.contains(n) {
                let i = choose|i: int| 0 <= i < now.len() && now[i] == n;
                assert(now == front.push(p));
                assert(i == front.len());
                assert(replies[k - 1].0@ == n);
            }
            if exists|i: int| 0 <= i < k && (#[trigger] replies[i]).0@ == n && replies[i].1 == Some(
                Answer::Persisted,
            ) {
                let i = choose|i: int|
                    0 <= i < k && (#[trigger] replies[i]).0@ == n && replies[i].1 == Some(Answer::Persisted);
                if i == k - 1 {
                    if !front.contains(p) {
                        assert(now[front.len() as int] == n);
                    }
                } else {
                    assert(front.contains(n));
                }
            }
        }
    }
}

/// Each answer has a byte of its own and is told by it; a byte past them is no answer. A fresh
/// collection has heard nobody.
pub proof fn lemma_answers_have_their_bytes(a: Answer, b: u8, x: u8, r: Option<Answer>, c: Collector)
    requires
        call_ensures(Answer::tag, (a,), b),
        call_ensures(Answer::from_tag, (x,), r),
        call_ensures(Collector::new, (), c),
    ensures
        b <= 3,
        a == Answer::Persisted <==> b == 0,
        a == Answer::NotHeld <==> b == 1,
        a == Answer::NotConfigured <==> b == 2,
        a == Answer::Failed <==> b == 3,
        x == b ==> r == Some(a),
        x > 3 ==> r is None,
        c.persisted_by@.len() == 0,
{
    assert(nodes(c.persisted_by@).len() == c.persisted_by@.len());
}

/// Bytes are an answer exactly where there are some and the first is one of the four.
pub proof fn lemma_bytes_are_an_answer(bytes: &[u8], read: Option<Answer>)
    requires
        call_ensures(decode_answer, (bytes,), read),
    ensures
        bytes@.len() == 0 ==> read is None,
        bytes@.len() > 0 ==> {
            &&& bytes@[0] == 0 <==> read == Some(Answer::Persisted)
            &&& bytes@[0] == 1 <==> read == Some(Answer::NotHeld)
            &&& bytes@[0] == 2 <==> read == Some(Answer::NotConfigured)
            &&& bytes@[0] == 3 <==> read == Some(Answer::Failed)
            &&& bytes@[0] > 3 <==> read is None
        },
{
}

/// Bytes that are too short to hold a key are no query.
pub proof fn lemma_query_names_a_key(bytes: &[u8], read: Option<Query>)
    requires
        call_ensures(decode_query, (bytes,), read),
    ensures
        bytes@.len() <= 16 ==> read is None,
        read matches Some(q) ==> vstd::utf8::encode_utf8(q.key@) == bytes@.skip(16) && bytes@.skip(16).len() > 0,
{
    if read is Some {
        assert(bytes@.subrange(16, bytes@.len() as int) =~= bytes@.skip(16));
        vstd::utf8::decode_utf8_encode_utf8(bytes@.skip(16));
    }
}

} // verus!

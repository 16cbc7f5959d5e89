//! Laws of the ordered log: which entries a reader is given, which it is not, and in what order.
use vstd::prelude::*;
use vstd::utf8::*;

use crate::b64::base64_text;
use crate::http::log::{
    arranged, entry_json_of, entry_models, event_of, hlc_of, in_window, lies_behind, log_append, log_compact,
    log_prefix_of, log_scan, outdated, position_of, select, waiting_among, waiting_at, waiting_in, window, within, Append,
    Follower, GroupAction, GroupConsumer, LogEntry, LogModel, Waiting,
};
use crate::http::reply::Reply;
use crate::json::{member_from, JsonModel};
use crate::keys::{lemma_after_prefix_of_joined, slashed, KvEntry};
use crate::laws::{increasing, lemma_pushed};
use crate::node_id::NodeId;
use crate::numeral::{hex16, lemma_hex16_parses};
use crate::text::{after_prefix, before_first, lemma_first_index_is, texts};

verus! {

/// The key of an entry: the stream's prefix, the timestamp in sixteen hexadecimal digits, and a
/// tail that tells appends of one moment apart.
pub open spec fn entry_key(stream: Seq<char>, hlc: u64, tail: Seq<char>) -> Seq<char> {
    "log/"@ + stream + "/"@ + hex16(hlc) + "/"@ + tail
}

/// An entry's key tells its timestamp.
pub proof fn lemma_key_tells_the_time(stream: Seq<char>, hlc: u64, tail: Seq<char>)
    ensures
        hlc_of(entry_key(stream, hlc, tail), "log/"@ + stream + "/"@) == Some(hlc as nat),
        after_prefix(entry_key(stream, hlc, tail), "log/"@ + stream + "/"@) == Some(slashed(hex16(hlc), tail)),
{
    let prefix = "log/"@ + stream + "/"@;
    let rest = slashed(hex16(hlc), tail);
    reveal_strlit("/");
    assert(entry_key(stream, hlc, tail) =~= prefix + rest);
    lemma_after_prefix_of_joined(prefix, rest);
    lemma_hex16_parses(hlc);
    assert(rest[hex16(hlc).len() as int] == '/');
    lemma_first_index_is(rest, '/', hex16(hlc).len() as int);
    assert(before_first(rest, '/') =~= hex16(hlc));
}

/// Where the entries of a window stand.
proof fn lemma_window_positions(kv: Seq<KvEntry>, prefix: Seq<char>, lo: int, hi: int, k: int) -> (idx: Seq<int>)
    requires
        0 <= k <= kv.len(),
    ensures
        increasing(idx),
        idx.len() == window(kv, prefix, lo, hi, k).len(),
        forall|j: int|
            0 <= j < idx.len() ==> 0 <= #[trigger] idx[j] < k && hlc_of(kv[idx[j]].key@, prefix) is Some && lo
                <= hlc_of(kv[idx[j]].key@, prefix)->0 < hi && window(kv, prefix, lo, hi, k)[j] == (LogModel {
                hlc: hlc_of(kv[idx[j]].key@, prefix)->0 as u64,
                value: kv[idx[j]].value@,
            }),
        forall|i: int|
            0 <= i < k ==> (#[trigger] idx.contains(i) <==> (hlc_of(kv[i].key@, prefix) matches Some(h) && lo <= h
                < hi)),
    decreases k,
{
    if k <= 0 {
        Seq::empty()
    } else {
        let front = lemma_window_positions(kv, prefix, lo, hi, k - 1);
        let kept = within(kv[k - 1].key@, prefix, lo, hi);
        let idx = if kept {
            front.push(k - 1)
        } else {
            front
        };
        lemma_pushed(front, k - 1, kept, idx);
        idx
    }
}

/// Arranging keeps what is there.
proof fn lemma_arranged_keeps(v: Seq<LogModel>, scanned: Seq<LogModel>)
    requires
        arranged(v, scanned),
    ensures
        v.len() == scanned.len(),
        forall|e: LogModel| #[trigger] v.contains(e) <==> scanned.contains(e),
{
    v.to_multiset_ensures();
    scanned.to_multiset_ensures();
    assert forall|e: LogModel| #[trigger] v.contains(e) <==> scanned.contains(e) by {
        assert(v.to_multiset().count(e) == scanned.to_multiset().count(e));
    }
}

/// The members of a listed entry.
proof fn lemma_entry_members(e: LogModel)
    ensures
        entry_json_of(e).at("hlc"@) == JsonModel::Int(e.hlc as int),
        entry_json_of(e).at("value_b64"@) == JsonModel::Str(base64_text(e.value)),
{
    reveal_with_fuel(member_from, 3);
    reveal_strlit("hlc");
    reveal_strlit("value_b64");
    assert("hlc"@.len() == 3 && "value_b64"@.len() == 9);
}

/// A scan from `f` lists no entry whose timestamp is below `f`, and one to `t` none at `t` or above;
/// what it lists is in the order of time.
pub proof fn lemma_scan_keeps_its_bounds(
    kv: &Vec<KvEntry>,
    stream: &str,
    from: Option<u64>,
    to: Option<u64>,
    r: Reply,
)
    requires
        call_ensures(log_scan, (kv, stream, from, to), r),
    ensures
        r.status == 200,
        r.body@ is Arr,
        forall|j: int|
            0 <= j < r.body@->Arr_0.len() ==> {
                let at = (#[trigger] r.body@->Arr_0[j]).at("hlc"@);
                &&& at is Int
                &&& from matches Some(f) ==> f <= at->Int_0
                &&& to matches Some(t) ==> at->Int_0 < t
                &&& 0 <= at->Int_0 <= u64::MAX
            },
        forall|j: int, l: int|
            #![trigger r.body@->Arr_0[j], r.body@->Arr_0[l]]
            0 <= j < l < r.body@->Arr_0.len() ==> r.body@->Arr_0[j].at("hlc"@)->Int_0 <= r.body@->Arr_0[l].at(
                "hlc"@,
            )->Int_0,
{
    let lo = crate::http::log::lower(from);
    let hi = crate::http::log::upper(to);
    let all = in_window(kv@, stream@, lo, hi);
    let v = choose|v: Seq<LogModel>| #[trigger]
        arranged(v, all) && r@ == crate::http::reply::served(crate::http::log::listing_of(v));
    lemma_arranged_keeps(v, all);
    let idx = lemma_window_positions(kv@, log_prefix_of(stream@), lo, hi, kv@.len() as int);
    assert(r.body@->Arr_0.len() == v.len());
    assert forall|j: int| 0 <= j < v.len() implies (#[trigger] r.body@->Arr_0[j]).at("hlc"@) == JsonModel::Int(
        v[j].hlc as int,
    ) && lo <= v[j].hlc < hi by {
        lemma_entry_members(v[j]);
        assert(v.contains(v[j]));
        assert(all.contains(v[j]));
        let a = choose|a: int| 0 <= a < all.len() && all[a] == v[j];
        assert(0 <= idx[a] < kv@.len());
    }
}

/// A scan lists every entry of the stream in its range, with its timestamp and its value: with no
/// `from` none is left out at the bottom, with no `to` none below the last moment there is.
pub proof fn lemma_scan_leaves_none_out(
    kv: &Vec<KvEntry>,
    stream: &str,
    from: Option<u64>,
    to: Option<u64>,
    r: Reply,
    i: int,
    hlc: u64,
    tail: Seq<char>,
)
    requires
        call_ensures(log_scan, (kv, stream, from, to), r),
        0 <= i < kv@.len(),
        kv@[i].key@ == entry_key(stream@, hlc, tail),
        from matches Some(f) ==> f <= hlc,
        match to {
            Some(t) => hlc < t,
            None => hlc < u64::MAX,
        },
    ensures
        exists|j: int|
            0 <= j < r.body@->Arr_0.len() && (#[trigger] r.body@->Arr_0[j]).at("hlc"@) == JsonModel::Int(hlc as int)
                && r.body@->Arr_0[j].at("value_b64"@) == JsonModel::Str(base64_text(kv@[i].value@)),
{
    let lo = crate::http::log::lower(from);
    let hi = crate::http::log::upper(to);
    let all = in_window(kv@, stream@, lo, hi);
    let v = choose|v: Seq<LogModel>| #[trigger]
        arranged(v, all) && r@ == crate::http::reply::served(crate::http::log::listing_of(v));
    lemma_arranged_keeps(v, all);
    let idx = lemma_window_positions(kv@, log_prefix_of(stream@), lo, hi, kv@.len() as int);
    lemma_key_tells_the_time(stream@, hlc, tail);
    assert(idx.contains(i));
    let a = choose|a: int| 0 <= a < idx.len() && idx[a] == i;
    let e = LogModel { hlc, value: kv@[i].value@ };
    assert(all[a] == e);
    assert(all.contains(e));
    assert(v.contains(e));
    let j = choose|j: int| 0 <= j < v.len() && v[j] == e;
    lemma_entry_members(e);
    assert(r.body@->Arr_0[j] == entry_json_of(e));
}

/// A scan makes nothing up: what it lists are the timestamps and values of entries under the
/// stream's own prefix, as many as lie in the range.
pub proof fn lemma_scan_makes_nothing_up(
    kv: &Vec<KvEntry>,
    stream: &str,
    from: Option<u64>,
    to: Option<u64>,
    r: Reply,
)
    requires
        call_ensures(log_scan, (kv, stream, from, to), r),
    ensures
        forall|j: int|
            0 <= j < r.body@->Arr_0.len() ==> exists|i: int|
                #![trigger kv@[i]]
                0 <= i < kv@.len() && {
                    let prefix = "log/"@ + stream@ + "/"@;
                    &&& kv@[i].key@.len() >= prefix.len()
                    &&& kv@[i].key@.subrange(0, prefix.len() as int) == prefix
                    &&& hlc_of(kv@[i].key@, prefix) matches Some(h) && (#[trigger] r.body@->Arr_0[j]).at("hlc"@)
                        == JsonModel::Int(h as int)
                    &&& r.body@->Arr_0[j].at("value_b64"@) == JsonModel::Str(base64_text(kv@[i].value@))
                },
        exists|idx: Seq<int>|
            {
                &&& #[trigger] increasing(idx)
                &&& idx.len() == r.body@->Arr_0.len()
                &&& forall|i: int|
                    0 <= i < kv@.len() ==> (#[trigger] idx.contains(i) <==> (hlc_of(
                        kv@[i].key@,
                        "log/"@ + stream@ + "/"@,
                    ) matches Some(h) && (from matches Some(f) ==> f <= h) && match to {
                        Some(t) => h < t,
                        None => h < u64::MAX,
                    }))
            },
{
    let prefix = "log/"@ + stream@ + "/"@;
    let lo = crate::http::log::lower(from);
    let hi = crate::http::log::upper(to);
    let all = in_window(kv@, stream@, lo, hi);
    let v = choose|v: Seq<LogModel>| #[trigger]
        arranged(v, all) && r@ == crate::http::reply::served(crate::http::log::listing_of(v));
    lemma_arranged_keeps(v, all);
    let idx = lemma_window_positions(kv@, log_prefix_of(stream@), lo, hi, kv@.len() as int);
    assert forall|j: int| 0 <= j < r.body@->Arr_0.len() implies exists|i: int|
        #![trigger kv@[i]]
        0 <= i < kv@.len() && {
            &&& kv@[i].key@.len() >= prefix.len()
            &&& kv@[i].key@.subrange(0, prefix.len() as int) == prefix
            &&& hlc_of(kv@[i].key@, prefix) matches Some(h) && (#[trigger] r.body@->Arr_0[j]).at("hlc"@)
                == JsonModel::Int(h as int)
            &&& r.body@->Arr_0[j].at("value_b64"@) == JsonModel::Str(base64_text(kv@[i].value@))
        } by {
        lemma_entry_members(v[j]);
        assert(v.contains(v[j]));
        let a = choose|a: int| 0 <= a < all.len() && all[a] == v[j];
        let i = idx[a];
        assert(hlc_of(kv@[i].key@, prefix)->0 < hi <= u64::MAX);
        assert(0 <= i < kv@.len());
    }
    assert(increasing(idx));
}

/// What was appended is read: an appended entry, once stored, is listed by every scan of its stream
/// whose range holds its timestamp, with the value that was sent.
pub proof fn lemma_appended_is_scanned(
    stream: &str,
    value_b64: Option<&str>,
    hlc: u64,
    node: &NodeId,
    a: Append,
    kv: &Vec<KvEntry>,
    from: Option<u64>,
    to: Option<u64>,
    r: Reply,
    i: int,
)
    requires
        call_ensures(log_append, (stream, value_b64, hlc, node), a),
        a is Write,
        0 <= i < kv@.len(),
        kv@[i].key@ == a->key@,
        kv@[i].value@ == a->value@,
        call_ensures(log_scan, (kv, stream, from, to), r),
        from matches Some(f) ==> f <= hlc,
        match to {
            Some(t) => hlc < t,
            None => hlc < u64::MAX,
        },
    ensures
        exists|j: int|
            0 <= j < r.body@->Arr_0.len() && (#[trigger] r.body@->Arr_0[j]).at("hlc"@) == JsonModel::Int(hlc as int)
                && r.body@->Arr_0[j].at("value_b64"@) == JsonModel::Str(base64_text(a->value@)),
{
    reveal_strlit("/");
    assert(kv@[i].key@ =~= entry_key(stream@, hlc, node@.text()));
    lemma_scan_leaves_none_out(kv, stream, from, to, r, i, hlc, node@.text());
}

/// An append writes the bytes that were sent, no bytes where none were, under a key that tells its
/// timestamp, and is answered with that timestamp; what is not base64 is refused and writes
/// nothing.
pub proof fn lemma_append_writes_what_was_sent(
    stream: &str,
    value_b64: Option<&str>,
    hlc: u64,
    node: &NodeId,
    r: Append,
)
    requires
        call_ensures(log_append, (stream, value_b64, hlc, node), r),
    ensures
        value_b64 is None ==> r is Write && r->value@.len() == 0,
        value_b64 matches Some(t) ==> (r is Write <==> crate::b64::base64_bytes(t@) is Some),
        value_b64 matches Some(t) ==> (r is Write ==> crate::b64::base64_bytes(t@) == Some(r->value@)),
        r is Write ==> r->key@ == entry_key(stream@, hlc, node@.text()) && r->reply.status == 200 && r->reply.body@.at(
            "hlc"@,
        ) == JsonModel::Int(hlc as int),
        r matches Append::Refuse(reply) ==> reply.status == 400,
{
    reveal_strlit("/");
    reveal_with_fuel(member_from, 2);
    if r is Write {
        assert(r->key@ =~= entry_key(stream@, hlc, node@.text()));
        assert(r->reply@.status == 200);
        assert(r->reply.body@ == r->reply@.body);
    }
}

/// Compaction removes exactly the stream's entries below the moment given, each by its own key:
/// none at that moment or after it, and none of another stream.
pub proof fn lemma_compaction_takes_what_lies_before(
    kv: &Vec<KvEntry>,
    stream: &str,
    before_hlc: u64,
    r: Vec<String>,
)
    requires
        call_ensures(log_compact, (kv, stream, before_hlc), r),
    ensures
        exists|idx: Seq<int>|
            {
                &&& #[trigger] increasing(idx)
                &&& idx.len() == r@.len()
                &&& forall|j: int|
                    0 <= j < idx.len() ==> 0 <= #[trigger] idx[j] < kv@.len() && r@[j]@ == kv@[idx[j]].key@
                &&& forall|i: int|
                    0 <= i < kv@.len() ==> (#[trigger] idx.contains(i) <==> (hlc_of(
                        kv@[i].key@,
                        "log/"@ + stream@ + "/"@,
                    ) matches Some(h) && h < before_hlc))
            },
        forall|i: int, hlc: u64, tail: Seq<char>|
            #![trigger kv@[i], entry_key(stream@, hlc, tail)]
            0 <= i < kv@.len() && kv@[i].key@ == entry_key(stream@, hlc, tail) ==> (texts(r@).contains(kv@[i].key@)
                <==> hlc < before_hlc),
{
    let prefix = "log/"@ + stream@ + "/"@;
    let n = kv@.len() as int;
    let idx = lemma_outdated_positions(kv@, prefix, before_hlc as int, n);
    assert(increasing(idx));
    assert(texts(r@) == outdated(kv@, prefix, before_hlc as int, n));
    assert forall|j: int| 0 <= j < idx.len() implies 0 <= #[trigger] idx[j] < kv@.len() && r@[j]@ == kv@[idx[j]].key@ by {
        assert(texts(r@)[j] == r@[j]@);
    }
    assert forall|i: int, hlc: u64, tail: Seq<char>|
        #![trigger kv@[i], entry_key(stream@, hlc, tail)]
        0 <= i < kv@.len() && kv@[i].key@ == entry_key(stream@, hlc, tail) implies (texts(r@).contains(kv@[i].key@)
        <==> hlc < before_hlc) by {
        lemma_key_tells_the_time(stream@, hlc, tail);
        if hlc < before_hlc {
            assert(idx.contains(i));
            let j = choose|j: int| 0 <= j < idx.len() && idx[j] == i;
            assert(texts(r@)[j] == kv@[i].key@);
        }
        if texts(r@).contains(kv@[i].key@) {
            let j = choose|j: int| 0 <= j < texts(r@).len() && texts(r@)[j] == kv@[i].key@;
            assert(idx.contains(idx[j]));
            assert(r@[j]@ == kv@[idx[j]].key@);
        }
    }
}

proof fn lemma_outdated_positions(kv: Seq<KvEntry>, prefix: Seq<char>, before: int, k: int) -> (idx: Seq<int>)
    requires
        0 <= k <= kv.len(),
    ensures
        increasing(idx),
        idx.len() == outdated(kv, prefix, before, k).len(),
        forall|j: int|
            0 <= j < idx.len() ==> 0 <= #[trigger] idx[j] < k && outdated(kv, prefix, before, k)[j] == kv[idx[j]].key@,
        forall|i: int|
            0 <= i < k ==> (#[trigger] idx.contains(i) <==> (hlc_of(kv[i].key@, prefix) matches Some(h) && h
                < before)),
    decreases k,
{
    if k <= 0 {
        Seq::empty()
    } else {
        let front = lemma_outdated_positions(kv, prefix, before, k - 1);
        let kept = within(kv[k - 1].key@, prefix, 0, before);
        let idx = if kept {
            front.push(k - 1)
        } else {
            front
        };
        lemma_pushed(front, k - 1, kept, idx);
        idx
    }
}

/// A follower is given what lies at or after the moment it waits for, in the order of time, and
/// then waits for what lies after the last of it.
pub proof fn lemma_follower_goes_forward(f: &mut Follower, kv: &Vec<KvEntry>, r: Vec<LogEntry>)
    requires
        call_ensures(Follower::poll, (f, kv), r),
    ensures
        forall|j: int| 0 <= j < r@.len() ==> old(f).last_seen <= (#[trigger] r@[j]).hlc,
        forall|j: int, l: int|
            #![trigger r@[j], r@[l]]
            0 <= j < l < r@.len() ==> r@[j].hlc <= r@[l].hlc,
        r@.len() == 0 ==> final(f).last_seen == old(f).last_seen,
        forall|j: int|
            0 <= j < r@.len() ==> (#[trigger] r@[j]).hlc < final(f).last_seen || r@[j].hlc == u64::MAX,
        r@.len() > 0 && r@.last().hlc < u64::MAX ==> final(f).last_seen == r@.last().hlc + 1,
        final(f).stream@ == old(f).stream@,
        forall|i: int, hlc: u64, tail: Seq<char>|
            #![trigger kv@[i], entry_key(old(f).stream@, hlc, tail)]
            0 <= i < kv@.len() && kv@[i].key@ == entry_key(old(f).stream@, hlc, tail) && hlc >= old(f).last_seen
                ==> exists|j: int|
                0 <= j < r@.len() && (#[trigger] r@[j]).hlc == hlc && r@[j].value@ == kv@[i].value@,
{
    let lo = old(f).last_seen as int;
    let hi = u64::MAX + 1;
    let s = old(f).stream@;
    let all = in_window(kv@, s, lo, hi);
    let v = entry_models(r@);
    lemma_arranged_keeps(v, all);
    let idx = lemma_window_positions(kv@, log_prefix_of(s), lo, hi, kv@.len() as int);
    assert forall|j: int| 0 <= j < r@.len() implies lo <= (#[trigger] r@[j]).hlc by {
        assert(v[j] == r@[j]@);
        assert(v.contains(v[j]));
        let a = choose|a: int| 0 <= a < all.len() && all[a] == v[j];
        assert(0 <= idx[a] < kv@.len());
    }
    assert forall|i: int, hlc: u64, tail: Seq<char>|
        #![trigger kv@[i], entry_key(s, hlc, tail)]
        0 <= i < kv@.len() && kv@[i].key@ == entry_key(s, hlc, tail) && hlc >= lo implies exists|j: int|
        0 <= j < r@.len() && (#[trigger] r@[j]).hlc == hlc && r@[j].value@ == kv@[i].value@ by {
        lemma_key_tells_the_time(s, hlc, tail);
        assert(idx.contains(i));
        let a = choose|a: int| 0 <= a < idx.len() && idx[a] == i;
        let e = LogModel { hlc, value: kv@[i].value@ };
        assert(all[a] == e);
        assert(v.contains(e));
        let j = choose|j: int| 0 <= j < v.len() && v[j] == e;
        assert(r@[j]@ == e);
    }
}

/// A follower is given no entry twice: what a later look gives lies after everything that an
/// earlier one gave, the last moment there is left out.
pub proof fn lemma_follower_repeats_nothing(
    f: &mut Follower,
    kv: &Vec<KvEntry>,
    first: Vec<LogEntry>,
    g: &mut Follower,
    later: &Vec<KvEntry>,
    second: Vec<LogEntry>,
    i: int,
    j: int,
)
    requires
        call_ensures(Follower::poll, (f, kv), first),
        *old(g) == *final(f),
        call_ensures(Follower::poll, (g, later), second),
        0 <= i < first@.len(),
        0 <= j < second@.len(),
        first@[i].hlc < u64::MAX,
    ensures
        first@[i].hlc < second@[j].hlc,
{
    lemma_follower_goes_forward(f, kv, first);
    lemma_follower_goes_forward(g, later, second);
    assert(first@[i].hlc < final(f).last_seen);
    assert(old(g).last_seen <= second@[j].hlc);
}

/// A follower starts at the moment asked for, and at the first of all where none is.
pub proof fn lemma_follower_starts_where_asked(stream: &str, since: Option<u64>, r: Follower)
    requires
        call_ensures(Follower::new, (stream, since), r),
    ensures
        r.stream@ == stream@,
        since matches Some(s) ==> r.last_seen == s,
        since is None ==> r.last_seen == 0,
{
}

/// A selection holds the entries from its lower bound up to but not at its upper one, in the order
/// of time, all of them.
pub proof fn lemma_selection_is_the_range(kv: &Vec<KvEntry>, stream: &str, lo: u128, hi: u128, r: Vec<LogEntry>)
    requires
        call_ensures(select, (kv, stream, lo, hi), r),
        hi <= u64::MAX + 1,
    ensures
        forall|j: int| 0 <= j < r@.len() ==> lo <= (#[trigger] r@[j]).hlc < hi,
        forall|j: int, l: int|
            #![trigger r@[j], r@[l]]
            0 <= j < l < r@.len() ==> r@[j].hlc <= r@[l].hlc,
        forall|i: int, hlc: u64, tail: Seq<char>|
            #![trigger kv@[i], entry_key(stream@, hlc, tail)]
            0 <= i < kv@.len() && kv@[i].key@ == entry_key(stream@, hlc, tail) && lo <= hlc < hi ==> exists|j: int|
                0 <= j < r@.len() && (#[trigger] r@[j]).hlc == hlc && r@[j].value@ == kv@[i].value@,
{
    let s = stream@;
    let all = in_window(kv@, s, lo as int, hi as int);
    let v = entry_models(r@);
    lemma_arranged_keeps(v, all);
    let idx = lemma_window_positions(kv@, log_prefix_of(s), lo as int, hi as int, kv@.len() as int);
    assert forall|j: int| 0 <= j < r@.len() implies lo <= (#[trigger] r@[j]).hlc < hi by {
        assert(v[j] == r@[j]@);
        assert(v.contains(v[j]));
        let a = choose|a: int| 0 <= a < all.len() && all[a] == v[j];
        assert(0 <= idx[a] < kv@.len());
    }
    assert forall|i: int, hlc: u64, tail: Seq<char>|
        #![trigger kv@[i], entry_key(s, hlc, tail)]
        0 <= i < kv@.len() && kv@[i].key@ == entry_key(s, hlc, tail) && lo <= hlc < hi implies exists|j: int|
        0 <= j < r@.len() && (#[trigger] r@[j]).hlc == hlc && r@[j].value@ == kv@[i].value@ by {
        lemma_key_tells_the_time(s, hlc, tail);
        assert(idx.contains(i));
        let a = choose|a: int| 0 <= a < idx.len() && idx[a] == i;
        let e = LogModel { hlc, value: kv@[i].value@ };
        assert(all[a] == e);
        assert(v.contains(e));
        let j = choose|j: int| 0 <= j < v.len() && v[j] == e;
        assert(r@[j]@ == e);
    }
}

/// An active consumer is handed, of the entries behind its position, the earliest: its event tells
/// the stream, the timestamp and the value, and its position moves onto that entry.
pub proof fn lemma_group_delivers_the_earliest(c: &mut GroupConsumer, kv: &Vec<KvEntry>, closed: bool, r: GroupAction)
    requires
        call_ensures(GroupConsumer::drain, (c, kv, closed), r),
    ensures
        !old(c).active ==> r == GroupAction::Stop && final(c).offset == old(c).offset,
        r is Deliver ==> {
            &&& old(c).active
            &&& final(c).offset matches Some(p) && p.name is Some && {
                &&& r->event@.at("stream"@) == JsonModel::Str(old(c).stream@)
                &&& r->event@.at("hlc"@) == JsonModel::Int(p.hlc as int)
                &&& r->offset@ == encode_utf8(hex16(p.hlc) + "/"@ + (p.name->0)@)
                &&& old(c).offset matches Some(q) ==> q.hlc <= p.hlc
                &&& exists|i: int|
                    #![trigger kv@[i]]
                    0 <= i < kv@.len() && kv@[i].key@ == "log/"@ + old(c).stream@ + "/"@ + (p.name->0)@
                        && r->event@.at("value_b64"@) == JsonModel::Str(base64_text(kv@[i].value@)) && hlc_of(
                        kv@[i].key@,
                        "log/"@ + old(c).stream@ + "/"@,
                    ) == Some(p.hlc as nat)
                &&& forall|i: int, hlc: u64, tail: Seq<char>|
                    #![trigger kv@[i], entry_key(old(c).stream@, hlc, tail)]
                    0 <= i < kv@.len() && kv@[i].key@ == entry_key(old(c).stream@, hlc, tail) && (
                    old(c).offset matches Some(q) ==> hlc > q.hlc) ==> p.hlc <= hlc
            }
        },
        old(c).active && !(r is Deliver) ==> {
            &&& r == if closed {
                GroupAction::Stop
            } else {
                GroupAction::Idle
            }
            &&& final(c).offset == old(c).offset
            &&& forall|i: int, hlc: u64, tail: Seq<char>|
                #![trigger kv@[i], entry_key(old(c).stream@, hlc, tail)]
                0 <= i < kv@.len() && kv@[i].key@ == entry_key(old(c).stream@, hlc, tail) ==> (
                old(c).offset matches Some(q) && hlc <= q.hlc)
        },
        final(c).active == old(c).active,
{
    let stream = old(c).stream@;
    let prefix = "log/"@ + stream + "/"@;
    let p = position_of(old(c).offset);
    let n = kv@.len() as int;
    let waiting = waiting_in(kv@, stream, p);
    lemma_waiting_entries(kv@, prefix, p, n);
    assert forall|i: int, hlc: u64, tail: Seq<char>|
        #![trigger kv@[i], entry_key(stream, hlc, tail)]
        0 <= i < n && kv@[i].key@ == entry_key(stream, hlc, tail) && (old(c).offset matches Some(q) ==> hlc
            > q.hlc) implies exists|w: Waiting| #[trigger] waiting.contains(w) && w.hlc == hlc by {
        lemma_key_tells_the_time(stream, hlc, tail);
        let w = Waiting { hlc, name: slashed(hex16(hlc), tail), value: kv@[i].value@ };
        assert(waiting_at(kv@[i], prefix) == Some(w));
        assert(lies_behind(p, w.hlc, w.name));
        assert(waiting.contains(w));
    }
    if old(c).active && waiting.len() > 0 {
        let e = choose|e: Waiting| #[trigger]
            crate::http::log::is_next(e, kv@, stream, p) && position_of(final(c).offset) == Some(
                (e.hlc, Some(e.name)),
            ) && (r matches GroupAction::Deliver { offset, event } && offset@ == encode_utf8(
                crate::http::log::position_text(e.hlc, e.name),
            ) && event@ == event_of(stream, LogModel { hlc: e.hlc, value: e.value }));
        reveal_strlit("/");
        assert(crate::http::log::position_text(e.hlc, e.name) =~= hex16(e.hlc) + "/"@ + e.name);
        lemma_event_members(stream, LogModel { hlc: e.hlc, value: e.value });
        assert(waiting.contains(e));
        let i = choose|i: int| 0 <= i < n && #[trigger] waiting_at(kv@[i], prefix) == Some(e);
        assert(kv@[i].key@ =~= prefix + e.name);
        lemma_parsed_fits(kv@[i].key@, prefix);
        assert(lies_behind(p, e.hlc, e.name));
        assert forall|i: int, hlc: u64, tail: Seq<char>|
            #![trigger kv@[i], entry_key(stream, hlc, tail)]
            0 <= i < n && kv@[i].key@ == entry_key(stream, hlc, tail) && (old(c).offset matches Some(q) ==> hlc
                > q.hlc) implies e.hlc <= hlc by {
            let w = choose|w: Waiting| #[trigger] waiting.contains(w) && w.hlc == hlc;
            let l = choose|l: int| 0 <= l < waiting.len() && waiting[l] == w;
            assert(crate::http::log::sent_by(e, waiting[l]));
        }
    } else if old(c).active {
        assert forall|i: int, hlc: u64, tail: Seq<char>|
            #![trigger kv@[i], entry_key(stream, hlc, tail)]
            0 <= i < n && kv@[i].key@ == entry_key(stream, hlc, tail) implies (old(c).offset matches Some(q) && hlc
            <= q.hlc) by {
            if !(old(c).offset matches Some(q) && hlc <= q.hlc) {
                let w = choose|w: Waiting| #[trigger] waiting.contains(w) && w.hlc == hlc;
                assert(waiting.contains(w));
            }
        }
    }
}

/// A timestamp read from a key fits its type.
proof fn lemma_parsed_fits(key: Seq<char>, prefix: Seq<char>)
    ensures
        hlc_of(key, prefix) matches Some(h) ==> h <= u64::MAX,
{
}

proof fn lemma_event_members(stream: Seq<char>, e: LogModel)
    ensures
        event_of(stream, e).at("stream"@) == JsonModel::Str(stream),
        event_of(stream, e).at("hlc"@) == JsonModel::Int(e.hlc as int),
        event_of(stream, e).at("value_b64"@) == JsonModel::Str(base64_text(e.value)),
{
    reveal_with_fuel(member_from, 4);
    reveal_strlit("stream");
    reveal_strlit("hlc");
    reveal_strlit("value_b64");
    assert("stream"@.len() == 6 && "hlc"@.len() == 3 && "value_b64"@.len() == 9);
}

proof fn lemma_waiting_entries(kv: Seq<KvEntry>, prefix: Seq<char>, p: Option<(u64, Option<Seq<char>>)>, k: int)
    requires
        0 <= k <= kv.len(),
    ensures
        forall|w: Waiting| #[trigger]
            waiting_among(kv, prefix, p, k).contains(w) <==> lies_behind(p, w.hlc, w.name) && exists|i: int|
                0 <= i < k && #[trigger] waiting_at(kv[i], prefix) == Some(w),
    decreases k,
{
    if k > 0 {
        lemma_waiting_entries(kv, prefix, p, k - 1);
        let front = waiting_among(kv, prefix, p, k - 1);
        let now = waiting_among(kv, prefix, p, k);
        assert forall|w: Waiting| #[trigger] now.contains(w) <==> lies_behind(p, w.hlc, w.name) && exists|i: int|
            0 <= i < k && #[trigger] waiting_at(kv[i], prefix) == Some(w) by {
            if front.contains(w) {
                let i = choose|i: int| 0 <= i < front.len() && front[i] == w;
                assert(now[i] == w);
            }
            if now.contains(w) && !front.contains(w) {
                let i = choose|i: int| 0 <= i < now.len() && now[i] == w;
                assert(i == front.len());
                assert(waiting_at(kv[k - 1], prefix) == Some(w));
            }
            if waiting_at(kv[k - 1], prefix) == Some(w) && lies_behind(p, w.hlc, w.name) {
                assert(now[front.len() as int] == w);
            }
        }
    }
}

/// A consumer that is not active is handed nothing, and it becomes active only where the live
/// claim holds its own name: two consumers of different names are never both made active by one
/// claim.
pub proof fn lemma_one_claim_makes_one_active(
    a: &mut GroupConsumer,
    b: &mut GroupConsumer,
    live: Option<&[u8]>,
    ra: GroupAction,
    rb: GroupAction,
)
    requires
        call_ensures(GroupConsumer::converged, (a, live), ra),
        call_ensures(GroupConsumer::converged, (b, live), rb),
        old(a).holder@ != old(b).holder@,
    ensures
        !(final(a).active && final(b).active),
        final(a).active <==> (live matches Some(v) && v@ == old(a).holder@),
        ra == GroupAction::ReadOffset <==> final(a).active,
        ra == GroupAction::StandBy <==> !final(a).active,
        final(a).offset == old(a).offset,
{
}

/// A consumer whose claim no longer holds its name stops; one whose claim does goes on.
pub proof fn lemma_lost_claim_stops(a: &mut GroupConsumer, live: Option<&[u8]>, r: GroupAction)
    requires
        call_ensures(GroupConsumer::renewed, (a, live), r),
    ensures
        live is None ==> r == GroupAction::Stop && !final(a).active,
        live matches Some(v) ==> (r == GroupAction::Scan <==> v@ == old(a).holder@),
        live matches Some(v) ==> (r == GroupAction::Stop <==> v@ != old(a).holder@),
        final(a).active <==> r == GroupAction::Scan,
        final(a).offset == old(a).offset,
{
}

/// The steps before the first delivery: a closed consumer stops, an open one proposes; a committed
/// proposal is awaited, another one means standing by; a delivered event that was not taken stops
/// the consumer; the claim is renewed after ten seconds and not before.
pub proof fn lemma_group_steps(
    c: &GroupConsumer,
    flag: bool,
    since_renewal_ms: u64,
    acquired: GroupAction,
    proposed: GroupAction,
    sent: GroupAction,
    due: bool,
)
    requires
        call_ensures(GroupConsumer::acquire, (c, flag), acquired),
        call_ensures(GroupConsumer::proposed, (c, flag), proposed),
        call_ensures(GroupConsumer::sent, (c, flag), sent),
        call_ensures(GroupConsumer::renewal_due, (c, since_renewal_ms), due),
    ensures
        flag ==> acquired == GroupAction::Stop && proposed == GroupAction::Converge && sent == GroupAction::Scan,
        !flag ==> acquired == GroupAction::Propose && proposed == GroupAction::StandBy && sent == GroupAction::Stop,
        due <==> since_renewal_ms >= 10_000,
{
}

/// A consumer resumes where the stored offset left off: an offset that a delivery stored is read
/// back as the position of that delivery, and nothing stored means starting at the first entry.
pub proof fn lemma_resumes_where_it_left_off(
    c: &mut GroupConsumer,
    kv: &Vec<KvEntry>,
    closed: bool,
    delivered: GroupAction,
    d: &mut GroupConsumer,
    stored: Option<&[u8]>,
    r: GroupAction,
)
    requires
        call_ensures(GroupConsumer::drain, (c, kv, closed), delivered),
        delivered is Deliver,
        stored matches Some(b) ==> b@ == delivered->offset@,
        call_ensures(GroupConsumer::resume, (d, stored), r),
    ensures
        r == GroupAction::Scan,
        stored is Some ==> (final(d).offset matches Some(q) && final(c).offset matches Some(p) && q.hlc == p.hlc && q.name
            is Some && p.name is Some && (q.name->0)@ == (p.name->0)@),
        stored is None ==> final(d).offset is None,
        final(d).active == old(d).active,
{
    let p = position_of(old(c).offset);
    let stream = old(c).stream@;
    let e = choose|e: Waiting| #[trigger]
        crate::http::log::is_next(e, kv@, stream, p) && position_of(final(c).offset) == Some((e.hlc, Some(e.name)))
            && (delivered matches GroupAction::Deliver { offset, event } && offset@ == encode_utf8(
            crate::http::log::position_text(e.hlc, e.name),
        ) && event@ == event_of(stream, LogModel { hlc: e.hlc, value: e.value }));
    crate::http::log::lemma_offset_reads_back(e.hlc, e.name);
}

/// Claims and offsets of different groups of one stream, and of one group of different streams,
/// are kept apart, and a group's claim is never its offset.
pub proof fn lemma_groups_are_kept_apart(
    a: &GroupConsumer,
    b: &GroupConsumer,
    claim: String,
    offset: String,
    other_claim: String,
    other_offset: String,
)
    requires
        call_ensures(GroupConsumer::claim_slot, (a,), claim),
        call_ensures(GroupConsumer::offset_key, (a,), offset),
        call_ensures(GroupConsumer::claim_slot, (b,), other_claim),
        call_ensures(GroupConsumer::offset_key, (b,), other_offset),
        !a.stream@.contains('/'),
        !b.stream@.contains('/'),
        a.stream@ != b.stream@ || a.group@ != b.group@,
    ensures
        claim@ != other_claim@,
        offset@ != other_offset@,
        claim@ != offset@,
{
    reveal_strlit("/claim");
    reveal_strlit("/offset");
    reveal_strlit("clog/");
    let ga = slashed(a.stream@, a.group@);
    let gb = slashed(b.stream@, b.group@);
    if claim@ == other_claim@ {
        assert(claim@.subrange(5, claim@.len() - 6) =~= ga);
        assert(claim@.subrange(5, claim@.len() - 6) =~= gb);
        crate::text::lemma_split_at_first_of_joined(a.stream@, '/', a.group@);
        crate::text::lemma_split_at_first_of_joined(b.stream@, '/', b.group@);
    }
    if offset@ == other_offset@ {
        assert(offset@.subrange(5, offset@.len() - 7) =~= ga);
        assert(offset@.subrange(5, offset@.len() - 7) =~= gb);
        crate::text::lemma_split_at_first_of_joined(a.stream@, '/', a.group@);
        crate::text::lemma_split_at_first_of_joined(b.stream@, '/', b.group@);
    }
    assert(claim@.last() == 'm');
    assert(offset@.last() == 't');
}

/// A selection and a follower's look hold as many entries as lie in the range, none twice.
pub proof fn lemma_selections_are_counted(
    kv: &Vec<KvEntry>,
    stream: &str,
    lo: u128,
    hi: u128,
    r: Vec<LogEntry>,
    f: &mut Follower,
    p: Vec<LogEntry>,
)
    requires
        call_ensures(select, (kv, stream, lo, hi), r),
        call_ensures(Follower::poll, (f, kv), p),
    ensures
        exists|idx: Seq<int>|
            {
                &&& #[trigger] increasing(idx)
                &&& idx.len() == r@.len()
                &&& forall|i: int|
                    0 <= i < kv@.len() ==> (#[trigger] idx.contains(i) <==> (hlc_of(
                        kv@[i].key@,
                        "log/"@ + stream@ + "/"@,
                    ) matches Some(h) && lo <= h < hi))
            },
        exists|idx: Seq<int>|
            {
                &&& #[trigger] increasing(idx)
                &&& idx.len() == p@.len()
                &&& forall|i: int|
                    0 <= i < kv@.len() ==> (#[trigger] idx.contains(i) <==> (hlc_of(
                        kv@[i].key@,
                        "log/"@ + old(f).stream@ + "/"@,
                    ) matches Some(h) && old(f).last_seen <= h))
            },
{
    let n = kv@.len() as int;
    let a = lemma_window_positions(kv@, log_prefix_of(stream@), lo as int, hi as int, n);
    let s = old(f).stream@;
    let b = lemma_window_positions(kv@, log_prefix_of(s), old(f).last_seen as int, u64::MAX + 1, n);
    lemma_arranged_keeps(entry_models(p@), in_window(kv@, s, old(f).last_seen as int, u64::MAX + 1));
    assert(entry_models(p@).len() == p@.len());
    assert(increasing(a) && increasing(b));
    assert forall|i: int| 0 <= i < n implies (#[trigger] b.contains(i) <==> (hlc_of(kv@[i].key@, "log/"@ + s + "/"@)
        matches Some(h) && old(f).last_seen <= h)) by {
        lemma_parsed_fits(kv@[i].key@, "log/"@ + s + "/"@);
    }
}

/// An entry's key and its event are made of its own stream, timestamp, node and value; a consumer is
/// made for its own stream and group, waits at first, and goes by its node's name.
pub proof fn lemma_entries_and_consumers(
    stream: &str,
    hlc: u64,
    node: &NodeId,
    prefix: String,
    key: String,
    e: &LogEntry,
    told: crate::json::Json,
    group: &str,
    c: GroupConsumer,
)
    requires
        call_ensures(crate::http::log::log_prefix, (stream,), prefix),
        call_ensures(crate::http::log::log_key, (stream, hlc, node), key),
        call_ensures(crate::http::log::event, (stream, e), told),
        call_ensures(GroupConsumer::new, (stream, group, node), c),
    ensures
        prefix@ == "log/"@ + stream@ + "/"@,
        key@ == entry_key(stream@, hlc, node@.text()),
        told@.at("stream"@) == JsonModel::Str(stream@),
        told@.at("hlc"@) == JsonModel::Int(e.hlc as int),
        told@.at("value_b64"@) == JsonModel::Str(base64_text(e.value@)),
        c.stream@ == stream@ && c.group@ == group@ && !c.active && c.offset is None,
        c.holder@ == encode_utf8(node@.text()),
{
    reveal_strlit("/");
    assert(key@ =~= entry_key(stream@, hlc, node@.text()));
    lemma_event_members(stream@, e@);
}

} // verus!

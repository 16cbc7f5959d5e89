//! The ordered log: append, scan, compact, follow, and the single-consumer group.
//!
//! An entry of a stream lives under `log/{stream}/{hlc}/{node}`, its timestamp as sixteen hexadecimal
//! digits: the node keeps two appends of one moment apart, and the timestamp is what orders them.
use crate::b64::{base64_text, encode};
use crate::http::body::{carried, carried_bytes, text_of};
use crate::http::reply::{error, error_of, serve, served, Reply, BAD_REQUEST};
use crate::json::{object, string, Json, JsonModel};
use crate::keys::{lemma_after_prefix_of_joined, slash, slashed, KvEntry};
use crate::node_id::{lemma_node_text_injective, valid_host, NodeId, NodeModel};
use crate::numeral::{hex16, lemma_hex16_parses, parse_radix, parsed, to_hex16};
use crate::order::{
    lemma_arrangement_mapped, lemma_filter_mapped, lemma_text_le_total, lemma_text_le_transitive, sort, sorted,
    text_at_or_before, text_le, tied_with, Ranked,
};
use crate::overlay_consistent::same_bytes;
use crate::text::{
    after_prefix, before_first, from_utf8, head, join, lemma_first_index_is, lemma_split_at_first_of_joined, same,
    split_at_first, split_once, strip_prefix, texts, utf8_of,
};
use vstd::prelude::*;
use vstd::slice::slice_to_vec;
use vstd::string::*;
use vstd::utf8::{decode_utf8, encode_utf8, encode_utf8_decode_utf8, encode_utf8_valid_utf8, valid_utf8};

verus! {

/// One entry of a stream.
#[derive(Debug, PartialEq, Eq)]
pub struct LogEntry {
    /// When it was appended.
    pub hlc: u64,
    /// What was appended.
    pub value: Vec<u8>,
}

/// What a [`LogEntry`] stands for.
#[verifier::ext_equal]
pub struct LogModel {
    /// When it was appended.
    pub hlc: u64,
    /// What was appended.
    pub value: Seq<u8>,
}

impl View for LogEntry {
    type V = LogModel;

    open spec fn view(&self) -> LogModel {
        LogModel { hlc: self.hlc, value: self.value@ }
    }
}

impl Ranked for LogEntry {
    open spec fn at_or_before(&self, other: &Self) -> bool {
        self.hlc <= other.hlc
    }

    proof fn lemma_order(a: &Self, b: &Self, c: &Self) {
    }

    fn rank(&self, other: &Self) -> (r: bool) {
        self.hlc <= other.hlc
    }
}

/// The models of some entries.
pub open spec fn entry_models(v: Seq<LogEntry>) -> Seq<LogModel> {
    v.map_values(|e: LogEntry| e@)
}

/// The prefix of a stream's keys.
pub open spec fn log_prefix_of(stream: Seq<char>) -> Seq<char> {
    "log/"@ + stream + "/"@
}

/// The key of an entry.
pub open spec fn log_key_of(stream: Seq<char>, hlc: u64, node: NodeModel) -> Seq<char> {
    log_prefix_of(stream) + slashed(hex16(hlc), node.text())
}

/// The timestamp a key under the prefix carries: its first segment, as a hexadecimal number.
pub open spec fn hlc_of(key: Seq<char>, prefix: Seq<char>) -> Option<nat> {
    match after_prefix(key, prefix) {
        Some(rest) => parsed(before_first(rest, '/'), 16),
        None => None,
    }
}

/// Is this an entry of the stream with a timestamp from `lo` up to and without `hi`?
pub open spec fn within(key: Seq<char>, prefix: Seq<char>, lo: int, hi: int) -> bool {
    hlc_of(key, prefix) matches Some(h) && lo <= h < hi
}

/// The entries of the stream among the first `k` of a scan, with a timestamp from `lo` up to and
/// without `hi`, in the order of the scan.
pub open spec fn window(kv: Seq<KvEntry>, prefix: Seq<char>, lo: int, hi: int, k: int) -> Seq<LogModel>
    decreases k,
{
    if k <= 0 {
        Seq::empty()
    } else {
        let front = window(kv, prefix, lo, hi, k - 1);
        if within(kv[k - 1].key@, prefix, lo, hi) {
            front.push(
                LogModel {
                    hlc: hlc_of(kv[k - 1].key@, prefix)->0 as u64,
                    value: kv[k - 1].value@,
                },
            )
        } else {
            front
        }
    }
}

/// Every entry of the window, in a whole scan.
pub open spec fn in_window(kv: Seq<KvEntry>, stream: Seq<char>, lo: int, hi: int) -> Seq<LogModel> {
    window(kv, log_prefix_of(stream), lo, hi, kv.len() as int)
}

/// The prefix of a stream's keys.
pub fn log_prefix(stream: &str) -> (r: String)
    ensures
        r@ == log_prefix_of(stream@),
{
    join(join("log/", stream).as_str(), "/")
}

/// The key of an entry.
pub fn log_key(stream: &str, hlc: u64, node: &NodeId) -> (r: String)
    ensures
        r@ == log_key_of(stream@, hlc, node@),
{
    let tail = slash(to_hex16(hlc).as_str(), node.text().as_str());
    join(log_prefix(stream).as_str(), tail.as_str())
}

fn key_hlc(key: &str, prefix: &str) -> (r: Option<u64>)
    ensures
        r is Some == hlc_of(key@, prefix@) is Some,
        r matches Some(h) ==> hlc_of(key@, prefix@) == Some(h as nat),
{
    match strip_prefix(key, prefix) {
        Some(rest) => parse_radix(head(rest.as_str(), '/').as_str(), 16),
        None => None,
    }
}

/// The entries of one timestamp, in the order they stand in.
pub open spec fn at_moment(v: Seq<LogModel>, hlc: u64) -> Seq<LogModel> {
    v.filter(|e: LogModel| e.hlc == hlc)
}

/// Are these the same entries in the order of their timestamps, those of one timestamp in the order
/// they stood in? There is one such arrangement.
pub open spec fn arranged(v: Seq<LogModel>, scanned: Seq<LogModel>) -> bool {
    &&& in_time_order(v)
    &&& v.to_multiset() == scanned.to_multiset()
    &&& forall|hlc: u64| #[trigger] at_moment(v, hlc) == at_moment(scanned, hlc)
}

/// The entries of a stream with a timestamp from `lo` up to and without `hi`, in the order of their
/// timestamps; those of one timestamp in the order of the scan.
pub fn select(kv: &Vec<KvEntry>, stream: &str, lo: u128, hi: u128) -> (r: Vec<LogEntry>)
    ensures
        sorted(r@),
        arranged(entry_models(r@), in_window(kv@, stream@, lo as int, hi as int)),
        r@.len() == in_window(kv@, stream@, lo as int, hi as int).len(),
{
    let prefix = log_prefix(stream);
    let mut out: Vec<LogEntry> = Vec::new();
    let mut k: usize = 0;
    assert(entry_models(out@) =~= Seq::empty());
    while k < kv.len()
        invariant
            k <= kv@.len(),
            prefix@ == log_prefix_of(stream@),
            entry_models(out@) == window(kv@, prefix@, lo as int, hi as int, k as int),
        decreases kv@.len() - k,
    {
        let ghost before = out@;
        if let Some(hlc) = key_hlc(kv[k].key.as_str(), prefix.as_str()) {
            if lo <= hlc as u128 && (hlc as u128) < hi {
                let value = slice_to_vec(kv[k].value.as_slice());
                let entry = LogEntry { hlc, value };
                out.push(entry);
                assert(entry_models(out@) =~= entry_models(before).push(entry@));
            }
        }
        k += 1;
    }
    let ghost picked = out@;
    let r = sort(out);
    proof {
        lemma_arrangement_mapped(r@, picked, |e: LogEntry| e@);
        let v = entry_models(r@);
        assert forall|i: int, j: int| #![trigger v[i], v[j]] 0 <= i < j < v.len() implies v[i].hlc <= v[j].hlc by {
            assert(r@[i].at_or_before(&r@[j]));
        }
        assert forall|hlc: u64| #[trigger] at_moment(v, hlc) == at_moment(entry_models(picked), hlc) by {
            lemma_moments_kept(r@, picked, hlc);
        }
    }
    r
}

proof fn lemma_moments_kept(s: Seq<LogEntry>, t: Seq<LogEntry>, hlc: u64)
    requires
        forall|x: LogEntry| #[trigger] tied_with(s, x) == tied_with(t, x),
    ensures
        at_moment(entry_models(s), hlc) == at_moment(entry_models(t), hlc),
{
    let f = |e: LogEntry| e@;
    let p = |m: LogModel| m.hlc == hlc;
    let q = |e: LogEntry| p(f(e));
    lemma_filter_mapped(s, f, p);
    lemma_filter_mapped(t, f, p);
    if exists|x: LogEntry| #[trigger] q(x) {
        let x = choose|x: LogEntry| #[trigger] q(x);
        let tied = |y: LogEntry| x.at_or_before(&y) && y.at_or_before(&x);
        assert(q =~= tied);
        assert(tied_with(s, x) == tied_with(t, x));
    } else {
        if s.filter(q).len() > 0 {
            s.lemma_filter_pred(q, 0);
        }
        if t.filter(q).len() > 0 {
            t.lemma_filter_pred(q, 0);
        }
        assert(s.filter(q) =~= t.filter(q));
    }
}

/// An entry as the scan lists it.
pub open spec fn entry_json_of(e: LogModel) -> JsonModel {
    object().field("hlc"@, JsonModel::Int(e.hlc as int)).field(
        "value_b64"@,
        string(base64_text(e.value)),
    )
}

/// An entry as a subscription sends it.
pub open spec fn event_of(stream: Seq<char>, e: LogModel) -> JsonModel {
    object().field("stream"@, string(stream)).field("hlc"@, JsonModel::Int(e.hlc as int)).field(
        "value_b64"@,
        string(base64_text(e.value)),
    )
}

/// An entry as a subscription sends it.
pub fn event(stream: &str, e: &LogEntry) -> (r: Json)
    ensures
        r@ == event_of(stream@, e@),
{
    Json::empty_object().with_str("stream", stream).with("hlc", Json::UInt(e.hlc)).with_str(
        "value_b64",
        encode(e.value.as_slice()).as_str(),
    )
}

/// The listing of some entries.
pub open spec fn listing_of(v: Seq<LogModel>) -> JsonModel {
    JsonModel::Arr(Seq::new(v.len(), |i: int| entry_json_of(v[i])))
}

/// Is the sequence of entries in the order of their timestamps?
pub open spec fn in_time_order(v: Seq<LogModel>) -> bool {
    forall|i: int, j: int| #![trigger v[i], v[j]] 0 <= i < j < v.len() ==> v[i].hlc <= v[j].hlc
}

/// Where a scan begins: at zero, unless it says.
pub open spec fn lower(from: Option<u64>) -> int {
    match from {
        Some(f) => f as int,
        None => 0,
    }
}

/// Where a scan ends: at the largest timestamp, unless it says.
pub open spec fn upper(to: Option<u64>) -> int {
    match to {
        Some(t) => t as int,
        None => u64::MAX as int,
    }
}

/// Answer a range scan: every entry with a timestamp from `from` (zero when absent) up to and without
/// `to` (the largest when absent), in the order of their timestamps; those of one timestamp in the order
/// of the scan.
pub fn log_scan(kv: &Vec<KvEntry>, stream: &str, from: Option<u64>, to: Option<u64>) -> (r: Reply)
    ensures
        exists|v: Seq<LogModel>| #[trigger]
            arranged(v, in_window(kv@, stream@, lower(from), upper(to))) && r@ == served(listing_of(v)),
{
    let lo: u64 = match from {
        Some(f) => f,
        None => 0,
    };
    let hi: u64 = match to {
        Some(t) => t,
        None => u64::MAX,
    };
    let entries = select(kv, stream, lo as u128, hi as u128);
    let mut out: Vec<Json> = Vec::new();
    let mut k: usize = 0;
    while k < entries.len()
        invariant
            k <= entries@.len(),
            out@.len() == k,
            forall|i: int| 0 <= i < k ==> (#[trigger] out@[i])@ == entry_json_of(entries@[i]@),
        decreases entries@.len() - k,
    {
        let b64 = encode(entries[k].value.as_slice());
        out.push(
            Json::empty_object().with("hlc", Json::UInt(entries[k].hlc)).with_str(
                "value_b64",
                b64.as_str(),
            ),
        );
        k += 1;
    }
    let body = Json::array(out);
    proof {
        let v = entry_models(entries@);
        assert(body@->Arr_0 =~= listing_of(v)->Arr_0);
        assert(arranged(v, in_window(kv@, stream@, lower(from), upper(to))));
        assert(body@ == listing_of(v));
    }
    serve(body)
}

/// What an append asks for.
#[derive(Debug, PartialEq, Eq)]
pub enum Append {
    /// Write this entry, then answer with the timestamp.
    Write {
        /// Where.
        key: String,
        /// What.
        value: Vec<u8>,
        /// The answer.
        reply: Reply,
    },
    /// Answer this.
    Refuse(Reply),
}

/// Append to a stream at this moment.
pub fn log_append(stream: &str, value_b64: Option<&str>, hlc: u64, node: &NodeId) -> (r: Append)
    ensures
        match carried(text_of(value_b64)) {
            Some(bytes) => r matches Append::Write { key, value, reply } && key@ == log_key_of(
                stream@,
                hlc,
                node@,
            ) && value@ == bytes && reply@ == served(
                object().field("hlc"@, JsonModel::Int(hlc as int)),
            ),
            None => r matches Append::Refuse(reply) && reply@ == error_of(
                BAD_REQUEST,
                "invalid base64 value"@,
            ),
        },
{
    match carried_bytes(value_b64) {
        Some(value) => Append::Write {
            key: log_key(stream, hlc, node),
            value,
            reply: serve(Json::empty_object().with("hlc", Json::UInt(hlc))),
        },
        None => Append::Refuse(error(BAD_REQUEST, "invalid base64 value")),
    }
}

/// The keys among the first `k` of a scan that a compaction removes.
pub open spec fn outdated(kv: Seq<KvEntry>, prefix: Seq<char>, before: int, k: int) -> Seq<Seq<char>>
    decreases k,
{
    if k <= 0 {
        Seq::empty()
    } else {
        let front = outdated(kv, prefix, before, k - 1);
        if within(kv[k - 1].key@, prefix, 0, before) {
            front.push(kv[k - 1].key@)
        } else {
            front
        }
    }
}

/// The keys a compaction removes: those of the stream with a timestamp below `before_hlc`.
pub fn log_compact(kv: &Vec<KvEntry>, stream: &str, before_hlc: u64) -> (r: Vec<String>)
    ensures
        texts(r@) == outdated(
            kv@,
            log_prefix_of(stream@),
            before_hlc as int,
            kv@.len() as int,
        ),
{
    let prefix = log_prefix(stream);
    let mut out: Vec<String> = Vec::new();
    let mut k: usize = 0;
    assert(texts(out@) =~= Seq::empty());
    while k < kv.len()
        invariant
            k <= kv@.len(),
            prefix@ == log_prefix_of(stream@),
            texts(out@) == outdated(kv@, prefix@, before_hlc as int, k as int),
        decreases kv@.len() - k,
    {
        let ghost before = out@;
        if let Some(hlc) = key_hlc(kv[k].key.as_str(), prefix.as_str()) {
            if hlc < before_hlc {
                out.push(kv[k].key.clone());
                assert(texts(out@) =~= texts(before).push(kv@[k as int].key@));
            }
        }
        k += 1;
    }
    out
}

/// Where a follower stands: it has sent everything below this timestamp.
#[derive(Debug, PartialEq, Eq)]
pub struct Follower {
    /// The stream it follows.
    pub stream: String,
    /// The first timestamp it has not sent.
    pub last_seen: u64,
}

/// The first timestamp above `hlc`; the largest stays.
pub open spec fn just_above(hlc: u64) -> u64 {
    if hlc == u64::MAX {
        u64::MAX
    } else {
        (hlc + 1) as u64
    }
}

impl Follower {
    /// Follow a stream from `since` on.
    pub fn new(stream: &str, since: Option<u64>) -> (r: Self)
        ensures
            r.stream@ == stream@,
            r.last_seen == match since {
                Some(s) => s,
                None => 0,
            },
    {
        Follower {
            stream: stream.to_owned(),
            last_seen: match since {
                Some(s) => s,
                None => 0,
            },
        }
    }

    /// What to send now, in the order of the timestamps: everything not sent yet. An entry's timestamp
    /// comes from its key, which any node can write, so the largest one does not wrap the position.
    pub fn poll(&mut self, kv: &Vec<KvEntry>) -> (r: Vec<LogEntry>)
        ensures
            sorted(r@),
            arranged(
                entry_models(r@),
                in_window(kv@, old(self).stream@, old(self).last_seen as int, u64::MAX + 1),
            ),
            final(self).stream@ == old(self).stream@,
            final(self).last_seen == if r@.len() == 0 {
                old(self).last_seen
            } else {
                just_above(r@.last().hlc)
            },
    {
        let r = select(
            kv,
            self.stream.as_str(),
            self.last_seen as u128,
            u64::MAX as u128 + 1,
        );
        if r.len() > 0 {
            let hlc: u64 = r[r.len() - 1].hlc;
            self.last_seen = if hlc == u64::MAX {
                u64::MAX
            } else {
                hlc + 1
            };
        }
        r
    }
}

/// How long a group's claim lasts without renewal.
pub const GROUP_LEASE_SECS: u64 = 30;

/// How often the active consumer renews its claim.
pub const GROUP_RENEW_MS: u64 = 10_000;

/// How long a commit is left to converge before the holder is read.
pub const CONVERGE_MS: u64 = 1000;

/// How long a consumer stands by before it tries again.
pub const STANDBY_MS: u64 = 500;

/// How long the active consumer waits when there is nothing to send.
pub const IDLE_MS: u64 = 100;

/// The slot a group's claim is committed to.
pub open spec fn claim_slot_of(stream: Seq<char>, group: Seq<char>) -> Seq<char> {
    "clog/"@ + slashed(stream, group) + "/claim"@
}

/// Where a group's position is kept.
pub open spec fn offset_key_of(stream: Seq<char>, group: Seq<char>) -> Seq<char> {
    "clog/"@ + slashed(stream, group) + "/offset"@
}

/// One subscriber of a consumer group. At most one of a group's subscribers is active; it receives the
/// entries in the order of their timestamps, and another takes over when its claim lapses.
#[derive(Debug, PartialEq, Eq)]
pub struct GroupConsumer {
    /// The stream.
    pub stream: String,
    /// The group.
    pub group: String,
    /// This node, as the claim's value holds it. It carries no expiry, so that proposing it again
    /// renews the claim.
    pub holder: Vec<u8>,
    /// Whether the claim was last seen to be this node's.
    pub active: bool,
    /// Behind which entry the next one is looked for; none, where nothing was sent yet.
    pub offset: Option<Position>,
}

/// What the subscription does next.
#[derive(Debug, PartialEq, Eq)]
pub enum GroupAction {
    /// Propose the holder for the claim, under a lease.
    Propose,
    /// Let the commit converge, then read who holds the claim.
    Converge,
    /// Wait, then try again.
    StandBy,
    /// Read the group's position.
    ReadOffset,
    /// Read the stream.
    Scan,
    /// Keep the position, then send the event.
    Deliver {
        /// The value to keep the position under.
        offset: Vec<u8>,
        /// The event.
        event: Json,
    },
    /// Wait for entries.
    Idle,
    /// End the subscription; an unrenewed claim lapses, and another consumer can take over.
    Stop,
}

/// Behind which entry a group goes on. Two nodes can append at one moment, so the timestamp alone does
/// not name an entry; what follows the stream's prefix in its key does.
#[derive(Debug, PartialEq, Eq)]
pub struct Position {
    /// The timestamp of the last entry sent.
    pub hlc: u64,
    /// The name of the last entry sent; without one, every entry of the timestamp was.
    pub name: Option<String>,
}

impl View for Position {
    type V = (u64, Option<Seq<char>>);

    open spec fn view(&self) -> Self::V {
        (
            self.hlc,
            match self.name {
                Some(n) => Some(n@),
                None => None,
            },
        )
    }
}

/// A position that may be absent.
pub open spec fn position_of(p: Option<Position>) -> Option<(u64, Option<Seq<char>>)> {
    match p {
        Some(q) => Some(q@),
        None => None,
    }
}

/// Does the entry lie behind the position? Entries are ordered by their timestamps, and those of one
/// timestamp by their names.
pub open spec fn lies_behind(p: Option<(u64, Option<Seq<char>>)>, hlc: u64, name: Seq<char>) -> bool {
    match p {
        None => true,
        Some((h, None)) => hlc > h,
        Some((h, Some(n))) => hlc > h || (hlc == h && text_le(n, name) && n != name),
    }
}

/// An entry that waits to be sent.
#[verifier::ext_equal]
pub struct Waiting {
    /// When it was appended.
    pub hlc: u64,
    /// What follows the stream's prefix in its key.
    pub name: Seq<char>,
    /// What was appended.
    pub value: Seq<u8>,
}

/// What an entry of the store is to the stream: nothing, where its key carries no timestamp.
pub open spec fn waiting_at(e: KvEntry, prefix: Seq<char>) -> Option<Waiting> {
    match (after_prefix(e.key@, prefix), hlc_of(e.key@, prefix)) {
        (Some(name), Some(h)) => Some(Waiting { hlc: h as u64, name, value: e.value@ }),
        _ => None,
    }
}

/// The entries of the stream among the first `k` that lie behind the position.
pub open spec fn waiting_among(
    kv: Seq<KvEntry>,
    prefix: Seq<char>,
    p: Option<(u64, Option<Seq<char>>)>,
    k: int,
) -> Seq<Waiting>
    decreases k,
{
    if k <= 0 {
        Seq::empty()
    } else {
        let front = waiting_among(kv, prefix, p, k - 1);
        match waiting_at(kv[k - 1], prefix) {
            Some(w) if lies_behind(p, w.hlc, w.name) => front.push(w),
            _ => front,
        }
    }
}

/// Every entry of the stream that lies behind the position.
pub open spec fn waiting_in(
    kv: Seq<KvEntry>,
    stream: Seq<char>,
    p: Option<(u64, Option<Seq<char>>)>,
) -> Seq<Waiting> {
    waiting_among(kv, log_prefix_of(stream), p, kv.len() as int)
}

/// Is `a` at or before `b` in the order entries are sent in?
pub open spec fn sent_by(a: Waiting, b: Waiting) -> bool {
    a.hlc < b.hlc || (a.hlc == b.hlc && text_le(a.name, b.name))
}

/// How a position is kept: the timestamp, and the name of the entry.
pub open spec fn position_text(hlc: u64, name: Seq<char>) -> Seq<char> {
    slashed(hex16(hlc), name)
}

/// The position a stored value stands for: the start, where there is none or it cannot be read. A
/// timestamp alone stands for all its entries.
pub open spec fn stored_position(b: Option<Seq<u8>>) -> Option<(u64, Option<Seq<char>>)> {
    match b {
        Some(v) if valid_utf8(v) => match split_at_first(decode_utf8(v), '/') {
            Some((h, name)) => match parsed(h, 16) {
                Some(n) => Some((n as u64, Some(name))),
                None => None,
            },
            None => match parsed(decode_utf8(v), 16) {
                Some(n) => Some((n as u64, None)),
                None => None,
            },
        },
        _ => None,
    }
}

fn read_position(b: Option<&[u8]>) -> (r: Option<Position>)
    ensures
        position_of(r) == stored_position(
            match b {
                Some(v) => Some(v@),
                None => None,
            },
        ),
{
    let text = match b {
        Some(v) => match from_utf8(v) {
            Some(t) => t,
            None => {
                return None;
            },
        },
        None => {
            return None;
        },
    };
    match split_once(text.as_str(), '/') {
        Some((h, name)) => match parse_radix(h.as_str(), 16) {
            Some(hlc) => Some(Position { hlc, name: Some(name) }),
            None => None,
        },
        None => match parse_radix(text.as_str(), 16) {
            Some(hlc) => Some(Position { hlc, name: None }),
            None => None,
        },
    }
}

fn is_behind(p: &Option<Position>, hlc: u64, name: &str) -> (r: bool)
    ensures
        r == lies_behind(position_of(*p), hlc, name@),
{
    match p {
        None => true,
        Some(q) => {
            if hlc != q.hlc {
                return hlc > q.hlc;
            }
            match &q.name {
                None => false,
                Some(n) => text_at_or_before(n.as_str(), name) && !same(n.as_str(), name),
            }
        },
    }
}

/// Is the entry one that comes next: does it wait, and is nothing that waits sent before it?
pub open spec fn is_next(
    e: Waiting,
    kv: Seq<KvEntry>,
    stream: Seq<char>,
    p: Option<(u64, Option<Seq<char>>)>,
) -> bool {
    let waiting = waiting_in(kv, stream, p);
    waiting.contains(e) && forall|i: int| 0 <= i < waiting.len() ==> sent_by(e, #[trigger] waiting[i])
}

impl GroupConsumer {
    /// A subscriber that does not hold the claim yet.
    pub fn new(stream: &str, group: &str, node: &NodeId) -> (r: Self)
        ensures
            r.stream@ == stream@,
            r.group@ == group@,
            r.holder@ == encode_utf8(node@.text()),
            !r.active,
            r.offset is None,
    {
        GroupConsumer {
            stream: stream.to_owned(),
            group: group.to_owned(),
            holder: utf8_of(node.text().as_str()),
            active: false,
            offset: None,
        }
    }

    /// The slot the claim is committed to.
    pub fn claim_slot(&self) -> (r: String)
        ensures
            r@ == claim_slot_of(self.stream@, self.group@),
    {
        let middle = slash(self.stream.as_str(), self.group.as_str());
        join(join("clog/", middle.as_str()).as_str(), "/claim")
    }

    /// Where the position is kept.
    pub fn offset_key(&self) -> (r: String)
        ensures
            r@ == offset_key_of(self.stream@, self.group@),
    {
        let middle = slash(self.stream.as_str(), self.group.as_str());
        join(join("clog/", middle.as_str()).as_str(), "/offset")
    }

    /// Try for the claim, unless the client has gone.
    pub fn acquire(&self, closed: bool) -> (r: GroupAction)
        ensures
            r == if closed {
                GroupAction::Stop
            } else {
                GroupAction::Propose
            },
    {
        if closed {
            GroupAction::Stop
        } else {
            GroupAction::Propose
        }
    }

    /// A proposal came back. That it committed does not make this node the holder: two proposals of one
    /// moment can both commit, each against its own view.
    pub fn proposed(&self, committed: bool) -> (r: GroupAction)
        ensures
            r == if committed {
                GroupAction::Converge
            } else {
                GroupAction::StandBy
            },
    {
        if committed {
            GroupAction::Converge
        } else {
            GroupAction::StandBy
        }
    }

    /// The converged holder decides: this node goes on only where it is the holder. A loser stands by
    /// without releasing, for the claim there is the winner's.
    pub fn converged(&mut self, live: Option<&[u8]>) -> (r: GroupAction)
        ensures
            final(self).active == (live matches Some(v) && v@ == old(self).holder@),
            r == if final(self).active {
                GroupAction::ReadOffset
            } else {
                GroupAction::StandBy
            },
            final(self).stream == old(self).stream,
            final(self).group == old(self).group,
            final(self).holder == old(self).holder,
            final(self).offset == old(self).offset,
    {
        self.active = match live {
            Some(v) => same_bytes(v, self.holder.as_slice()),
            None => false,
        };
        if self.active {
            GroupAction::ReadOffset
        } else {
            GroupAction::StandBy
        }
    }

    /// Go on from the position that was kept.
    pub fn resume(&mut self, stored: Option<&[u8]>) -> (r: GroupAction)
        ensures
            r == GroupAction::Scan,
            position_of(final(self).offset) == stored_position(
                match stored {
                    Some(b) => Some(b@),
                    None => None,
                },
            ),
            final(self).stream == old(self).stream,
            final(self).group == old(self).group,
            final(self).holder == old(self).holder,
            final(self).active == old(self).active,
    {
        self.offset = read_position(stored);
        GroupAction::Scan
    }

    /// Is the claim due to be renewed? Then the holder is proposed again, and read.
    pub fn renewal_due(&self, since_renewal_ms: u64) -> (r: bool)
        ensures
            r == (since_renewal_ms >= GROUP_RENEW_MS),
    {
        since_renewal_ms >= GROUP_RENEW_MS
    }

    /// The holder after a renewal: where the claim was lost, the subscription ends.
    pub fn renewed(&mut self, live: Option<&[u8]>) -> (r: GroupAction)
        ensures
            final(self).active == (live matches Some(v) && v@ == old(self).holder@),
            r == if final(self).active {
                GroupAction::Scan
            } else {
                GroupAction::Stop
            },
            final(self).stream == old(self).stream,
            final(self).group == old(self).group,
            final(self).holder == old(self).holder,
            final(self).offset == old(self).offset,
    {
        self.active = match live {
            Some(v) => same_bytes(v, self.holder.as_slice()),
            None => false,
        };
        if self.active {
            GroupAction::Scan
        } else {
            GroupAction::Stop
        }
    }

    /// Send the next entry: the first behind the position, which it becomes. With none, wait, unless the
    /// client has gone: then the claim is left to lapse. Nothing is sent without the claim.
    pub fn drain(&mut self, kv: &Vec<KvEntry>, closed: bool) -> (r: GroupAction)
        ensures
            final(self).stream == old(self).stream,
            final(self).group == old(self).group,
            final(self).holder == old(self).holder,
            final(self).active == old(self).active,
            ({
                let p = position_of(old(self).offset);
                let waiting = waiting_in(kv@, old(self).stream@, p);
                if !old(self).active {
                    r == GroupAction::Stop && final(self).offset == old(self).offset
                } else if waiting.len() == 0 {
                    &&& r == if closed {
                        GroupAction::Stop
                    } else {
                        GroupAction::Idle
                    }
                    &&& final(self).offset == old(self).offset
                } else {
                    exists|e: Waiting| #[trigger]
                        is_next(e, kv@, old(self).stream@, p) && position_of(final(self).offset) == Some(
                            (e.hlc, Some(e.name)),
                        ) && (r matches GroupAction::Deliver { offset, event } && offset@ == encode_utf8(
                            position_text(e.hlc, e.name),
                        ) && event@ == event_of(
                            old(self).stream@,
                            LogModel { hlc: e.hlc, value: e.value },
                        ))
                }
            }),
    {
        if !self.active {
            return GroupAction::Stop;
        }
        let prefix = log_prefix(self.stream.as_str());
        let ghost p = position_of(self.offset);
        let mut best: Option<(LogEntry, String)> = None;
        let mut k: usize = 0;
        while k < kv.len()
            invariant
                k <= kv@.len(),
                prefix@ == log_prefix_of(self.stream@),
                p == position_of(self.offset),
                best is None == (waiting_among(kv@, prefix@, p, k as int).len() == 0),
                best matches Some((e, name)) ==> first_of(
                    Waiting { hlc: e.hlc, name: name@, value: e.value@ },
                    waiting_among(kv@, prefix@, p, k as int),
                ),
            decreases kv@.len() - k,
        {
            let ghost front = waiting_among(kv@, prefix@, p, k as int);
            if let Some(hlc) = key_hlc(kv[k].key.as_str(), prefix.as_str()) {
                if let Some(name) = strip_prefix(kv[k].key.as_str(), prefix.as_str()) {
                    if is_behind(&self.offset, hlc, name.as_str()) {
                        let ghost w = Waiting { hlc, name: name@, value: kv@[k as int].value@ };
                        assert(waiting_among(kv@, prefix@, p, k + 1) == front.push(w));
                        let sooner = match &best {
                            None => true,
                            Some((b, n)) => hlc < b.hlc || (hlc == b.hlc && !text_at_or_before(
                                n.as_str(),
                                name.as_str(),
                            )),
                        };
                        proof {
                            if best is Some {
                                let (b, n) = best->0;
                                let held = Waiting { hlc: b.hlc, name: n@, value: b.value@ };
                                lemma_first_of_push(held, front, w);
                                lemma_text_le_total(held.name, w.name);
                            } else {
                                assert(front.push(w)[0] == w);
                                lemma_text_le_total(w.name, w.name);
                            }
                        }
                        if sooner {
                            best = Some((LogEntry { hlc, value: slice_to_vec(kv[k].value.as_slice()) }, name));
                        }
                    }
                }
            }
            k += 1;
        }
        match best {
            None => if closed {
                GroupAction::Stop
            } else {
                GroupAction::Idle
            },
            Some((entry, name)) => {
                let ghost e = Waiting { hlc: entry.hlc, name: name@, value: entry.value@ };
                assert(is_next(e, kv@, self.stream@, p));
                let data = event(self.stream.as_str(), &entry);
                let text = slash(to_hex16(entry.hlc).as_str(), name.as_str());
                let offset = utf8_of(text.as_str());
                self.offset = Some(Position { hlc: entry.hlc, name: Some(name) });
                GroupAction::Deliver { offset, event: data }
            },
        }
    }

    /// Was the event taken? A client that has gone ends the subscription.
    pub fn sent(&self, taken: bool) -> (r: GroupAction)
        ensures
            r == if taken {
                GroupAction::Scan
            } else {
                GroupAction::Stop
            },
    {
        if taken {
            GroupAction::Scan
        } else {
            GroupAction::Stop
        }
    }
}

/// What is appended is found: the key of an entry carries its timestamp.
pub proof fn lemma_appended_is_found(stream: Seq<char>, hlc: u64, node: NodeModel)
    ensures
        hlc_of(log_key_of(stream, hlc, node), log_prefix_of(stream)) == Some(hlc as nat),
{
    let prefix = log_prefix_of(stream);
    let rest = slashed(hex16(hlc), node.text());
    lemma_after_prefix_of_joined(prefix, rest);
    lemma_hex16_parses(hlc);
    assert(rest[hex16(hlc).len() as int] == '/');
    lemma_first_index_is(rest, '/', hex16(hlc).len() as int);
    assert(before_first(rest, '/') =~= hex16(hlc));
}

/// Two entries of one stream lie under one key only if they are one append of one node.
pub proof fn lemma_appends_do_not_collide(stream: Seq<char>, h: u64, a: NodeModel, g: u64, b: NodeModel)
    requires
        log_key_of(stream, h, a) == log_key_of(stream, g, b),
    ensures
        h == g,
        a.text() == b.text(),
{
    lemma_appended_is_found(stream, h, a);
    lemma_appended_is_found(stream, g, b);
    let p = log_prefix_of(stream);
    let n = p.len() + hex16(h).len() + 1;
    let k = log_key_of(stream, h, a);
    assert(k.subrange(n as int, k.len() as int) =~= a.text());
    assert(log_key_of(stream, g, b).subrange(n as int, k.len() as int) =~= b.text());
}

/// A group's position reads back.
pub proof fn lemma_offset_reads_back(hlc: u64, name: Seq<char>)
    ensures
        stored_position(Some(encode_utf8(position_text(hlc, name)))) == Some((hlc, Some(name))),
{
    let t = position_text(hlc, name);
    encode_utf8_valid_utf8(t);
    encode_utf8_decode_utf8(t);
    lemma_hex16_parses(hlc);
    lemma_split_at_first_of_joined(hex16(hlc), '/', name);
}

/// **A single active consumer.** One converged holder confirms the subscribers of one node only.
pub proof fn lemma_single_active(a: NodeModel, b: NodeModel, live: Seq<u8>)
    requires
        valid_host(a.host),
        valid_host(b.host),
        live == encode_utf8(a.text()),
        live == encode_utf8(b.text()),
    ensures
        a == b,
{
    encode_utf8_decode_utf8(a.text());
    encode_utf8_decode_utf8(b.text());
    lemma_node_text_injective(a, b);
}

/// Is the entry among these, with none of them sent before it?
pub open spec fn first_of(e: Waiting, v: Seq<Waiting>) -> bool {
    v.contains(e) && forall|i: int| 0 <= i < v.len() ==> sent_by(e, #[trigger] v[i])
}

proof fn lemma_first_of_push(e: Waiting, v: Seq<Waiting>, w: Waiting)
    requires
        first_of(e, v),
    ensures
        sent_by(e, w) ==> first_of(e, v.push(w)),
        sent_by(w, e) ==> first_of(w, v.push(w)),
{
    let all = v.push(w);
    let j = choose|j: int| 0 <= j < v.len() && v[j] == e;
    assert(all[j] == e);
    assert(all[v.len() as int] == w);
    if sent_by(w, e) {
        assert forall|i: int| 0 <= i < all.len() implies sent_by(w, #[trigger] all[i]) by {
            if i < v.len() {
                assert(all[i] == v[i]);
                if text_le(w.name, e.name) && text_le(e.name, v[i].name) {
                    lemma_text_le_transitive(w.name, e.name, v[i].name);
                }
            } else {
                lemma_text_le_total(w.name, w.name);
            }
        }
    }
}

/// The keys of a scan differ: a store holds one entry under a key.
pub open spec fn distinct_keys(kv: Seq<KvEntry>) -> bool {
    forall|i: int, j: int| 0 <= i < j < kv.len() ==> (#[trigger] kv[i]).key@ != (#[trigger] kv[j]).key@
}

/// What waits is exactly what the stream holds behind the position.
proof fn lemma_waiting(kv: Seq<KvEntry>, prefix: Seq<char>, p: Option<(u64, Option<Seq<char>>)>, k: int)
    requires
        0 <= k <= kv.len(),
    ensures
        forall|w: Waiting| #[trigger]
            waiting_among(kv, prefix, p, k).contains(w) <==> lies_behind(p, w.hlc, w.name) && held_at(
                kv,
                prefix,
                w,
                k,
            ),
    decreases k,
{
    if k > 0 {
        lemma_waiting(kv, prefix, p, k - 1);
        let front = waiting_among(kv, prefix, p, k - 1);
        let all = waiting_among(kv, prefix, p, k);
        assert forall|w: Waiting| #[trigger] all.contains(w) <==> lies_behind(p, w.hlc, w.name) && held_at(
            kv,
            prefix,
            w,
            k,
        ) by {
            assert(front.contains(w) <==> lies_behind(p, w.hlc, w.name) && held_at(kv, prefix, w, k - 1));
            if front.contains(w) {
                let i = choose|i: int| 0 <= i < front.len() && front[i] == w;
                assert(all[i] == w);
            }
            if all.len() > front.len() {
                assert(all[front.len() as int] == waiting_at(kv[k - 1], prefix)->0);
            }
            if held_at(kv, prefix, w, k - 1) {
                let i = choose|i: int| 0 <= i < k - 1 && #[trigger] waiting_at(kv[i], prefix) == Some(w);
                assert(waiting_at(kv[i], prefix) == Some(w));
            }
            if held_at(kv, prefix, w, k) && !held_at(kv, prefix, w, k - 1) {
                let i = choose|i: int| 0 <= i < k && #[trigger] waiting_at(kv[i], prefix) == Some(w);
                assert(i == k - 1);
            }
        }
    }
}

/// Does one of the first `k` entries of the store hold this entry of the stream?
pub open spec fn held_at(kv: Seq<KvEntry>, prefix: Seq<char>, w: Waiting, k: int) -> bool {
    exists|i: int| 0 <= i < k && #[trigger] waiting_at(kv[i], prefix) == Some(w)
}

/// **Never twice, in order.** The entry that is sent next lies behind the position, nothing that waits
/// lies before it, and once it is sent it does not wait any more.
pub proof fn lemma_exactly_once(
    e: Waiting,
    kv: Seq<KvEntry>,
    stream: Seq<char>,
    p: Option<(u64, Option<Seq<char>>)>,
)
    requires
        is_next(e, kv, stream, p),
    ensures
        lies_behind(p, e.hlc, e.name),
        forall|m: Waiting| #[trigger] waiting_in(kv, stream, p).contains(m) ==> sent_by(e, m),
        !waiting_in(kv, stream, Some((e.hlc, Some(e.name)))).contains(e),
{
    let prefix = log_prefix_of(stream);
    let waiting = waiting_in(kv, stream, p);
    lemma_waiting(kv, prefix, p, kv.len() as int);
    lemma_waiting(kv, prefix, Some((e.hlc, Some(e.name))), kv.len() as int);
    assert(waiting.contains(e));
    assert forall|m: Waiting| #[trigger] waiting.contains(m) implies sent_by(e, m) by {
        let i = choose|i: int| 0 <= i < waiting.len() && waiting[i] == m;
        assert(sent_by(e, waiting[i]));
    }
}

/// **None is passed over.** What waits after an entry is sent is every entry that waited before, but for
/// the one sent, also where entries share a timestamp.
pub proof fn lemma_none_is_passed_over(
    e: Waiting,
    kv: Seq<KvEntry>,
    stream: Seq<char>,
    p: Option<(u64, Option<Seq<char>>)>,
    m: Waiting,
)
    requires
        distinct_keys(kv),
        is_next(e, kv, stream, p),
    ensures
        waiting_in(kv, stream, Some((e.hlc, Some(e.name)))).contains(m) <==> waiting_in(
            kv,
            stream,
            p,
        ).contains(m) && m != e,
{
    let prefix = log_prefix_of(stream);
    let n = kv.len() as int;
    let q = Some((e.hlc, Some(e.name)));
    let before = waiting_in(kv, stream, p);
    let after = waiting_in(kv, stream, q);
    lemma_waiting(kv, prefix, p, n);
    lemma_waiting(kv, prefix, q, n);
    lemma_exactly_once(e, kv, stream, p);
    assert(before.contains(e) && held_at(kv, prefix, e, n));
    if after.contains(m) {
        lemma_behind_goes_on(p, e, m);
        assert(before.contains(m));
    }
    if before.contains(m) && m != e {
        assert(sent_by(e, m));
        if m.hlc == e.hlc && m.name == e.name {
            let i = choose|i: int| 0 <= i < n && #[trigger] waiting_at(kv[i], prefix) == Some(e);
            let j = choose|j: int| 0 <= j < n && #[trigger] waiting_at(kv[j], prefix) == Some(m);
            lemma_name_is_key(kv[i].key@, kv[j].key@, prefix);
            if i < j {
                assert(kv[i].key@ != kv[j].key@);
            } else if j < i {
                assert(kv[j].key@ != kv[i].key@);
            }
            assert(false);
        }
        assert(lies_behind(q, m.hlc, m.name));
        assert(after.contains(m));
    }
}

proof fn lemma_behind_goes_on(p: Option<(u64, Option<Seq<char>>)>, e: Waiting, m: Waiting)
    requires
        lies_behind(p, e.hlc, e.name),
        lies_behind(Some((e.hlc, Some(e.name))), m.hlc, m.name),
    ensures
        lies_behind(p, m.hlc, m.name),
{
    if let Some((h, Some(n))) = p {
        if h == e.hlc && e.hlc == m.hlc {
            lemma_text_le_transitive(n, e.name, m.name);
            if n == m.name {
                lemma_text_le_total(n, e.name);
            }
        }
    }
}

proof fn lemma_name_is_key(a: Seq<char>, b: Seq<char>, prefix: Seq<char>)
    requires
        after_prefix(a, prefix) is Some,
        after_prefix(a, prefix) == after_prefix(b, prefix),
    ensures
        a == b,
{
    assert(a =~= prefix + after_prefix(a, prefix)->0);
    assert(b =~= prefix + after_prefix(b, prefix)->0);
}

/// Does sending these, one after the other from the position on, send all that waits?
pub open spec fn sent_in_turn(
    sent: Seq<Waiting>,
    kv: Seq<KvEntry>,
    stream: Seq<char>,
    p: Option<(u64, Option<Seq<char>>)>,
) -> bool
    decreases sent.len(),
{
    if sent.len() == 0 {
        waiting_in(kv, stream, p).len() == 0
    } else {
        is_next(sent[0], kv, stream, p) && sent_in_turn(
            sent.drop_first(),
            kv,
            stream,
            Some((sent[0].hlc, Some(sent[0].name))),
        )
    }
}

/// **Every entry, exactly once, in the order of the timestamps.** What a consumer sends from a position
/// until nothing waits is every entry of the stream behind the position, each once.
pub proof fn lemma_every_entry_once(
    sent: Seq<Waiting>,
    kv: Seq<KvEntry>,
    stream: Seq<char>,
    p: Option<(u64, Option<Seq<char>>)>,
)
    requires
        distinct_keys(kv),
        sent_in_turn(sent, kv, stream, p),
    ensures
        sent.no_duplicates(),
        forall|m: Waiting| #[trigger] sent.contains(m) <==> waiting_in(kv, stream, p).contains(m),
        forall|i: int, j: int| #![trigger sent[i], sent[j]] 0 <= i < j < sent.len() ==> sent[i].hlc <= sent[j].hlc,
    decreases sent.len(),
{
    let waiting = waiting_in(kv, stream, p);
    if sent.len() > 0 {
        let e = sent[0];
        let rest = sent.drop_first();
        let q = Some((e.hlc, Some(e.name)));
        lemma_every_entry_once(rest, kv, stream, q);
        lemma_exactly_once(e, kv, stream, p);
        assert(sent =~= seq![e] + rest);
        assert forall|m: Waiting| #[trigger] sent.contains(m) <==> waiting.contains(m) by {
            lemma_none_is_passed_over(e, kv, stream, p, m);
            assert(rest.contains(m) <==> waiting_in(kv, stream, q).contains(m));
            if rest.contains(m) {
                let i = choose|i: int| 0 <= i < rest.len() && rest[i] == m;
                assert(sent[i + 1] == m);
            }
            if sent.contains(m) && m != e {
                let i = choose|i: int| 0 <= i < sent.len() && sent[i] == m;
                assert(rest[i - 1] == m);
            }
        }
        assert forall|i: int, j: int|
            #![trigger sent[i], sent[j]]
            0 <= i < j < sent.len() implies sent[i].hlc <= sent[j].hlc && sent[i] != sent[j] by {
            assert(sent[j] == rest[j - 1]);
            if i == 0 {
                assert(rest.contains(rest[j - 1]));
                lemma_none_is_passed_over(e, kv, stream, p, sent[j]);
                assert(sent_by(e, sent[j]));
            } else {
                assert(sent[i] == rest[i - 1]);
            }
        }
    }
}

/// The window holds exactly the entries of the stream within the bounds.
pub proof fn lemma_window(kv: Seq<KvEntry>, prefix: Seq<char>, lo: int, hi: int, k: int)
    requires
        0 <= k <= kv.len(),
        hi <= u64::MAX + 1,
    ensures
        forall|j: int|
            0 <= j < window(kv, prefix, lo, hi, k).len() ==> lo <= (#[trigger] window(
                kv,
                prefix,
                lo,
                hi,
                k,
            )[j]).hlc < hi,
        forall|i: int|
            0 <= i < k && within((#[trigger] kv[i]).key@, prefix, lo, hi) ==> window(
                kv,
                prefix,
                lo,
                hi,
                k,
            ).contains(
                LogModel { hlc: hlc_of(kv[i].key@, prefix)->0 as u64, value: kv[i].value@ },
            ),
    decreases k,
{
    if k > 0 {
        lemma_window(kv, prefix, lo, hi, k - 1);
        let front = window(kv, prefix, lo, hi, k - 1);
        let all = window(kv, prefix, lo, hi, k);
        assert forall|j: int| 0 <= j < all.len() implies lo <= (#[trigger] all[j]).hlc < hi by {
            if j < front.len() {
                assert(all[j] == front[j]);
            }
        }
        assert forall|i: int|
            0 <= i < k && within((#[trigger] kv[i]).key@, prefix, lo, hi) implies all.contains(
            LogModel { hlc: hlc_of(kv[i].key@, prefix)->0 as u64, value: kv[i].value@ },
        ) by {
            let m = LogModel { hlc: hlc_of(kv[i].key@, prefix)->0 as u64, value: kv[i].value@ };
            if i < k - 1 {
                assert(front.contains(m));
                let j = choose|j: int| 0 <= j < front.len() && front[j] == m;
                assert(all[j] == m);
            } else {
                assert(all[front.len() as int] == m);
            }
        }
    }
}

} // verus!

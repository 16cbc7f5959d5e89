//! Consensus over the gateway: consistent writes, locks, elections, slots.
//!
//! That a proposal committed makes nobody the holder: two proposals of one moment can both commit, each
//! against its own view. A lock and an election let the commit converge and read who it came to.
use crate::b64::{base64_text, encode};
use crate::http::body::{as_int, bounded, carried, carried_bytes, clamp, or_else, text_of};
use crate::http::kv::{bytes_of, Write};
use crate::http::reply::{
    done, error, error_of, failure, failure_of, ok, serve, served, Reply, ReplyModel, BAD_REQUEST, CONFLICT,
    GATEWAY_TIMEOUT, NOT_FOUND,
};
use crate::json::{maybe_string, object, string, Json, JsonModel};
use crate::node_id::{NodeId, NodeModel};
use crate::numeral::{decimal, to_decimal};
use crate::overlay_consistent::{confirmed_token, confirms, live_of, lock_slot, lock_slot_of};
use crate::text::{from_utf8, join, utf8_of};
use vstd::prelude::*;
use vstd::slice::slice_to_vec;
use vstd::string::*;
use vstd::utf8::{decode_utf8, encode_utf8, encode_utf8_decode_utf8, encode_utf8_valid_utf8, valid_utf8};

verus! {

/// How long a commit is left to converge before its outcome is read.
pub const CONVERGE_MS: u64 = 1000;

/// What a proposal came to.
#[derive(Clone, Copy, Debug, PartialEq, Eq, Structural)]
pub enum ConsensusResult {
    /// It committed, as this node sees it.
    Committed,
    /// No quorum within the ballots.
    Timeout {
        /// How many there were.
        ballots_tried: u32,
    },
    /// Another value was committed first.
    Superseded,
    /// Quorum in headcount, but not in topology.
    TopologyUnsatisfied,
}

/// How many nodes a cluster-wide proposal counts: the live peers and this node.
pub fn cluster_electorate(peers: usize) -> (r: usize)
    requires
        peers < usize::MAX,
    ensures
        r == peers + 1,
{
    peers + 1
}

/// How many nodes a group's proposal counts: its members, of which this node is one already, and never
/// fewer than one.
pub fn group_electorate(members: usize) -> (r: usize)
    ensures
        r == if members == 0 {
            1
        } else {
            members as int
        },
{
    if members == 0 {
        1
    } else {
        members
    }
}

/// `{before}{n} ballot(s)`.
pub open spec fn after_ballots(before: Seq<char>, n: u32) -> Seq<char> {
    before + decimal(n as nat) + " ballot(s)"@
}

fn ballots(before: &str, n: u32) -> (r: String)
    ensures
        r@ == after_ballots(before@, n),
{
    join(join(before, to_decimal(n as u64).as_str()).as_str(), " ballot(s)")
}

/// The answer to a proposal that came to nothing: `timed_out` begins the sentence on a timeout.
pub open spec fn refused(result: ConsensusResult, timed_out: Seq<char>) -> ReplyModel {
    match result {
        ConsensusResult::Timeout { ballots_tried } => failure_of(
            GATEWAY_TIMEOUT,
            after_ballots(timed_out, ballots_tried),
        ),
        ConsensusResult::TopologyUnsatisfied => failure_of(CONFLICT, "topology_unsatisfied"@),
        _ => failure_of(CONFLICT, "superseded"@),
    }
}

fn refuse(result: ConsensusResult, timed_out: &str) -> (r: Reply)
    ensures
        r@ == refused(result, timed_out@),
{
    match result {
        ConsensusResult::Timeout { ballots_tried } => failure(
            GATEWAY_TIMEOUT,
            ballots(timed_out, ballots_tried).as_str(),
        ),
        ConsensusResult::TopologyUnsatisfied => failure(CONFLICT, "topology_unsatisfied"),
        _ => failure(CONFLICT, "superseded"),
    }
}

/// What a consistent write leaves to be written and sent on once its proposal has ended: the write where it
/// was committed, and nothing otherwise.
pub fn committed_write(write: Write, result: &ConsensusResult) -> (r: Option<Write>)
    ensures
        r == if *result is Committed {
            Some(write)
        } else {
            None
        },
{
    match result {
        ConsensusResult::Committed => Some(write),
        _ => None,
    }
}

/// Answer a proposal.
pub fn proposal_reply(result: ConsensusResult) -> (r: Reply)
    ensures
        r@ == if result == ConsensusResult::Committed {
            done()
        } else {
            refused(result, "consensus timed out after "@)
        },
{
    if result == ConsensusResult::Committed {
        ok()
    } else {
        refuse(result, "consensus timed out after ")
    }
}

/// The slot a consistent write is proposed for.
pub fn consistent_slot(key: &str) -> (r: String)
    ensures
        r@ == "consistent/"@ + key@,
{
    join("consistent/", key)
}

/// Where a consistent write's committed value is kept.
pub fn consistent_committed_key(key: &str) -> (r: String)
    ensures
        r@ == "consensus/committed/consistent/"@ + key@,
{
    join("consensus/committed/consistent/", key)
}

/// Read a proposal to several groups: the value, or why it cannot be made.
pub fn cross_group_propose(value_b64: Option<&str>, groups: usize) -> (r: Result<Vec<u8>, Reply>)
    ensures
        match carried(text_of(value_b64)) {
            None => r matches Err(e) && e@ == error_of(BAD_REQUEST, "invalid base64 value"@),
            Some(value) => if groups == 0 {
                r matches Err(e) && e@ == error_of(BAD_REQUEST, "groups must not be empty"@)
            } else {
                r matches Ok(v) && v@ == value
            },
        },
{
    match carried_bytes(value_b64) {
        None => Err(error(BAD_REQUEST, "invalid base64 value")),
        Some(value) => if groups == 0 {
            Err(error(BAD_REQUEST, "groups must not be empty"))
        } else {
            Ok(value)
        },
    }
}

/// A lock to acquire.
#[derive(Debug, PartialEq, Eq)]
pub struct LockPlan {
    /// The slot it is committed to.
    pub slot: String,
    /// How long it is leased.
    pub ttl_secs: u64,
}

/// Read a lock to acquire.
pub fn lock_acquire(name: &str, ttl_secs: Option<u64>) -> (r: LockPlan)
    ensures
        r.slot@ == lock_slot_of(name@),
        r.ttl_secs == bounded(or_else(as_int(ttl_secs), 30), 1, 3600),
{
    let ttl: u64 = match ttl_secs {
        Some(t) => t,
        None => 30,
    };
    LockPlan { slot: lock_slot(name), ttl_secs: clamp(ttl, 1, 3600) }
}

/// After a proposal: let it converge and read the holder, or answer.
#[derive(Debug, PartialEq, Eq)]
pub enum AfterProposal {
    /// Wait [`CONVERGE_MS`], then read.
    Converge,
    /// Read at once.
    Read,
    /// Answer this.
    Answer(Reply),
}

/// What a lock's proposal came to.
pub fn lock_proposed(result: ConsensusResult) -> (r: AfterProposal)
    ensures
        if result == ConsensusResult::Committed {
            r == AfterProposal::Converge
        } else {
            r matches AfterProposal::Answer(e) && e@ == refused(result, "timeout after "@)
        },
{
    if result == ConsensusResult::Committed {
        AfterProposal::Converge
    } else {
        AfterProposal::Answer(refuse(result, "timeout after "))
    }
}

/// The converged holder decides on the lock: the token to guard it with, if this proposal's value is
/// the live one, and the answer. The token is the commit's timestamp, as a decimal string: it exceeds
/// what some clients hold exactly in a number.
pub fn lock_confirmed(value: &[u8], live: Option<(&[u8], u64)>, guard_id: &str) -> (r: (Option<u64>, Reply))
    ensures
        r.0 == confirms(value@, live_of(live)),
        r.1@ == match confirms(value@, live_of(live)) {
            Some(token) => served(
                object().field("ok"@, JsonModel::Bool(true)).field("guard_id"@, string(guard_id@)).field(
                    "token"@,
                    string(decimal(token as nat)),
                ),
            ),
            None => failure_of(CONFLICT, "superseded"@),
        },
{
    match confirmed_token(value, live) {
        Some(token) => (
            Some(token),
            serve(
                Json::empty_object().with("ok", Json::Bool(true)).with_str("guard_id", guard_id).with_str(
                    "token",
                    to_decimal(token).as_str(),
                ),
            ),
        ),
        None => (None, failure(CONFLICT, "superseded")),
    }
}

/// Answer a release.
pub fn lock_release_reply(removed: bool) -> (r: Reply)
    ensures
        r@ == if removed {
            done()
        } else {
            failure_of(NOT_FOUND, "guard_not_found"@)
        },
{
    if removed {
        ok()
    } else {
        failure(NOT_FOUND, "guard_not_found")
    }
}

/// The slot a group's leader is committed to.
pub fn leader_slot(group: &str) -> (r: String)
    ensures
        r@ == "leader/"@ + group@,
{
    join("leader/", group)
}

/// A proposal: a value for a slot, before so many nodes.
#[derive(Debug, PartialEq, Eq)]
pub struct Bid {
    /// The slot.
    pub slot: String,
    /// The value.
    pub value: Vec<u8>,
    /// How many nodes it counts.
    pub electorate: usize,
}

/// What a node proposes in an election: itself, for its group's slot, before the group. `members` is how
/// many the group's roster lists.
pub fn leader_bid(group: &str, me: &NodeId, members: usize) -> (r: Bid)
    ensures
        r.slot@ == "leader/"@ + group@,
        r.value@ == encode_utf8(me@.text()),
        r.electorate == if members == 0 {
            1
        } else {
            members as int
        },
{
    Bid { slot: leader_slot(group), value: utf8_of(me.text().as_str()), electorate: group_electorate(members) }
}

/// What a consistent write proposes: its value, for its key's slot, before every node there is. `peers` is
/// how many others there are.
pub fn consistent_bid(write: &Write, peers: usize) -> (r: Bid)
    requires
        peers < usize::MAX,
    ensures
        r.slot@ == "consistent/"@ + write.key@,
        r.value@ == write.value@,
        r.electorate == peers + 1,
{
    Bid {
        slot: consistent_slot(write.key.as_str()),
        value: slice_to_vec(write.value.as_slice()),
        electorate: cluster_electorate(peers),
    }
}

/// What an election's proposal came to. A commit is left to converge; a superseded one already has a
/// leader to read. Nobody is told that it leads because its own proposal committed.
pub fn elect_proposed(result: ConsensusResult) -> (r: AfterProposal)
    ensures
        match result {
            ConsensusResult::Committed => r == AfterProposal::Converge,
            ConsensusResult::Superseded => r == AfterProposal::Read,
            _ => r matches AfterProposal::Answer(e) && e@ == refused(result, "timeout after "@),
        },
{
    match result {
        ConsensusResult::Committed => AfterProposal::Converge,
        ConsensusResult::Superseded => AfterProposal::Read,
        _ => AfterProposal::Answer(refuse(result, "timeout after ")),
    }
}

/// Answer an election with the leader that the committed slot holds.
pub fn elect_reply(committed: Option<&[u8]>) -> (r: Reply)
    ensures
        r@ == match bytes_of(committed) {
            Some(b) if valid_utf8(b) => served(
                object().field("ok"@, JsonModel::Bool(true)).field("leader"@, string(decode_utf8(b))),
            ),
            _ => failure_of(CONFLICT, "superseded"@),
        },
{
    match committed {
        Some(b) => match from_utf8(b) {
            Some(s) => serve(
                Json::empty_object().with("ok", Json::Bool(true)).with_str("leader", s.as_str()),
            ),
            None => failure(CONFLICT, "superseded"),
        },
        None => failure(CONFLICT, "superseded"),
    }
}

/// Answer an inspection of a slot. `live` is the committed value while its lease runs; `present`, that
/// there is one at all: a value that is present and not live has an expired lease.
pub fn slot_reply(slot: &str, live: Option<&[u8]>, present: bool, lease_ms: Option<u64>, ballot: u64) -> (r: Reply)
    ensures
        r@ == served(
            object().field("slot"@, string(slot@)).field(
                "committed"@,
                maybe_string(
                    match bytes_of(live) {
                        Some(b) => Some(base64_text(b)),
                        None => None,
                    },
                ),
            ).field("ballot"@, JsonModel::Int(ballot as int)).field(
                "lease_ms"@,
                match lease_ms {
                    Some(n) => JsonModel::Int(n as int),
                    None => JsonModel::Null,
                },
            ).field("lease_expired"@, JsonModel::Bool(present && live is None)),
        ),
{
    let committed = match live {
        Some(b) => Json::Str(encode(b)),
        None => Json::Null,
    };
    let lease = match lease_ms {
        Some(n) => Json::UInt(n),
        None => Json::Null,
    };
    serve(
        Json::empty_object().with_str("slot", slot).with("committed", committed).with(
            "ballot",
            Json::UInt(ballot),
        ).with("lease_ms", lease).with("lease_expired", Json::Bool(present && live.is_none())),
    )
}

/// Whoever asks, an election answers with the one node whose bid converged.
pub proof fn lemma_one_leader(winner: NodeModel, r: Reply, committed: &[u8])
    requires
        committed@ == encode_utf8(winner.text()),
        call_ensures(elect_reply, (Some(committed),), r),
    ensures
        r@ == served(
            object().field("ok"@, JsonModel::Bool(true)).field("leader"@, string(winner.text())),
        ),
{
    encode_utf8_valid_utf8(winner.text());
    encode_utf8_decode_utf8(winner.text());
}

} // verus!

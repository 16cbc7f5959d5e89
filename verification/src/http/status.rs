//! What the node says of itself: liveness, readiness, counters, staged payloads.
use crate::http::reply::{serve, served, Reply, ReplyModel, BAD_REQUEST, NOT_FOUND, OK, UNAVAILABLE};
use crate::json::{maybe_string, object, string, Json, JsonModel};
use crate::node_id::NodeId;
use crate::numeral::{parse_radix, parsed};
use crate::text::{after_prefix, has_prefix, strip_prefix};
use vstd::prelude::*;
use vstd::string::*;

verus! {

/// The node is there.
pub fn health(me: &NodeId) -> (r: Reply)
    ensures
        r@ == served(object().field("status"@, string("ok"@)).field("node_id"@, string(me@.text()))),
{
    serve(Json::empty_object().with_str("status", "ok").with_str("node_id", me.text().as_str()))
}

/// May traffic be routed to the node? It may once its start is complete.
pub fn ready(me: &NodeId, started: bool) -> (r: Reply)
    ensures
        r@ == (ReplyModel {
            status: if started {
                OK
            } else {
                UNAVAILABLE
            },
            body: object().field(
                "status"@,
                string(
                    if started {
                        "ready"@
                    } else {
                        "starting"@
                    },
                ),
            ).field("node_id"@, string(me@.text())),
        }),
{
    let id = me.text();
    if started {
        Reply {
            status: OK,
            body: Json::empty_object().with_str("status", "ready").with_str("node_id", id.as_str()),
        }
    } else {
        Reply {
            status: UNAVAILABLE,
            body: Json::empty_object().with_str("status", "starting").with_str("node_id", id.as_str()),
        }
    }
}

/// A text without any number of prefixes.
pub open spec fn without_prefixes(s: Seq<char>, p: Seq<char>) -> Seq<char>
    decreases s.len(),
{
    if p.len() > 0 && has_prefix(s, p) {
        without_prefixes(s.subrange(p.len() as int, s.len() as int), p)
    } else {
        s
    }
}

/// What a staged payload is asked for by: a number in hexadecimal, with or without `0x` in front.
pub fn bulk_nonce(corr_id: &str) -> (r: Option<u64>)
    ensures
        r is Some == parsed(without_prefixes(corr_id@, "0x"@), 16) is Some,
        r matches Some(n) ==> parsed(without_prefixes(corr_id@, "0x"@), 16) == Some(n as nat),
{
    proof {
        reveal_strlit("0x");
    }
    let mut s = corr_id.to_owned();
    let mut next = strip_prefix(s.as_str(), "0x");
    while next.is_some()
        invariant
            "0x"@.len() == 2,
            without_prefixes(s@, "0x"@) == without_prefixes(corr_id@, "0x"@),
            next is Some == has_prefix(s@, "0x"@),
            next matches Some(rest) ==> after_prefix(s@, "0x"@) == Some(rest@),
        decreases s@.len(),
    {
        match next {
            Some(rest) => {
                s = rest;
            },
            None => {},
        }
        next = strip_prefix(s.as_str(), "0x");
    }
    parse_radix(s.as_str(), 16)
}

/// The status a staged payload is answered with: it is malformed, missing, or here.
pub fn bulk_status(nonce: Option<u64>, staged: bool) -> (r: u16)
    ensures
        r == if nonce is None {
            BAD_REQUEST
        } else if staged {
            OK
        } else {
            NOT_FOUND
        },
{
    match nonce {
        None => BAD_REQUEST,
        Some(_) => if staged {
            OK
        } else {
            NOT_FOUND
        },
    }
}

/// The counters a node shows.
#[derive(Debug, PartialEq, Eq)]
pub struct Counters {
    /// The cluster's name, where it has one.
    pub cluster_name: Option<String>,
    /// Entries in the store.
    pub store_entries: usize,
    /// Peers known.
    pub peers: usize,
    /// Frames dropped for full channels.
    pub dropped_frames: u64,
    /// Frames for one node that were flooded.
    pub individual_flood_fallbacks: u64,
    /// Background tasks.
    pub task_count: usize,
    /// Conflicting commits seen.
    pub commit_conflicts: u64,
    /// Remote writes to this node's own keys.
    pub sys_namespace_violations: u64,
    /// Identities that differ from their anchors.
    pub identity_anchor_conflicts: u64,
    /// Advertisements declined.
    pub cap_authz_violations: u64,
    /// Schema mismatches.
    pub schema_mismatch: u64,
    /// Senders held back.
    pub rate_limited_senders: usize,
    /// Groups in conflict.
    pub governed_group_conflicts: u64,
    /// Capabilities without a provider.
    pub capability_coverage_gaps: u64,
    /// Memberships that flap.
    pub membership_flaps: u64,
    /// Opacities that oscillate.
    pub opacity_oscillations: u64,
}

/// A count in JSON.
pub open spec fn count(n: int) -> JsonModel {
    JsonModel::Int(n)
}

/// Answer with the counters. What the emergent detectors estimate is shown only where they run: it is
/// this node's view, with how far the view can be trusted beside it.
pub fn stats(me: &NodeId, c: &Counters, opaque_node_pct: Option<Json>, view_confidence: Option<Json>) -> (r: Reply)
    ensures
        r@ == served(
            object().field("node_id"@, string(me@.text())).field(
                "cluster_name"@,
                maybe_string(
                    match c.cluster_name {
                        Some(s) => Some(s@),
                        None => None,
                    },
                ),
            ).field("store_entries"@, count(c.store_entries as int)).field("peers"@, count(c.peers as int)).field(
                "dropped_frames"@,
                count(c.dropped_frames as int),
            ).field("individual_flood_fallbacks"@, count(c.individual_flood_fallbacks as int)).field(
                "task_count"@,
                count(c.task_count as int),
            ).field("commit_conflicts"@, count(c.commit_conflicts as int)).field(
                "sys_namespace_violations"@,
                count(c.sys_namespace_violations as int),
            ).field("identity_anchor_conflicts"@, count(c.identity_anchor_conflicts as int)).field(
                "cap_authz_violations"@,
                count(c.cap_authz_violations as int),
            ).field("schema_mismatch"@, count(c.schema_mismatch as int)).field(
                "rate_limited_senders"@,
                count(c.rate_limited_senders as int),
            ).field("governed_group_conflicts"@, count(c.governed_group_conflicts as int)).field(
                "capability_coverage_gaps"@,
                count(c.capability_coverage_gaps as int),
            ).field("membership_flaps"@, count(c.membership_flaps as int)).field(
                "opacity_oscillations"@,
                count(c.opacity_oscillations as int),
            ).field(
                "opaque_node_pct"@,
                match opaque_node_pct {
                    Some(j) => j@,
                    None => JsonModel::Null,
                },
            ).field(
                "view_confidence"@,
                match view_confidence {
                    Some(j) => j@,
                    None => JsonModel::Null,
                },
            ),
        ),
{
    let pct = match opaque_node_pct {
        Some(j) => j,
        None => Json::Null,
    };
    let confidence = match view_confidence {
        Some(j) => j,
        None => Json::Null,
    };
    let body = Json::empty_object().with_str("node_id", me.text().as_str()).with(
        "cluster_name",
        Json::maybe(&c.cluster_name),
    ).with("store_entries", Json::UInt(c.store_entries as u64)).with("peers", Json::UInt(c.peers as u64)).with(
        "dropped_frames",
        Json::UInt(c.dropped_frames),
    ).with("individual_flood_fallbacks", Json::UInt(c.individual_flood_fallbacks)).with(
        "task_count",
        Json::UInt(c.task_count as u64),
    ).with("commit_conflicts", Json::UInt(c.commit_conflicts)).with(
        "sys_namespace_violations",
        Json::UInt(c.sys_namespace_violations),
    ).with("identity_anchor_conflicts", Json::UInt(c.identity_anchor_conflicts)).with(
        "cap_authz_violations",
        Json::UInt(c.cap_authz_violations),
    ).with("schema_mismatch", Json::UInt(c.schema_mismatch)).with(
        "rate_limited_senders",
        Json::UInt(c.rate_limited_senders as u64),
    ).with("governed_group_conflicts", Json::UInt(c.governed_group_conflicts)).with(
        "capability_coverage_gaps",
        Json::UInt(c.capability_coverage_gaps),
    ).with("membership_flaps", Json::UInt(c.membership_flaps)).with(
        "opacity_oscillations",
        Json::UInt(c.opacity_oscillations),
    ).with("opaque_node_pct", pct).with("view_confidence", confidence);
    serve(body)
}

/// What the gateway's certificate comes from.
#[derive(Clone, Copy, Debug, PartialEq, Eq, Structural)]
pub enum GatewayCert {
    /// A pair of files of the operator's.
    Files,
    /// The node's own identity.
    Identity,
}

/// Choose the gateway's certificate: the operator's pair, or with neither path the node's identity. One
/// path alone is refused, and so is an identity the node does not have.
pub fn gateway_cert(has_cert: bool, has_key: bool, has_identity: bool) -> (r: Result<GatewayCert, &'static str>)
    ensures
        if has_cert && has_key {
            r == Ok::<GatewayCert, &'static str>(GatewayCert::Files)
        } else if has_cert || has_key {
            r matches Err(e) && e@
                == "gateway_tls: cert_pem_path and key_pem_path must both be set or both unset"@
        } else if has_identity {
            r == Ok::<GatewayCert, &'static str>(GatewayCert::Identity)
        } else {
            r matches Err(e) && e@
                == "gateway_tls reuses the node identity cert but GossipConfig::tls is not set; either set tls, or provide cert_pem_path + key_pem_path"@
        },
{
    if has_cert && has_key {
        Ok(GatewayCert::Files)
    } else if has_cert || has_key {
        Err("gateway_tls: cert_pem_path and key_pem_path must both be set or both unset")
    } else if has_identity {
        Ok(GatewayCert::Identity)
    } else {
        Err(
            "gateway_tls reuses the node identity cert but GossipConfig::tls is not set; either set tls, or provide cert_pem_path + key_pem_path",
        )
    }
}

} // verus!

//! The parts of the node's configuration that the rules here read.
use crate::node_id::NodeId;
use crate::text::{
    before_first, chars_of, head, push, rsplit_once, same, split_at_first, split_at_last, split_once, string_of, texts,
};
use vstd::prelude::*;
use vstd::string::*;

verus! {

/// Health-check intervals a membership action is spaced by when nothing else is configured.
pub const DEFAULT_MEMBERSHIP_COOLDOWN_TICKS: u64 = 3;

/// A bearer token and the scopes it grants.
#[derive(Debug, PartialEq, Eq)]
pub struct GatewayToken {
    /// The bearer.
    pub token: String,
    /// What it grants.
    pub scopes: Vec<String>,
}

/// The node's configuration.
#[derive(Debug, PartialEq, Eq)]
pub struct GossipConfig {
    /// The superuser bearer: it grants the wildcard.
    pub gateway_auth_token: Option<String>,
    /// Bearers with their own grants.
    pub gateway_scoped_tokens: Vec<GatewayToken>,
    /// Seconds between two health checks.
    pub health_check_interval_secs: u64,
    /// Seconds between two membership actions on one group, when set.
    pub membership_cooldown_secs: Option<u64>,
    /// The peers the node knows from the start.
    pub bootstrap_peers: Vec<NodeId>,
    /// How many gossip shards the node has.
    pub gossip_shards: usize,
    /// Which hosts it may reach outside the mesh.
    pub egress: EgressPolicy,
}

impl Default for GossipConfig {
    /// No token, no peer, the default cadence.
    fn default() -> (r: Self)
        ensures
            r.gateway_auth_token is None,
            r.gateway_scoped_tokens@.len() == 0,
            r.health_check_interval_secs == 10,
            r.membership_cooldown_secs is None,
            r.bootstrap_peers@.len() == 0,
            r.gossip_shards == 1,
            r.egress.allow_hosts@.len() == 0,
    {
        GossipConfig {
            gateway_auth_token: None,
            gateway_scoped_tokens: Vec::new(),
            health_check_interval_secs: 10,
            membership_cooldown_secs: None,
            bootstrap_peers: Vec::new(),
            gossip_shards: 1,
            egress: EgressPolicy { allow_hosts: Vec::new() },
        }
    }
}

/// Which hosts the node may reach outside the mesh: the listed ones, or all where none is listed.
#[derive(Debug, PartialEq, Eq)]
pub struct EgressPolicy {
    /// The hosts that may be reached.
    pub allow_hosts: Vec<String>,
}

/// The part of `s` before the first of the three characters that end an authority.
pub open spec fn authority_of(s: Seq<char>) -> Seq<char> {
    before_first(before_first(before_first(s, '/'), '?'), '#')
}

/// The part of an authority that names the host: a bracketed address with its brackets, or what stands
/// before a port.
pub open spec fn host_part(s: Seq<char>) -> Seq<char> {
    if s.len() > 0 && s[0] == '[' {
        match split_at_first(s, ']') {
            Some((address, port)) => address.push(']'),
            None => s,
        }
    } else {
        before_first(s, ':')
    }
}

fn host_segment(s: &str) -> (r: String)
    ensures
        r@ == host_part(s@),
{
    let v = chars_of(s);
    if v.len() > 0 && v[0] == '[' {
        match split_once(s, ']') {
            Some((address, _)) => {
                let mut host = address;
                push(&mut host, ']');
                host
            },
            None => s.to_owned(),
        }
    } else {
        head(s, ':')
    }
}

/// The host a URL names: what stands behind the scheme and behind a user, up to the path and without
/// a port.
pub open spec fn host_of(url: Seq<char>) -> Seq<char> {
    let authority = authority_of(behind_scheme(url, 0));
    let host = match split_at_last(authority, '@') {
        Some((user, h)) => h,
        None => authority,
    };
    host_part(host)
}

/// What stands behind the first `://` from `i` on, or all of it where there is none.
pub open spec fn behind_scheme(url: Seq<char>, i: int) -> Seq<char>
    decreases url.len() - i,
{
    if i < 0 || i + 3 > url.len() {
        url
    } else if url[i] == ':' && url[i + 1] == '/' && url[i + 2] == '/' {
        url.subrange(i + 3, url.len() as int)
    } else {
        behind_scheme(url, i + 1)
    }
}

/// May the node reach this URL?
pub open spec fn permits(allow_hosts: Seq<Seq<char>>, url: Seq<char>) -> bool {
    allow_hosts.len() == 0 || allow_hosts.contains(host_of(url))
}

fn scheme_end(url: &str) -> (r: String)
    ensures
        r@ == behind_scheme(url@, 0),
{
    let v = chars_of(url);
    let mut i: usize = 0;
    while i < v.len() && v.len() - i >= 3
        invariant
            v@ == url@,
            i <= v@.len(),
            behind_scheme(url@, 0) == behind_scheme(url@, i as int),
        decreases v@.len() - i,
    {
        if v[i] == ':' && v[i + 1] == '/' && v[i + 2] == '/' {
            return string_of(&v, i + 3, v.len());
        }
        i += 1;
    }
    url.to_owned()
}

/// The host a URL names.
pub fn url_host(url: &str) -> (r: String)
    ensures
        r@ == host_of(url@),
{
    let rest = scheme_end(url);
    let path = head(rest.as_str(), '/');
    let query = head(path.as_str(), '?');
    let authority = head(query.as_str(), '#');
    match rsplit_once(authority.as_str(), '@') {
        Some((_, h)) => host_segment(h.as_str()),
        None => host_segment(authority.as_str()),
    }
}

impl EgressPolicy {
    /// May the node reach this URL?
    pub fn permits_url(&self, url: &str) -> (r: bool)
        ensures
            r == permits(texts(self.allow_hosts@), url@),
    {
        if self.allow_hosts.len() == 0 {
            return true;
        }
        let host = url_host(url);
        let mut i: usize = 0;
        while i < self.allow_hosts.len()
            invariant
                i <= self.allow_hosts@.len(),
                host@ == host_of(url@),
                self.allow_hosts@.len() > 0,
                forall|j: int| 0 <= j < i ==> (#[trigger] texts(self.allow_hosts@)[j]) != host@,
            decreases self.allow_hosts@.len() - i,
        {
            assert(texts(self.allow_hosts@)[i as int] == self.allow_hosts@[i as int]@);
            if same(self.allow_hosts[i].as_str(), host.as_str()) {
                return true;
            }
            i += 1;
        }
        false
    }
}

/// `a` times `b`, held at the largest number there is.
pub open spec fn saturating_product(a: int, b: int) -> int {
    if a * b > u64::MAX {
        u64::MAX as int
    } else {
        a * b
    }
}

/// `a` times `b`, held at the largest number there is.
pub fn saturating_mul(a: u64, b: u64) -> (r: u64)
    ensures
        r == saturating_product(a as int, b as int),
{
    match a.checked_mul(b) {
        Some(p) => p,
        None => u64::MAX,
    }
}

impl GossipConfig {
    /// The membership cooldown in seconds.
    pub open spec fn cooldown(self) -> int {
        let secs = match self.membership_cooldown_secs {
            Some(s) => s as int,
            None => saturating_product(
                self.health_check_interval_secs as int,
                DEFAULT_MEMBERSHIP_COOLDOWN_TICKS as int,
            ),
        };
        if secs < 1 {
            1
        } else {
            secs
        }
    }

    /// Seconds between two membership actions on one group: what is configured, one at least, or
    /// else [`DEFAULT_MEMBERSHIP_COOLDOWN_TICKS`] health-check intervals, one second at least.
    pub fn membership_cooldown(&self) -> (r: u64)
        ensures
            r == self.cooldown(),
    {
        let secs: u64 = match self.membership_cooldown_secs {
            Some(s) => s,
            None => saturating_mul(self.health_check_interval_secs, DEFAULT_MEMBERSHIP_COOLDOWN_TICKS),
        };
        if secs < 1 {
            1
        } else {
            secs
        }
    }
}

} // verus!

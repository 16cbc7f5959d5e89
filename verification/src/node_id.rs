//! Node identities: a host and a port, written `host:port`.
use crate::numeral::{decimal, lemma_digits_value, parse_radix, parsed, to_decimal};
use crate::text::{
    chars_of, join, lemma_split_at_last_of_joined, rsplit_once, same, split_at_last,
};
use vstd::prelude::*;
use vstd::string::*;

verus! {

/// A node of the mesh. Its host is never empty and holds no slash, so a node's text stands whole
/// between the slashes of a key.
#[derive(Debug, PartialEq, Eq, Hash, PartialOrd, Ord)]
pub struct NodeId {
    host: String,
    port: u16,
}

/// What a [`NodeId`] stands for.
#[verifier::ext_equal]
pub struct NodeModel {
    /// The host.
    pub host: Seq<char>,
    /// The port.
    pub port: u16,
}

/// May this be a node's host?
pub open spec fn valid_host(host: Seq<char>) -> bool {
    host.len() > 0 && !host.contains('/')
}

impl NodeModel {
    /// The node as text.
    pub open spec fn text(self) -> Seq<char> {
        self.host + seq![':'] + decimal(self.port as nat)
    }
}

/// The node a text names: what stands before its last colon is the host, what stands behind it the
/// port.
pub open spec fn node_of(s: Seq<char>) -> Option<NodeModel> {
    match split_at_last(s, ':') {
        Some((host, port)) => match parsed(port, 10) {
            Some(p) if p <= u16::MAX && valid_host(host) => Some(NodeModel { host, port: p as u16 }),
            _ => None,
        },
        None => None,
    }
}

impl View for NodeId {
    type V = NodeModel;

    closed spec fn view(&self) -> NodeModel {
        NodeModel { host: self.host@, port: self.port }
    }
}

/// Does the text hold no slash?
fn no_slash(s: &str) -> (r: bool)
    ensures
        r == !s@.contains('/'),
{
    let v = chars_of(s);
    let mut i: usize = 0;
    while i < v.len()
        invariant
            i <= v@.len(),
            v@ == s@,
            forall|j: int| 0 <= j < i ==> v@[j] != '/',
        decreases v@.len() - i,
    {
        if v[i] == '/' {
            assert(s@[i as int] == '/');
            return false;
        }
        i += 1;
    }
    true
}

impl NodeId {
    /// Every node has a valid host.
    #[verifier::type_invariant]
    closed spec fn inv(self) -> bool {
        valid_host(self.host@)
    }

    /// The node at `host` and `port`; a host that is empty or holds a slash is refused with the
    /// text of the reason.
    pub fn new(host: &str, port: u16) -> (r: Result<NodeId, String>)
        ensures
            r is Ok <==> valid_host(host@),
            r matches Ok(n) ==> n@ == (NodeModel { host: host@, port }),
            r matches Err(e) ==> e@ == "invalid node host"@,
    {
        if host.is_empty() || !no_slash(host) {
            return Err("invalid node host".to_owned());
        }
        Ok(NodeId { host: host.to_owned(), port })
    }

    /// The node `s` names.
    pub fn parse(s: &str) -> (r: Option<NodeId>)
        ensures
            r is Some == node_of(s@) is Some,
            r matches Some(n) ==> node_of(s@) == Some(n@),
    {
        let (host, port) = match rsplit_once(s, ':') {
            Some(parts) => parts,
            None => {
                return None;
            },
        };
        match parse_radix(port.as_str(), 10) {
            Some(p) if p <= 65535 => match NodeId::new(host.as_str(), p as u16) {
                Ok(n) => Some(n),
                Err(_) => None,
            },
            _ => None,
        }
    }

    /// The node as text: `host:port`.
    pub fn text(&self) -> (r: String)
        ensures
            r@ == self@.text(),
            valid_host(self@.host),
    {
        proof {
            use_type_invariant(self);
        }
        let with_colon = join(self.host.as_str(), ":");
        proof {
            reveal_strlit(":");
            assert(":"@ =~= seq![':']);
        }
        join(with_colon.as_str(), to_decimal(self.port as u64).as_str())
    }

    /// Are the two the same node?
    pub fn is(&self, other: &NodeId) -> (r: bool)
        ensures
            r == (self@ == other@),
    {
        same(self.host.as_str(), other.host.as_str()) && self.port == other.port
    }
}

impl Clone for NodeId {
    fn clone(&self) -> (r: Self)
        ensures
            r@ == self@,
    {
        proof {
            use_type_invariant(self);
        }
        NodeId { host: self.host.clone(), port: self.port }
    }
}

/// A node's text names that node.
pub proof fn lemma_node_text_parses(n: NodeModel)
    requires
        valid_host(n.host),
    ensures
        node_of(n.text()) == Some(n),
{
    let d = decimal(n.port as nat);
    lemma_digits_value(n.port as nat, 10);
    assert(!d.contains(':')) by {
        if d.contains(':') {
            let i = choose|i: int| 0 <= i < d.len() && d[i] == ':';
            assert(crate::numeral::digits(n.port as nat, 10)[i] != ':');
        }
    }
    lemma_split_at_last_of_joined(n.host, ':', d);
}

/// A node's text holds no slash.
pub proof fn lemma_node_text_no_slash(n: NodeModel)
    requires
        valid_host(n.host),
    ensures
        !n.text().contains('/'),
        n.text().len() > 0,
{
    let t = n.text();
    let d = decimal(n.port as nat);
    lemma_digits_value(n.port as nat, 10);
    assert forall|i: int| 0 <= i < t.len() implies t[i] != '/' by {
        if i < n.host.len() {
            assert(t[i] == n.host[i]);
            assert(n.host.contains(n.host[i]));
        } else if i > n.host.len() {
            assert(t[i] == d[i - n.host.len() - 1]);
            assert(crate::numeral::digits(n.port as nat, 10)[i - n.host.len() - 1] != '/');
        }
    }
}

/// Two nodes with one text are one node.
pub proof fn lemma_node_text_injective(a: NodeModel, b: NodeModel)
    requires
        valid_host(a.host),
        valid_host(b.host),
        a.text() == b.text(),
    ensures
        a == b,
{
    lemma_node_text_parses(a);
    lemma_node_text_parses(b);
}

/// The nodes of a list.
pub open spec fn nodes(v: Seq<NodeId>) -> Seq<NodeModel> {
    Seq::new(v.len(), |i: int| v[i]@)
}

/// Is `n` in the list?
pub fn contains(v: &Vec<NodeId>, n: &NodeId) -> (r: bool)
    ensures
        r == nodes(v@).contains(n@),
{
    let mut i: usize = 0;
    while i < v.len()
        invariant
            i <= v@.len(),
            forall|j: int| 0 <= j < i ==> (#[trigger] nodes(v@)[j]) != n@,
        decreases v@.len() - i,
    {
        if v[i].is(n) {
            assert(nodes(v@)[i as int] == n@);
            return true;
        }
        i += 1;
    }
    false
}

/// Add `n` to the end of the list, unless it is there already.
pub fn insert(v: &mut Vec<NodeId>, n: NodeId)
    ensures
        nodes(final(v)@) == if nodes(old(v)@).contains(n@) {
            nodes(old(v)@)
        } else {
            nodes(old(v)@).push(n@)
        },
{
    if !contains(v, &n) {
        let ghost before = v@;
        v.push(n);
        assert(nodes(v@) =~= nodes(before).push(n@));
    }
}

} // verus!

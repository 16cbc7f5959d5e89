//! The keys of the shared store: how they are built and taken apart.
use crate::node_id::{lemma_node_text_no_slash, lemma_node_text_parses, node_of, valid_host, NodeId, NodeModel};
use crate::text::{
    after_prefix, join, lemma_split_at_first_of_joined, same, split_at_first, split_once, strip_prefix,
};
use vstd::prelude::*;
use vstd::string::*;

verus! {

/// One live entry of the store, as a scan hands it out.
#[derive(Debug, PartialEq, Eq)]
pub struct KvEntry {
    /// Its key.
    pub key: String,
    /// Its value.
    pub value: Vec<u8>,
}

/// The prefix of a group's member keys.
pub open spec fn grp_prefix_of(group: Seq<char>) -> Seq<char> {
    "grp/"@ + group + "/"@
}

/// `a/b` with whatever the parts hold.
pub open spec fn slashed(a: Seq<char>, b: Seq<char>) -> Seq<char> {
    a + seq!['/'] + b
}

/// The parts of a capability's key: the node, the namespace, the name.
pub open spec fn cap_parts(key: Seq<char>) -> Option<(NodeModel, Seq<char>, Seq<char>)> {
    match after_prefix(key, "cap/"@) {
        Some(rest) => match split_at_first(rest, '/') {
            Some((node, cap)) => match (node_of(node), split_at_first(cap, '/')) {
                (Some(n), Some((ns, name))) => Some((n, ns, name)),
                _ => None,
            },
            None => None,
        },
        None => None,
    }
}

/// Is this the key of a node's locality, which lies among the capabilities and is none?
pub open spec fn is_locality(key: Seq<char>) -> bool {
    match after_prefix(key, "cap/"@) {
        Some(rest) => match split_at_first(rest, '/') {
            Some((node, tail)) => tail == "locality/self"@,
            None => false,
        },
        None => false,
    }
}

/// The prefix of a group's member keys: `grp/{group}/`.
pub fn grp_prefix(group: &str) -> (r: String)
    ensures
        r@ == grp_prefix_of(group@),
{
    join(join("grp/", group).as_str(), "/")
}

/// `a/b`.
pub fn slash(a: &str, b: &str) -> (r: String)
    ensures
        r@ == slashed(a@, b@),
{
    proof {
        reveal_strlit("/");
        assert("/"@ =~= seq!['/']);
    }
    join(join(a, "/").as_str(), b)
}

/// The parts of a capability's key.
pub fn parse_cap_key(key: &str) -> (r: Option<(NodeId, String, String)>)
    ensures
        r is Some == cap_parts(key@) is Some,
        r matches Some((n, ns, name)) ==> cap_parts(key@) == Some((n@, ns@, name@)),
{
    let rest = match strip_prefix(key, "cap/") {
        Some(rest) => rest,
        None => {
            return None;
        },
    };
    let (node, cap) = match split_once(rest.as_str(), '/') {
        Some(parts) => parts,
        None => {
            return None;
        },
    };
    let (ns, name) = match split_once(cap.as_str(), '/') {
        Some(parts) => parts,
        None => {
            return None;
        },
    };
    match NodeId::parse(node.as_str()) {
        Some(n) => Some((n, ns, name)),
        None => None,
    }
}

/// Is this the key of a node's locality?
pub fn is_cap_locality_key(key: &str) -> (r: bool)
    ensures
        r == is_locality(key@),
{
    match strip_prefix(key, "cap/") {
        Some(rest) => match split_once(rest.as_str(), '/') {
            Some((_, tail)) => same(tail.as_str(), "locality/self"),
            None => false,
        },
        None => false,
    }
}

/// The key of a node's capability: `cap/{node}/{ns}/{name}`.
pub open spec fn cap_key_of(node: NodeModel, ns: Seq<char>, name: Seq<char>) -> Seq<char> {
    "cap/"@ + slashed(node.text(), slashed(ns, name))
}

/// The key of a node's capability.
pub fn cap_key(node: &NodeId, ns: &str, name: &str) -> (r: String)
    ensures
        r@ == cap_key_of(node@, ns@, name@),
{
    let cap = slash(ns, name);
    let tail = slash(node.text().as_str(), cap.as_str());
    join("cap/", tail.as_str())
}

/// What follows a prefix is what was put behind it.
pub proof fn lemma_after_prefix_of_joined(p: Seq<char>, rest: Seq<char>)
    ensures
        after_prefix(p + rest, p) == Some(rest),
{
    let s = p + rest;
    assert(s.subrange(0, p.len() as int) =~= p);
    assert(s.subrange(p.len() as int, s.len() as int) =~= rest);
}

/// A capability's key is taken apart into what it was built from, when the namespace holds no slash.
pub proof fn lemma_cap_key_parts(node: NodeModel, ns: Seq<char>, name: Seq<char>)
    requires
        valid_host(node.host),
        !ns.contains('/'),
    ensures
        cap_parts(cap_key_of(node, ns, name)) == Some((node, ns, name)),
{
    lemma_node_text_no_slash(node);
    lemma_node_text_parses(node);
    lemma_after_prefix_of_joined("cap/"@, slashed(node.text(), slashed(ns, name)));
    lemma_split_at_first_of_joined(node.text(), '/', slashed(ns, name));
    lemma_split_at_first_of_joined(ns, '/', name);
}

} // verus!

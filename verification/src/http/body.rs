//! What request bodies carry: payloads, node ids, bounded numbers.
use crate::b64::{base64_bytes, decode};
use crate::json::Json;
use crate::node_id::{node_of, NodeId, NodeModel};
use vstd::prelude::*;
use vstd::string::*;

verus! {

/// The bytes an optional base64 text carries: none for an absent one.
pub open spec fn carried(b64: Option<Seq<char>>) -> Option<Seq<u8>> {
    match b64 {
        Some(t) => base64_bytes(t),
        None => Some(Seq::empty()),
    }
}

/// The bytes an optional base64 text carries; `None` where it is not base64.
pub fn carried_bytes(b64: Option<&str>) -> (r: Option<Vec<u8>>)
    ensures
        ({
            let text = match b64 {
                Some(t) => Some(t@),
                None => None,
            };
            &&& r is Some == carried(text) is Some
            &&& r matches Some(v) ==> carried(text) == Some(v@)
        }),
{
    match b64 {
        Some(t) => decode(t),
        None => {
            let v: Vec<u8> = Vec::new();
            assert(v@ =~= Seq::empty());
            Some(v)
        },
    }
}

/// The bytes a body's member carries; `None` where it is a string that is not base64.
pub fn payload_at(body: &Json, key: &str) -> (r: Option<Vec<u8>>)
    ensures
        r is Some == carried(body@.text_at(key@)) is Some,
        r matches Some(v) ==> carried(body@.text_at(key@)) == Some(v@),
{
    carried_bytes(body.str_at(key))
}

/// The node a text names, if there is a text and it names one.
pub open spec fn named_node(text: Option<Seq<char>>) -> Option<NodeModel> {
    match text {
        Some(t) => node_of(t),
        None => None,
    }
}

/// The node a body's member names.
pub fn node_at(body: &Json, key: &str) -> (r: Option<NodeId>)
    ensures
        r is Some == named_node(body@.text_at(key@)) is Some,
        r matches Some(n) ==> named_node(body@.text_at(key@)) == Some(n@),
{
    match body.str_at(key) {
        Some(s) => NodeId::parse(s),
        None => None,
    }
}

/// `n` brought between `lo` and `hi`.
pub open spec fn bounded(n: int, lo: int, hi: int) -> int {
    if n < lo {
        lo
    } else if n > hi {
        hi
    } else {
        n
    }
}

/// `n` brought between `lo` and `hi`.
pub fn clamp(n: u64, lo: u64, hi: u64) -> (r: u64)
    requires
        lo <= hi,
    ensures
        r == bounded(n as int, lo as int, hi as int),
{
    if n < lo {
        lo
    } else if n > hi {
        hi
    } else {
        n
    }
}

/// The value, or another where there is none.
pub open spec fn or_else(n: Option<int>, other: int) -> int {
    match n {
        Some(v) => v,
        None => other,
    }
}

/// The whole number a body's member holds, or `other`.
pub fn number_or(body: &Json, key: &str, other: u64) -> (r: u64)
    ensures
        r == or_else(body@.natural_at(key@), other as int),
{
    match body.u64_at(key) {
        Some(n) => n,
        None => other,
    }
}

/// The whole number a body's member holds.
pub open spec fn as_int(n: Option<u64>) -> Option<int> {
    match n {
        Some(v) => Some(v as int),
        None => None,
    }
}

/// The text behind an optional string.
pub open spec fn text_of(s: Option<&str>) -> Option<Seq<char>> {
    match s {
        Some(t) => Some(t@),
        None => None,
    }
}

} // verus!

//! The key-value store over the gateway: read, write, remove, list, and write with acknowledgements.
use crate::b64::{base64_bytes, base64_text, decode, encode};
use crate::http::body::{carried, payload_at};
use crate::http::reply::{error, error_of, serve, served, Reply, ReplyModel, BAD_REQUEST};
use crate::json::{member_from, object, string, strings, Json, JsonModel};
use crate::keys::KvEntry;
use crate::text::{has_prefix, starts_with, texts};
use vstd::prelude::*;
use vstd::string::*;

verus! {

/// The answer to a read.
pub open spec fn found_of(value: Option<Seq<u8>>) -> ReplyModel {
    match value {
        Some(v) => served(
            object().field("found"@, JsonModel::Bool(true)).field("value_b64"@, string(base64_text(v))),
        ),
        None => served(object().field("found"@, JsonModel::Bool(false))),
    }
}

/// The bytes behind an optional value.
pub open spec fn bytes_of(value: Option<&[u8]>) -> Option<Seq<u8>> {
    match value {
        Some(v) => Some(v@),
        None => None,
    }
}

/// Answer a read. The text it answers stands for the bytes that were written.
pub fn kv_get(value: Option<&[u8]>) -> (r: Reply)
    ensures
        r@ == found_of(bytes_of(value)),
        r.body@.at("found"@) == JsonModel::Bool(value is Some),
        value matches Some(v) ==> (r.body@.text_at("value_b64"@) matches Some(t) && base64_bytes(t) == Some(
            v@,
        )),
{
    proof {
        reveal_strlit("found");
        reveal_strlit("value_b64");
        reveal_with_fuel(member_from, 3);
        assert("found"@.len() != "value_b64"@.len());
    }
    match value {
        Some(v) => serve(
            Json::empty_object().with("found", Json::Bool(true)).with_str("value_b64", encode(v).as_str()),
        ),
        None => serve(Json::empty_object().with("found", Json::Bool(false))),
    }
}

/// Answer a consistent read: the committed value, and the plain one where none is committed.
pub fn consistent_get(committed: Option<&[u8]>, plain: Option<&[u8]>) -> (r: Reply)
    ensures
        r@ == found_of(
            match bytes_of(committed) {
                Some(v) => Some(v),
                None => bytes_of(plain),
            },
        ),
{
    match committed {
        Some(v) => kv_get(Some(v)),
        None => kv_get(plain),
    }
}

/// A write to make.
#[derive(Debug, PartialEq, Eq)]
pub struct Write {
    /// Where.
    pub key: String,
    /// What.
    pub value: Vec<u8>,
}

/// What a body writes, or why it cannot: `invalid` is what a value that is not base64 is answered.
pub open spec fn is_write(r: Result<Write, Reply>, body: JsonModel, invalid: Seq<char>) -> bool {
    match (body.text_at("key"@), carried(body.text_at("value_b64"@))) {
        (None, _) => r matches Err(e) && e@ == error_of(BAD_REQUEST, "missing key"@),
        (Some(_), None) => r matches Err(e) && e@ == error_of(BAD_REQUEST, invalid),
        (Some(key), Some(value)) => r matches Ok(w) && w.key@ == key && w.value@ == value,
    }
}

fn read_write(body: &Json, invalid: &str) -> (r: Result<Write, Reply>)
    ensures
        is_write(r, body@, invalid@),
{
    let key = match body.str_at("key") {
        Some(k) => k,
        None => {
            return Err(error(BAD_REQUEST, "missing key"));
        },
    };
    match payload_at(body, "value_b64") {
        Some(value) => Ok(Write { key: key.to_owned(), value }),
        None => Err(error(BAD_REQUEST, invalid)),
    }
}

/// Read a write to make.
pub fn kv_set(body: &Json) -> (r: Result<Write, Reply>)
    ensures
        is_write(r, body@, "invalid base64"@),
{
    read_write(body, "invalid base64")
}

/// Read a consistent write to make.
pub fn consistent_set(body: &Json) -> (r: Result<Write, Reply>)
    ensures
        is_write(r, body@, "invalid base64 value"@),
{
    read_write(body, "invalid base64 value")
}

/// The keys among the first `k` entries that begin with the prefix.
pub open spec fn keys_with(kv: Seq<KvEntry>, prefix: Option<Seq<char>>, k: int) -> Seq<Seq<char>>
    decreases k,
{
    if k <= 0 {
        Seq::empty()
    } else {
        let front = keys_with(kv, prefix, k - 1);
        if prefix matches Some(p) && !has_prefix(kv[k - 1].key@, p) {
            front
        } else {
            front.push(kv[k - 1].key@)
        }
    }
}

/// List the keys of the live entries: all of them, or those that begin with the prefix.
pub fn kv_keys(kv: &Vec<KvEntry>, prefix: Option<&str>) -> (r: Reply)
    ensures
        ({
            let p = match prefix {
                Some(p) => Some(p@),
                None => None,
            };
            r@ == served(
                object().field(
                    "keys"@,
                    JsonModel::Arr(strings(keys_with(kv@, p, kv@.len() as int))),
                ),
            )
        }),
{
    let ghost p = match prefix {
        Some(p) => Some(p@),
        None => None,
    };
    let mut out: Vec<String> = Vec::new();
    let mut k: usize = 0;
    assert(texts(out@) =~= Seq::empty());
    while k < kv.len()
        invariant
            k <= kv@.len(),
            p == (match prefix {
                Some(p) => Some(p@),
                None => None,
            }),
            texts(out@) == keys_with(kv@, p, k as int),
        decreases kv@.len() - k,
    {
        let ghost before = out@;
        let listed = match prefix {
            Some(p) => starts_with(kv[k].key.as_str(), p),
            None => true,
        };
        if listed {
            out.push(kv[k].key.clone());
            assert(texts(out@) =~= texts(before).push(kv@[k as int].key@));
        }
        k += 1;
    }
    serve(Json::empty_object().with("keys", Json::strings(&out)))
}

/// How a write with acknowledgements begins.
#[derive(Debug, PartialEq, Eq)]
pub enum QuorumStart {
    /// Answer this.
    Refuse(Reply),
    /// Write the value and answer this: no acknowledgement is asked for.
    WriteOnly {
        /// The value.
        value: Vec<u8>,
        /// The answer.
        reply: Reply,
    },
    /// Watch for acknowledgements, write the value, wait.
    Track {
        /// The value.
        value: Vec<u8>,
    },
}

/// `{"ok": true, "acks_received": n}`.
pub open spec fn acked_of(n: int) -> ReplyModel {
    served(
        object().field("ok"@, JsonModel::Bool(true)).field("acks_received"@, JsonModel::Int(n)),
    )
}

/// Begin a write with acknowledgements. `timeout_valid` says whether the timeout is finite and not
/// negative: any client can send any number, and no number may stop the node.
pub fn kv_quorum(value_b64: &str, timeout_valid: bool, min_acks: usize) -> (r: QuorumStart)
    ensures
        match base64_bytes(value_b64@) {
            None => r matches QuorumStart::Refuse(e) && e@ == error_of(BAD_REQUEST, "invalid base64"@),
            Some(bytes) => if !timeout_valid {
                r matches QuorumStart::Refuse(e) && e@ == error_of(
                    BAD_REQUEST,
                    "timeout_secs must be a finite, non-negative number"@,
                )
            } else if min_acks == 0 {
                r matches QuorumStart::WriteOnly { value, reply } && value@ == bytes && reply@ == acked_of(0)
            } else {
                r matches QuorumStart::Track { value } && value@ == bytes
            },
        },
{
    match decode(value_b64) {
        None => QuorumStart::Refuse(error(BAD_REQUEST, "invalid base64")),
        Some(value) => if !timeout_valid {
            QuorumStart::Refuse(error(BAD_REQUEST, "timeout_secs must be a finite, non-negative number"))
        } else if min_acks == 0 {
            QuorumStart::WriteOnly { value, reply: quorum_reply(0, false) }
        } else {
            QuorumStart::Track { value }
        },
    }
}

/// Answer a write with acknowledgements: how many came, and whether the time ran out first.
pub fn quorum_reply(acks: usize, timed_out: bool) -> (r: Reply)
    ensures
        r@ == if timed_out {
            served(
                object().field("ok"@, JsonModel::Bool(false)).field("error"@, string("timeout"@)).field(
                    "acks_received"@,
                    JsonModel::Int(acks as int),
                ),
            )
        } else {
            acked_of(acks as int)
        },
{
    let acks_json = Json::UInt(acks as u64);
    if timed_out {
        serve(
            Json::empty_object().with("ok", Json::Bool(false)).with_str("error", "timeout").with(
                "acks_received",
                acks_json,
            ),
        )
    } else {
        serve(Json::empty_object().with("ok", Json::Bool(true)).with("acks_received", acks_json))
    }
}

} // verus!

//! Point-to-point calls over the signal mesh.
//!
//! A call's payload carries an eight-byte correlation nonce in front; the reply echoes it, and so
//! concurrent calls are told apart without either side managing it.
use crate::json::{json_bytes, json_to_bytes, Json};
use crate::node_id::NodeId;
use crate::provider_enforcement::{plain_refusal_of, ProviderRefusal};
use crate::text::{join, utf8_of};
use crate::wire::{lemma_number_reads_back, number_at, put_bytes, put_u64, read_u64, tail};
use vstd::bytes::spec_u64_to_le_bytes;
use vstd::prelude::*;
use vstd::slice::{slice_subrange, slice_to_vec};
use vstd::string::*;
use vstd::utf8::encode_utf8;

verus! {

/// The signal kind every reply travels under.
pub const RPC_RESULT: &'static str = "rpc.result";

/// The signal kind of a reply to a bulk call.
pub const BULK_RESULT: &'static str = "bulk.result";

/// A received signal.
#[derive(Debug, PartialEq, Eq)]
pub struct Signal {
    /// Its kind.
    pub kind: String,
    /// Who sent it.
    pub sender: NodeId,
    /// What it carries.
    pub payload: Vec<u8>,
}

/// What stands behind a request's nonce, once the caller-context envelope has been looked for.
#[derive(Debug, PartialEq, Eq)]
pub enum Frame {
    /// No envelope: the application's bytes.
    Unframed(Vec<u8>),
    /// An envelope, and the application's bytes behind it.
    Framed(Vec<u8>),
    /// Something that claims to be an envelope and is none.
    Malformed,
}

/// A received request with its correlation nonce hidden.
#[derive(Debug, PartialEq, Eq)]
pub struct RpcRequest {
    /// The signal.
    pub signal: Signal,
    /// What stands behind its nonce.
    pub frame: Frame,
}

/// What stands behind the nonce: nothing where there is no whole nonce.
pub open spec fn behind_nonce(payload: Seq<u8>) -> Seq<u8> {
    payload.skip(if payload.len() < 8 {
        payload.len() as int
    } else {
        8
    })
}

/// A nonce, and what it is in front of.
pub open spec fn nonced(nonce: u64, payload: Seq<u8>) -> Seq<u8> {
    spec_u64_to_le_bytes(nonce) + payload
}

/// What stands behind the nonce, for the caller-context envelope to be looked for in.
pub fn after_nonce(payload: &[u8]) -> (r: Vec<u8>)
    ensures
        r@ == behind_nonce(payload@),
{
    let at: usize = if payload.len() < 8 {
        payload.len()
    } else {
        8
    };
    tail(payload, at)
}

impl RpcRequest {
    /// The application payload: the bytes behind the nonce and behind the envelope, if there is
    /// one. A malformed envelope has no application payload, and a handler is never handed the raw
    /// bytes as if they were one.
    pub fn payload(&self) -> (r: Vec<u8>)
        ensures
            r@ == match self.frame {
                Frame::Unframed(app) => app@,
                Frame::Framed(app) => app@,
                Frame::Malformed => Seq::empty(),
            },
    {
        match &self.frame {
            Frame::Unframed(app) => slice_to_vec(app.as_slice()),
            Frame::Framed(app) => slice_to_vec(app.as_slice()),
            Frame::Malformed => {
                let none: Vec<u8> = Vec::new();
                assert(none@ =~= Seq::empty());
                none
            },
        }
    }

    /// The classified frame after the nonce.
    pub fn frame(&self) -> (r: &Frame)
        ensures
            *r == self.frame,
    {
        &self.frame
    }

    /// `true` when a caller-context frame rides on this request, well formed or not.
    pub fn has_caller_context(&self) -> (r: bool)
        ensures
            r == !(self.frame is Unframed),
    {
        match &self.frame {
            Frame::Unframed(_) => false,
            _ => true,
        }
    }

    /// The node that sent the request.
    pub fn sender(&self) -> (r: &NodeId)
        ensures
            *r == self.signal.sender,
    {
        &self.signal.sender
    }

    /// The signal kind (e.g. `"mcp.invoke"`).
    pub fn kind(&self) -> (r: &String)
        ensures
            *r == self.signal.kind,
    {
        &self.signal.kind
    }

    /// The correlation nonce: the eight bytes in front of the payload.
    pub fn nonce(&self) -> (r: u64)
        requires
            self.signal.payload@.len() >= 8,
        ensures
            r == number_at(self.signal.payload@, 0),
    {
        read_u64(self.signal.payload.as_slice(), 0)
    }
}

/// Why a call did not get a reply.
#[derive(Debug, Clone, Copy, PartialEq, Eq, Structural)]
#[non_exhaustive]
pub enum RpcError {
    /// No reply arrived before the timeout elapsed.
    Timeout,
    /// The caller envelope, with the mandate it carries, would exceed the size a provider accepts;
    /// nothing was sent.
    ContextTooLarge,
}

impl RpcError {
    /// The error as text.
    pub open spec fn text(self) -> Seq<char> {
        match self {
            RpcError::Timeout => "rpc call timed out \u{2014} no reply from target"@,
            RpcError::ContextTooLarge =>
                "rpc call not sent \u{2014} the caller envelope with its mandate is over the size limit"@,
        }
    }

    /// The error as text.
    pub fn message(&self) -> (r: String)
        ensures
            r@ == self.text(),
    {
        match self {
            RpcError::Timeout => "rpc call timed out \u{2014} no reply from target".to_owned(),
            RpcError::ContextTooLarge =>
                "rpc call not sent \u{2014} the caller envelope with its mandate is over the size limit".to_owned(),
        }
    }
}

/// `fastrand::u64(1..)`: a random number that is not zero.
#[verifier::external_body]
fn random_nonce() -> (r: u64)
    ensures
        r >= 1,
{
    fastrand::u64(1..)
}

/// A call as it is sent: its nonce, and the bytes of the signal.
pub fn rpc_call_framed(payload: &[u8]) -> (r: (u64, Vec<u8>))
    ensures
        r.0 >= 1,
        r.1@ == nonced(r.0, payload@),
{
    let nonce: u64 = random_nonce();
    (nonce, call_payload(nonce, payload))
}

/// The bytes of a call's signal, given its nonce.
pub fn call_payload(nonce: u64, payload: &[u8]) -> (r: Vec<u8>)
    ensures
        r@ == nonced(nonce, payload@),
{
    let mut b: Vec<u8> = Vec::new();
    put_u64(&mut b, nonce);
    put_bytes(&mut b, payload);
    assert(b@ =~= nonced(nonce, payload@));
    b
}

/// A signal to one node.
#[derive(Debug, PartialEq, Eq)]
pub struct Outgoing {
    /// Its kind.
    pub kind: String,
    /// Who gets it, and nobody else.
    pub to: NodeId,
    /// What it carries.
    pub payload: Vec<u8>,
}

/// What a call of the node's own carries: the node's signed self envelope around it where the node promises
/// envelopes, so that a provider can tell it from a client's call that was handed on bare; else the payload
/// itself. `framed` is the payload in that envelope.
pub fn outgoing(promises: bool, payload: Vec<u8>, framed: Vec<u8>) -> (r: Vec<u8>)
    ensures
        r@ == if promises {
            framed@
        } else {
            payload@
        },
{
    if promises {
        framed
    } else {
        payload
    }
}

/// The reply to a request: one result signal, to the request's sender alone, with the request's nonce in
/// front. `None` where there is nothing to answer to: a nonce that never arrived cannot be echoed, so
/// such a reply is dropped.
pub fn rpc_respond(request: &RpcRequest, result: &[u8]) -> (r: Option<Outgoing>)
    ensures
        r is Some <==> request.signal.payload@.len() >= 8,
        r matches Some(s) ==> {
            &&& s.kind@ == RPC_RESULT@
            &&& s.to@ == request.signal.sender@
            &&& s.payload@ == request.signal.payload@.take(8) + result@
        },
{
    let payload = &request.signal.payload;
    if payload.len() < 8 {
        return None;
    }
    let mut b: Vec<u8> = slice_to_vec(slice_subrange(payload.as_slice(), 0, 8));
    put_bytes(&mut b, result);
    assert(b@ =~= payload@.take(8) + result@);
    Some(Outgoing { kind: RPC_RESULT.to_owned(), to: request.signal.sender.clone(), payload: b })
}

/// The reply to a request whose answer is this value: [`rpc_respond`] with the value's text.
pub fn respond_json(request: &RpcRequest, answer: &Json) -> (r: Option<Outgoing>)
    ensures
        r is Some <==> request.signal.payload@.len() >= 8,
        r matches Some(s) ==> {
            &&& s.kind@ == RPC_RESULT@
            &&& s.to@ == request.signal.sender@
            &&& s.payload@ == request.signal.payload@.take(8) + json_bytes(answer@)
        },
{
    rpc_respond(request, json_to_bytes(answer).as_slice())
}

/// What a call returns, given the reply that arrived under its nonce: the bytes behind the nonce,
/// where the reply came from the node that was called.
pub fn reply_outcome(target: &NodeId, reply: Option<&Signal>) -> (r: Result<Vec<u8>, RpcError>)
    requires
        reply matches Some(s) ==> s.payload@.len() >= 8,
    ensures
        match reply {
            Some(s) if s.sender@ == target@ => r matches Ok(b) && b@ == s.payload@.skip(8),
            _ => r == Err::<Vec<u8>, RpcError>(RpcError::Timeout),
        },
{
    match reply {
        Some(s) => if s.sender.is(target) {
            let b = tail(s.payload.as_slice(), 8);
            assert(b@ =~= s.payload@.skip(8));
            Ok(b)
        } else {
            Err(RpcError::Timeout)
        },
        None => Err(RpcError::Timeout),
    }
}

/// Does a pending call claim this signal as its reply? Only one of the reply kinds, long enough to
/// carry a nonce, whose nonce is waited for.
pub open spec fn claimed_nonce(kind: Seq<char>, payload: Seq<u8>, pending: Seq<u64>) -> Option<u64> {
    if (kind == RPC_RESULT@ || kind == BULK_RESULT@) && payload.len() >= 8 && pending.contains(
        number_at(payload, 0),
    ) {
        Some(number_at(payload, 0))
    } else {
        None
    }
}

/// The nonce of the pending call that claims this signal as its reply, if one does.
pub fn claims_reply(kind: &str, payload: &[u8], pending: &Vec<u64>) -> (r: Option<u64>)
    ensures
        r == claimed_nonce(kind@, payload@, pending@),
{
    if payload.len() < 8 {
        return None;
    }
    if !crate::text::same(kind, RPC_RESULT) && !crate::text::same(kind, BULK_RESULT) {
        return None;
    }
    let nonce: u64 = read_u64(payload, 0);
    let mut i: usize = 0;
    while i < pending.len()
        invariant
            i <= pending@.len(),
            payload@.len() >= 8,
            kind@ == RPC_RESULT@ || kind@ == BULK_RESULT@,
            nonce == number_at(payload@, 0),
            forall|j: int| 0 <= j < i ==> pending@[j] != nonce,
        decreases pending@.len() - i,
    {
        if pending[i] == nonce {
            return Some(nonce);
        }
        i += 1;
    }
    None
}

/// What the receive boundary does with a request.
#[derive(Debug, PartialEq, Eq)]
pub enum Receive {
    /// Hand it to the serve loop.
    Yield,
    /// Answer with these bytes and never hand it out.
    Refuse(Vec<u8>),
}

/// The body a request with a refused caller context is answered.
pub open spec fn context_refused(reason: Seq<char>) -> Seq<char> {
    "{\"error\":\"caller context refused: "@ + reason + "\"}"@
}

/// Decide on a received request: the caller context first, then provider enforcement. `context` is why
/// the caller context is refused, and `enforcement` the refusal of the call itself, if either is.
pub fn receive(context: Option<&str>, enforcement: Option<&ProviderRefusal>) -> (r: Receive)
    ensures
        match (context, enforcement) {
            (Some(why), _) => r matches Receive::Refuse(b) && b@ == encode_utf8(context_refused(why@)),
            (None, Some(p)) => r matches Receive::Refuse(b) && b@ == json_bytes(plain_refusal_of(*p)),
            (None, None) => r == Receive::Yield,
        },
{
    match context {
        Some(why) => {
            let head = join("{\"error\":\"caller context refused: ", why);
            Receive::Refuse(utf8_of(join(head.as_str(), "\"}").as_str()))
        },
        None => match enforcement {
            Some(p) => Receive::Refuse(p.rpc_body()),
            None => Receive::Yield,
        },
    }
}

/// A call and its reply belong together: the reply to a request made with a nonce carries that
/// nonce, and what the caller gets back is the result the responder gave.
pub proof fn lemma_reply_is_correlated(nonce: u64, payload: Seq<u8>, result: Seq<u8>)
    ensures
        ({
            let call = nonced(nonce, payload);
            let reply = call.take(8) + result;
            &&& call.len() >= 8
            &&& number_at(call, 0) == nonce
            &&& behind_nonce(call) == payload
            &&& reply.len() >= 8
            &&& number_at(reply, 0) == nonce
            &&& reply.skip(8) == result
        }),
{
    lemma_number_reads_back(Seq::empty(), nonce, payload);
    let n = spec_u64_to_le_bytes(nonce);
    let call = nonced(nonce, payload);
    assert(Seq::<u8>::empty() + n + payload =~= call);
    assert(call.take(8) =~= n);
    assert(behind_nonce(call) =~= payload);
    lemma_number_reads_back(Seq::empty(), nonce, result);
    assert(Seq::<u8>::empty() + n + result =~= call.take(8) + result);
    assert((call.take(8) + result).skip(8) =~= result);
}

/// Two calls in flight under different nonces never get each other's reply.
pub proof fn lemma_nonces_isolate(a: u64, b: u64, payload: Seq<u8>, result: Seq<u8>)
    requires
        a != b,
    ensures
        number_at(nonced(a, payload).take(8) + result, 0) != b,
{
    lemma_reply_is_correlated(a, payload, result);
}

} // verus!

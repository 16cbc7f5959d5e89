//! Replies: a status and a JSON body.
use crate::json::{object, string, Json, JsonModel};
use vstd::prelude::*;

verus! {

/// The request was served.
pub const OK: u16 = 200;

/// The request is malformed.
pub const BAD_REQUEST: u16 = 400;

/// No valid credential was presented.
pub const UNAUTHORIZED: u16 = 401;

/// The credential does not cover the route.
pub const FORBIDDEN: u16 = 403;

/// There is nothing under that name.
pub const NOT_FOUND: u16 = 404;

/// The request conflicts with the present state.
pub const CONFLICT: u16 = 409;

/// The request is well formed and cannot be carried out.
pub const UNPROCESSABLE: u16 = 422;

/// A provider answered with an error.
pub const BAD_GATEWAY: u16 = 502;

/// The node is not ready yet.
pub const UNAVAILABLE: u16 = 503;

/// A peer did not answer in time.
pub const GATEWAY_TIMEOUT: u16 = 504;

/// What a handler answers.
#[derive(Debug, PartialEq, Eq)]
pub struct Reply {
    /// The HTTP status.
    pub status: u16,
    /// The JSON body.
    pub body: Json,
}

/// What a [`Reply`] stands for.
#[verifier::ext_equal]
pub struct ReplyModel {
    /// The HTTP status.
    pub status: u16,
    /// The JSON body.
    pub body: JsonModel,
}

impl View for Reply {
    type V = ReplyModel;

    open spec fn view(&self) -> ReplyModel {
        ReplyModel { status: self.status, body: self.body@ }
    }
}

/// A reply that says what went wrong: `{"error": message}`.
pub open spec fn error_of(status: u16, message: Seq<char>) -> ReplyModel {
    ReplyModel { status, body: object().field("error"@, string(message)) }
}

/// `{"ok": false, "error": message}` under a status.
pub open spec fn failure_of(status: u16, message: Seq<char>) -> ReplyModel {
    ReplyModel {
        status,
        body: object().field("ok"@, JsonModel::Bool(false)).field("error"@, string(message)),
    }
}

/// A served reply with this body.
pub open spec fn served(body: JsonModel) -> ReplyModel {
    ReplyModel { status: OK, body }
}

/// `{"ok": true}`.
pub open spec fn done() -> ReplyModel {
    served(object().field("ok"@, JsonModel::Bool(true)))
}

/// `{"error": message}` under a status.
pub fn error(status: u16, message: &str) -> (r: Reply)
    ensures
        r@ == error_of(status, message@),
{
    Reply { status, body: Json::empty_object().with_str("error", message) }
}

/// `{"ok": false, "error": message}` under a status.
pub fn failure(status: u16, message: &str) -> (r: Reply)
    ensures
        r@ == failure_of(status, message@),
{
    Reply {
        status,
        body: Json::empty_object().with("ok", Json::Bool(false)).with_str("error", message),
    }
}

/// A served reply with this body.
pub fn serve(body: Json) -> (r: Reply)
    ensures
        r@ == served(body@),
{
    Reply { status: OK, body }
}

/// `{"ok": true}`.
pub fn ok() -> (r: Reply)
    ensures
        r@ == done(),
{
    serve(Json::empty_object().with("ok", Json::Bool(true)))
}

} // verus!

//! The JSON-RPC 2.0 frame codec: the exact text of outgoing request and
//! notification frames, and the reading of one received value as a reply.
//!
//! Decoding is tolerant, as the wire demands: a value that is not shaped
//! like a response, or whose id is a number other than the awaited one, is
//! no reply and is skipped by the caller; a response may omit the id echo
//! altogether when it carries a result or an error.

use vstd::prelude::*;

use crate::json::{member, Json, JsonModel};
use crate::render::{append_json, append_quoted, quoted, text_of};
use crate::text::{dec_of, push_dec_u64};
use vstd::string::StringExecFns;

verus! {

/// The model of optional parameters handed to the codec by reference.
pub open spec fn params_model(p: Option<&Json>) -> Option<JsonModel> {
    match p {
        Some(j) => Some(j@),
        None => None,
    }
}

/// The `,"params":...` tail of a frame, empty when there are none.
pub open spec fn params_suffix(params: Option<JsonModel>) -> Seq<char> {
    match params {
        Some(p) => ",\"params\":"@ + text_of(p),
        None => Seq::<char>::empty(),
    }
}

/// The text of a request frame: version tag, id, method, then parameters.
pub open spec fn request_text(id: u64, method: Seq<char>, params: Option<JsonModel>) -> Seq<
    char,
> {
    "{\"jsonrpc\":\"2.0\",\"id\":"@ + dec_of(id as nat) + ",\"method\":"@ + quoted(method)
        + params_suffix(params) + "}"@
}

/// The text of a notification frame: as a request, but with no id.
pub open spec fn notification_text(method: Seq<char>, params: Option<JsonModel>) -> Seq<char> {
    "{\"jsonrpc\":\"2.0\",\"method\":"@ + quoted(method) + params_suffix(params) + "}"@
}

/// Writes the text of a request frame.
pub fn request_line(id: u64, method: &str, params: Option<&Json>) -> (r: String)
    ensures
        r@ == request_text(id, method@, params_model(params)),
{
    let mut out = String::from_str("{\"jsonrpc\":\"2.0\",\"id\":");
    push_dec_u64(&mut out, id);
    out.append(",\"method\":");
    append_quoted(&mut out, method);
    if let Some(p) = params {
        out.append(",\"params\":");
        append_json(&mut out, p);
    }
    out.append("}");
    proof {
        assert(out@ =~= request_text(id, method@, params_model(params)));
    }
    out
}

/// Writes the text of a notification frame.
pub fn notification_line(method: &str, params: Option<&Json>) -> (r: String)
    ensures
        r@ == notification_text(method@, params_model(params)),
{
    let mut out = String::from_str("{\"jsonrpc\":\"2.0\",\"method\":");
    append_quoted(&mut out, method);
    if let Some(p) = params {
        out.append(",\"params\":");
        append_json(&mut out, p);
    }
    out.append("}");
    proof {
        assert(out@ =~= notification_text(method@, params_model(params)));
    }
    out
}

/// A server's error object, surfaced to the caller.
pub struct RpcFailure {
    pub code: i64,
    pub message: String,
}

/// The model of an error object: its code and message.
pub struct RpcFailureModel {
    pub code: i64,
    pub message: Seq<char>,
}

impl View for RpcFailure {
    type V = RpcFailureModel;

    open spec fn view(&self) -> RpcFailureModel {
        RpcFailureModel { code: self.code, message: self.message@ }
    }
}

/// What one received JSON value means to a caller awaiting reply `id`.
pub enum Reply {
    /// Not a reply to this request: the caller skips it and reads on.
    NotReply,
    /// A reply carrying this result (`null` when the response had none).
    Value(Json),
    /// A reply carrying the server's error object.
    Failure(RpcFailure),
}

/// The model of `Reply`.
pub enum ReplyModel {
    NotReply,
    Value(JsonModel),
    Failure(RpcFailureModel),
}

impl View for Reply {
    type V = ReplyModel;

    open spec fn view(&self) -> ReplyModel {
        match self {
            Reply::NotReply => ReplyModel::NotReply,
            Reply::Value(j) => ReplyModel::Value(j@),
            Reply::Failure(f) => ReplyModel::Failure(f@),
        }
    }
}

/// Whether a member is present with a value other than `null`: an optional
/// record field reads `null` as absent.
pub open spec fn member_present(m: JsonModel, key: Seq<char>) -> bool {
    match member(m, key) {
        Some(v) => !(v is Null),
        None => false,
    }
}

/// Whether an `error` member has the shape of an error object: an object
/// with an integer `code` that fits `i64` and a string `message`.
pub open spec fn error_shape_ok(e: JsonModel) -> bool {
    &&& match member(e, "code"@) {
        Some(JsonModel::Int(_)) => true,
        Some(JsonModel::UInt(u)) => u <= i64::MAX,
        _ => false,
    }
    &&& member(e, "message"@) matches Some(JsonModel::Str(_))
}

/// The code of an error object that passed `error_shape_ok`.
pub open spec fn error_code_of(e: JsonModel) -> int {
    match member(e, "code"@) {
        Some(JsonModel::Int(n)) => n as int,
        Some(JsonModel::UInt(u)) => u as int,
        _ => 0,
    }
}

/// The message of an error object that passed `error_shape_ok`.
pub open spec fn error_message_of(e: JsonModel) -> Seq<char> {
    match member(e, "message"@) {
        Some(JsonModel::Str(s)) => s,
        _ => Seq::<char>::empty(),
    }
}

/// Whether the value reads as a response record at all: an object whose
/// `jsonrpc` member, if any, is a string or `null`, and whose `error`
/// member, if any, is `null` or shaped as an error object.
pub open spec fn response_shape_ok(m: JsonModel) -> bool {
    &&& m is Obj
    &&& match member(m, "jsonrpc"@) {
        None => true,
        Some(JsonModel::Str(_)) => true,
        Some(JsonModel::Null) => true,
        _ => false,
    }
    &&& match member(m, "error"@) {
        None => true,
        Some(JsonModel::Null) => true,
        Some(e) => error_shape_ok(e),
    }
}

/// Whether a response record answers the request with id `id`: a numeric
/// `id` member must equal it, and a response without one is accepted when
/// it carries a result or an error.
pub open spec fn is_reply_for(m: JsonModel, id: u64) -> bool {
    match member(m, "id"@) {
        Some(JsonModel::UInt(u)) => u == id,
        Some(JsonModel::Int(_)) => false,
        Some(JsonModel::NumText(_)) => false,
        _ => member_present(m, "result"@) || member_present(m, "error"@),
    }
}

/// The meaning of one received value for the caller awaiting reply `id`.
pub open spec fn reply_verdict(m: JsonModel, id: u64) -> ReplyModel {
    if !response_shape_ok(m) || !is_reply_for(m, id) {
        ReplyModel::NotReply
    } else if member_present(m, "error"@) {
        let e = member(m, "error"@)->0;
        ReplyModel::Failure(
            RpcFailureModel { code: error_code_of(e) as i64, message: error_message_of(e) },
        )
    } else {
        match member(m, "result"@) {
            Some(v) => if v is Null {
                ReplyModel::Value(JsonModel::Null)
            } else {
                ReplyModel::Value(v)
            },
            None => ReplyModel::Value(JsonModel::Null),
        }
    }
}

pub(crate) fn error_fields(e: &Json) -> (r: Option<RpcFailure>)
    ensures
        r is Some <==> error_shape_ok(e@),
        r matches Some(f) ==> f@ == (RpcFailureModel {
            code: error_code_of(e@) as i64,
            message: error_message_of(e@),
        }),
{
    let code: i64 = match e.get("code") {
        Some(Json::Int(n)) => *n,
        Some(Json::UInt(u)) => {
            if *u <= i64::MAX as u64 {
                *u as i64
            } else {
                return None;
            }
        },
        _ => {
            return None;
        },
    };
    match e.get("message") {
        Some(Json::Str(s)) => Some(RpcFailure { code, message: s.clone() }),
        _ => None,
    }
}

/// Reads one received value as the reply to request `id`, skipping what is
/// no such reply.
pub fn decode_reply(j: &Json, id: u64) -> (r: Reply)
    ensures
        r@ == reply_verdict(j@, id),
{
    if !j.is_object() {
        return Reply::NotReply;
    }
    match j.get("jsonrpc") {
        None => (),
        Some(Json::Str(_)) => (),
        Some(Json::Null) => (),
        _ => {
            return Reply::NotReply;
        },
    }
    let error_member = match j.get("error") {
        None => None,
        Some(Json::Null) => None,
        Some(e) => {
            match error_fields(e) {
                Some(f) => Some(f),
                None => {
                    return Reply::NotReply;
                },
            }
        },
    };
    let result_member = match j.get("result") {
        None => None,
        Some(Json::Null) => None,
        Some(v) => Some(v),
    };
    let id_ok = match j.get("id") {
        Some(Json::UInt(u)) => *u == id,
        Some(Json::Int(_)) => false,
        Some(Json::NumText(_)) => false,
        _ => error_member.is_some() || result_member.is_some(),
    };
    if !id_ok {
        return Reply::NotReply;
    }
    if let Some(f) = error_member {
        return Reply::Failure(f);
    }
    match result_member {
        Some(v) => Reply::Value(crate::json::json_dup(v)),
        None => Reply::Value(Json::Null),
    }
}


/// What an HTTP exchange yields once the body has parsed as JSON: a failed
/// status is surfaced with the body's text; a body shaped like a response
/// record is honored; a stray `result` member is returned; any other body
/// is itself the result.
pub open spec fn http_reply_model(ok: bool, status: u16, m: JsonModel) -> Result<
    JsonModel,
    crate::errors::ErrorModel,
> {
    if !ok {
        Err(crate::errors::ErrorModel::HttpStatus { status, body: text_of(m) })
    } else if response_shape_ok(m) {
        if member_present(m, "error"@) {
            let e = member(m, "error"@)->0;
            Err(
                crate::errors::ErrorModel::Rpc {
                    code: error_code_of(e) as i64,
                    message: error_message_of(e),
                },
            )
        } else {
            match member(m, "result"@) {
                Some(v) => if v is Null {
                    Ok(JsonModel::Null)
                } else {
                    Ok(v)
                },
                None => Ok(JsonModel::Null),
            }
        }
    } else {
        match member(m, "result"@) {
            Some(v) => Ok(v),
            None => Ok(m),
        }
    }
}

/// Reads one HTTP exchange: `ok` says whether the status was a success,
/// `status` is its code, `body` the parsed body.
pub fn http_reply(ok: bool, status: u16, body: Json) -> (r: Result<Json, crate::errors::McpError>)
    ensures
        match r {
            Ok(v) => http_reply_model(ok, status, body@) == Ok::<
                JsonModel,
                crate::errors::ErrorModel,
            >(v@),
            Err(e) => http_reply_model(ok, status, body@) == Err::<
                JsonModel,
                crate::errors::ErrorModel,
            >(e@),
        },
{
    if !ok {
        let text = crate::render::json_to_string(&body);
        return Err(crate::errors::McpError::HttpStatus { status, body: text });
    }
    let shape_ok: bool = {
        if !body.is_object() {
            false
        } else {
            let jsonrpc_ok = match body.get("jsonrpc") {
                None => true,
                Some(Json::Str(_)) => true,
                Some(Json::Null) => true,
                _ => false,
            };
            let error_ok = match body.get("error") {
                None => true,
                Some(Json::Null) => true,
                Some(e) => error_fields(e).is_some(),
            };
            jsonrpc_ok && error_ok
        }
    };
    if shape_ok {
        let failure = match body.get("error") {
            None => None,
            Some(Json::Null) => None,
            Some(e) => error_fields(e),
        };
        if let Some(f) = failure {
            return Err(crate::errors::McpError::Rpc { code: f.code, message: f.message });
        }
        return match body.get("result") {
            Some(Json::Null) => Ok(Json::Null),
            Some(v) => Ok(crate::json::json_dup(v)),
            None => Ok(Json::Null),
        };
    }
    match body.get("result") {
        Some(v) => Ok(crate::json::json_dup(v)),
        None => Ok(body),
    }
}


/// What a read loop awaiting reply `id` yields from a sequence of received
/// values: the verdict of the first value that is a reply, every other
/// value skipped; `NotReply` when none is.
pub open spec fn first_reply(values: Seq<JsonModel>, id: u64) -> ReplyModel
    decreases values.len(),
{
    if values.len() == 0 {
        ReplyModel::NotReply
    } else if !(reply_verdict(values[0], id) is NotReply) {
        reply_verdict(values[0], id)
    } else {
        first_reply(values.subrange(1, values.len() as int), id)
    }
}

/// Line-skip tolerance: values that are no reply to `id` — unsolicited
/// notifications, frames for other ids, malformed records — may come in any
/// number before the reply without changing what the read yields.
pub proof fn lemma_skip_tolerance(noise: Seq<JsonModel>, rest: Seq<JsonModel>, id: u64)
    requires
        forall|k: int|
            0 <= k < noise.len() ==> reply_verdict(#[trigger] noise[k], id) is NotReply,
    ensures
        first_reply(noise + rest, id) == first_reply(rest, id),
    decreases noise.len(),
{
    if noise.len() == 0 {
        assert(noise + rest =~= rest);
    } else {
        let all = noise + rest;
        assert(all[0] == noise[0]);
        assert(all.subrange(1, all.len() as int) =~= noise.subrange(1, noise.len() as int) + rest);
        lemma_skip_tolerance(noise.subrange(1, noise.len() as int), rest, id);
    }
}

} // verus!

//! Handing a call on to the backend: which backend is addressed, and what
//! becomes of its answer.
//!
//! The exchange with the backend itself is not made here. The caller makes
//! it and reports what came of it as an [`UpstreamOutcome`].

use crate::address::AddressSet;
use crate::gate::{
    action_follows, error_response, handle_rpc_request, is_error_response, screen, Action,
};
use crate::text::{find_char, position_of};
use crate::types::{JsonRpcRequest, RpcErrorCode, RpcResponse};
use vstd::prelude::*;
use vstd::string::*;

verus! {

/// Why a call that was to be handed on got no answer from the backend.
#[derive(Debug, Clone, Copy, PartialEq, Eq, Structural)]
pub enum RelayError {
    /// The address given for the backend is no URL.
    InvalidTarget,
    /// The backend could not be reached.
    UpstreamUnreachable,
    /// The backend answered with a status outside 200 to 299.
    UpstreamStatus,
    /// The backend's answer reports success, and its body is not JSON.
    UpstreamMalformed,
}

/// What came of the exchange with the backend.
#[derive(Debug, PartialEq, Eq)]
pub enum UpstreamOutcome {
    /// No answer arrived: the connection failed or timed out.
    Unreachable,
    /// The backend answered with this HTTP status and body.
    Answered { status: u16, body: Vec<u8> },
}

/// A JSON value of the `serde_json` crate. What the gateway reads of it is
/// named by [`json_held`].
#[verifier::external_type_specification]
#[verifier::external_body]
pub struct ExJsonValue(serde_json::Value);

/// The error of the `serde_json` crate, carried through unread.
#[verifier::external_type_specification]
#[verifier::external_body]
pub struct ExJsonError(serde_json::Error);

/// What the gateway reads of a JSON value: the value as compact JSON text,
/// as `serde_json` writes it, and, where the value is an object, under each
/// member's name the member as such text. A value that is no object has no
/// members.
pub struct Json {
    pub text: Seq<char>,
    pub members: Map<Seq<char>, Seq<char>>,
}

/// What a JSON value holds.
pub uninterp spec fn json_held(value: serde_json::Value) -> Json;

/// What the JSON value holds that `serde_json::from_slice` reads from
/// bytes, or `None` where it reads none.
pub uninterp spec fn json_read(body: Seq<u8>) -> Option<Json>;

/// True for the texts that `reqwest::Url::parse` reads as a URL.
pub uninterp spec fn is_url(text: Seq<char>) -> bool;

/// Parses bytes with `serde_json::from_slice` as a `serde_json::Value`.
/// What is read depends on the bytes alone.
#[verifier::external_body]
fn parse_json(body: &[u8]) -> (r: Result<serde_json::Value, serde_json::Error>)
    ensures
        r matches Ok(value) ==> json_read(body@) == Some(json_held(value)),
        r is Err ==> json_read(body@) is None,
{
    serde_json::from_slice::<serde_json::Value>(body)
}

/// Looks a member up with `serde_json::Value::get`, which gives the member
/// of that name of an object and nothing for any other value, and writes
/// the member as compact JSON text with the value's `to_string`, which
/// cannot fail on a value.
#[verifier::external_body]
fn member_text(value: &serde_json::Value, name: &str) -> (r: Option<String>)
    ensures
        r matches Some(text) ==> json_held(*value).members.dom().contains(name@) && json_held(
            *value,
        ).members[name@] == text@,
        r is None ==> !json_held(*value).members.dom().contains(name@),
{
    value.get(name).map(|member| member.to_string())
}

/// Writes a value as compact JSON text with the `to_string` of
/// `serde_json::Value`, which cannot fail on a value.
#[verifier::external_body]
fn value_text(value: &serde_json::Value) -> (text: String)
    ensures
        text@ == json_held(*value).text,
{
    value.to_string()
}

/// Parses text with `reqwest::Url::parse`. Whether that succeeds depends on
/// the text alone.
#[verifier::external_body]
fn parses_as_url(text: &str) -> (r: bool)
    ensures
        r == is_url(text@),
{
    reqwest::Url::parse(text).is_ok()
}

/// The statuses that report success: 200 to 299.
pub open spec fn is_success(status: u16) -> bool {
    200 <= status < 300
}

/// True for the bytes that are read as one JSON value.
pub open spec fn is_json(body: Seq<u8>) -> bool {
    json_read(body) is Some
}

/// What the backend answered, as JSON text: the result of the call, or the
/// error that the backend reports.
#[derive(Debug, PartialEq, Eq)]
pub enum Payload {
    Result(String),
    Error(String),
}

/// A [`Payload`] as plain text.
pub enum PayloadText {
    Result(Seq<char>),
    Error(Seq<char>),
}

impl View for Payload {
    type V = PayloadText;

    open spec fn view(&self) -> PayloadText {
        match *self {
            Payload::Result(text) => PayloadText::Result(text@),
            Payload::Error(text) => PayloadText::Error(text@),
        }
    }
}

/// What is handed on of a JSON body, given its members `result` and `error`
/// and the whole of it: where the body has exactly one of the two members,
/// that member, as the result or the error; the whole body, as the result,
/// where it has neither or both. Nothing of a JSON body is refused.
pub open spec fn payload_of(
    result: Option<Seq<char>>,
    error: Option<Seq<char>>,
    whole: Seq<char>,
) -> PayloadText {
    match (result, error) {
        (Some(text), None) => PayloadText::Result(text),
        (None, Some(text)) => PayloadText::Error(text),
        _ => PayloadText::Result(whole),
    }
}

/// What an answer of the backend comes to, given whether its body is JSON,
/// the members `result` and `error` of the body and the whole of it: an
/// answer is good where the status reports success and the body is JSON,
/// and [`payload_of`] says what is handed on of it.
pub open spec fn answer_of(
    status: u16,
    json: bool,
    result: Option<Seq<char>>,
    error: Option<Seq<char>>,
    whole: Seq<char>,
) -> Result<PayloadText, RelayError> {
    if !is_success(status) {
        Err(RelayError::UpstreamStatus)
    } else if !json {
        Err(RelayError::UpstreamMalformed)
    } else {
        Ok(payload_of(result, error, whole))
    }
}

/// The member of the given name, if there is one.
pub open spec fn member(members: Map<Seq<char>, Seq<char>>, name: Seq<char>) -> Option<Seq<char>> {
    if members.dom().contains(name) {
        Some(members[name])
    } else {
        None
    }
}

/// What an exchange with the backend comes to: `UpstreamMalformed` for an
/// answer that reports success with a body that is not JSON, and for no
/// other.
pub open spec fn relayed(outcome: UpstreamOutcome) -> Result<PayloadText, RelayError> {
    match outcome {
        UpstreamOutcome::Unreachable => Err(RelayError::UpstreamUnreachable),
        UpstreamOutcome::Answered { status, body } => if !is_success(status) {
            Err(RelayError::UpstreamStatus)
        } else {
            match json_read(body@) {
                None => Err(RelayError::UpstreamMalformed),
                Some(json) => Ok(
                    payload_of(
                        member(json.members, "result"@),
                        member(json.members, "error"@),
                        json.text,
                    ),
                ),
            }
        },
    }
}

/// Judges an answer of the backend, given whether its body is JSON, the
/// members `result` and `error` of the body and the whole of it. What is
/// handed on is returned as it was given. The whole body is looked at only
/// where the body has not exactly one of the two members.
pub fn judge_answer(
    status: u16,
    json: bool,
    result: Option<String>,
    error: Option<String>,
    whole: String,
) -> (r: Result<Payload, RelayError>)
    ensures
        r matches Ok(payload) ==> answer_of(status, json, text_of(result), text_of(error), whole@)
            == Ok::<PayloadText, RelayError>(payload@),
        r matches Err(e) ==> answer_of(status, json, text_of(result), text_of(error), whole@)
            == Err::<PayloadText, RelayError>(e),
{
    if status < 200 || status >= 300 {
        Err(RelayError::UpstreamStatus)
    } else if !json {
        Err(RelayError::UpstreamMalformed)
    } else {
        match (result, error) {
            (Some(text), None) => Ok(Payload::Result(text)),
            (None, Some(text)) => Ok(Payload::Error(text)),
            _ => Ok(Payload::Result(whole)),
        }
    }
}

/// The characters of a text, if there is one.
pub open spec fn text_of(text: Option<String>) -> Option<Seq<char>> {
    match text {
        Some(held) => Some(held@),
        None => None,
    }
}

/// Judges what came of an exchange with the backend. The body is read only
/// where the status reports success, and written out whole only where it
/// has not exactly one of the members `result` and `error`.
pub fn relay_result(outcome: UpstreamOutcome) -> (r: Result<Payload, RelayError>)
    ensures
        r matches Ok(payload) ==> relayed(outcome) == Ok::<PayloadText, RelayError>(payload@),
        r matches Err(e) ==> relayed(outcome) == Err::<PayloadText, RelayError>(e),
{
    match outcome {
        UpstreamOutcome::Unreachable => Err(RelayError::UpstreamUnreachable),
        UpstreamOutcome::Answered { status, body } => {
            if status < 200 || status >= 300 {
                return judge_answer(status, false, None, None, String::new());
            }
            match parse_json(body.as_slice()) {
                Err(_) => judge_answer(status, false, None, None, String::new()),
                Ok(value) => {
                    let result = member_text(&value, "result");
                    let error = member_text(&value, "error");
                    let whole = if result.is_some() != error.is_some() {
                        String::new()
                    } else {
                        value_text(&value)
                    };
                    judge_answer(status, true, result, error, whole)
                },
            }
        },
    }
}

impl RelayError {
    /// The class of error that this failure is reported with: a bad
    /// target is the client's mistake, the others are the backend's.
    pub open spec fn error_code(self) -> RpcErrorCode {
        if self is InvalidTarget {
            RpcErrorCode::InvalidParams
        } else {
            RpcErrorCode::InternalError
        }
    }

    /// The message that this failure is reported with. It says nothing of
    /// the backend beyond that the call failed.
    pub open spec fn message(self) -> Seq<char> {
        if self is InvalidTarget {
            "Please provide a valid RPC URL"@
        } else {
            "RPC request failed"@
        }
    }

    /// The response that reports this failure to the request with the given
    /// id.
    pub fn to_response<'a>(&self, id: i32) -> (response: RpcResponse<'a>)
        ensures
            is_error_response(response, id, self.error_code().code(), self.message()),
            response.well_formed(),
    {
        match self {
            RelayError::InvalidTarget => error_response(
                id,
                RpcErrorCode::InvalidParams,
                "Please provide a valid RPC URL".to_owned(),
            ),
            _ => error_response(id, RpcErrorCode::InternalError, "RPC request failed".to_owned()),
        }
    }
}

/// The response that hands the backend's answer on: the gateway's own
/// envelope, addressed to the request, around the result or the error that
/// the backend answered with.
#[derive(Debug, PartialEq, Eq)]
pub struct RelayedResponse<'a> {
    pub id: i32,
    pub jsonrpc: &'a str,
    pub payload: Payload,
}

/// What the gateway sends back to its client.
#[derive(Debug, PartialEq, Eq)]
pub enum Reply<'a> {
    /// A response that the gateway wrote itself.
    Gateway(RpcResponse<'a>),
    /// A response around what the backend answered.
    Relayed(RelayedResponse<'a>),
}

/// True of the reply that is owed to the request with the given id once the
/// exchange with the backend has come to `relayed`: the backend's result or
/// error, unchanged, in an envelope of protocol version 2.0 with the
/// request's id, or the error response of the failure.
pub open spec fn reply_follows(
    reply: Reply,
    id: i32,
    relayed: Result<PayloadText, RelayError>,
) -> bool {
    match reply {
        Reply::Relayed(response) => {
            &&& response.id == id
            &&& response.jsonrpc@ == "2.0"@
            &&& relayed == Ok::<PayloadText, RelayError>(response.payload@)
        },
        Reply::Gateway(response) => {
            &&& relayed matches Err(e)
            &&& is_error_response(response, id, e.error_code().code(), e.message())
        },
    }
}

/// Answers the request with the given id after the exchange with the
/// backend.
pub fn finish_forward<'a>(id: i32, outcome: UpstreamOutcome) -> (reply: Reply<'a>)
    ensures
        reply_follows(reply, id, relayed(outcome)),
{
    match relay_result(outcome) {
        Ok(payload) => Reply::Relayed(RelayedResponse { id, jsonrpc: "2.0", payload }),
        Err(e) => Reply::Gateway(e.to_response(id)),
    }
}

/// The backend that a query string asks for: the text between its first
/// and its second `=`, or behind its only one; the default where it has
/// none.
pub open spec fn target_of(query: Seq<char>, default_target: Seq<char>) -> Seq<char> {
    match position_of(query, '=') {
        None => default_target,
        Some(first) => {
            let rest = query.skip(first + 1);
            match position_of(rest, '=') {
                None => rest,
                Some(second) => rest.take(second),
            }
        },
    }
}

/// Picks the backend that a query string asks for.
pub fn select_target(query: &str, default_target: &str) -> (target: String)
    ensures
        target@ == target_of(query@, default_target@),
{
    assert(query@.skip(0) =~= query@);
    let n = query.unicode_len();
    let first = match find_char(query, '=', 0) {
        None => {
            return default_target.to_owned();
        },
        Some(first) => first,
    };
    let end = match find_char(query, '=', first + 1) {
        None => n,
        Some(second) => second,
    };
    let target = query.substring_char(first + 1, end);
    assert(target@ =~= target_of(query@, default_target@));
    target.to_owned()
}

/// Accepts a target that is a URL and refuses any other.
pub fn accept_target(target: String, url: bool) -> (r: Result<String, RelayError>)
    ensures
        url ==> r == Ok::<String, RelayError>(target),
        !url ==> r == Err::<String, RelayError>(RelayError::InvalidTarget),
{
    if url {
        Ok(target)
    } else {
        Err(RelayError::InvalidTarget)
    }
}

/// Picks the backend that a query string asks for and refuses it unless it
/// is a URL.
pub fn resolve_target(query: &str, default_target: &str) -> (r: Result<String, RelayError>)
    ensures
        r matches Ok(target) ==> is_url(target@) && target@ == target_of(
            query@,
            default_target@,
        ),
        r matches Err(e) ==> !is_url(target_of(query@, default_target@)) && e
            == RelayError::InvalidTarget,
{
    let target = select_target(query, default_target);
    let url = parses_as_url(target.as_str());
    accept_target(target, url)
}

/// What is to be done with a call before any exchange with the backend.
#[derive(Debug, PartialEq, Eq)]
pub enum Step<'a> {
    /// The gateway answers the call itself, with this response.
    Respond(RpcResponse<'a>),
    /// The call is handed on, unchanged, to the backend at this URL.
    Forward(String),
}

/// True of the step that a call asks for: a target that is no URL is
/// refused before anything else; then a call that the screening refuses is
/// answered with its error response; any other call is handed on to the
/// target.
pub open spec fn step_follows(
    step: Step,
    req: JsonRpcRequest,
    query: Seq<char>,
    default_target: Seq<char>,
    denylist: Set<Seq<u8>>,
) -> bool {
    let target = target_of(query, default_target);
    match step {
        Step::Forward(to) => is_url(target) && to@ == target && !screen(req, denylist).is_blocked(),
        Step::Respond(response) => if !is_url(target) {
            is_error_response(
                response,
                req.id,
                RelayError::InvalidTarget.error_code().code(),
                RelayError::InvalidTarget.message(),
            )
        } else {
            action_follows(Action::Respond(response), screen(req, denylist), req.id)
        },
    }
}

/// Decides what is to be done with a call that came with the given query
/// string.
pub fn begin_request<'a>(
    req: &JsonRpcRequest,
    query: &str,
    default_target: &str,
    alert_list: &AddressSet,
) -> (step: Step<'a>)
    ensures
        step_follows(step, *req, query@, default_target@, alert_list@),
{
    match resolve_target(query, default_target) {
        Err(e) => Step::Respond(e.to_response(req.id)),
        Ok(target) => match handle_rpc_request(req, alert_list) {
            Action::Respond(response) => Step::Respond(response),
            Action::Forward => Step::Forward(target),
        },
    }
}

/// Every reply to a call that was handed on is addressed to the request,
/// whatever the backend answered, and holds a result or an error, never
/// both or neither.
pub proof fn lemma_reply_is_addressed_to_the_request(
    id: i32,
    outcome: UpstreamOutcome,
    reply: Reply,
)
    requires
        reply_follows(reply, id, relayed(outcome)),
    ensures
        reply matches Reply::Relayed(response) ==> response.id == id && response.jsonrpc@
            == "2.0"@,
        reply matches Reply::Gateway(response) ==> response.id == id && response.jsonrpc@
            == "2.0"@ && response.well_formed(),
{
}

/// Where the backend answers with success and a JSON object that has a
/// result and no error, the client gets that result, unchanged, in a
/// response with the request's id.
pub proof fn lemma_good_answer_is_returned_unchanged(
    id: i32,
    status: u16,
    body: Vec<u8>,
    reply: Reply,
)
    requires
        is_success(status),
        json_read(body@) matches Some(json) && member(json.members, "result"@) is Some && member(
            json.members,
            "error"@,
        ) is None,
        reply_follows(reply, id, relayed(UpstreamOutcome::Answered { status, body })),
    ensures
        reply matches Reply::Relayed(response) && response.id == id && response.payload@
            == PayloadText::Result(member(json_read(body@)->Some_0.members, "result"@)->Some_0),
{
}

/// Where the backend answers with success and any JSON body, the client
/// gets a response around what the backend answered, never one that the
/// gateway made up: around the body's result or error where it has exactly
/// one of them, else around the whole body.
pub proof fn lemma_json_answer_is_handed_on(id: i32, status: u16, body: Vec<u8>, reply: Reply)
    requires
        is_success(status),
        is_json(body@),
        reply_follows(reply, id, relayed(UpstreamOutcome::Answered { status, body })),
    ensures
        reply matches Reply::Relayed(response) && response.id == id && response.payload@
            == payload_of(
            member(json_read(body@)->Some_0.members, "result"@),
            member(json_read(body@)->Some_0.members, "error"@),
            json_read(body@)->Some_0.text,
        ),
{
}

/// An answer is refused as malformed where it reports success with a body
/// that is not JSON, and nowhere else.
pub proof fn lemma_malformed_means_not_json(status: u16, body: Vec<u8>)
    ensures
        relayed(UpstreamOutcome::Answered { status, body }) == Err::<PayloadText, RelayError>(
            RelayError::UpstreamMalformed,
        ) <==> is_success(status) && !is_json(body@),
{
}

/// Every response that the gateway writes before any exchange with the
/// backend is addressed to the request and holds an error and no result.
pub proof fn lemma_response_is_addressed_to_the_request(
    step: Step,
    req: JsonRpcRequest,
    query: Seq<char>,
    default_target: Seq<char>,
    denylist: Set<Seq<u8>>,
)
    requires
        step_follows(step, req, query, default_target, denylist),
    ensures
        step matches Step::Respond(response) ==> response.id == req.id && response.jsonrpc@
            == "2.0"@ && response.result is None && response.error is Some,
{
}

/// A call that the screening refuses is answered by the gateway and never
/// handed on, whatever target was asked for.
pub proof fn lemma_blocked_call_is_never_forwarded(
    step: Step,
    req: JsonRpcRequest,
    query: Seq<char>,
    default_target: Seq<char>,
    denylist: Set<Seq<u8>>,
)
    requires
        screen(req, denylist).is_blocked(),
        step_follows(step, req, query, default_target, denylist),
    ensures
        step is Respond,
{
}

} // verus!

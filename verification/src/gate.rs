//! The decision whether a JSON-RPC call is answered by the gateway itself
//! or handed on to the backend.

use crate::address::{lemma_canonical_of_twenty, Address, AddressSet};
use crate::base16::{hex_value, prefixed_hex, same_text_ignoring_case};
use crate::denylist::{
    column_entries, lemma_column_entries_are_the_row_addresses, lemma_entry_matches_in_any_case,
    row_address,
};
use crate::envelope::{
    lemma_recipient_bytes, lemma_recipient_ignores_case, recipient_bytes, recipient_digits,
    same_digits_ignoring_case, DecodeError,
};
use crate::text::same_text;
use crate::types::{JsonRpcRequest, RpcError, RpcErrorCode, RpcResponse, Transaction};
use crate::utils::option_string_to_h160;
use vstd::prelude::*;
use vstd::string::*;

verus! {

/// Why a call is not handed on.
#[derive(Debug, Clone, Copy, PartialEq, Eq)]
pub enum BlockReason {
    /// The call is not a JSON-RPC 2.0 request.
    InvalidRequest,
    /// The call carries no raw transaction that can be decoded.
    MalformedTransaction,
    /// The transaction is addressed to a contract on the denylist.
    SuspiciousContract(Address),
}

/// The decision on a call.
#[derive(Debug, Clone, Copy, PartialEq, Eq)]
pub enum Verdict {
    /// The call sends no transaction and is handed on unscreened.
    Passthrough,
    /// The call is refused.
    Blocked(BlockReason),
    /// The call sends a transaction that passed the screening.
    ForwardEligible,
}

/// A verdict with the address of a suspicious contract as plain bytes.
pub enum Screening {
    /// The call sends no transaction and is handed on unscreened.
    Passthrough,
    /// The call is not a JSON-RPC 2.0 request.
    InvalidRequest,
    /// The call carries no raw transaction that can be decoded.
    MalformedTransaction,
    /// The transaction is addressed to the contract at these bytes, which
    /// the denylist holds.
    SuspiciousContract(Seq<u8>),
    /// The call sends a transaction that passed the screening.
    ForwardEligible,
}

impl View for Verdict {
    type V = Screening;

    open spec fn view(&self) -> Screening {
        match *self {
            Verdict::Passthrough => Screening::Passthrough,
            Verdict::Blocked(BlockReason::InvalidRequest) => Screening::InvalidRequest,
            Verdict::Blocked(BlockReason::MalformedTransaction) => Screening::MalformedTransaction,
            Verdict::Blocked(BlockReason::SuspiciousContract(a)) => Screening::SuspiciousContract(
                a@,
            ),
            Verdict::ForwardEligible => Screening::ForwardEligible,
        }
    }
}

impl Screening {
    /// True for the verdicts that refuse the call.
    pub open spec fn is_blocked(self) -> bool {
        self is InvalidRequest || self is MalformedTransaction || self is SuspiciousContract
    }
}

/// The screening of the transaction that a call sends: the first parameter
/// is decoded; a call without one, or with one that cannot be decoded, is
/// refused; a transaction without recipient passes; one with a recipient
/// passes unless the denylist holds the recipient.
pub open spec fn screen_transaction(params: Seq<String>, denylist: Set<Seq<u8>>) -> Screening {
    if params.len() == 0 {
        Screening::MalformedTransaction
    } else {
        match recipient_bytes(params[0]@) {
            Err(_) => Screening::MalformedTransaction,
            Ok(None) => Screening::ForwardEligible,
            Ok(Some(to)) => if denylist.contains(to) {
                Screening::SuspiciousContract(to)
            } else {
                Screening::ForwardEligible
            },
        }
    }
}

/// The screening of a call: anything but protocol version 2.0 is refused,
/// any method but `eth_sendRawTransaction` passes unscreened, and a
/// transaction is screened by [`screen_transaction`].
pub open spec fn screen(req: JsonRpcRequest, denylist: Set<Seq<u8>>) -> Screening {
    if req.jsonrpc@ != "2.0"@ {
        Screening::InvalidRequest
    } else if req.method@ != "eth_sendRawTransaction"@ {
        Screening::Passthrough
    } else {
        screen_transaction(req.params@, denylist)
    }
}

/// True when the call carries a transaction that decodes to a recipient on
/// the denylist.
pub fn is_malicious_to_address(req: &JsonRpcRequest, alert_list: &AddressSet) -> (b: bool)
    ensures
        b == (screen_transaction(req.params@, alert_list@) is SuspiciousContract),
{
    match handle_eth_send_raw_transaction(req, alert_list) {
        Verdict::Blocked(BlockReason::SuspiciousContract(_)) => true,
        _ => false,
    }
}

/// Screens the transaction that a call sends.
pub fn handle_eth_send_raw_transaction(req: &JsonRpcRequest, alert_list: &AddressSet) -> (v:
    Verdict)
    ensures
        v@ == screen_transaction(req.params@, alert_list@),
{
    if req.params.len() == 0 {
        return Verdict::Blocked(BlockReason::MalformedTransaction);
    }
    let tx = match Transaction::decode(req.params[0].as_str()) {
        Err(_) => {
            return Verdict::Blocked(BlockReason::MalformedTransaction);
        },
        Ok(tx) => tx,
    };
    proof {
        if tx.to is Some {
            lemma_recipient_bytes(req.params@[0]@);
            lemma_canonical_of_twenty(hex_value(tx.to->Some_0@));
        }
    }
    let has_recipient = tx.to.is_some();
    match option_string_to_h160(tx.to) {
        None => {
            // The digits of a decoded recipient always spell its address; a
            // recipient without address would be refused, not let through.
            if has_recipient {
                Verdict::Blocked(BlockReason::MalformedTransaction)
            } else {
                Verdict::ForwardEligible
            }
        },
        Some(to) => {
            if alert_list.contains(&to) {
                Verdict::Blocked(BlockReason::SuspiciousContract(to))
            } else {
                Verdict::ForwardEligible
            }
        },
    }
}

/// Decides whether a call is refused, handed on unscreened, or handed on
/// after screening.
pub fn classify(req: &JsonRpcRequest, alert_list: &AddressSet) -> (v: Verdict)
    ensures
        v@ == screen(*req, alert_list@),
{
    if !same_text(req.jsonrpc.as_str(), "2.0") {
        Verdict::Blocked(BlockReason::InvalidRequest)
    } else if !same_text(req.method.as_str(), "eth_sendRawTransaction") {
        Verdict::Passthrough
    } else {
        handle_eth_send_raw_transaction(req, alert_list)
    }
}

/// What is to be done with a call.
#[derive(Debug, PartialEq, Eq)]
pub enum Action<'a> {
    /// The gateway answers the call itself, with this response.
    Respond(RpcResponse<'a>),
    /// The call is handed on to the backend, unchanged.
    Forward,
}

impl Screening {
    /// The class of error that a refusal is reported with. A suspicious
    /// contract has a class of its own.
    pub open spec fn error_code(self) -> RpcErrorCode {
        if self is SuspiciousContract {
            RpcErrorCode::InvalidRequest
        } else {
            RpcErrorCode::InvalidParams
        }
    }

    /// The message that a refusal is reported with. That of a suspicious
    /// contract names its address.
    pub open spec fn message(self) -> Seq<char> {
        match self {
            Screening::InvalidRequest => "invalid JSON-RPC request"@,
            Screening::SuspiciousContract(to) =>
                "Interaction with a suspicious contract. To Address: "@ + prefixed_hex(to),
            _ => "malformed transaction"@,
        }
    }
}

/// True of the response that reports an error of the given code and message
/// to the request with the given id, and of no other.
pub open spec fn is_error_response(
    response: RpcResponse,
    id: i32,
    code: int,
    message: Seq<char>,
) -> bool {
    &&& response.id == id
    &&& response.jsonrpc@ == "2.0"@
    &&& response.result is None
    &&& response.error matches Some(e) && e.code == code && e.message@ == message
}

/// True of the action that a verdict on the request with the given id asks
/// for: a refusal is answered with the error response of its code and
/// message, anything else is handed on.
pub open spec fn action_follows(action: Action, verdict: Screening, id: i32) -> bool {
    match action {
        Action::Forward => !verdict.is_blocked(),
        Action::Respond(response) => {
            &&& verdict.is_blocked()
            &&& is_error_response(response, id, verdict.error_code().code(), verdict.message())
        },
    }
}

/// The response that reports an error to the request with the given id.
pub fn error_response<'a>(id: i32, code: RpcErrorCode, message: String) -> (response:
    RpcResponse<'a>)
    ensures
        is_error_response(response, id, code.code(), message@),
        response.well_formed(),
{
    RpcResponse::new(None, Some(RpcError { code: code.to_error_code(), message })).with_id(id)
}

/// Turns a verdict on the request with the given id into what is to be done:
/// a refusal is answered with an error response, anything else is handed
/// on.
pub fn action_for<'a>(verdict: Verdict, id: i32) -> (action: Action<'a>)
    ensures
        action_follows(action, verdict@, id),
{
    match verdict {
        Verdict::Passthrough => Action::Forward,
        Verdict::ForwardEligible => Action::Forward,
        Verdict::Blocked(BlockReason::InvalidRequest) => Action::Respond(
            error_response(id, RpcErrorCode::InvalidParams, "invalid JSON-RPC request".to_owned()),
        ),
        Verdict::Blocked(BlockReason::MalformedTransaction) => Action::Respond(
            error_response(id, RpcErrorCode::InvalidParams, "malformed transaction".to_owned()),
        ),
        Verdict::Blocked(BlockReason::SuspiciousContract(to)) => {
            let mut message = "Interaction with a suspicious contract. To Address: ".to_owned();
            message.append(to.to_text().as_str());
            Action::Respond(error_response(id, RpcErrorCode::InvalidRequest, message))
        },
    }
}

/// Decides what is to be done with a call: it is classified, and the
/// verdict is turned into an action.
pub fn handle_rpc_request<'a>(req: &JsonRpcRequest, alert_list: &AddressSet) -> (action: Action<
    'a,
>)
    ensures
        action_follows(action, screen(*req, alert_list@), req.id),
{
    action_for(classify(req, alert_list), req.id)
}

/// A call that sends a transaction to a recipient on the denylist is
/// refused, whatever else it holds, and the action that follows is to
/// answer it, never to hand it on. Under protocol version 2.0 the verdict
/// names the recipient.
pub proof fn lemma_denylisted_recipient_is_blocked(
    req: JsonRpcRequest,
    denylist: Set<Seq<u8>>,
    to: Seq<u8>,
    action: Action,
)
    requires
        req.method@ == "eth_sendRawTransaction"@,
        req.params@.len() > 0,
        recipient_bytes(req.params@[0]@) == Ok::<Option<Seq<u8>>, DecodeError>(Some(to)),
        denylist.contains(to),
        action_follows(action, screen(req, denylist), req.id),
    ensures
        screen(req, denylist).is_blocked(),
        req.jsonrpc@ == "2.0"@ ==> screen(req, denylist) == Screening::SuspiciousContract(to),
        action is Respond,
{
}

/// A call of protocol version 2.0 that sends a transaction to a recipient
/// that the denylist does not hold passes the screening, and the action that
/// follows is to hand it on.
pub proof fn lemma_unlisted_recipient_is_forwarded(
    req: JsonRpcRequest,
    denylist: Set<Seq<u8>>,
    to: Seq<u8>,
    action: Action,
)
    requires
        req.jsonrpc@ == "2.0"@,
        req.method@ == "eth_sendRawTransaction"@,
        req.params@.len() > 0,
        recipient_bytes(req.params@[0]@) == Ok::<Option<Seq<u8>>, DecodeError>(Some(to)),
        !denylist.contains(to),
        action_follows(action, screen(req, denylist), req.id),
    ensures
        screen(req, denylist) == Screening::ForwardEligible,
        action is Forward,
{
}

/// A call of protocol version 2.0 that sends a transaction without
/// recipient, one that creates a contract, passes the screening whatever
/// the denylist holds.
pub proof fn lemma_contract_creation_is_forwarded(req: JsonRpcRequest, denylist: Set<Seq<u8>>)
    requires
        req.jsonrpc@ == "2.0"@,
        req.method@ == "eth_sendRawTransaction"@,
        req.params@.len() > 0,
        recipient_bytes(req.params@[0]@) == Ok::<Option<Seq<u8>>, DecodeError>(None),
    ensures
        screen(req, denylist) == Screening::ForwardEligible,
{
}

/// The verdict on a call does not depend on the case in which the
/// hexadecimal digits of its transaction are written.
pub proof fn lemma_screening_ignores_case(
    req: JsonRpcRequest,
    other: JsonRpcRequest,
    denylist: Set<Seq<u8>>,
)
    requires
        req.jsonrpc@ == other.jsonrpc@,
        req.method@ == other.method@,
        req.params@.len() == other.params@.len(),
        req.params@.len() > 0 ==> same_digits_ignoring_case(req.params@[0]@, other.params@[0]@),
    ensures
        screen(req, denylist) == screen(other, denylist),
{
    if req.params@.len() > 0 {
        lemma_recipient_ignores_case(req.params@[0]@, other.params@[0]@);
    }
}

/// A transaction is refused where a row of the denylist names its
/// recipient, in whatever case the row and the transaction write the
/// digits of the address.
pub proof fn lemma_listed_recipient_is_blocked_in_any_case(
    req: JsonRpcRequest,
    rows: Seq<Seq<Seq<char>>>,
    column: int,
    row: int,
    entry_digits: Seq<char>,
    to_digits: Seq<char>,
)
    requires
        req.jsonrpc@ == "2.0"@,
        req.method@ == "eth_sendRawTransaction"@,
        req.params@.len() > 0,
        recipient_digits(req.params@[0]@) == Ok::<Option<Seq<char>>, DecodeError>(Some(to_digits)),
        0 <= row < rows.len(),
        0 <= column < rows[row].len(),
        rows[row][column] == seq!['0', 'x'] + entry_digits,
        same_text_ignoring_case(entry_digits, to_digits),
    ensures
        screen(req, column_entries(rows, column).to_set()) == Screening::SuspiciousContract(
            hex_value(to_digits),
        ),
{
    lemma_recipient_bytes(req.params@[0]@);
    lemma_canonical_of_twenty(hex_value(to_digits));
    lemma_entry_matches_in_any_case(entry_digits, to_digits);
    assert(row_address(rows[row], column) == Some(hex_value(to_digits)));
    lemma_column_entries_are_the_row_addresses(rows, column, hex_value(to_digits));
}

} // verus!

//! JSON-RPC envelope types exchanged with clients, and the decoded
//! transaction.

use crate::base16::decode_hex;
use crate::envelope::{find_recipient, is_zero, recipient_digits, strip_prefix, DecodeError};
use vstd::prelude::*;
use vstd::string::*;

verus! {

/// A JSON-RPC call as a client sends it.
#[derive(Debug, PartialEq, Eq)]
pub struct JsonRpcRequest {
    pub jsonrpc: String,
    pub id: i32,
    pub method: String,
    pub params: Vec<String>,
}

/// An error as a JSON-RPC response carries it.
#[derive(Debug, PartialEq, Eq)]
pub struct RpcError {
    pub code: i32,
    pub message: String,
}

/// A JSON-RPC response that the gateway writes itself.
#[derive(Debug, PartialEq, Eq)]
pub struct RpcResponse<'a> {
    pub id: i32,
    pub jsonrpc: &'a str,
    pub result: Option<&'a str>,
    pub error: Option<RpcError>,
}

impl<'a> RpcResponse<'a> {
    /// A response holds either a result or an error, never both or neither.
    pub open spec fn well_formed(self) -> bool {
        self.result is Some <==> self.error is None
    }

    /// A response of protocol version 2.0 with the default id, 2.
    pub fn new(result: Option<&'a str>, error: Option<RpcError>) -> (r: Self)
        ensures
            r.id == 2,
            r.jsonrpc@ == "2.0"@,
            r.result == result,
            r.error == error,
            r.well_formed() <==> (result is Some <==> error is None),
    {
        RpcResponse { id: 2, jsonrpc: "2.0", result, error }
    }

    /// The same response, addressed to the request with the given id.
    pub fn with_id(self, id: i32) -> (r: Self)
        ensures
            r.id == id,
            r.jsonrpc == self.jsonrpc,
            r.result == self.result,
            r.error == self.error,
    {
        RpcResponse { id, jsonrpc: self.jsonrpc, result: self.result, error: self.error }
    }
}

/// The classes of JSON-RPC error the gateway reports.
#[derive(Debug, Clone, Copy, PartialEq, Eq, Structural)]
pub enum RpcErrorCode {
    InvalidRequest,
    InvalidParams,
    InternalError,
}

impl RpcErrorCode {
    /// The numeric code of this class.
    pub open spec fn code(self) -> int {
        match self {
            RpcErrorCode::InvalidRequest => -32600,
            RpcErrorCode::InvalidParams => -32602,
            RpcErrorCode::InternalError => -32603,
        }
    }

    /// The numeric code of this class, as responses carry it.
    pub fn to_error_code(&self) -> (code: i32)
        ensures
            code == self.code(),
    {
        match self {
            RpcErrorCode::InvalidRequest => -32600,
            RpcErrorCode::InvalidParams => -32602,
            RpcErrorCode::InternalError => -32603,
        }
    }
}

/// What the gateway needs of a decoded transaction: its recipient, as the
/// forty hexadecimal digits that the raw transaction holds for it. A
/// transaction that creates a contract has none.
#[derive(Debug, PartialEq, Eq)]
pub struct Transaction {
    pub to: Option<String>,
}

impl Transaction {
    /// The digits of the recipient.
    pub open spec fn to_digits(self) -> Option<Seq<char>> {
        match self.to {
            None => None,
            Some(s) => Some(s@),
        }
    }

    /// Decodes a raw signed transaction as [`Transaction::decode`] does, and
    /// reports a failure in words.
    pub fn new(raw_tx: &str) -> (r: Result<Self, String>)
        ensures
            r matches Err(text) ==> recipient_digits(raw_tx@) matches Err(e) && text@
                == e.message_text(),
            r matches Ok(tx) ==> recipient_digits(raw_tx@) == Ok::<Option<Seq<char>>, DecodeError>(
                tx.to_digits(),
            ),
    {
        match Transaction::decode(raw_tx) {
            Ok(tx) => Ok(tx),
            Err(e) => Err(e.message()),
        }
    }

    /// Decodes a raw signed transaction, written in hexadecimal with or
    /// without `0x` in front, as far as its recipient.
    pub fn decode(raw_tx: &str) -> (r: Result<Self, DecodeError>)
        ensures
            r matches Err(e) ==> recipient_digits(raw_tx@) == Err::<Option<Seq<char>>, DecodeError>(
                e,
            ),
            r matches Ok(tx) ==> recipient_digits(raw_tx@) == Ok::<Option<Seq<char>>, DecodeError>(
                tx.to_digits(),
            ),
    {
        let n = raw_tx.unicode_len();
        let body = if n >= 2 && raw_tx.get_char(0) == '0' && raw_tx.get_char(1) == 'x' {
            raw_tx.substring_char(2, n)
        } else {
            raw_tx
        };
        assert(body@ =~= strip_prefix(raw_tx@));
        let bytes = match decode_hex(body) {
            None => {
                return Err(DecodeError::InvalidHex);
            },
            Some(bytes) => bytes,
        };
        match find_recipient(bytes.as_slice())? {
            None => Ok(Transaction { to: None }),
            Some(at) => {
                if is_zero(bytes.as_slice(), at, 20) {
                    Ok(Transaction { to: None })
                } else {
                    let digits = body.substring_char(2 * at, 2 * at + 40);
                    Ok(Transaction { to: Some(digits.to_owned()) })
                }
            },
        }
    }
}

} // verus!

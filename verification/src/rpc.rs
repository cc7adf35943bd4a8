//! Errors of the request protocol.

use vstd::prelude::*;
use vstd::string::*;

use crate::json::{JsonValue, JsonView};

verus! {

/// The code of a request that cannot be served as it stands.
pub const INVALID_REQUEST_ERROR_CODE: i64 = -32600;

/// The code of a failure of the server.
pub const INTERNAL_ERROR_CODE: i64 = -32603;

/// An error that answers a request.
pub struct JSONRPCErrorError {
    pub code: i64,
    pub message: String,
    /// The members of the data that goes with the error.
    pub data: Option<Vec<(String, JsonValue)>>,
}

/// An error that answers a request, in specifications.
pub struct RpcErrorView {
    pub code: i64,
    pub message: Seq<char>,
    pub data: Option<Seq<(Seq<char>, JsonView)>>,
}

impl DeepView for JSONRPCErrorError {
    type V = RpcErrorView;

    open spec fn deep_view(&self) -> RpcErrorView {
        RpcErrorView { code: self.code, message: self.message@, data: self.data.deep_view() }
    }
}

/// The error about a request that cannot be served.
pub open spec fn invalid_request_view(message: Seq<char>) -> RpcErrorView {
    RpcErrorView { code: INVALID_REQUEST_ERROR_CODE, message, data: None }
}

/// The error about a request that cannot be served.
pub fn invalid_request(message: &str) -> (error: JSONRPCErrorError)
    ensures
        error.deep_view() == invalid_request_view(message@),
{
    JSONRPCErrorError {
        code: INVALID_REQUEST_ERROR_CODE,
        message: message.to_owned(),
        data: None,
    }
}

/// The error about a failure of the server.
pub fn internal_error(message: &str) -> (error: JSONRPCErrorError)
    ensures
        error.deep_view() == (RpcErrorView {
            code: INTERNAL_ERROR_CODE,
            message: message@,
            data: None,
        }),
{
    JSONRPCErrorError { code: INTERNAL_ERROR_CODE, message: message.to_owned(), data: None }
}

/// An invalid request has the code that JSON-RPC gives it, says what is wrong and carries no data.
pub proof fn lemma_invalid_requests_have_their_code(message: Seq<char>)
    ensures
        invalid_request_view(message).code == -32600,
        invalid_request_view(message).message == message,
        invalid_request_view(message).data is None,
        INTERNAL_ERROR_CODE == -32603,
{
}

} // verus!

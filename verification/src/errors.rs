//! The errors that the service reports.
use vstd::prelude::*;

verus! {

/// JSON-RPC code of a request that cannot be served.
pub const INVALID_REQUEST_CODE: i32 = -32600;

/// JSON-RPC code of a request with bad parameters.
pub const INVALID_PARAMS_CODE: i32 = -32602;

/// JSON-RPC code of a call that was tried and failed.
pub const CALL_EXECUTION_FAILED_CODE: i32 = -32000;

/// An error answer to a JSON-RPC request, without data beside the message.
pub struct RpcError {
    pub code: i32,
    pub message: String,
}

/// The text form of a JSON-RPC error object without data.
pub uninterp spec fn error_object_text(code: i32, message: Seq<char>) -> Seq<char>;

/// Calls `to_string` on the `ErrorObjectOwned` of jsonrpsee with this code and
/// message and no data: the text is a function of the two.
#[verifier::external_body]
fn render_error_object(code: i32, message: &String) -> (r: String)
    ensures
        r@ == error_object_text(code, message@),
{
    jsonrpsee::types::ErrorObjectOwned::owned(code, message, None::<()>).to_string()
}

impl RpcError {
    /// The error as it reads within another error's message.
    pub fn text(&self) -> (r: String)
        ensures
            r@ == error_object_text(self.code, self.message@),
    {
        render_error_object(self.code, &self.message)
    }
}

/// The error for a request that is refused for the given reason.
pub fn invalid_request(reason: &str) -> (r: RpcError)
    ensures
        r.code == INVALID_REQUEST_CODE,
        r.message@ == reason@,
{
    RpcError { code: INVALID_REQUEST_CODE, message: reason.to_string() }
}

/// What goes wrong while the upcoming leaders are looked up.
pub enum AtlasTxnSenderError {
    /// No slot has been seen yet.
    NoStartSlot,
    Custom(String),
}

/// What is wrong with a transaction.
#[derive(Clone, Copy, Debug, PartialEq, Eq, Structural)]
pub enum TransactionError {
    SignatureFailure,
    BlockhashNotFound,
}

/// What goes wrong while a transaction is sent.
pub enum TransportError {
    TransactionError(TransactionError),
    Custom(String),
}

/// What a [`TransportError`] stands for.
pub enum TransportErrorView {
    TransactionError(TransactionError),
    Custom(Seq<char>),
}

impl View for TransportError {
    type V = TransportErrorView;

    open spec fn view(&self) -> TransportErrorView {
        match self {
            TransportError::TransactionError(e) => TransportErrorView::TransactionError(*e),
            TransportError::Custom(text) => TransportErrorView::Custom(text@),
        }
    }
}

} // verus!

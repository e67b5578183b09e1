//! The requests that clients make.
use crate::batch::{batch_begun, batch_turn, BatchAction, BatchRun};
use crate::clock::Instant;
use crate::collections::texts;
use crate::encoding::{
    decode_and_deserialize, decoded_text, TransactionBinaryEncoding, UiTransactionEncoding,
};
use crate::errors::{error_object_text, invalid_request, RpcError, INVALID_REQUEST_CODE};
use crate::retry::{after_rounds, law_retry_budget};
use crate::transaction::{signature_text, transaction_in, VersionedTransaction};
use crate::transaction_store::{
    api_key_view, get_signature, signature_of, with_transaction, TransactionData,
    TransactionDataView, TransactionStore, TransactionStoreImpl,
};
use vstd::prelude::*;
use vstd::string::StringExecFns;

verus! {

/// What a client says about itself with a request.
pub struct RequestMetadata {
    pub api_key: String,
}

impl Clone for RequestMetadata {
    fn clone(&self) -> (r: Self)
        ensures
            r == *self,
    {
        RequestMetadata { api_key: self.api_key.clone() }
    }
}

/// The tag that names an API key: `none` where there is none.
pub open spec fn key_tag(api_key: Option<Seq<char>>) -> Seq<char> {
    match api_key {
        Some(key) => key,
        None => "none"@,
    }
}

/// The tag that names the API key of a request.
pub fn api_key_tag(request_metadata: &Option<RequestMetadata>) -> (r: String)
    ensures
        r@ == key_tag(api_key_view(*request_metadata)),
{
    match request_metadata {
        Some(metadata) => metadata.api_key.clone(),
        None => "none".to_string(),
    }
}

/// How a client wants its transactions to be sent.
#[derive(Clone, Copy, Debug, PartialEq, Eq, Structural)]
pub struct RpcSendTransactionConfig {
    pub skip_preflight: bool,
    pub encoding: Option<UiTransactionEncoding>,
    pub max_retries: Option<usize>,
}

/// Refuses a request that asks for a preflight check.
pub fn validate_send_transaction_params(params: &RpcSendTransactionConfig) -> (r: Result<
    (),
    RpcError,
>)
    ensures
        match r {
            Ok(()) => params.skip_preflight,
            Err(e) => !params.skip_preflight && e.code == INVALID_REQUEST_CODE && e.message@
                == "running preflight check is not supported"@,
        },
{
    if !params.skip_preflight {
        return Err(invalid_request("running preflight check is not supported"));
    }
    Ok(())
}

/// The encoding that a client names, or base58.
pub open spec fn requested_encoding(params: RpcSendTransactionConfig) -> UiTransactionEncoding {
    match params.encoding {
        Some(encoding) => encoding,
        None => UiTransactionEncoding::Base58,
    }
}

/// Why a request is refused whatever transactions it brings, if it is.
pub open spec fn params_refusal(params: RpcSendTransactionConfig) -> Option<Seq<char>> {
    if !params.skip_preflight {
        Some("running preflight check is not supported"@)
    } else if requested_encoding(params).binary() is None {
        Some(
            "unsupported encoding: "@ + requested_encoding(params).name()
                + ". Supported encodings: base58, base64"@,
        )
    } else {
        None
    }
}

/// The encoding of a request's transactions, or the error that refuses the request.
pub fn accepted_encoding(params: &RpcSendTransactionConfig) -> (r: Result<
    TransactionBinaryEncoding,
    RpcError,
>)
    ensures
        match r {
            Ok(encoding) => params_refusal(*params) is None && requested_encoding(*params).binary()
                == Some(encoding),
            Err(e) => e.code == INVALID_REQUEST_CODE && params_refusal(*params) == Some(e.message@),
        },
{
    if let Err(e) = validate_send_transaction_params(params) {
        return Err(e);
    }
    let encoding = match params.encoding {
        Some(encoding) => encoding,
        None => UiTransactionEncoding::Base58,
    };
    match encoding.into_binary_encoding() {
        Some(binary_encoding) => Ok(binary_encoding),
        None => {
            let reason = "unsupported encoding: ".to_string().concat(encoding.text()).concat(
                ". Supported encodings: base58, base64",
            );
            Err(invalid_request(reason.as_str()))
        },
    }
}

/// Why a request to send a transaction is refused, if it is.
pub open spec fn refusal(params: RpcSendTransactionConfig, txn: Seq<char>) -> Option<Seq<char>> {
    match params_refusal(params) {
        Some(reason) => Some(reason),
        None => match decoded_text(txn, requested_encoding(params).binary()->0) {
            Err(reason) => Some(error_object_text(INVALID_REQUEST_CODE, reason)),
            Ok(_) => None,
        },
    }
}

/// What becomes of a request to send a transaction.
pub enum SendDecision {
    /// A transaction with this signature is already on its way.
    Duplicate(String),
    /// The transaction is to be sent; the client is answered with the signature.
    Send(String, TransactionData),
    /// The transaction has no signature to answer with.
    MissingSigner,
}

/// What a [`SendDecision`] stands for.
pub enum SendDecisionView {
    Duplicate(Seq<char>),
    Send(Seq<char>, TransactionDataView),
    MissingSigner,
}

impl View for SendDecision {
    type V = SendDecisionView;

    open spec fn view(&self) -> SendDecisionView {
        match self {
            SendDecision::Duplicate(signature) => SendDecisionView::Duplicate(signature@),
            SendDecision::Send(signature, data) => SendDecisionView::Send(signature@, data@),
            SendDecision::MissingSigner => SendDecisionView::MissingSigner,
        }
    }
}

/// What becomes of a decoded transaction, with the given transactions on their way.
pub open spec fn decision(
    entries: Map<Seq<char>, TransactionDataView>,
    data: TransactionDataView,
) -> SendDecisionView {
    match signature_of(data) {
        None => SendDecisionView::MissingSigner,
        Some(signature) => if entries.contains_key(signature) {
            SendDecisionView::Duplicate(signature)
        } else {
            SendDecisionView::Send(signature, data)
        },
    }
}

/// How often a transaction may be retried: as often as the client asks, but not more
/// often than the service allows.
pub open spec fn granted_retries(allowed: usize, asked: Option<usize>) -> usize {
    match asked {
        Some(count) => if count <= allowed {
            count
        } else {
            allowed
        },
        None => allowed,
    }
}

/// The transaction that a request which is not refused asks to send.
pub open spec fn requested_data(
    allowed: usize,
    params: RpcSendTransactionConfig,
    txn: Seq<char>,
    api_key: Option<Seq<char>>,
    sent_at: Instant,
) -> TransactionDataView {
    let wire = decoded_text(txn, requested_encoding(params).binary()->0)->Ok_0;
    TransactionDataView {
        wire_transaction: wire,
        versioned_transaction: wire,
        sent_at,
        retry_count: 0,
        max_retries: granted_retries(allowed, params.max_retries),
        api_key,
    }
}

/// The requests that the service answers.
pub trait AtlasTxnSender {
    /// Most retries that a transaction is granted.
    spec fn retry_limit(&self) -> usize;

    /// Says that the service is up.
    fn health(&self) -> (r: String)
        ensures
            r@ == "ok"@,
    ;

    /// Decides what becomes of a request to send a transaction, with the transactions
    /// in the store on their way.
    fn send_transaction(
        &self,
        store: &TransactionStoreImpl,
        txn: String,
        params: RpcSendTransactionConfig,
        request_metadata: Option<RequestMetadata>,
        sent_at: Instant,
    ) -> (r: Result<SendDecision, RpcError>)
        ensures
            match r {
                Err(e) => e.code == INVALID_REQUEST_CODE && refusal(params, txn@) == Some(
                    e.message@,
                ),
                Ok(decided) => refusal(params, txn@) is None && decided@ == decision(
                    store.entries(),
                    requested_data(
                        self.retry_limit(),
                        params,
                        txn@,
                        api_key_view(request_metadata),
                        sent_at,
                    ),
                ),
            },
    ;

    /// Begins to answer a request to send a batch of transactions, each after the one
    /// before it was confirmed.
    fn send_transaction_batch_serial(
        &self,
        txns: Vec<String>,
        params: RpcSendTransactionConfig,
        request_metadata: Option<RequestMetadata>,
    ) -> (r: Result<(BatchRun, BatchAction), RpcError>)
        ensures
            match r {
                Err(e) => e.code == INVALID_REQUEST_CODE && params_refusal(params) == Some(
                    e.message@,
                ),
                Ok((run, action)) => {
                    &&& params_refusal(params) is None
                    &&& (run@, action@) == batch_turn(
                        batch_begun(
                            texts(txns@),
                            requested_encoding(params).binary()->0,
                            asked_retries(params),
                            api_key_view(request_metadata),
                        ),
                    )
                    &&& run@.wf()
                },
            },
    ;
}

/// How often each transaction of a batch may be retried: as often as the client asks.
pub open spec fn asked_retries(params: RpcSendTransactionConfig) -> usize {
    match params.max_retries {
        Some(count) => count,
        None => 0,
    }
}

/// The service with its settings.
pub struct AtlasTxnSenderImpl {
    pub max_txn_send_retries: usize,
}

impl AtlasTxnSenderImpl {
    /// A service that grants a transaction this many retries at most.
    pub fn new(max_txn_send_retries: usize) -> (r: Self)
        ensures
            r.max_txn_send_retries == max_txn_send_retries,
            r.retry_limit() == max_txn_send_retries,
    {
        AtlasTxnSenderImpl { max_txn_send_retries }
    }

    /// Decides what becomes of a decoded transaction, with the transactions in the
    /// store on their way.
    pub fn decide(
        &self,
        store: &TransactionStoreImpl,
        wire_transaction: Vec<u8>,
        versioned_transaction: VersionedTransaction,
        asked: Option<usize>,
        request_metadata: Option<RequestMetadata>,
        sent_at: Instant,
    ) -> (r: SendDecision)
        ensures
            r@ == decision(
                store.entries(),
                TransactionDataView {
                    wire_transaction: wire_transaction@,
                    versioned_transaction: versioned_transaction@,
                    sent_at,
                    retry_count: 0,
                    max_retries: granted_retries(self.retry_limit(), asked),
                    api_key: api_key_view(request_metadata),
                },
            ),
    {
        let max_retries = match asked {
            Some(count) => if count <= self.max_txn_send_retries {
                count
            } else {
                self.max_txn_send_retries
            },
            None => self.max_txn_send_retries,
        };
        let transaction = TransactionData {
            wire_transaction,
            versioned_transaction,
            sent_at,
            retry_count: 0,
            max_retries,
            request_metadata,
        };
        match get_signature(&transaction) {
            None => SendDecision::MissingSigner,
            Some(signature) => {
                if store.has_signature(&signature) {
                    SendDecision::Duplicate(signature)
                } else {
                    SendDecision::Send(signature, transaction)
                }
            },
        }
    }
}

impl AtlasTxnSender for AtlasTxnSenderImpl {
    open spec fn retry_limit(&self) -> usize {
        self.max_txn_send_retries
    }

    fn health(&self) -> (r: String) {
        "ok".to_string()
    }

    fn send_transaction(
        &self,
        store: &TransactionStoreImpl,
        txn: String,
        params: RpcSendTransactionConfig,
        request_metadata: Option<RequestMetadata>,
        sent_at: Instant,
    ) -> (r: Result<SendDecision, RpcError>) {
        let encoding = match accepted_encoding(&params) {
            Ok(encoding) => encoding,
            Err(e) => {
                return Err(e);
            },
        };
        match decode_and_deserialize(txn, encoding) {
            Ok((wire_transaction, versioned_transaction)) => Ok(
                self.decide(
                    store,
                    wire_transaction,
                    versioned_transaction,
                    params.max_retries,
                    request_metadata,
                    sent_at,
                ),
            ),
            Err(e) => Err(invalid_request(e.text().as_str())),
        }
    }

    fn send_transaction_batch_serial(
        &self,
        txns: Vec<String>,
        params: RpcSendTransactionConfig,
        request_metadata: Option<RequestMetadata>,
    ) -> (r: Result<(BatchRun, BatchAction), RpcError>) {
        let encoding = match accepted_encoding(&params) {
            Ok(encoding) => encoding,
            Err(e) => {
                return Err(e);
            },
        };
        let max_retries: usize = match params.max_retries {
            Some(count) => count,
            None => 0,
        };
        Ok(BatchRun::begin(txns, encoding, max_retries, request_metadata))
    }
}

/// While a transaction that was sent is on its way, another request for it is
/// answered with its signature and not sent again; once it has left the store it is
/// sent again.
pub proof fn law_second_request_is_duplicate(
    entries: Map<Seq<char>, TransactionDataView>,
    first: TransactionDataView,
    second: TransactionDataView,
    signature: Seq<char>,
)
    requires
        decision(entries, first) == SendDecisionView::Send(signature, first),
        signature_of(second) == signature_of(first),
    ensures
        decision(with_transaction(entries, first), second) == SendDecisionView::Duplicate(
            signature,
        ),
        decision(with_transaction(entries, first).remove(signature), second)
            == SendDecisionView::Send(signature, second),
{
}

/// No transaction is granted more retries than the service allows, nor more than the
/// client asks for.
pub proof fn law_retries_are_limited(allowed: usize, asked: Option<usize>)
    ensures
        granted_retries(allowed, asked) <= allowed,
        asked matches Some(count) ==> granted_retries(allowed, asked) <= count,
{
}

/// A transaction that was taken up, and neither lands nor is shed, stays in the store
/// for as many rounds of retries as it was granted retries, is sent in one round more,
/// and then leaves.
pub proof fn law_granted_retries_are_used(
    entries: Map<Seq<char>, TransactionDataView>,
    data: TransactionDataView,
    signature: Seq<char>,
    allowed: usize,
    asked: Option<usize>,
    n: nat,
)
    requires
        decision(entries, data) == SendDecisionView::Send(signature, data),
        data.retry_count == 0,
        data.max_retries == granted_retries(allowed, asked),
    ensures
        after_rounds(with_transaction(entries, data), n).contains_key(signature) <==> n
            <= granted_retries(allowed, asked),
        n > allowed ==> !after_rounds(with_transaction(entries, data), n).contains_key(signature),
{
    law_retry_budget(with_transaction(entries, data), signature, n);
}

/// What becomes of a decoded transaction: without a signature nothing; with one that is on
/// its way it is answered and not sent; else it is sent as it is. The answer is always the
/// text of its first signature.
pub proof fn law_answer_is_the_first_signature(
    entries: Map<Seq<char>, TransactionDataView>,
    data: TransactionDataView,
)
    ensures
        ({
            let signatures = transaction_in(data.versioned_transaction).signatures;
            let signature = signature_text(signatures[0]);
            &&& signatures.len() == 0 <==> decision(entries, data) is MissingSigner
            &&& signatures.len() > 0 && entries.contains_key(signature) ==> decision(entries, data)
                == SendDecisionView::Duplicate(signature)
            &&& signatures.len() > 0 && !entries.contains_key(signature) ==> decision(
                entries,
                data,
            ) == SendDecisionView::Send(signature, data)
        }),
{
}

/// The granted retries are the fewer of those that the client asks for and those that the
/// service allows; a client that does not ask gets all that are allowed. In a batch they
/// are those that the client asks for, and none if it does not ask.
pub proof fn law_granted_retries_are_the_fewer(
    allowed: usize,
    asked: Option<usize>,
    params: RpcSendTransactionConfig,
)
    ensures
        asked is None ==> granted_retries(allowed, asked) == allowed,
        asked matches Some(count) ==> granted_retries(allowed, asked) <= count,
        granted_retries(allowed, asked) <= allowed,
        granted_retries(allowed, asked) == allowed || asked == Some(
            granted_retries(allowed, asked),
        ),
        params.max_retries is None ==> asked_retries(params) == 0,
        params.max_retries matches Some(count) ==> asked_retries(params) == count,
{
}

/// A request is refused exactly if it asks for a preflight check, names an encoding that
/// does not stand for bytes, or brings a text that does not decode, in this order; the
/// reason says which.
pub proof fn law_why_requests_are_refused(params: RpcSendTransactionConfig, txn: Seq<char>)
    ensures
        ({
            let unsupported = params.encoding == Some(UiTransactionEncoding::Json)
                || params.encoding == Some(UiTransactionEncoding::JsonParsed);
            let encoding = if params.encoding == Some(UiTransactionEncoding::Base64) {
                TransactionBinaryEncoding::Base64
            } else {
                TransactionBinaryEncoding::Base58
            };
            let decoded = decoded_text(txn, encoding);
            &&& params_refusal(params) is None <==> params.skip_preflight && !unsupported
            &&& params_refusal(params) is None ==> requested_encoding(params).binary() == Some(
                encoding,
            )
            &&& params_refusal(params) is Some ==> refusal(params, txn) == params_refusal(params)
            &&& !params.skip_preflight ==> refusal(params, txn) == Some(
                "running preflight check is not supported"@,
            )
            &&& params.skip_preflight && params.encoding == Some(UiTransactionEncoding::Json)
                ==> refusal(params, txn) == Some(
                "unsupported encoding: "@ + "json"@ + ". Supported encodings: base58, base64"@,
            )
            &&& params.skip_preflight && params.encoding == Some(UiTransactionEncoding::JsonParsed)
                ==> refusal(params, txn) == Some(
                "unsupported encoding: "@ + "jsonParsed"@
                    + ". Supported encodings: base58, base64"@,
            )
            &&& params.skip_preflight && !unsupported && decoded is Ok ==> refusal(params, txn)
                is None
            &&& params.skip_preflight && !unsupported && decoded is Err ==> refusal(params, txn)
                == Some(error_object_text(INVALID_REQUEST_CODE, decoded->Err_0))
        }),
{
}

/// A request that is not refused asks to send the very transaction that its text stands
/// for, not retried yet, as often as the client asks but not more often than is allowed,
/// under the client's key and the given time.
pub proof fn law_request_is_sent_as_it_came(
    allowed: usize,
    params: RpcSendTransactionConfig,
    txn: Seq<char>,
    api_key: Option<Seq<char>>,
    sent_at: Instant,
)
    requires
        refusal(params, txn) is None,
    ensures
        ({
            let data = requested_data(allowed, params, txn, api_key, sent_at);
            let encoding = if params.encoding == Some(UiTransactionEncoding::Base64) {
                TransactionBinaryEncoding::Base64
            } else {
                TransactionBinaryEncoding::Base58
            };
            &&& decoded_text(txn, encoding) == Ok::<Seq<u8>, Seq<char>>(data.wire_transaction)
            &&& data.versioned_transaction == data.wire_transaction
            &&& data.sent_at == sent_at
            &&& data.retry_count == 0
            &&& data.api_key == api_key
            &&& data.max_retries <= allowed
            &&& params.max_retries is None ==> data.max_retries == allowed
            &&& params.max_retries matches Some(count) ==> data.max_retries <= count && (
            data.max_retries == count || data.max_retries == allowed)
        }),
{
}

} // verus!

use atlas_txn_sender::batch::{skip_reason, BatchAction, BatchEvent, BatchRun};
use atlas_txn_sender::clock::Instant;
use atlas_txn_sender::config::{AtlasTxnSenderEnv, MissingSetting};
use atlas_txn_sender::encoding::UiTransactionEncoding;
use atlas_txn_sender::errors::{
    invalid_request, RpcError, CALL_EXECUTION_FAILED_CODE, INVALID_PARAMS_CODE,
    INVALID_REQUEST_CODE,
};
use atlas_txn_sender::retry::{begin_round, end_round};
use atlas_txn_sender::rpc_server::{
    accepted_encoding, api_key_tag, validate_send_transaction_params, AtlasTxnSender,
    AtlasTxnSenderImpl, RequestMetadata, RpcSendTransactionConfig, SendDecision,
};
use atlas_txn_sender::transaction_store::{
    TransactionData, TransactionStore, TransactionStoreImpl,
};
use jsonrpsee::types::ErrorObjectOwned;
use solana_sdk::instruction::Instruction;
use solana_sdk::signature::{keypair_from_seed, Signer};
use solana_sdk::transaction::{Transaction, VersionedTransaction as SdkTransaction};

fn requested(number: u8) -> SdkTransaction {
    let payer = keypair_from_seed(&[1; 32]).unwrap();
    let program = solana_sdk::pubkey::Pubkey::from([9; 32]);
    SdkTransaction::from(Transaction::new_signed_with_payer(
        &[Instruction::new_with_bytes(program, &[9, number], vec![])],
        Some(&payer.pubkey()),
        &[&payer],
        solana_sdk::hash::Hash::from([number; 32]),
    ))
}

fn text_of(tx: &SdkTransaction) -> String {
    solana_sdk::bs58::encode(bincode::serialize(tx).unwrap()).into_string()
}

fn unsigned_text() -> String {
    let mut tx = requested(1);
    tx.signatures.clear();
    text_of(&tx)
}

fn params() -> RpcSendTransactionConfig {
    RpcSendTransactionConfig { skip_preflight: true, encoding: None, max_retries: None }
}

fn metadata() -> Option<RequestMetadata> {
    Some(RequestMetadata { api_key: "key".to_string() })
}

const NOW: Instant = Instant { nanos: 12 };

fn taken(
    limit: usize,
    store: &TransactionStoreImpl,
    txn: String,
    params: RpcSendTransactionConfig,
) -> Result<SendDecision, RpcError> {
    AtlasTxnSenderImpl::new(limit).send_transaction(store, txn, params, metadata(), NOW)
}

fn accepted(limit: usize, asked: Option<usize>) -> (String, TransactionData) {
    let params = RpcSendTransactionConfig { max_retries: asked, ..params() };
    match taken(limit, &TransactionStoreImpl::new(), text_of(&requested(1)), params) {
        Ok(SendDecision::Send(signature, transaction)) => (signature, transaction),
        _ => panic!("the transaction is to be sent"),
    }
}

fn refused(txn: String, params: RpcSendTransactionConfig) -> String {
    match taken(5, &TransactionStoreImpl::new(), txn, params) {
        Ok(_) => panic!("the request is to be refused"),
        Err(e) => {
            assert_eq!(e.code, INVALID_REQUEST_CODE);
            e.message
        }
    }
}

#[test]
fn service_is_healthy() {
    assert_eq!(AtlasTxnSenderImpl::new(5).health(), "ok");
}

#[test]
fn preflight_is_not_supported() {
    let asking = RpcSendTransactionConfig { skip_preflight: false, ..params() };
    assert!(validate_send_transaction_params(&params()).is_ok());
    assert_eq!(
        validate_send_transaction_params(&asking).err().map(|e| (e.code, e.message)),
        Some((-32600, "running preflight check is not supported".to_string()))
    );
    assert_eq!(
        refused(text_of(&requested(1)), asking),
        "running preflight check is not supported"
    );
}

#[test]
fn only_binary_encodings_are_supported() {
    let json = RpcSendTransactionConfig {
        encoding: Some(UiTransactionEncoding::JsonParsed),
        ..params()
    };
    assert_eq!(
        refused(text_of(&requested(1)), json),
        "unsupported encoding: jsonParsed. Supported encodings: base58, base64"
    );
    assert!(accepted_encoding(&params()).is_ok());
}

#[test]
fn undecodable_transactions_are_refused() {
    let base64 = RpcSendTransactionConfig {
        encoding: Some(UiTransactionEncoding::Base64),
        ..params()
    };
    let inner = ErrorObjectOwned::owned(
        -32600,
        "invalid base64 encoding: InvalidByte(0, 42)",
        None::<()>,
    );
    assert_eq!(refused("*".to_string(), base64), inner.to_string());
    assert_ne!(inner.to_string(), "invalid base64 encoding: InvalidByte(0, 42)");
}

#[test]
fn accepted_transactions_are_sent() {
    let tx = requested(1);
    let (signature, transaction) = accepted(5, Some(3));
    assert_eq!(signature, tx.signatures[0].to_string());
    assert_eq!(transaction.wire_transaction, bincode::serialize(&tx).unwrap());
    assert_eq!(transaction.sent_at, NOW);
    assert_eq!(transaction.retry_count, 0);
    assert_eq!(api_key_tag(&transaction.request_metadata), "key");
    assert_eq!(api_key_tag(&None), "none");
}

#[test]
fn retries_are_limited() {
    assert_eq!(accepted(5, Some(3)).1.max_retries, 3);
    assert_eq!(accepted(5, Some(7)).1.max_retries, 5);
    assert_eq!(accepted(5, None).1.max_retries, 5);
    assert_eq!(accepted(5, Some(0)).1.max_retries, 0);
}

#[test]
fn granted_retries_are_used() {
    let mut store = TransactionStoreImpl::new();
    let (signature, transaction) = accepted(5, Some(1));
    store.add_transaction(transaction);
    let mut rounds: usize = 0;
    while store.has_signature(&signature) {
        let round = begin_round(&mut store);
        assert_eq!(round.wire_transactions.len(), 1);
        end_round(&mut store, &round);
        rounds += 1;
    }
    assert_eq!(rounds, 2);
}

#[test]
fn second_request_is_a_duplicate() {
    let mut store = TransactionStoreImpl::new();
    let (signature, transaction) = accepted(5, None);
    store.add_transaction(transaction);
    match taken(5, &store, text_of(&requested(1)), params()) {
        Ok(SendDecision::Duplicate(known)) => assert_eq!(known, signature),
        _ => panic!("the transaction is on its way"),
    }
    store.remove_transaction(signature);
    assert!(matches!(
        taken(5, &store, text_of(&requested(1)), params()),
        Ok(SendDecision::Send(_, _))
    ));
}

#[test]
fn unsigned_requests_have_no_answer() {
    assert!(matches!(
        taken(5, &TransactionStoreImpl::new(), unsigned_text(), params()),
        Ok(SendDecision::MissingSigner)
    ));
}

#[test]
fn blockhashes_expire() {
    assert_eq!(skip_reason(None, None), None);
    assert_eq!(skip_reason(None, Some(1)), None);
    assert_eq!(skip_reason(Some(1), None), Some("blockhash not found in cache"));
    assert_eq!(skip_reason(Some(1_150), Some(1_000)), None);
    assert_eq!(
        skip_reason(Some(1_151), Some(1_000)),
        Some("blockhash expired (current_slot - blockhash_slot > 150)")
    );
    assert_eq!(skip_reason(Some(1_000), Some(2_000)), None);
}

fn batch(txns: Vec<String>) -> (BatchRun, BatchAction) {
    let params = RpcSendTransactionConfig { max_retries: Some(3), ..params() };
    match AtlasTxnSenderImpl::new(1).send_transaction_batch_serial(txns, params, metadata()) {
        Ok(begun) => begun,
        Err(e) => panic!("{}", e.message),
    }
}

fn slots(current_slot: Option<u64>, blockhash_slot: Option<u64>) -> BatchEvent {
    BatchEvent::Slots { current_slot, blockhash_slot, now: NOW }
}

#[test]
fn batches_confirm_or_skip_each_transaction() {
    let txns = (1..4).map(|number| text_of(&requested(number))).collect();
    let (run, action) = batch(txns);
    match action {
        BatchAction::AskSlots(blockhash) => {
            assert_eq!(blockhash, solana_sdk::hash::Hash::from([1; 32]).to_string())
        }
        _ => panic!("the slots are asked for"),
    }
    let (run, action) = run.step(slots(Some(100), Some(90)));
    match action {
        BatchAction::Send(transaction) => {
            assert_eq!(
                transaction.wire_transaction,
                bincode::serialize(&requested(1)).unwrap()
            );
            assert_eq!(transaction.max_retries, 3);
            assert_eq!(transaction.sent_at, NOW);
            assert_eq!(api_key_tag(&transaction.request_metadata), "key");
        }
        _ => panic!("the transaction is sent"),
    }
    let (run, action) = run.step(slots(None, None));
    assert!(matches!(action, BatchAction::Idle));
    let (run, action) = run.step(BatchEvent::Confirmation(Some(1_700_000_000)));
    assert!(matches!(action, BatchAction::AskSlots(_)));
    let (run, action) = run.step(slots(Some(300), Some(149)));
    assert!(matches!(action, BatchAction::AskSlots(_)));
    let (run, action) = run.step(slots(None, None));
    assert!(matches!(action, BatchAction::Send(_)));
    let (run, action) = run.step(BatchEvent::Confirmation(Some(1_700_000_001)));
    match action {
        BatchAction::Finished(Ok(signatures)) => assert_eq!(
            signatures,
            vec![
                requested(1).signatures[0].to_string(),
                requested(3).signatures[0].to_string(),
            ]
        ),
        _ => panic!("the batch is over"),
    }
    assert_eq!(
        run.skipped(),
        &vec![(
            requested(2).signatures[0].to_string(),
            "blockhash expired (current_slot - blockhash_slot > 150)".to_string(),
        )]
    );
    let (_, action) = run.step(BatchEvent::Confirmation(None));
    assert!(matches!(action, BatchAction::Idle));
}

#[test]
fn batches_stop_at_an_undecodable_transaction() {
    let (run, _) =
        batch(vec![text_of(&requested(1)), text_of(&requested(2)), "0".to_string()]);
    let (run, _) = run.step(slots(Some(9), Some(8)));
    let (run, _) = run.step(BatchEvent::Confirmation(Some(5)));
    let (_, action) = run.step(slots(Some(9), None));
    let inner = ErrorObjectOwned::owned(
        -32600,
        "invalid base58 encoding: InvalidCharacter { character: '0', index: 0 }",
        None::<()>,
    );
    match action {
        BatchAction::Finished(Err(e)) => {
            assert_eq!(e.code, INVALID_PARAMS_CODE);
            assert_eq!(
                e.message,
                format!(
                    "Failed to decode transaction at index 2: {}. Successful signatures so far: [\"{}\"], Skipped signatures: [(\"{}\", \"blockhash not found in cache\")]",
                    inner,
                    requested(1).signatures[0],
                    requested(2).signatures[0]
                )
            );
        }
        _ => panic!("the batch fails"),
    }
}

#[test]
fn batches_stop_at_an_unconfirmed_transaction() {
    let (run, _) = batch(vec![text_of(&requested(1)), text_of(&requested(2))]);
    let (run, _) = run.step(slots(Some(9), Some(8)));
    let (_, action) = run.step(BatchEvent::Confirmation(None));
    match action {
        BatchAction::Finished(Err(e)) => {
            assert_eq!(e.code, CALL_EXECUTION_FAILED_CODE);
            assert_eq!(
                e.message,
                format!(
                    "Transaction at index 0 (signature: {}) failed to confirm within timeout. Successful signatures: [], Skipped signatures: []",
                    requested(1).signatures[0]
                )
            );
        }
        _ => panic!("the batch fails"),
    }
}

#[test]
fn empty_batches_succeed() {
    match batch(vec![]).1 {
        BatchAction::Finished(Ok(signatures)) => assert!(signatures.is_empty()),
        _ => panic!("nothing is left to do"),
    }
}

#[test]
fn batches_cannot_answer_for_unsigned_transactions() {
    assert!(matches!(batch(vec![unsigned_text()]).1, BatchAction::MissingSigner));
}

#[test]
fn batches_are_refused_like_single_requests() {
    let asking = RpcSendTransactionConfig { skip_preflight: false, ..params() };
    match AtlasTxnSenderImpl::new(1).send_transaction_batch_serial(vec![], asking, None) {
        Ok(_) => panic!("preflight checks are not supported"),
        Err(e) => assert_eq!(e.message, "running preflight check is not supported"),
    }
}

#[test]
fn error_codes_are_those_of_the_protocol() {
    assert_eq!(INVALID_PARAMS_CODE, jsonrpsee::types::error::INVALID_PARAMS_CODE);
    assert_eq!(INVALID_REQUEST_CODE, jsonrpsee::types::error::INVALID_REQUEST_CODE);
    assert_eq!(CALL_EXECUTION_FAILED_CODE, jsonrpsee::types::error::CALL_EXECUTION_FAILED_CODE);
    let error = invalid_request("reason");
    assert_eq!((error.code, error.message), (-32600, "reason".to_string()));
}

fn bare_env() -> AtlasTxnSenderEnv {
    AtlasTxnSenderEnv {
        identity_keypair_file: None,
        grpc_url: Some("grpc".to_string()),
        rpc_url: Some("rpc".to_string()),
        port: None,
        tpu_connection_pool_size: None,
        x_token: None,
        num_leaders: None,
        leader_offset: None,
        txn_sender_threads: None,
        max_txn_send_retries: None,
        txn_send_retry_interval: None,
        max_retry_queue_size: None,
    }
}

#[test]
fn settings_have_defaults() {
    let settings = match bare_env().settings() {
        Ok(settings) => settings,
        Err(missing) => panic!("{:?}", missing),
    };
    assert_eq!(settings.grpc_url, "grpc");
    assert_eq!(settings.rpc_url, "rpc");
    assert_eq!(settings.port, 4040);
    assert_eq!(settings.tpu_connection_pool_size, 4);
    assert_eq!(settings.num_leaders, 2);
    assert_eq!(settings.leader_offset, 0);
    assert_eq!(settings.txn_sender_threads, 4);
    assert_eq!(settings.max_txn_send_retries, 5);
    assert_eq!(settings.txn_send_retry_interval_seconds, 2);
    assert_eq!(settings.max_retry_queue_size, None);
}

#[test]
fn settings_follow_the_environment() {
    let env = AtlasTxnSenderEnv {
        port: Some(1),
        num_leaders: Some(8),
        leader_offset: Some(-1),
        max_retry_queue_size: Some(9),
        x_token: Some("token".to_string()),
        ..bare_env()
    };
    let settings = match env.settings() {
        Ok(settings) => settings,
        Err(missing) => panic!("{:?}", missing),
    };
    assert_eq!(settings.port, 1);
    assert_eq!(settings.num_leaders, 8);
    assert_eq!(settings.leader_offset, -1);
    assert_eq!(settings.max_retry_queue_size, Some(9));
    assert_eq!(settings.x_token, Some("token".to_string()));
}

#[test]
fn urls_must_be_set() {
    let env = AtlasTxnSenderEnv { grpc_url: None, rpc_url: None, ..bare_env() };
    assert_eq!(env.settings().err(), Some(MissingSetting::GrpcUrl));
    let env = AtlasTxnSenderEnv { rpc_url: None, ..bare_env() };
    assert_eq!(env.settings().err(), Some(MissingSetting::RpcUrl));
}

use atlas_txn_sender::bundle::{BundleAction, BundleEvent, BundleRun};
use atlas_txn_sender::clock::Instant;
use atlas_txn_sender::errors::{TransactionError, TransportError};
use atlas_txn_sender::leader_tracker::ContactInfo;
use atlas_txn_sender::rpc_server::RequestMetadata;
use atlas_txn_sender::send_run::{
    addressed_leaders, deliveries, Answers, SendAction, SendEvent, SendRun,
};
use atlas_txn_sender::transaction::{Signature, VersionedTransaction};
use atlas_txn_sender::transaction_store::{
    TransactionData, TransactionStore, TransactionStoreImpl,
};
use atlas_txn_sender::txn_sender::{TxnSender, TxnSenderImpl};
use solana_sdk::compute_budget::ComputeBudgetInstruction;
use solana_sdk::instruction::Instruction;
use solana_sdk::signature::{keypair_from_seed, Signer};
use solana_sdk::transaction::{Transaction, VersionedTransaction as SdkTransaction};

const NO: Answers = Answers { confirmed: false, finalized: false };
const CONFIRMED: Answers = Answers { confirmed: true, finalized: false };
const FINALIZED: Answers = Answers { confirmed: false, finalized: true };

/// A signed transaction that differs by its number.
fn numbered(number: u8) -> SdkTransaction {
    let payer = keypair_from_seed(&[1; 32]).unwrap();
    let program = solana_sdk::pubkey::Pubkey::from([9; 32]);
    SdkTransaction::from(Transaction::new_signed_with_payer(
        &[
            ComputeBudgetInstruction::set_compute_unit_price(1_000_000),
            Instruction::new_with_bytes(program, &[9, number], vec![]),
        ],
        Some(&payer.pubkey()),
        &[&payer],
        solana_sdk::hash::Hash::from([number; 32]),
    ))
}

fn with_bad_signature() -> SdkTransaction {
    let mut tx = numbered(1);
    tx.signatures[0] = numbered(2).signatures[0];
    tx
}

fn unsigned() -> SdkTransaction {
    let mut tx = numbered(1);
    tx.signatures.clear();
    tx
}

fn outgoing(tx: &SdkTransaction) -> TransactionData {
    let wire_transaction = bincode::serialize(tx).unwrap();
    let versioned_transaction = match VersionedTransaction::decode(&wire_transaction) {
        Ok(tx) => tx,
        Err(text) => panic!("{}", text),
    };
    TransactionData {
        wire_transaction,
        versioned_transaction,
        sent_at: Instant { nanos: 5 },
        retry_count: 0,
        max_retries: 4,
        request_metadata: None,
    }
}

fn leader(name: &str, address: Option<&str>) -> ContactInfo {
    ContactInfo { pubkey: name.to_string(), tpu_quic: address.map(|a| a.to_string()) }
}

fn three_leaders() -> Vec<ContactInfo> {
    vec![leader("a", Some("1:1")), leader("b", None), leader("c", Some("3:3"))]
}

fn begun(tx: &SdkTransaction, leaders: Vec<ContactInfo>) -> (SendRun, SendAction) {
    match SendRun::begin(outgoing(tx), leaders) {
        Some(begun) => begun,
        None => panic!("the transaction has a signature"),
    }
}

/// Plays a run with the same answers at every turn; gives the names and numbers of the
/// leaders that were sent to, and the result.
fn play(
    tx: &SdkTransaction,
    leaders: Vec<ContactInfo>,
    committed: Answers,
    valid: Answers,
) -> (Vec<(String, usize)>, Result<Signature, TransportError>) {
    let mut sent: Vec<(String, usize)> = vec![];
    let (mut run, mut action) = begun(tx, leaders);
    loop {
        let event = match action {
            SendAction::AskCommitted(signature) => {
                assert_eq!(signature.text(), tx.signatures[0].to_string());
                SendEvent::Committed(committed)
            }
            SendAction::AskBlockhash(blockhash) => {
                assert_eq!(blockhash.text(), tx.message.recent_blockhash().to_string());
                SendEvent::Blockhash(valid)
            }
            SendAction::Send { wire_transaction, leader, leader_num } => {
                assert_eq!(wire_transaction, bincode::serialize(tx).unwrap());
                sent.push((leader.pubkey, leader_num));
                SendEvent::Sent
            }
            SendAction::Finished(result) => return (sent, result),
            SendAction::Idle => panic!("the event was waited for"),
        };
        let (then, next) = run.step(event);
        run = then;
        action = next;
    }
}

fn custom_text(error: TransportError) -> String {
    match error {
        TransportError::Custom(text) => text,
        TransportError::TransactionError(e) => format!("{:?}", e),
    }
}

fn outcome(result: Result<Signature, TransportError>) -> String {
    match result {
        Ok(signature) => signature.text(),
        Err(e) => custom_text(e),
    }
}

#[test]
fn uncommitted_transactions_are_sent_to_every_addressed_leader() {
    for valid in [CONFIRMED, FINALIZED] {
        let (sent, result) = play(&numbered(1), three_leaders(), NO, valid);
        assert_eq!(sent, vec![("a".to_string(), 0), ("c".to_string(), 1)]);
        assert_eq!(outcome(result), "Send Transaction failed");
    }
}

#[test]
fn committed_transactions_succeed_at_once() {
    let tx = numbered(1);
    for committed in [CONFIRMED, FINALIZED] {
        let (sent, result) = play(&tx, three_leaders(), committed, CONFIRMED);
        assert!(sent.is_empty());
        assert_eq!(outcome(result), tx.signatures[0].to_string());
    }
}

#[test]
fn unknown_blockhashes_fail_the_verification() {
    let (sent, result) = play(&numbered(1), three_leaders(), NO, NO);
    assert!(sent.is_empty());
    assert_eq!(outcome(result), "Transaction failed on-chain verification");
}

#[test]
fn bad_signatures_are_not_sent() {
    let (sent, result) = play(&with_bad_signature(), three_leaders(), NO, CONFIRMED);
    assert!(sent.is_empty());
    assert_eq!(outcome(result), "SignatureFailure");
    let (sent, result) = play(&with_bad_signature(), three_leaders(), CONFIRMED, CONFIRMED);
    assert!(sent.is_empty());
    assert_eq!(outcome(result), with_bad_signature().signatures[0].to_string());
}

#[test]
fn nothing_is_sent_without_leaders() {
    let (sent, result) = play(&numbered(1), vec![], NO, CONFIRMED);
    assert!(sent.is_empty());
    assert_eq!(outcome(result), "Send Transaction failed");
}

#[test]
fn sending_stops_when_the_transaction_is_committed() {
    let tx = numbered(1);
    let (run, action) = begun(&tx, three_leaders());
    assert!(matches!(action, SendAction::AskCommitted(_)));
    let (run, action) = run.step(SendEvent::Committed(NO));
    assert!(matches!(action, SendAction::AskBlockhash(_)));
    let (run, action) = run.step(SendEvent::Blockhash(CONFIRMED));
    assert!(matches!(action, SendAction::Send { leader_num: 0, .. }));
    let (run, action) = run.step(SendEvent::Committed(CONFIRMED));
    assert!(matches!(action, SendAction::Idle));
    let (run, action) = run.step(SendEvent::Sent);
    assert!(matches!(action, SendAction::AskCommitted(_)));
    let (run, action) = run.step(SendEvent::Committed(FINALIZED));
    match action {
        SendAction::Finished(result) => {
            assert_eq!(outcome(result), tx.signatures[0].to_string())
        }
        _ => panic!("the run is over"),
    }
    let (_, action) = run.step(SendEvent::Committed(FINALIZED));
    assert!(matches!(action, SendAction::Idle));
}

#[test]
fn unsigned_transactions_have_no_run() {
    assert!(SendRun::begin(outgoing(&unsigned()), three_leaders()).is_none());
}

#[test]
fn addressed_leaders_keep_their_order() {
    let names: Vec<String> =
        addressed_leaders(&three_leaders()).into_iter().map(|l| l.pubkey).collect();
    assert_eq!(names, vec!["a".to_string(), "c".to_string()]);
}

#[test]
fn rounds_send_every_transaction_to_every_addressed_leader() {
    let mut store = TransactionStoreImpl::new();
    let sender = TxnSenderImpl::new(2, None);
    for number in 1..4 {
        let mut transaction = outgoing(&numbered(number));
        transaction.retry_count = number as usize + 1;
        store.add_transaction(transaction);
    }
    let pass = sender.retry_transactions(&mut store);
    let mut pairs: Vec<(Vec<u8>, String, usize)> = vec![];
    for wire in pass.round.wire_transactions.iter() {
        for delivery in deliveries(wire, &three_leaders()) {
            pairs.push((
                delivery.wire_transaction,
                delivery.leader.pubkey,
                delivery.leader_num,
            ));
        }
    }
    let mut expected: Vec<(Vec<u8>, String, usize)> = vec![];
    for number in 1..4 {
        let wire = bincode::serialize(&numbered(number)).unwrap();
        expected.push((wire.clone(), "a".to_string(), 0));
        expected.push((wire, "c".to_string(), 1));
    }
    pairs.sort();
    expected.sort();
    assert_eq!(pairs, expected);
    assert!(deliveries(&vec![1], &vec![leader("b", None)]).is_empty());
}

#[test]
fn verdicts_need_one_level() {
    let verdict = TxnSenderImpl::transaction_confirmed_or_finalized_and_successful;
    assert!(!verdict(NO));
    assert!(verdict(CONFIRMED));
    assert!(verdict(FINALIZED));
    assert!(verdict(Answers { confirmed: true, finalized: true }));
}

#[test]
fn preflight_checks_signatures_and_blockhash() {
    let good = outgoing(&numbered(1)).versioned_transaction;
    let bad = outgoing(&with_bad_signature()).versioned_transaction;
    assert_eq!(TxnSenderImpl::preflight_signatures(&good), Ok(()));
    assert_eq!(
        TxnSenderImpl::preflight_signatures(&bad),
        Err(TransactionError::SignatureFailure)
    );
    assert_eq!(TxnSenderImpl::preflight_blockhash(CONFIRMED), Ok(()));
    assert_eq!(TxnSenderImpl::preflight_blockhash(FINALIZED), Ok(()));
    assert_eq!(
        TxnSenderImpl::preflight_blockhash(NO),
        Err(TransactionError::BlockhashNotFound)
    );
}

/// Answers that a bundle gets, and what came of it: the actions in short, and the
/// result.
fn play_bundle(
    bundle: Vec<TransactionData>,
    committed: Answers,
    valid: Vec<Answers>,
) -> (Vec<String>, String) {
    let mut log: Vec<String> = vec![];
    let mut valid = valid.into_iter();
    let sender = TxnSenderImpl::new(2, None);
    let (mut run, mut action) = sender.send_transaction_bundle(bundle);
    loop {
        let event = match action {
            BundleAction::AskCommitted(_) => BundleEvent::Committed(committed),
            BundleAction::AskBlockhash(digest) => {
                log.push(format!("blockhash {}", digest.bytes[0]));
                BundleEvent::Blockhash(valid.next().unwrap())
            }
            BundleAction::Begin(transaction) => {
                log.push(format!("begin {}", transaction.wire_transaction.len()));
                BundleEvent::Leaders(three_leaders())
            }
            BundleAction::Send { leader, leader_num, .. } => {
                log.push(format!("send {} {}", leader.pubkey, leader_num));
                BundleEvent::Sent
            }
            BundleAction::MissingSigner => return (log, "missing signer".to_string()),
            BundleAction::Finished(Ok(signatures)) => {
                let texts: Vec<String> = signatures.iter().map(|s| s.text()).collect();
                return (log, texts.join(" "));
            }
            BundleAction::Finished(Err(e)) => return (log, custom_text(e)),
            BundleAction::Idle => panic!("the event was waited for"),
        };
        let (then, next) = run.step(event);
        run = then;
        action = next;
    }
}

#[test]
fn bundles_answer_with_all_signatures_in_order() {
    let bundle = vec![outgoing(&numbered(1)), outgoing(&numbered(2)), outgoing(&numbered(3))];
    let size = bundle[0].wire_transaction.len();
    let (log, result) = play_bundle(bundle, CONFIRMED, vec![CONFIRMED, FINALIZED, CONFIRMED]);
    let begin = format!("begin {}", size);
    assert_eq!(
        log,
        vec![
            "blockhash 1".to_string(),
            begin.clone(),
            "blockhash 2".to_string(),
            begin.clone(),
            "blockhash 3".to_string(),
            begin,
        ]
    );
    let expected: Vec<String> =
        (1..4).map(|number| numbered(number).signatures[0].to_string()).collect();
    assert_eq!(result, expected.join(" "));
}

#[test]
fn empty_bundles_succeed() {
    let (log, result) = play_bundle(vec![], NO, vec![]);
    assert!(log.is_empty());
    assert_eq!(result, "");
}

#[test]
fn bundles_stop_at_an_unknown_blockhash() {
    let bundle = vec![outgoing(&numbered(1)), outgoing(&numbered(2))];
    let (log, result) = play_bundle(bundle, CONFIRMED, vec![CONFIRMED, NO]);
    assert_eq!(log.len(), 3);
    assert_eq!(result, "BlockhashNotFound");
}

#[test]
fn bundles_stop_at_a_bad_signature() {
    let (log, result) = play_bundle(vec![outgoing(&with_bad_signature())], NO, vec![]);
    assert!(log.is_empty());
    assert_eq!(result, "SignatureFailure");
}

#[test]
fn bundles_stop_when_sending_fails() {
    let bundle = vec![outgoing(&numbered(1)), outgoing(&numbered(2))];
    let begin = format!("begin {}", bundle[0].wire_transaction.len());
    let (log, result) =
        play_bundle(bundle, NO, vec![CONFIRMED, FINALIZED, CONFIRMED, CONFIRMED]);
    let asked = "blockhash 1".to_string();
    assert_eq!(
        log,
        vec![
            asked.clone(),
            begin,
            asked.clone(),
            "send a 0".to_string(),
            asked.clone(),
            asked,
            "send c 1".to_string(),
        ]
    );
    assert_eq!(result, "Send Transaction failed");
}

#[test]
fn bundles_need_the_previous_transaction_committed() {
    let bundle = vec![outgoing(&numbered(1)), outgoing(&numbered(2))];
    let (run, action) = BundleRun::begin(bundle);
    assert!(matches!(action, BundleAction::AskBlockhash(_)));
    let (run, action) = run.step(BundleEvent::Blockhash(CONFIRMED));
    assert!(matches!(action, BundleAction::Begin(_)));
    let (run, action) = run.step(BundleEvent::Sent);
    assert!(matches!(action, BundleAction::Idle));
    let (run, action) = run.step(BundleEvent::Leaders(three_leaders()));
    assert!(matches!(action, BundleAction::AskCommitted(_)));
    let (run, action) = run.step(BundleEvent::Committed(CONFIRMED));
    match &action {
        BundleAction::AskCommitted(signature) => {
            assert_eq!(signature.text(), numbered(1).signatures[0].to_string())
        }
        _ => panic!("the previous transaction is asked about"),
    }
    let (run, action) = run.step(BundleEvent::Committed(NO));
    match action {
        BundleAction::Finished(Err(e)) => assert_eq!(
            custom_text(e),
            "Previous transaction is not confirmed/finalized and successful"
        ),
        _ => panic!("the bundle fails"),
    }
    let (_, action) = run.step(BundleEvent::Committed(CONFIRMED));
    assert!(matches!(action, BundleAction::Idle));
}

#[test]
fn bundles_cannot_send_unsigned_transactions() {
    let (_, result) = play_bundle(vec![outgoing(&unsigned())], NO, vec![CONFIRMED]);
    assert_eq!(result, "missing signer");
}

#[test]
fn sending_tracks_the_transaction() {
    let mut store = TransactionStoreImpl::new();
    let sender = TxnSenderImpl::new(2, Some(10));
    let tx = numbered(1);
    let mut transaction = outgoing(&tx);
    transaction.request_metadata = Some(RequestMetadata { api_key: "key".to_string() });
    let start = sender.send_transaction(&mut store, transaction, three_leaders());
    let signature = tx.signatures[0].to_string();
    let tracking = start.tracking.unwrap();
    assert_eq!(tracking.signature, signature);
    assert_eq!(tracking.api_key, "key");
    assert_eq!(tracking.sent_at, Instant { nanos: 5 });
    assert!(tracking.priority_fees_enabled);
    assert_eq!(tracking.details.fee, 200_000);
    assert_eq!(tracking.details.priority, 1_000_000);
    assert!(matches!(start.run, Some((_, SendAction::AskCommitted(_)))));
    assert!(store.has_signature(&signature));
    let pass = sender.retry_transactions(&mut store);
    assert_eq!(pass.queue_length, 1);
    assert_eq!(pass.records_dropped, None);
    assert!(pass.shed.is_empty());
    assert_eq!(pass.round.wire_transactions, vec![bincode::serialize(&tx).unwrap()]);
    let report = sender.finish_tracking(&mut store, &tracking, Some(1_700_000_000));
    assert!(report.landed);
    assert_eq!(report.retries_tag, "1_2");
    assert_eq!(report.max_retries_tag, "1_5");
    assert!(!store.has_signature(&signature));
    let late = sender.finish_tracking(&mut store, &tracking, None);
    assert!(!late.landed);
    assert_eq!(late.retries_tag, "none");
    assert_eq!(late.max_retries_tag, "none");
}

#[test]
fn unsigned_transactions_are_not_tracked() {
    let mut store = TransactionStoreImpl::new();
    let sender = TxnSenderImpl::new(2, None);
    assert!(sender.track_transaction(&mut store, &outgoing(&unsigned())).is_none());
    let start = sender.send_transaction(&mut store, outgoing(&unsigned()), three_leaders());
    assert!(start.tracking.is_none());
    assert!(start.run.is_none());
    assert_eq!(store.queue_length(), 0);
}

#[test]
fn anonymous_transactions_are_tagged_none() {
    let mut store = TransactionStoreImpl::new();
    let sender = TxnSenderImpl::new(2, None);
    let tracking = sender.track_transaction(&mut store, &outgoing(&numbered(1))).unwrap();
    assert_eq!(tracking.api_key, "none");
}

#[test]
fn long_queues_are_shed_before_a_round() {
    let mut store = TransactionStoreImpl::new();
    let sender = TxnSenderImpl::new(2, Some(1));
    assert_eq!(sender.txn_send_retry_interval_seconds, 2);
    for number in 1..5 {
        let mut transaction = outgoing(&numbered(number));
        transaction.retry_count = number as usize - 1;
        store.add_transaction(transaction);
    }
    let pass = sender.retry_transactions(&mut store);
    assert_eq!(pass.queue_length, 4);
    assert_eq!(pass.records_dropped, Some(3));
    assert_eq!(pass.shed.len(), 3);
    assert_eq!(pass.round.wire_transactions.len(), 1);
    assert_eq!(store.queue_length(), 1);
    let kept = numbered(1).signatures[0].to_string();
    assert_eq!(store.get_transaction(&kept).unwrap().retry_count, 1);
}

use atlas_txn_sender::clock::Instant;
use atlas_txn_sender::retry::{
    after_attempt, after_retry_attempt, begin_round, begin_round_along, end_round, remove_all, shed_transactions,
    signatures_to_shed, AttemptOutcome, AttemptReport, SEND_TXN_RETRIES,
};
use atlas_txn_sender::rpc_server::RequestMetadata;
use atlas_txn_sender::transaction::VersionedTransaction;
use atlas_txn_sender::transaction_store::{
    get_signature, TransactionData, TransactionStore, TransactionStoreImpl,
};
use solana_sdk::signature::{keypair_from_seed, Signer};
use solana_sdk::system_instruction;
use solana_sdk::transaction::{Transaction, VersionedTransaction as SdkTransaction};

/// A signed transfer of so many lamports, and the text of its signature.
fn stored_transfer(lamports: u64) -> (TransactionData, String) {
    let payer = keypair_from_seed(&[1; 32]).unwrap();
    let tx = SdkTransaction::from(Transaction::new_signed_with_payer(
        &[system_instruction::transfer(&payer.pubkey(), &payer.pubkey(), lamports)],
        Some(&payer.pubkey()),
        &[&payer],
        solana_sdk::hash::Hash::from([7; 32]),
    ));
    (stored(&tx), tx.signatures[0].to_string())
}

fn stored(tx: &SdkTransaction) -> TransactionData {
    let wire_transaction = bincode::serialize(tx).unwrap();
    let versioned_transaction = match VersionedTransaction::decode(&wire_transaction) {
        Ok(tx) => tx,
        Err(text) => panic!("{}", text),
    };
    TransactionData {
        wire_transaction,
        versioned_transaction,
        sent_at: Instant { nanos: 5 },
        retry_count: 0,
        max_retries: 2,
        request_metadata: Some(RequestMetadata { api_key: "key".to_string() }),
    }
}

fn sorted(mut signatures: Vec<String>) -> Vec<String> {
    signatures.sort();
    signatures
}

#[test]
fn transactions_are_stored_under_their_signature() {
    let mut store = TransactionStoreImpl::new();
    assert_eq!(store.queue_length(), 0);
    let (transaction, signature) = stored_transfer(1);
    assert_eq!(get_signature(&transaction), Some(signature.clone()));
    assert!(!store.has_signature(&signature));
    let wire = transaction.wire_transaction.clone();
    store.add_transaction(transaction);
    assert!(store.has_signature(&signature));
    assert_eq!(store.queue_length(), 1);
    assert_eq!(store.get_signatures(), vec![signature.clone()]);
    let copy = store.get_transaction(&signature).unwrap();
    assert_eq!(copy.wire_transaction, wire);
    assert_eq!(copy.sent_at, Instant { nanos: 5 });
    assert_eq!(copy.request_metadata.unwrap().api_key, "key");
}

#[test]
fn transactions_without_signatures_are_not_stored() {
    let payer = keypair_from_seed(&[1; 32]).unwrap();
    let mut tx = SdkTransaction::from(Transaction::new_signed_with_payer(
        &[],
        Some(&payer.pubkey()),
        &[&payer],
        solana_sdk::hash::Hash::from([7; 32]),
    ));
    tx.signatures.clear();
    let mut store = TransactionStoreImpl::new();
    let transaction = stored(&tx);
    assert_eq!(get_signature(&transaction), None);
    store.add_transaction(transaction);
    assert_eq!(store.queue_length(), 0);
}

#[test]
fn first_of_several_transactions_stays() {
    let mut store = TransactionStoreImpl::new();
    let (first, signature) = stored_transfer(1);
    let (mut second, _) = stored_transfer(1);
    second.max_retries = 77;
    store.add_transaction(first);
    store.add_transaction(second);
    assert_eq!(store.queue_length(), 1);
    assert_eq!(store.get_transaction(&signature).unwrap().max_retries, 2);
}

#[test]
fn removing_undoes_adding() {
    let mut store = TransactionStoreImpl::new();
    let (other, kept) = stored_transfer(2);
    store.add_transaction(other);
    let (transaction, signature) = stored_transfer(1);
    store.add_transaction(transaction);
    assert_eq!(
        sorted(store.get_signatures()),
        sorted(vec![kept.clone(), signature.clone()])
    );
    let removed = store.remove_transaction(signature.clone());
    assert_eq!(get_signature(&removed.unwrap()), Some(signature.clone()));
    assert_eq!(store.get_signatures(), vec![kept]);
    assert!(store.remove_transaction(signature.clone()).is_none());
    assert!(store.get_transaction(&signature).is_none());
}

#[test]
fn short_queues_are_handed_out_whole() {
    let mut store = TransactionStoreImpl::new();
    let mut wires: Vec<Vec<u8>> = vec![];
    for lamports in 1..4 {
        let (transaction, _) = stored_transfer(lamports);
        wires.push(transaction.wire_transaction.clone());
        store.add_transaction(transaction);
    }
    let late = Instant { nanos: 3_600_000_000_000 };
    let mut handed = store.get_wire_transactions(late);
    assert_eq!(store.transactions_dropped(&handed), None);
    handed.sort();
    wires.sort();
    assert_eq!(handed, wires);
    let keys = store.get_signatures();
    let along = store.wire_transactions_along(&keys, late);
    for i in 0..3 {
        let transaction = store.get_transaction(&keys[i]).unwrap();
        assert_eq!(along[i], transaction.wire_transaction);
    }
}

#[test]
fn long_queues_hand_out_fresh_transactions() {
    let mut store = TransactionStoreImpl::new();
    let (transfer, _) = stored_transfer(1);
    let late = Instant { nanos: 20_000_000_000 };
    for number in 0..40_000u32 {
        let mut wire_transaction = transfer.wire_transaction.clone();
        wire_transaction[1..5].copy_from_slice(&number.to_le_bytes());
        let versioned_transaction = match VersionedTransaction::decode(&wire_transaction) {
            Ok(tx) => tx,
            Err(text) => panic!("{}", text),
        };
        let sent_at = match number {
            7 => Instant { nanos: 10_000_000_000 },
            8 => Instant { nanos: 10_000_000_001 },
            9 => late,
            _ => Instant { nanos: 0 },
        };
        store.add_transaction(TransactionData {
            wire_transaction,
            versioned_transaction,
            sent_at,
            ..transfer.clone()
        });
    }
    assert_eq!(store.queue_length(), 40_000);
    let handed = store.get_wire_transactions(late);
    assert_eq!(store.transactions_dropped(&handed), Some(39_998));
    let mut fresh: Vec<u8> = handed.into_iter().map(|wire| wire[1]).collect();
    fresh.sort();
    assert_eq!(fresh, vec![8, 9]);
}

#[test]
fn seconds_pass_whole() {
    let start = Instant { nanos: 500 };
    assert_eq!(start.elapsed_secs(Instant { nanos: 10_000_000_499 }), 9);
    assert_eq!(start.elapsed_secs(Instant { nanos: 10_000_000_500 }), 10);
    assert_eq!(start.elapsed_nanos(Instant { nanos: 700 }), 200);
    assert_eq!(start.elapsed_nanos(Instant { nanos: 300 }), 0);
}

#[test]
fn shedding_sorts_by_retry_count() {
    let queue = vec![
        ("a".to_string(), 3),
        ("b".to_string(), 1),
        ("c".to_string(), 3),
        ("d".to_string(), 0),
        ("e".to_string(), 1),
    ];
    assert_eq!(
        signatures_to_shed(queue.clone(), 2),
        vec!["e".to_string(), "a".to_string(), "c".to_string()]
    );
    assert_eq!(
        signatures_to_shed(queue.clone(), 0),
        vec![
            "d".to_string(),
            "b".to_string(),
            "e".to_string(),
            "a".to_string(),
            "c".to_string(),
        ]
    );
    assert_eq!(signatures_to_shed(queue, 4), vec!["c".to_string()]);
}

#[test]
fn shedding_brings_the_queue_to_its_limit() {
    let mut store = TransactionStoreImpl::new();
    let mut signatures: Vec<String> = vec![];
    for lamports in 0..5 {
        let (mut transaction, signature) = stored_transfer(lamports + 1);
        transaction.retry_count = lamports as usize;
        signatures.push(signature);
        store.add_transaction(transaction);
    }
    assert_eq!(shed_transactions(&mut store, None), Vec::<String>::new());
    assert_eq!(shed_transactions(&mut store, Some(5)), Vec::<String>::new());
    assert_eq!(shed_transactions(&mut store, Some(4)), vec![signatures[4].clone()]);
    let shed = shed_transactions(&mut store, Some(2));
    assert_eq!(sorted(shed), sorted(signatures[2..4].to_vec()));
    assert_eq!(store.queue_length(), 2);
    assert_eq!(sorted(store.get_signatures()), sorted(signatures[..2].to_vec()));
}

#[test]
fn rounds_count_retries_until_the_budget_is_spent() {
    let mut store = TransactionStoreImpl::new();
    let (transaction, signature) = stored_transfer(1);
    let wire = transaction.wire_transaction.clone();
    store.add_transaction(transaction);
    for done in 0..2 {
        assert_eq!(store.get_transaction(&signature).unwrap().retry_count, done);
        let round = begin_round(&mut store);
        assert_eq!(round.wire_transactions, vec![wire.clone()]);
        assert!(round.reached_max_retries.is_empty());
        end_round(&mut store, &round);
    }
    let last = begin_round(&mut store);
    assert_eq!(last.wire_transactions, vec![wire]);
    assert_eq!(last.reached_max_retries, vec![signature.clone()]);
    assert_eq!(store.get_transaction(&signature).unwrap().retry_count, 2);
    end_round(&mut store, &last);
    assert_eq!(store.queue_length(), 0);
}

#[test]
fn rounds_follow_the_walk() {
    let mut store = TransactionStoreImpl::new();
    let (first, one) = stored_transfer(1);
    let (mut second, two) = stored_transfer(2);
    second.max_retries = 0;
    let wires = vec![second.wire_transaction.clone(), first.wire_transaction.clone()];
    store.add_transaction(first);
    store.add_transaction(second);
    let round = begin_round_along(&mut store, &vec![two.clone(), one.clone()]);
    assert_eq!(round.wire_transactions, wires);
    assert_eq!(round.reached_max_retries, vec![two.clone()]);
    assert_eq!(store.get_transaction(&one).unwrap().retry_count, 1);
    remove_all(&mut store, &vec![one]);
    assert_eq!(store.get_signatures(), vec![two]);
}

#[test]
fn attempts_end_with_a_delivery_or_the_last_one() {
    let delivered = after_attempt(0, AttemptOutcome::Delivered);
    assert_eq!(delivered.report, AttemptReport::ReceivedByLeader);
    assert!(!delivered.try_again);
    let failed = after_attempt(3, AttemptOutcome::Failed);
    assert_eq!(failed.report, AttemptReport::SendError { last_attempt: false });
    assert!(failed.try_again);
    let slow = after_attempt(3, AttemptOutcome::TimedOut);
    assert_eq!(slow.report, AttemptReport::SendTimeout);
    assert!(slow.try_again);
    let last = after_attempt(SEND_TXN_RETRIES - 1, AttemptOutcome::Failed);
    assert_eq!(last.report, AttemptReport::SendError { last_attempt: true });
    assert!(!last.try_again);
    assert!(!after_attempt(SEND_TXN_RETRIES - 1, AttemptOutcome::TimedOut).try_again);
    let mut attempt: usize = 0;
    while after_attempt(attempt, AttemptOutcome::TimedOut).try_again {
        attempt += 1;
    }
    assert_eq!(attempt + 1, 10);
}

#[test]
fn timeouts_end_the_attempts_of_a_round() {
    let slow = after_retry_attempt(0, AttemptOutcome::TimedOut);
    assert_eq!(slow.report, AttemptReport::SendTimeout);
    assert!(!slow.try_again);
    let delivered = after_retry_attempt(0, AttemptOutcome::Delivered);
    assert_eq!(delivered.report, AttemptReport::ReceivedByLeader);
    assert!(!delivered.try_again);
    let failed = after_retry_attempt(0, AttemptOutcome::Failed);
    assert_eq!(failed.report, AttemptReport::SendError { last_attempt: false });
    assert!(failed.try_again);
    let mut attempt: usize = 0;
    while after_retry_attempt(attempt, AttemptOutcome::Failed).try_again {
        attempt += 1;
    }
    assert_eq!(attempt + 1, 10);
    assert_eq!(
        after_retry_attempt(attempt, AttemptOutcome::Failed).report,
        AttemptReport::SendError { last_attempt: true }
    );
}

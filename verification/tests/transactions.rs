use atlas_txn_sender::encoding::{
    accept_wire, decode_and_deserialize, decode_wire, TransactionBinaryEncoding,
    UiTransactionEncoding, MAX_BASE58_SIZE, MAX_BASE64_SIZE,
};
use atlas_txn_sender::errors::INVALID_REQUEST_CODE;
use atlas_txn_sender::priority::{
    compute_priority_details, priority_details, PriorityDetails,
    DEFAULT_INSTRUCTION_COMPUTE_UNIT_LIMIT, MAX_COMPUTE_UNIT_LIMIT,
};
use atlas_txn_sender::transaction::{
    CompiledInstruction, Digest, Pubkey, Signature, VersionedTransaction, PACKET_DATA_SIZE,
};
use base64::Engine;
use solana_sdk::compute_budget::ComputeBudgetInstruction;
use solana_sdk::instruction::Instruction;
use solana_sdk::message::VersionedMessage;
use solana_sdk::signature::{keypair_from_seed, Signer};
use solana_sdk::system_instruction;
use solana_sdk::transaction::{Transaction, VersionedTransaction as SdkTransaction};

/// A transfer signed by the key that the seed gives.
fn transfer(seed: u8) -> SdkTransaction {
    let payer = keypair_from_seed(&[seed; 32]).unwrap().pubkey();
    let receiver = solana_sdk::pubkey::Pubkey::from([9; 32]);
    signed(seed, vec![system_instruction::transfer(&payer, &receiver, 1_000)])
}

/// An instruction of some program, after the given instructions.
fn instruction_after(before: Vec<Instruction>) -> SdkTransaction {
    let program = solana_sdk::pubkey::Pubkey::from([9; 32]);
    let mut instructions = before;
    instructions.push(Instruction::new_with_bytes(program, &[9, 1, 2, 3, 4], vec![]));
    signed(1, instructions)
}

fn signed(seed: u8, instructions: Vec<Instruction>) -> SdkTransaction {
    let payer = keypair_from_seed(&[seed; 32]).unwrap();
    SdkTransaction::from(Transaction::new_signed_with_payer(
        &instructions,
        Some(&payer.pubkey()),
        &[&payer],
        solana_sdk::hash::Hash::from([7; 32]),
    ))
}

fn bytes_of(tx: &SdkTransaction) -> Vec<u8> {
    bincode::serialize(tx).unwrap()
}

fn decoded(tx: &SdkTransaction) -> VersionedTransaction {
    match VersionedTransaction::decode(&bytes_of(tx)) {
        Ok(tx) => tx,
        Err(text) => panic!("{}", text),
    }
}

fn without_signatures() -> SdkTransaction {
    let mut tx = transfer(1);
    tx.signatures.clear();
    tx
}

fn base58(bytes: &[u8]) -> String {
    solana_sdk::bs58::encode(bytes).into_string()
}

fn base64(bytes: &[u8]) -> String {
    base64::prelude::BASE64_STANDARD.encode(bytes)
}

#[test]
fn decoding_reads_the_parts() {
    let tx = transfer(1);
    let read = decoded(&tx);
    let parts = read.parts();
    assert_eq!(parts.signatures.len(), 1);
    assert_eq!(parts.signatures[0].bytes.to_vec(), tx.signatures[0].as_ref().to_vec());
    assert_eq!(parts.account_keys.len(), 3);
    assert_eq!(
        parts.account_keys[0].bytes,
        keypair_from_seed(&[1; 32]).unwrap().pubkey().to_bytes()
    );
    assert_eq!(parts.account_keys[1].bytes, [9; 32]);
    assert_eq!(parts.account_keys[2].bytes, [0; 32]);
    assert_eq!(parts.recent_blockhash.bytes, [7; 32]);
    assert_eq!(parts.instructions.len(), 1);
    assert_eq!(parts.instructions[0].program_id_index, 2);
    assert_eq!(parts.instructions[0].accounts, vec![0, 1]);
    assert_eq!(parts.instructions[0].data, vec![2, 0, 0, 0, 232, 3, 0, 0, 0, 0, 0, 0]);
}

#[test]
fn decoding_minds_trailing_bytes_only_past_the_limit() {
    let tx = transfer(1);
    let mut wire = bytes_of(&tx);
    wire.extend_from_slice(&[1, 2, 3]);
    assert!(VersionedTransaction::decode(&wire).is_ok());
    match VersionedTransaction::decode(&vec![1, 2, 3]) {
        Ok(_) => panic!("three bytes hold no transaction"),
        Err(text) => assert_eq!(text, "io error: failed to fill whole buffer"),
    }
}

#[test]
fn copies_keep_the_transaction() {
    let tx = decoded(&transfer(1));
    let copy = tx.clone();
    assert_eq!(copy.signer_signature().unwrap().bytes, tx.signer_signature().unwrap().bytes);
    assert_eq!(copy.parts().instructions[0].data, tx.parts().instructions[0].data);
    assert!(copy.is_sanitized());
}

#[test]
fn first_signature_names_the_transaction() {
    let tx = transfer(1);
    let signature = decoded(&tx).signer_signature().unwrap();
    assert_eq!(signature.text(), tx.signatures[0].to_string());
    assert!(decoded(&without_signatures()).signer_signature().is_none());
}

#[test]
fn texts_are_base58() {
    assert_eq!(Digest { bytes: [0; 32] }.text(), "1".repeat(32));
    let mut bytes = [0; 32];
    bytes[31] = 57;
    assert_eq!(Digest { bytes }.text(), "1".repeat(31) + "z");
    assert_eq!(Signature::from_bytes(&vec![0; 64]).text(), "1".repeat(64));
}

#[test]
fn signatures_are_checked_one_by_one() {
    let good = transfer(1);
    assert_eq!(decoded(&good).verify_with_results(), vec![true]);
    let mut bad = transfer(1);
    bad.signatures[0] = transfer(2).signatures[0];
    assert_eq!(decoded(&bad).verify_with_results(), vec![false]);
    assert_eq!(decoded(&without_signatures()).verify_with_results(), Vec::<bool>::new());
}

#[test]
fn digests_come_with_good_signatures_only() {
    let good = transfer(1);
    assert_eq!(
        decoded(&good).verify_and_hash_message().unwrap().bytes,
        good.message.hash().to_bytes()
    );
    let mut bad = transfer(1);
    bad.signatures[0] = transfer(2).signatures[0];
    assert!(decoded(&bad).verify_and_hash_message().is_none());
}

#[test]
fn malformed_transactions_are_not_sanitized() {
    assert!(decoded(&transfer(1)).is_sanitized());
    assert!(!decoded(&without_signatures()).is_sanitized());
    let mut outside = transfer(1);
    if let VersionedMessage::Legacy(message) = &mut outside.message {
        message.instructions[0].program_id_index = 77;
    }
    assert!(!decoded(&outside).is_sanitized());
}

#[test]
fn limits_are_those_of_the_network() {
    assert_eq!(PACKET_DATA_SIZE, solana_sdk::packet::PACKET_DATA_SIZE);
    assert_eq!(
        DEFAULT_INSTRUCTION_COMPUTE_UNIT_LIMIT,
        solana_program_runtime::compute_budget::DEFAULT_INSTRUCTION_COMPUTE_UNIT_LIMIT
    );
    assert_eq!(
        MAX_COMPUTE_UNIT_LIMIT,
        solana_program_runtime::compute_budget::MAX_COMPUTE_UNIT_LIMIT
    );
}

#[test]
fn encodings_are_told_apart() {
    assert_eq!(
        UiTransactionEncoding::Binary.into_binary_encoding(),
        Some(TransactionBinaryEncoding::Base58)
    );
    assert_eq!(
        UiTransactionEncoding::Base58.into_binary_encoding(),
        Some(TransactionBinaryEncoding::Base58)
    );
    assert_eq!(
        UiTransactionEncoding::Base64.into_binary_encoding(),
        Some(TransactionBinaryEncoding::Base64)
    );
    assert_eq!(UiTransactionEncoding::Json.into_binary_encoding(), None);
    assert_eq!(UiTransactionEncoding::JsonParsed.into_binary_encoding(), None);
    assert_eq!(UiTransactionEncoding::JsonParsed.text(), "jsonParsed");
    assert_eq!(UiTransactionEncoding::Json.text(), "json");
    assert_eq!(UiTransactionEncoding::Binary.text(), "binary");
    assert_eq!(UiTransactionEncoding::Base58.text(), "base58");
    assert_eq!(UiTransactionEncoding::Base64.text(), "base64");
}

#[test]
fn transactions_come_in_both_encodings() {
    let wire = bytes_of(&transfer(1));
    let encoded = [
        (base58(&wire), TransactionBinaryEncoding::Base58),
        (base64(&wire), TransactionBinaryEncoding::Base64),
    ];
    for (text, encoding) in encoded {
        match decode_and_deserialize(text, encoding) {
            Ok((bytes, tx)) => {
                assert_eq!(bytes, wire);
                assert_eq!(tx.parts().recent_blockhash.bytes, [7; 32]);
            }
            Err(e) => panic!("{}", e.message),
        }
    }
}

fn refusal_of(text: String, encoding: TransactionBinaryEncoding) -> String {
    match decode_and_deserialize(text, encoding) {
        Ok(_) => panic!("this text is not a transaction"),
        Err(e) => {
            assert_eq!(e.code, INVALID_REQUEST_CODE);
            e.message
        }
    }
}

#[test]
fn bad_texts_are_refused() {
    assert_eq!(
        refusal_of("0".to_string(), TransactionBinaryEncoding::Base58),
        "invalid base58 encoding: InvalidCharacter { character: '0', index: 0 }"
    );
    assert_eq!(
        refusal_of("*".to_string(), TransactionBinaryEncoding::Base64),
        "invalid base64 encoding: InvalidByte(0, 42)"
    );
    assert_eq!(
        refusal_of("2".repeat(MAX_BASE58_SIZE + 1), TransactionBinaryEncoding::Base58),
        "base58 encoded too large"
    );
    assert_eq!(
        refusal_of("A".repeat(MAX_BASE64_SIZE + 1), TransactionBinaryEncoding::Base64),
        "base64 encoded too large"
    );
    assert_eq!(
        refusal_of("1".repeat(MAX_BASE58_SIZE), TransactionBinaryEncoding::Base58),
        "decoded too large"
    );
    assert_eq!(
        refusal_of("Ldp".to_string(), TransactionBinaryEncoding::Base58),
        "failed to deserialize: io error: failed to fill whole buffer"
    );
}

#[test]
fn long_characters_count_by_their_bytes() {
    assert_eq!(
        refusal_of("\u{e9}".repeat(MAX_BASE58_SIZE / 2 + 1), TransactionBinaryEncoding::Base58),
        "base58 encoded too large"
    );
}

#[test]
fn accepted_wires_fit_into_a_packet() {
    match decode_wire(&base64(&[1, 2, 3]), TransactionBinaryEncoding::Base64) {
        Ok(wire) => assert_eq!(wire, vec![1, 2, 3]),
        Err(e) => panic!("{}", e.message),
    }
    let fits = accept_wire(Ok(vec![0; PACKET_DATA_SIZE]), TransactionBinaryEncoding::Base64);
    assert_eq!(fits.ok().map(|wire| wire.len()), Some(1232));
    let long = accept_wire(Ok(vec![0; PACKET_DATA_SIZE + 1]), TransactionBinaryEncoding::Base64);
    assert_eq!(long.err().map(|e| e.message), Some("decoded too large".to_string()));
    let broken = accept_wire(Err("reason".to_string()), TransactionBinaryEncoding::Base64);
    assert_eq!(
        broken.err().map(|e| e.message),
        Some("invalid base64 encoding: reason".to_string())
    );
}

#[test]
fn priority_is_read_off_the_instructions() {
    let tx = decoded(&instruction_after(
        vec![
            ComputeBudgetInstruction::set_compute_unit_limit(300_000),
            ComputeBudgetInstruction::set_compute_unit_price(1_001),
        ],
    ));
    assert_eq!(
        compute_priority_details(&tx),
        PriorityDetails { fee: 301, cu_limit: 300_000, priority: 1_001 }
    );
}

#[test]
fn priority_without_requests() {
    assert_eq!(
        compute_priority_details(&decoded(&instruction_after(vec![]))),
        PriorityDetails { fee: 0, cu_limit: DEFAULT_INSTRUCTION_COMPUTE_UNIT_LIMIT, priority: 0 }
    );
}

#[test]
fn unit_limits_are_capped() {
    let tx = decoded(&instruction_after(
        vec![ComputeBudgetInstruction::set_compute_unit_limit(2_000_000)],
    ));
    assert_eq!(compute_priority_details(&tx).cu_limit, MAX_COMPUTE_UNIT_LIMIT);
}

#[test]
fn unit_limits_are_read_off_any_program() {
    assert_eq!(
        compute_priority_details(&decoded(&transfer(1))),
        PriorityDetails { fee: 0, cu_limit: MAX_COMPUTE_UNIT_LIMIT, priority: 0 }
    );
}

#[test]
fn priority_stops_at_a_refused_instruction() {
    let tx = decoded(&instruction_after(
        vec![
            ComputeBudgetInstruction::set_compute_unit_limit(300_000),
            ComputeBudgetInstruction::set_compute_unit_price(5),
            ComputeBudgetInstruction::set_compute_unit_limit(400_000),
            ComputeBudgetInstruction::set_compute_unit_limit(500_000),
        ],
    ));
    assert_eq!(
        compute_priority_details(&tx),
        PriorityDetails { fee: 0, cu_limit: 400_000, priority: 0 }
    );
}

#[test]
fn malformed_transactions_have_no_priority() {
    assert_eq!(
        compute_priority_details(&decoded(&without_signatures())),
        PriorityDetails { fee: 0, cu_limit: DEFAULT_INSTRUCTION_COMPUTE_UNIT_LIMIT, priority: 0 }
    );
}

#[test]
fn details_follow_from_the_budget() {
    let instruction = |data: Vec<u8>| {
        (
            Pubkey { bytes: [3; 32] },
            CompiledInstruction { program_id_index: 1, accounts: vec![], data },
        )
    };
    let instructions = vec![
        instruction(vec![2, 1, 2, 0, 0, 99]),
        instruction(vec![2, 5]),
        instruction(vec![3, 7, 0, 0, 0]),
        instruction(vec![2, 0, 0, 1, 0]),
    ];
    assert_eq!(
        priority_details(&instructions, Some((8, 9)), 4),
        PriorityDetails { fee: 8, cu_limit: 65_536, priority: 9 }
    );
    assert_eq!(
        priority_details(&instructions, Some((8, 9)), 3),
        PriorityDetails { fee: 8, cu_limit: 513, priority: 9 }
    );
    assert_eq!(
        priority_details(&instructions, None, 0),
        PriorityDetails { fee: 0, cu_limit: 200_000, priority: 0 }
    );
}

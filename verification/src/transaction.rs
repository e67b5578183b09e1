//! Transactions as plain values, and the computations on them that the Solana
//! SDK performs.
use bincode::Options;
use solana_sdk::transaction::VersionedTransaction as SdkTransaction;
use vstd::prelude::*;

verus! {

/// Largest wire transaction that fits into one packet, in bytes.
pub const PACKET_DATA_SIZE: usize = 1232;

/// An ed25519 signature.
#[derive(Clone, Copy)]
pub struct Signature {
    pub bytes: [u8; 64],
}

impl View for Signature {
    type V = Seq<u8>;

    open spec fn view(&self) -> Seq<u8> {
        self.bytes@
    }
}

/// An account address.
#[derive(Clone, Copy)]
pub struct Pubkey {
    pub bytes: [u8; 32],
}

impl View for Pubkey {
    type V = Seq<u8>;

    open spec fn view(&self) -> Seq<u8> {
        self.bytes@
    }
}

/// A SHA-256 or blake3 digest, such as a blockhash.
#[derive(Clone, Copy)]
pub struct Digest {
    pub bytes: [u8; 32],
}

impl View for Digest {
    type V = Seq<u8>;

    open spec fn view(&self) -> Seq<u8> {
        self.bytes@
    }
}

/// An instruction whose program and accounts are indexes into the account keys
/// of its message.
pub struct CompiledInstruction {
    pub program_id_index: u8,
    pub accounts: Vec<u8>,
    pub data: Vec<u8>,
}

/// What a [`CompiledInstruction`] stands for.
#[verifier::ext_equal]
pub struct InstructionView {
    pub program_id_index: u8,
    pub accounts: Seq<u8>,
    pub data: Seq<u8>,
}

impl View for CompiledInstruction {
    type V = InstructionView;

    open spec fn view(&self) -> InstructionView {
        InstructionView {
            program_id_index: self.program_id_index,
            accounts: self.accounts@,
            data: self.data@,
        }
    }
}

/// The parts of a transaction that the service reads.
pub struct TransactionParts {
    pub signatures: Vec<Signature>,
    pub account_keys: Vec<Pubkey>,
    pub recent_blockhash: Digest,
    pub instructions: Vec<CompiledInstruction>,
}

/// What a [`TransactionParts`] stands for.
#[verifier::ext_equal]
pub struct TransactionView {
    pub signatures: Seq<Seq<u8>>,
    pub account_keys: Seq<Seq<u8>>,
    pub recent_blockhash: Seq<u8>,
    pub instructions: Seq<InstructionView>,
}

impl View for TransactionParts {
    type V = TransactionView;

    open spec fn view(&self) -> TransactionView {
        TransactionView {
            signatures: self.signatures@.map_values(|s: Signature| s@),
            account_keys: self.account_keys@.map_values(|k: Pubkey| k@),
            recent_blockhash: self.recent_blockhash@,
            instructions: self.instructions@.map_values(|i: CompiledInstruction| i@),
        }
    }
}

/// A decoding result by its views.
pub open spec fn decoding_view(r: Result<TransactionParts, String>) -> Result<
    TransactionView,
    Seq<char>,
> {
    match r {
        Ok(parts) => Ok(parts@),
        Err(text) => Err(text@),
    }
}

/// What bincode makes of `wire` as a versioned transaction, reading at most
/// `limit` bytes of it: the transaction's parts, or the text of the error.
pub uninterp spec fn transaction_decoding(wire: Seq<u8>, limit: u64) -> Result<
    TransactionView,
    Seq<char>,
>;

/// Calls bincode's `deserialize_from` (fixed-width integers, trailing bytes
/// allowed, at most `limit` bytes read) for `solana_sdk`'s
/// `VersionedTransaction`. The result is a function of the bytes and the limit;
/// an error is given by its text.
#[verifier::external_body]
fn deserialize_transaction(wire: &Vec<u8>, limit: u64) -> (r: Result<TransactionParts, String>)
    ensures
        decoding_view(r) == transaction_decoding(wire@, limit),
{
    let options = bincode::options().with_limit(limit).with_fixint_encoding().allow_trailing_bytes();
    let tx: SdkTransaction = options.deserialize_from(&wire[..]).map_err(|e| e.to_string())?;
    let m = tx.message;
    Ok(TransactionParts {
        signatures: tx.signatures.iter().map(|s| Signature { bytes: (*s).into() }).collect(),
        account_keys: m.static_account_keys().iter().map(|k| Pubkey { bytes: k.to_bytes() }).collect(),
        recent_blockhash: Digest { bytes: m.recent_blockhash().to_bytes() },
        instructions: m.instructions().iter().map(|i| CompiledInstruction {
            program_id_index: i.program_id_index,
            accounts: i.accounts.clone(),
            data: i.data.clone(),
        }).collect(),
    })
}

/// Whether the transaction that `encoded` holds is well formed, as the SDK's
/// `sanitize` judges it.
pub uninterp spec fn transaction_sanitizes(encoded: Seq<u8>) -> bool;

/// Calls `VersionedTransaction::sanitize` on the transaction that `encoded`
/// holds and says whether it succeeded. The checks run over every part of the
/// transaction; the one stated besides the name is that a sanitized transaction
/// has no instruction whose program index lies outside its account keys.
#[verifier::external_body]
fn sanitize(encoded: &Vec<u8>) -> (r: bool)
    requires
        transaction_decoding(encoded@, PACKET_DATA_SIZE as u64) is Ok,
    ensures
        r == transaction_sanitizes(encoded@),
        r ==> program_indexes_in_range(
            transaction_decoding(encoded@, PACKET_DATA_SIZE as u64)->Ok_0,
        ),
{
    let tx: SdkTransaction = bincode::deserialize(encoded).unwrap();
    tx.sanitize().is_ok()
}

/// Every instruction's program index is an index into the account keys.
pub open spec fn program_indexes_in_range(tx: TransactionView) -> bool {
    forall|i: int|
        0 <= i < tx.instructions.len() ==> (#[trigger] tx.instructions[i]).program_id_index
            < tx.account_keys.len()
}

/// For each signature that has an account key at its place, in order, whether it
/// signs the transaction's message under that key.
pub uninterp spec fn signature_checks(encoded: Seq<u8>) -> Seq<bool>;

/// Calls `VersionedTransaction::verify_with_results` on the transaction that
/// `encoded` holds: one flag for each pair of a signature and the account key at
/// the same place.
#[verifier::external_body]
fn verify_with_results(encoded: &Vec<u8>) -> (r: Vec<bool>)
    requires
        transaction_decoding(encoded@, PACKET_DATA_SIZE as u64) is Ok,
    ensures
        r@ == signature_checks(encoded@),
        r@.len() == paired_signatures(transaction_in(encoded@)),
{
    let tx: SdkTransaction = bincode::deserialize(encoded).unwrap();
    tx.verify_with_results()
}

/// The digest of the message of the transaction that `encoded` holds.
pub uninterp spec fn message_digest(encoded: Seq<u8>) -> Seq<u8>;

/// Calls `VersionedTransaction::verify_and_hash_message` on the transaction that
/// `encoded` holds. The call fails, always for a bad signature, when one of the
/// signature checks fails; else it gives the digest of the message.
#[verifier::external_body]
fn verify_and_hash_message(encoded: &Vec<u8>) -> (r: Option<Digest>)
    requires
        transaction_decoding(encoded@, PACKET_DATA_SIZE as u64) is Ok,
    ensures
        r is Some <==> all_true(signature_checks(encoded@)),
        r matches Some(digest) ==> digest@ == message_digest(encoded@),
{
    let tx: SdkTransaction = bincode::deserialize(encoded).unwrap();
    tx.verify_and_hash_message().ok().map(|h| Digest { bytes: h.to_bytes() })
}

/// The text form of a signature.
pub uninterp spec fn signature_text(signature: Seq<u8>) -> Seq<char>;

/// Calls `Signature::to_string` of `solana_sdk`: the text is a function of the
/// signature's 64 bytes.
#[verifier::external_body]
fn render_signature(signature: &Signature) -> (r: String)
    ensures
        r@ == signature_text(signature@),
{
    solana_sdk::signature::Signature::from(signature.bytes).to_string()
}

/// The text form of a digest.
pub uninterp spec fn digest_text(digest: Seq<u8>) -> Seq<char>;

/// Calls `Hash::to_string` of `solana_sdk`: the text is a function of the hash's
/// 32 bytes.
#[verifier::external_body]
fn render_digest(digest: &Digest) -> (r: String)
    ensures
        r@ == digest_text(digest@),
{
    solana_sdk::hash::Hash::from(digest.bytes).to_string()
}

/// Number of signatures that have an account key at their place.
pub open spec fn paired_signatures(tx: TransactionView) -> nat {
    if tx.signatures.len() <= tx.account_keys.len() {
        tx.signatures.len()
    } else {
        tx.account_keys.len()
    }
}

/// Every flag is set.
pub open spec fn all_true(flags: Seq<bool>) -> bool {
    forall|i: int| 0 <= i < flags.len() ==> #[trigger] flags[i]
}

impl Signature {
    /// The signature that 64 bytes are.
    pub fn from_bytes(bytes: &Vec<u8>) -> (r: Signature)
        requires
            bytes.len() == 64,
        ensures
            r@ == bytes@,
    {
        let mut array: [u8; 64] = [0; 64];
        for i in 0..64
            invariant
                bytes.len() == 64,
                forall|j: int| 0 <= j < i ==> array[j] == bytes[j],
        {
            array[i] = bytes[i];
        }
        assert(array@ =~= bytes@);
        Signature { bytes: array }
    }

    /// The base58 text of the signature.
    pub fn text(&self) -> (r: String)
        ensures
            r@ == signature_text(self@),
    {
        render_signature(self)
    }
}

impl Digest {
    /// The base58 text of the digest.
    pub fn text(&self) -> (r: String)
        ensures
            r@ == digest_text(self@),
    {
        render_digest(self)
    }
}

/// A copy of a byte vector.
pub(crate) fn copy_bytes(bytes: &Vec<u8>) -> (r: Vec<u8>)
    ensures
        r@ == bytes@,
{
    let r = bytes.clone();
    assert(r@ =~= bytes@);
    r
}

impl Clone for CompiledInstruction {
    fn clone(&self) -> (r: Self)
        ensures
            r@ == self@,
    {
        CompiledInstruction {
            program_id_index: self.program_id_index,
            accounts: copy_bytes(&self.accounts),
            data: copy_bytes(&self.data),
        }
    }
}

impl Clone for TransactionParts {
    fn clone(&self) -> (r: Self)
        ensures
            r@ == self@,
    {
        let mut signatures: Vec<Signature> = Vec::new();
        for i in 0..self.signatures.len()
            invariant
                signatures@ == self.signatures@.take(i as int),
        {
            signatures.push(self.signatures[i]);
        }
        let mut account_keys: Vec<Pubkey> = Vec::new();
        for i in 0..self.account_keys.len()
            invariant
                account_keys@ == self.account_keys@.take(i as int),
        {
            account_keys.push(self.account_keys[i]);
        }
        let mut instructions: Vec<CompiledInstruction> = Vec::new();
        for i in 0..self.instructions.len()
            invariant
                instructions.len() == i,
                forall|j: int| 0 <= j < i ==> (#[trigger] instructions[j])@ == self.instructions[j]@,
        {
            instructions.push(self.instructions[i].clone());
        }
        let r = TransactionParts {
            signatures,
            account_keys,
            recent_blockhash: self.recent_blockhash,
            instructions,
        };
        assert(r@ =~= self@);
        r
    }
}

/// A transaction that was decoded from its wire form. It is viewed as the bytes
/// that it was decoded from.
pub struct VersionedTransaction {
    encoded: Vec<u8>,
    parts: TransactionParts,
}

impl View for VersionedTransaction {
    type V = Seq<u8>;

    closed spec fn view(&self) -> Seq<u8> {
        self.encoded@
    }
}

/// The transaction that a decodable byte string holds.
pub open spec fn transaction_in(encoded: Seq<u8>) -> TransactionView {
    transaction_decoding(encoded, PACKET_DATA_SIZE as u64)->Ok_0
}

impl VersionedTransaction {
    #[verifier::type_invariant]
    spec fn holds_what_it_encodes(&self) -> bool {
        transaction_decoding(self.encoded@, PACKET_DATA_SIZE as u64) == Ok::<
            TransactionView,
            Seq<char>,
        >(self.parts@)
    }

    /// Decodes a wire transaction; on failure gives the decoder's message.
    pub fn decode(wire: &Vec<u8>) -> (r: Result<VersionedTransaction, String>)
        ensures
            match r {
                Ok(tx) => tx@ == wire@ && transaction_decoding(
                    wire@,
                    PACKET_DATA_SIZE as u64,
                ) is Ok,
                Err(text) => transaction_decoding(wire@, PACKET_DATA_SIZE as u64) == Err::<
                    TransactionView,
                    Seq<char>,
                >(text@),
            },
    {
        match deserialize_transaction(wire, PACKET_DATA_SIZE as u64) {
            Ok(parts) => Ok(VersionedTransaction { encoded: copy_bytes(wire), parts }),
            Err(text) => Err(text),
        }
    }

    /// The parts of the transaction that the service reads.
    pub fn parts(&self) -> (r: &TransactionParts)
        ensures
            r@ == transaction_in(self@),
    {
        proof {
            use_type_invariant(self);
        }
        &self.parts
    }

    /// The first signature, by which the transaction is known.
    pub fn signer_signature(&self) -> (r: Option<Signature>)
        ensures
            match r {
                Some(signature) => transaction_in(self@).signatures.len() > 0 && signature@
                    == transaction_in(self@).signatures[0],
                None => transaction_in(self@).signatures.len() == 0,
            },
    {
        let parts = self.parts();
        if parts.signatures.len() == 0 {
            assert(parts@.signatures.len() == 0);
            None
        } else {
            assert(parts@.signatures[0] == parts.signatures[0]@);
            Some(parts.signatures[0])
        }
    }

    /// Whether the transaction passes the SDK's structural checks.
    pub fn is_sanitized(&self) -> (r: bool)
        ensures
            r == transaction_sanitizes(self@),
            r ==> program_indexes_in_range(transaction_in(self@)),
    {
        proof {
            use_type_invariant(self);
        }
        sanitize(&self.encoded)
    }

    /// One flag for each signature that has an account key at its place.
    pub fn verify_with_results(&self) -> (r: Vec<bool>)
        ensures
            r@ == signature_checks(self@),
    {
        proof {
            use_type_invariant(self);
        }
        verify_with_results(&self.encoded)
    }

    /// The digest of the message, if every signature check succeeds.
    pub fn verify_and_hash_message(&self) -> (r: Option<Digest>)
        ensures
            r is Some <==> all_true(signature_checks(self@)),
            r matches Some(digest) ==> digest@ == message_digest(self@),
    {
        proof {
            use_type_invariant(self);
        }
        verify_and_hash_message(&self.encoded)
    }
}

impl Clone for VersionedTransaction {
    fn clone(&self) -> (r: Self)
        ensures
            r@ == self@,
    {
        proof {
            use_type_invariant(self);
        }
        VersionedTransaction { encoded: copy_bytes(&self.encoded), parts: self.parts.clone() }
    }
}

} // verus!

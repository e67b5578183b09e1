//! Sending a batch of transactions, each after the one before it was confirmed.
use crate::clock::Instant;
use crate::collections::texts;
use crate::encoding::{decode_and_deserialize, decoded_text, TransactionBinaryEncoding};
use crate::errors::{
    error_object_text, RpcError, CALL_EXECUTION_FAILED_CODE, INVALID_PARAMS_CODE,
    INVALID_REQUEST_CODE,
};
use crate::rpc_server::RequestMetadata;
use crate::tags::{decimal, integer_text};
use crate::transaction::{
    copy_bytes, digest_text, signature_text, transaction_in, VersionedTransaction,
};
use crate::transaction_store::{api_key_view, TransactionData, TransactionDataView};
use vstd::prelude::*;
use vstd::string::StringExecFns;

verus! {

/// A blockhash that is more than this many slots behind is too old.
pub const MAX_BLOCKHASH_AGE: u64 = 150;

/// Why a transaction is skipped, from the current slot and the slot of its
/// blockhash: the blockhash is unknown, or too old. Without a current slot nothing
/// is skipped.
pub open spec fn reason_to_skip(
    current_slot: Option<u64>,
    blockhash_slot: Option<u64>,
) -> Option<Seq<char>> {
    match (current_slot, blockhash_slot) {
        (None, _) => None,
        (Some(_), None) => Some("blockhash not found in cache"@),
        (Some(current), Some(known)) => if current - known > MAX_BLOCKHASH_AGE {
            Some("blockhash expired (current_slot - blockhash_slot > 150)"@)
        } else {
            None
        },
    }
}

/// An optional text by its view.
pub open spec fn reason_view(reason: Option<&str>) -> Option<Seq<char>> {
    match reason {
        Some(text) => Some(text@),
        None => None,
    }
}

/// Why a transaction is skipped, from the current slot and the slot of its
/// blockhash.
pub fn skip_reason(current_slot: Option<u64>, blockhash_slot: Option<u64>) -> (r: Option<
    &'static str,
>)
    ensures
        reason_view(r) == reason_to_skip(current_slot, blockhash_slot),
{
    match current_slot {
        None => None,
        Some(current) => match blockhash_slot {
            None => Some("blockhash not found in cache"),
            Some(known) => if current > known && current - known > MAX_BLOCKHASH_AGE {
                Some("blockhash expired (current_slot - blockhash_slot > 150)")
            } else {
                None
            },
        },
    }
}

/// The debug text of a list of strings.
pub uninterp spec fn list_text(list: Seq<Seq<char>>) -> Seq<char>;

/// Formats a list of strings with `Debug` of std's `Vec` and `String`: the text is a
/// function of the strings.
#[verifier::external_body]
fn render_list(list: &Vec<String>) -> (r: String)
    ensures
        r@ == list_text(texts(list@)),
{
    format!("{list:?}")
}

/// Pairs of strings by their views.
pub open spec fn pair_texts(pairs: Seq<(String, String)>) -> Seq<(Seq<char>, Seq<char>)> {
    pairs.map_values(|pair: (String, String)| (pair.0@, pair.1@))
}

/// The debug text of a list of pairs of strings.
pub uninterp spec fn pair_list_text(pairs: Seq<(Seq<char>, Seq<char>)>) -> Seq<char>;

/// Formats a list of pairs of strings with `Debug` of std's `Vec`, tuples and
/// `String`: the text is a function of the strings.
#[verifier::external_body]
fn render_pairs(pairs: &Vec<(String, String)>) -> (r: String)
    ensures
        r@ == pair_list_text(pair_texts(pairs@)),
{
    format!("{pairs:?}")
}

/// Where the sending of a batch stands.
#[derive(Clone, Copy, Debug, PartialEq, Eq, Structural)]
pub enum BatchPhase {
    /// Waits for the current slot and the slot of the transaction's blockhash.
    Slots,
    /// Waits for the transaction's confirmation.
    Confirmation,
    Over,
}

/// Word that the sending of a batch waits for.
#[derive(Clone, Copy)]
pub enum BatchEvent {
    /// The current slot, the slot of the blockhash, each if it is known, and the time.
    Slots { current_slot: Option<u64>, blockhash_slot: Option<u64>, now: Instant },
    /// The time at which the transaction was confirmed, if it was.
    Confirmation(Option<i64>),
}

/// A decoded transaction whose turn it is.
pub struct Pending {
    pub wire_transaction: Vec<u8>,
    pub versioned_transaction: VersionedTransaction,
    pub signature: String,
}

/// What a [`Pending`] stands for.
#[verifier::ext_equal]
pub struct PendingView {
    pub wire_transaction: Seq<u8>,
    pub versioned_transaction: Seq<u8>,
    pub signature: Seq<char>,
}

impl View for Pending {
    type V = PendingView;

    open spec fn view(&self) -> PendingView {
        PendingView {
            wire_transaction: self.wire_transaction@,
            versioned_transaction: self.versioned_transaction@,
            signature: self.signature@,
        }
    }
}

/// The sending of a batch of transactions.
pub struct BatchRun {
    txns: Vec<String>,
    encoding: TransactionBinaryEncoding,
    max_retries: usize,
    request_metadata: Option<RequestMetadata>,
    /// Index of the transaction whose turn it is.
    next: usize,
    /// Signatures of the transactions that were confirmed.
    successful: Vec<String>,
    /// Signatures of the transactions that were skipped, with the reasons.
    skipped: Vec<(String, String)>,
    /// The transaction whose turn it is.
    pending: Option<Pending>,
    phase: BatchPhase,
}

/// What a [`BatchRun`] stands for.
#[verifier::ext_equal]
pub struct BatchRunView {
    pub txns: Seq<Seq<char>>,
    pub encoding: TransactionBinaryEncoding,
    pub max_retries: usize,
    pub api_key: Option<Seq<char>>,
    pub next: int,
    pub successful: Seq<Seq<char>>,
    pub skipped: Seq<(Seq<char>, Seq<char>)>,
    pub pending: Option<PendingView>,
    pub phase: BatchPhase,
}

/// An optional transaction by its view.
pub open spec fn pending_view(pending: Option<Pending>) -> Option<PendingView> {
    match pending {
        Some(p) => Some(p@),
        None => None,
    }
}

impl View for BatchRun {
    type V = BatchRunView;

    closed spec fn view(&self) -> BatchRunView {
        BatchRunView {
            txns: texts(self.txns@),
            encoding: self.encoding,
            max_retries: self.max_retries,
            api_key: api_key_view(self.request_metadata),
            next: self.next as int,
            successful: texts(self.successful@),
            skipped: pair_texts(self.skipped@),
            pending: pending_view(self.pending),
            phase: self.phase,
        }
    }
}

impl BatchRunView {
    /// While the run is not over it is some transaction's turn.
    pub open spec fn wf(self) -> bool {
        &&& 0 <= self.next <= self.txns.len()
        &&& self.phase != BatchPhase::Over ==> self.next < self.txns.len() && self.pending is Some
    }
}

/// What is to be done to send a batch.
pub enum BatchAction {
    /// Look up the current slot and the slot of this blockhash.
    AskSlots(String),
    /// Send the transaction and wait for its confirmation.
    Send(TransactionData),
    /// The transaction has no signature to be known by, and the batch cannot go on.
    MissingSigner,
    /// The run is over.
    Finished(Result<Vec<String>, RpcError>),
    /// Nothing: the event was not waited for.
    Idle,
}

/// What a [`BatchAction`] stands for. An error is given by its code and message.
pub enum BatchActionView {
    AskSlots(Seq<char>),
    Send(TransactionDataView),
    MissingSigner,
    Finished(Result<Seq<Seq<char>>, (i32, Seq<char>)>),
    Idle,
}

/// The result of a run by its view.
pub open spec fn batch_result_view(result: Result<Vec<String>, RpcError>) -> Result<
    Seq<Seq<char>>,
    (i32, Seq<char>),
> {
    match result {
        Ok(signatures) => Ok(texts(signatures@)),
        Err(e) => Err((e.code, e.message@)),
    }
}

impl View for BatchAction {
    type V = BatchActionView;

    open spec fn view(&self) -> BatchActionView {
        match self {
            BatchAction::AskSlots(blockhash) => BatchActionView::AskSlots(blockhash@),
            BatchAction::Send(transaction) => BatchActionView::Send(transaction@),
            BatchAction::MissingSigner => BatchActionView::MissingSigner,
            BatchAction::Finished(result) => BatchActionView::Finished(batch_result_view(*result)),
            BatchAction::Idle => BatchActionView::Idle,
        }
    }
}

/// The message for a transaction that cannot be decoded.
pub open spec fn decode_failure(
    index: int,
    error: Seq<char>,
    successful: Seq<Seq<char>>,
    skipped: Seq<(Seq<char>, Seq<char>)>,
) -> Seq<char> {
    "Failed to decode transaction at index "@ + decimal(index) + ": "@ + error
        + ". Successful signatures so far: "@ + list_text(successful) + ", Skipped signatures: "@
        + pair_list_text(skipped)
}

/// The message for a transaction that is not confirmed in time.
pub open spec fn confirm_failure(
    index: int,
    signature: Seq<char>,
    successful: Seq<Seq<char>>,
    skipped: Seq<(Seq<char>, Seq<char>)>,
) -> Seq<char> {
    "Transaction at index "@ + decimal(index) + " (signature: "@ + signature
        + ") failed to confirm within timeout. Successful signatures: "@ + list_text(successful)
        + ", Skipped signatures: "@ + pair_list_text(skipped)
}

/// The end of a run.
pub open spec fn batch_over(run: BatchRunView, action: BatchActionView) -> (
    BatchRunView,
    BatchActionView,
) {
    (BatchRunView { phase: BatchPhase::Over, pending: None, ..run }, action)
}

/// The text of the signature by which an encoded transaction is known.
pub open spec fn signer_text(encoded: Seq<u8>) -> Seq<char> {
    signature_text(transaction_in(encoded).signatures[0])
}

/// The turn of the next transaction, which is decoded and whose blockhash is asked
/// about; without a next transaction the run succeeds.
pub open spec fn batch_turn(run: BatchRunView) -> (BatchRunView, BatchActionView) {
    if run.next >= run.txns.len() {
        batch_over(run, BatchActionView::Finished(Ok(run.successful)))
    } else {
        match decoded_text(run.txns[run.next], run.encoding) {
            Err(reason) => batch_over(
                run,
                BatchActionView::Finished(
                    Err(
                        (
                            INVALID_PARAMS_CODE,
                            decode_failure(
                                run.next,
                                error_object_text(INVALID_REQUEST_CODE, reason),
                                run.successful,
                                run.skipped,
                            ),
                        ),
                    ),
                ),
            ),
            Ok(wire) => if transaction_in(wire).signatures.len() == 0 {
                batch_over(run, BatchActionView::MissingSigner)
            } else {
                (
                    BatchRunView {
                        phase: BatchPhase::Slots,
                        pending: Some(
                            PendingView {
                                wire_transaction: wire,
                                versioned_transaction: wire,
                                signature: signer_text(wire),
                            },
                        ),
                        ..run
                    },
                    BatchActionView::AskSlots(digest_text(transaction_in(wire).recent_blockhash)),
                )
            },
        }
    }
}

/// What follows when the slots are known: the transaction is skipped or sent.
pub open spec fn batch_slots(
    run: BatchRunView,
    current_slot: Option<u64>,
    blockhash_slot: Option<u64>,
    now: Instant,
) -> (BatchRunView, BatchActionView) {
    let pending = run.pending->0;
    match reason_to_skip(current_slot, blockhash_slot) {
        Some(reason) => batch_turn(
            BatchRunView {
                next: run.next + 1,
                skipped: run.skipped.push((pending.signature, reason)),
                ..run
            },
        ),
        None => (
            BatchRunView { phase: BatchPhase::Confirmation, ..run },
            BatchActionView::Send(
                TransactionDataView {
                    wire_transaction: pending.wire_transaction,
                    versioned_transaction: pending.versioned_transaction,
                    sent_at: now,
                    retry_count: 0,
                    max_retries: run.max_retries,
                    api_key: run.api_key,
                },
            ),
        ),
    }
}

/// What follows on a confirmation, or the lack of one.
pub open spec fn batch_confirmation(run: BatchRunView, confirmed_at: Option<i64>) -> (
    BatchRunView,
    BatchActionView,
) {
    let pending = run.pending->0;
    match confirmed_at {
        Some(_) => batch_turn(
            BatchRunView {
                next: run.next + 1,
                successful: run.successful.push(pending.signature),
                ..run
            },
        ),
        None => batch_over(
            run,
            BatchActionView::Finished(
                Err(
                    (
                        CALL_EXECUTION_FAILED_CODE,
                        confirm_failure(
                            run.next,
                            pending.signature,
                            run.successful,
                            run.skipped,
                        ),
                    ),
                ),
            ),
        ),
    }
}

/// What follows on an event. One that was not waited for changes nothing.
pub open spec fn batch_step(run: BatchRunView, event: BatchEvent) -> (
    BatchRunView,
    BatchActionView,
) {
    match (run.phase, event) {
        (
            BatchPhase::Slots,
            BatchEvent::Slots { current_slot, blockhash_slot, now },
        ) => batch_slots(run, current_slot, blockhash_slot, now),
        (BatchPhase::Confirmation, BatchEvent::Confirmation(confirmed_at)) => batch_confirmation(
            run,
            confirmed_at,
        ),
        _ => (run, BatchActionView::Idle),
    }
}

/// The run before its first step.
pub open spec fn batch_begun(
    txns: Seq<Seq<char>>,
    encoding: TransactionBinaryEncoding,
    max_retries: usize,
    api_key: Option<Seq<char>>,
) -> BatchRunView {
    BatchRunView {
        txns,
        encoding,
        max_retries,
        api_key,
        next: 0,
        successful: Seq::empty(),
        skipped: Seq::empty(),
        pending: None,
        phase: BatchPhase::Over,
    }
}

impl BatchRun {
    /// Begins to send the transactions, one after the other.
    pub fn begin(
        txns: Vec<String>,
        encoding: TransactionBinaryEncoding,
        max_retries: usize,
        request_metadata: Option<RequestMetadata>,
    ) -> (r: (BatchRun, BatchAction))
        ensures
            (r.0@, r.1@) == batch_turn(
                batch_begun(
                    texts(txns@),
                    encoding,
                    max_retries,
                    api_key_view(request_metadata),
                ),
            ),
            r.0@.wf(),
    {
        let run = BatchRun {
            txns,
            encoding,
            max_retries,
            request_metadata,
            next: 0,
            successful: Vec::new(),
            skipped: Vec::new(),
            pending: None,
            phase: BatchPhase::Over,
        };
        assert(run@ =~= batch_begun(
            texts(txns@),
            encoding,
            max_retries,
            api_key_view(request_metadata),
        ));
        run.turn()
    }

    /// The signatures of the transactions that were skipped, with the reasons.
    pub fn skipped(&self) -> (r: &Vec<(String, String)>)
        ensures
            pair_texts(r@) == self@.skipped,
    {
        &self.skipped
    }

    /// Ends the run.
    fn over(self, action: BatchAction) -> (r: (BatchRun, BatchAction))
        requires
            0 <= self.next <= self.txns.len(),
        ensures
            (r.0@, r.1@) == batch_over(self@, action@),
            r.0@.wf(),
    {
        (BatchRun { phase: BatchPhase::Over, pending: None, ..self }, action)
    }

    /// The signatures of the transactions that were confirmed and of those that were
    /// skipped, as they stand at the end of an error's message.
    fn outcomes_text(&self) -> (r: String)
        ensures
            r@ == list_text(self@.successful) + ", Skipped signatures: "@ + pair_list_text(
                self@.skipped,
            ),
    {
        render_list(&self.successful).concat(", Skipped signatures: ").concat(
            render_pairs(&self.skipped).as_str(),
        )
    }

    /// Gives the next transaction its turn.
    fn turn(self) -> (r: (BatchRun, BatchAction))
        requires
            0 <= self.next <= self.txns.len(),
        ensures
            (r.0@, r.1@) == batch_turn(self@),
            r.0@.wf(),
    {
        if self.next >= self.txns.len() {
            let successful = copy_texts(&self.successful);
            return self.over(BatchAction::Finished(Ok(successful)));
        }
        assert(self@.txns[self.next as int] == self.txns[self.next as int]@);
        match decode_and_deserialize(self.txns[self.next].clone(), self.encoding) {
            Err(e) => {
                let message = "Failed to decode transaction at index ".to_string().concat(
                    integer_text(self.next as i128).as_str(),
                ).concat(": ").concat(e.text().as_str()).concat(
                    ". Successful signatures so far: ",
                ).concat(self.outcomes_text().as_str());
                assert(message@ =~= decode_failure(
                    self.next as int,
                    error_object_text(e.code, e.message@),
                    self@.successful,
                    self@.skipped,
                ));
                self.over(
                    BatchAction::Finished(Err(RpcError { code: INVALID_PARAMS_CODE, message })),
                )
            },
            Ok((wire_transaction, versioned_transaction)) => {
                match versioned_transaction.signer_signature() {
                    None => self.over(BatchAction::MissingSigner),
                    Some(signature) => {
                        let blockhash = versioned_transaction.parts().recent_blockhash.text();
                        let pending = Pending {
                            wire_transaction,
                            versioned_transaction,
                            signature: signature.text(),
                        };
                        (
                            BatchRun { phase: BatchPhase::Slots, pending: Some(pending), ..self },
                            BatchAction::AskSlots(blockhash),
                        )
                    },
                }
            },
        }
    }

    /// Takes in an event and says what to do next.
    pub fn step(self, event: BatchEvent) -> (r: (BatchRun, BatchAction))
        requires
            self@.wf(),
        ensures
            (r.0@, r.1@) == batch_step(self@, event),
            r.0@.wf(),
    {
        let count: usize = self.txns.len();
        assert(self@.txns.len() == count);
        let pending = match &self.pending {
            Some(pending) => Pending {
                wire_transaction: copy_bytes(&pending.wire_transaction),
                versioned_transaction: pending.versioned_transaction.clone(),
                signature: pending.signature.clone(),
            },
            None => {
                return (self, BatchAction::Idle);
            },
        };
        let ghost before = self@;
        match (self.phase, event) {
            (BatchPhase::Slots, BatchEvent::Slots { current_slot, blockhash_slot, now }) => {
                match skip_reason(current_slot, blockhash_slot) {
                    Some(reason) => {
                        let mut skipped = self.skipped;
                        skipped.push((pending.signature, reason.to_string()));
                        let run = BatchRun { next: self.next + 1, skipped, ..self };
                        assert(run@.skipped =~= before.skipped.push(
                            (before.pending->0.signature, reason@),
                        ));
                        run.turn()
                    },
                    None => {
                        let transaction = TransactionData {
                            wire_transaction: pending.wire_transaction,
                            versioned_transaction: pending.versioned_transaction,
                            sent_at: now,
                            retry_count: 0,
                            max_retries: self.max_retries,
                            request_metadata: match &self.request_metadata {
                                Some(metadata) => Some(metadata.clone()),
                                None => None,
                            },
                        };
                        (
                            BatchRun { phase: BatchPhase::Confirmation, ..self },
                            BatchAction::Send(transaction),
                        )
                    },
                }
            },
            (BatchPhase::Confirmation, BatchEvent::Confirmation(confirmed_at)) => {
                match confirmed_at {
                    Some(_) => {
                        let mut successful = self.successful;
                        successful.push(pending.signature);
                        let run = BatchRun { next: self.next + 1, successful, ..self };
                        assert(run@.successful =~= before.successful.push(
                            before.pending->0.signature,
                        ));
                        run.turn()
                    },
                    None => {
                        let message = "Transaction at index ".to_string().concat(
                            integer_text(self.next as i128).as_str(),
                        ).concat(" (signature: ").concat(pending.signature.as_str()).concat(
                            ") failed to confirm within timeout. Successful signatures: ",
                        ).concat(self.outcomes_text().as_str());
                        assert(message@ =~= confirm_failure(
                            self.next as int,
                            pending.signature@,
                            self@.successful,
                            self@.skipped,
                        ));
                        self.over(
                            BatchAction::Finished(
                                Err(RpcError { code: CALL_EXECUTION_FAILED_CODE, message }),
                            ),
                        )
                    },
                }
            },
            _ => (self, BatchAction::Idle),
        }
    }
}

/// `all` is made of the elements of `a` and of `b`, each in its order.
pub open spec fn interleaves<A>(all: Seq<A>, a: Seq<A>, b: Seq<A>) -> bool
    decreases all.len(),
{
    if all.len() == 0 {
        a.len() == 0 && b.len() == 0
    } else {
        ||| a.len() > 0 && a.last() == all.last() && interleaves(
            all.drop_last(),
            a.drop_last(),
            b,
        )
        ||| b.len() > 0 && b.last() == all.last() && interleaves(
            all.drop_last(),
            a,
            b.drop_last(),
        )
    }
}

/// The texts of the signatures by which transactions are known, from the texts of the
/// transactions.
pub open spec fn signer_texts(
    txns: Seq<Seq<char>>,
    encoding: TransactionBinaryEncoding,
) -> Seq<Seq<char>> {
    txns.map_values(|txn: Seq<char>| signer_text(decoded_text(txn, encoding)->Ok_0))
}

/// The first halves of pairs.
pub open spec fn first_halves(pairs: Seq<(Seq<char>, Seq<char>)>) -> Seq<Seq<char>> {
    pairs.map_values(|pair: (Seq<char>, Seq<char>)| pair.0)
}

/// Each transaction before the one whose turn it is was confirmed or skipped.
pub open spec fn accounts_for_all(run: BatchRunView) -> bool {
    &&& interleaves(
        signer_texts(run.txns.take(run.next), run.encoding),
        run.successful,
        first_halves(run.skipped),
    )
    &&& run.phase != BatchPhase::Over ==> run.pending->0.signature == signer_text(
        decoded_text(run.txns[run.next], run.encoding)->Ok_0,
    )
}

/// The run and its last action after a series of events.
pub open spec fn batch_after(begun: BatchRunView, events: Seq<BatchEvent>) -> (
    BatchRunView,
    BatchActionView,
)
    decreases events.len(),
{
    if events.len() == 0 {
        batch_turn(begun)
    } else {
        batch_step(batch_after(begun, events.drop_last()).0, events.last())
    }
}

proof fn lemma_turn_accounts(run: BatchRunView)
    requires
        0 <= run.next <= run.txns.len(),
        interleaves(
            signer_texts(run.txns.take(run.next), run.encoding),
            run.successful,
            first_halves(run.skipped),
        ),
    ensures
        accounts_for_all(batch_turn(run).0),
        batch_turn(run).0.wf(),
        batch_turn(run).0.txns == run.txns,
        batch_turn(run).0.encoding == run.encoding,
        batch_turn(run).1 matches BatchActionView::Finished(Ok(signatures)) ==> interleaves(
            signer_texts(run.txns, run.encoding),
            signatures,
            first_halves(batch_turn(run).0.skipped),
        ),
{
    if run.next >= run.txns.len() {
        assert(run.txns.take(run.next) =~= run.txns);
    }
}

proof fn lemma_one_more(run: BatchRunView)
    requires
        0 <= run.next < run.txns.len(),
    ensures
        signer_texts(run.txns.take(run.next + 1), run.encoding) == signer_texts(
            run.txns.take(run.next),
            run.encoding,
        ).push(signer_text(decoded_text(run.txns[run.next], run.encoding)->Ok_0)),
{
    assert(signer_texts(run.txns.take(run.next + 1), run.encoding) =~= signer_texts(
        run.txns.take(run.next),
        run.encoding,
    ).push(signer_text(decoded_text(run.txns[run.next], run.encoding)->Ok_0)));
}

/// A batch accounts for each of its transactions, in order: at every point the
/// transactions that had their turn are those that were confirmed and those that were
/// skipped, and a batch that succeeds is answered with the signatures of the
/// confirmed ones.
pub proof fn law_batch_accounts_for_all(
    txns: Seq<Seq<char>>,
    encoding: TransactionBinaryEncoding,
    max_retries: usize,
    api_key: Option<Seq<char>>,
    events: Seq<BatchEvent>,
)
    ensures
        ({
            let (run, action) = batch_after(
                batch_begun(txns, encoding, max_retries, api_key),
                events,
            );
            &&& run.wf()
            &&& run.txns == txns
            &&& run.encoding == encoding
            &&& accounts_for_all(run)
            &&& action matches BatchActionView::Finished(Ok(signatures)) ==> interleaves(
                signer_texts(txns, encoding),
                signatures,
                first_halves(run.skipped),
            )
        }),
    decreases events.len(),
{
    let begun = batch_begun(txns, encoding, max_retries, api_key);
    if events.len() == 0 {
        lemma_turn_accounts(begun);
    } else {
        law_batch_accounts_for_all(txns, encoding, max_retries, api_key, events.drop_last());
        let run = batch_after(begun, events.drop_last()).0;
        let sofar = signer_texts(run.txns.take(run.next), run.encoding);
        match (run.phase, events.last()) {
            (BatchPhase::Slots, BatchEvent::Slots { current_slot, blockhash_slot, now }) => {
                if let Some(reason) = reason_to_skip(current_slot, blockhash_slot) {
                    let signature = run.pending->0.signature;
                    let after = BatchRunView {
                        next: run.next + 1,
                        skipped: run.skipped.push((signature, reason)),
                        ..run
                    };
                    lemma_one_more(run);
                    assert(first_halves(after.skipped) =~= first_halves(run.skipped).push(
                        signature,
                    ));
                    assert(sofar.push(signature).drop_last() =~= sofar);
                    assert(first_halves(run.skipped).push(signature).drop_last()
                        =~= first_halves(run.skipped));
                    lemma_turn_accounts(after);
                }
            },
            (BatchPhase::Confirmation, BatchEvent::Confirmation(Some(_))) => {
                let signature = run.pending->0.signature;
                let after = BatchRunView {
                    next: run.next + 1,
                    successful: run.successful.push(signature),
                    ..run
                };
                lemma_one_more(run);
                assert(sofar.push(signature).drop_last() =~= sofar);
                assert(run.successful.push(signature).drop_last() =~= run.successful);
                lemma_turn_accounts(after);
            },
            _ => {},
        }
    }
}

/// A transaction of a batch is sent only if its blockhash is known and not too old, or
/// if there is no current slot to tell.
pub proof fn law_batch_sends_recent_blockhashes(run: BatchRunView, event: BatchEvent)
    requires
        batch_step(run, event).1 is Send,
        run.pending is Some,
    ensures
        run.phase == BatchPhase::Slots,
        event matches BatchEvent::Slots { current_slot, blockhash_slot, .. } && match current_slot {
            Some(current) => blockhash_slot matches Some(known) && current - known
                <= MAX_BLOCKHASH_AGE,
            None => true,
        },
        batch_step(run, event).1->Send_0.wire_transaction == run.pending->0.wire_transaction,
{
}

/// Once a batch has failed, or is otherwise over, nothing more is done for it.
pub proof fn law_batch_stays_over(run: BatchRunView, event: BatchEvent)
    requires
        run.phase == BatchPhase::Over,
    ensures
        batch_step(run, event) == (run, BatchActionView::Idle),
{
}

/// A copy of a list of strings.
fn copy_texts(strings: &Vec<String>) -> (r: Vec<String>)
    ensures
        texts(r@) == texts(strings@),
{
    let mut r: Vec<String> = Vec::new();
    for i in 0..strings.len()
        invariant
            r.len() == i,
            forall|j: int| 0 <= j < i ==> (#[trigger] r[j])@ == strings[j]@,
    {
        r.push(strings[i].clone());
    }
    assert(texts(r@) =~= texts(strings@));
    r
}

/// The turns at which a confirmation came, in order.
pub open spec fn turns_confirmed(begun: BatchRunView, events: Seq<BatchEvent>) -> Seq<int>
    decreases events.len(),
{
    if events.len() == 0 {
        Seq::empty()
    } else {
        let run = batch_after(begun, events.drop_last()).0;
        let before = turns_confirmed(begun, events.drop_last());
        if run.phase == BatchPhase::Confirmation && (events.last() matches BatchEvent::Confirmation(
            confirmed_at,
        ) && confirmed_at is Some) {
            before.push(run.next)
        } else {
            before
        }
    }
}

/// At some point of the series a confirmation was waited for and did not come.
pub open spec fn confirmation_missing(begun: BatchRunView, events: Seq<BatchEvent>) -> bool {
    exists|j: int|
        0 <= j < events.len() && (#[trigger] batch_after(begun, events.take(j))).0.phase
            == BatchPhase::Confirmation && (events[j] matches BatchEvent::Confirmation(confirmed_at)
            && confirmed_at is None)
}

/// The signatures that a batch counts as successful are those of the transactions for
/// which a confirmation came, in order, and no others; once a confirmation was missing the
/// batch is over, and it has not succeeded.
pub proof fn law_batch_succeeds_by_confirmation(
    txns: Seq<Seq<char>>,
    encoding: TransactionBinaryEncoding,
    max_retries: usize,
    api_key: Option<Seq<char>>,
    events: Seq<BatchEvent>,
)
    ensures
        ({
            let begun = batch_begun(txns, encoding, max_retries, api_key);
            let (run, action) = batch_after(begun, events);
            &&& run.successful == turns_confirmed(begun, events).map_values(
                |turn: int|
                    signature_text(
                        transaction_in(decoded_text(txns[turn], encoding)->Ok_0).signatures[0],
                    ),
            )
            &&& confirmation_missing(begun, events) ==> run.phase == BatchPhase::Over && !(
            action matches BatchActionView::Finished(result) && result is Ok)
            &&& action matches BatchActionView::Finished(Ok(signatures)) ==> signatures
                == run.successful
        }),
    decreases events.len(),
{
    let begun = batch_begun(txns, encoding, max_retries, api_key);
    let name = |turn: int|
        signature_text(transaction_in(decoded_text(txns[turn], encoding)->Ok_0).signatures[0]);
    law_batch_accounts_for_all(txns, encoding, max_retries, api_key, events);
    if events.len() == 0 {
        assert(batch_after(begun, events).0.successful =~= turns_confirmed(begun, events).map_values(
            name,
        ));
    } else {
        let less = events.drop_last();
        law_batch_succeeds_by_confirmation(txns, encoding, max_retries, api_key, less);
        law_batch_accounts_for_all(txns, encoding, max_retries, api_key, less);
        let run = batch_after(begun, less).0;
        let before = turns_confirmed(begun, less);
        assert(before.push(run.next).map_values(name) =~= before.map_values(name).push(
            name(run.next),
        ));
        if confirmation_missing(begun, events) {
            let j = choose|j: int|
                0 <= j < events.len() && (#[trigger] batch_after(begun, events.take(j))).0.phase
                    == BatchPhase::Confirmation && (events[j] matches BatchEvent::Confirmation(
                    confirmed_at,
                ) && confirmed_at is None);
            if j < less.len() {
                assert(less.take(j) =~= events.take(j));
                assert(less[j] == events[j]);
                assert(confirmation_missing(begun, less));
            } else {
                assert(events.take(j) =~= less);
            }
        }
    }
}

/// A confirmation that does not come ends a batch at whatever turn: the answer is the
/// error of a call that failed, whose message ends with the lists of the transactions that
/// were confirmed and of those that were skipped before. One that comes adds the
/// transaction to those that were confirmed and passes the turn on.
pub proof fn law_batch_needs_each_confirmation(run: BatchRunView, confirmed_at: Option<i64>)
    requires
        run.wf(),
        run.phase == BatchPhase::Confirmation,
    ensures
        ({
            let (then, action) = batch_step(run, BatchEvent::Confirmation(confirmed_at));
            match confirmed_at {
                None => {
                    &&& then.phase == BatchPhase::Over
                    &&& then.successful == run.successful
                    &&& then.skipped == run.skipped
                    &&& action matches BatchActionView::Finished(Err((code, message)))
                    &&& code == -32000
                    &&& message == failure_text(
                        "Transaction at index "@ + decimal(run.next) + " (signature: "@
                            + run.pending->0.signature
                            + ") failed to confirm within timeout. Successful signatures: "@,
                        run.successful,
                        run.skipped,
                    )
                },
                Some(_) => {
                    &&& then.next == run.next + 1
                    &&& then.successful == run.successful.push(run.pending->0.signature)
                    &&& then.skipped == run.skipped
                    &&& then.next == run.txns.len() ==> action == BatchActionView::Finished(
                        Ok::<Seq<Seq<char>>, (i32, Seq<char>)>(then.successful),
                    )
                },
            }
        }),
{
    let head = "Transaction at index "@ + decimal(run.next) + " (signature: "@
        + run.pending->0.signature
        + ") failed to confirm within timeout. Successful signatures: "@;
    assert(failure_text(head, run.successful, run.skipped) =~= confirm_failure(
        run.next,
        run.pending->0.signature,
        run.successful,
        run.skipped,
    ));
}

/// A message that ends with the transactions that were confirmed and those that were
/// skipped.
pub open spec fn failure_text(
    head: Seq<char>,
    successful: Seq<Seq<char>>,
    skipped: Seq<(Seq<char>, Seq<char>)>,
) -> Seq<char> {
    head + list_text(successful) + ", Skipped signatures: "@ + pair_list_text(skipped)
}

/// When the slots are known a transaction is either sent or skipped. It is sent if there
/// is no current slot, or if its blockhash is known and no more than 150 slots old; a
/// skipped one is listed with the reason, and the turn passes on.
pub proof fn law_batch_sends_or_skips(
    run: BatchRunView,
    current_slot: Option<u64>,
    blockhash_slot: Option<u64>,
    now: Instant,
)
    requires
        run.wf(),
        run.phase == BatchPhase::Slots,
    ensures
        ({
            let event = BatchEvent::Slots { current_slot, blockhash_slot, now };
            let (then, action) = batch_step(run, event);
            let pending = run.pending->0;
            let fresh = match (current_slot, blockhash_slot) {
                (None, _) => true,
                (Some(current), Some(known)) => current <= known + 150,
                (Some(_), None) => false,
            };
            &&& then.successful == run.successful
            &&& fresh <==> action is Send
            &&& fresh ==> {
                &&& then.next == run.next
                &&& then.phase == BatchPhase::Confirmation
                &&& then.pending == run.pending
                &&& then.skipped == run.skipped
                &&& action == BatchActionView::Send(
                    TransactionDataView {
                        wire_transaction: pending.wire_transaction,
                        versioned_transaction: pending.versioned_transaction,
                        sent_at: now,
                        retry_count: 0,
                        max_retries: run.max_retries,
                        api_key: run.api_key,
                    },
                )
            }
            &&& !fresh ==> {
                &&& then.next == run.next + 1
                &&& then.skipped.len() == run.skipped.len() + 1
                &&& then.skipped.drop_last() == run.skipped
                &&& then.skipped.last().0 == pending.signature
                &&& then.skipped.last().1 == if blockhash_slot is None {
                    "blockhash not found in cache"@
                } else {
                    "blockhash expired (current_slot - blockhash_slot > 150)"@
                }
                &&& then.next == run.txns.len() ==> action == BatchActionView::Finished(
                    Ok::<Seq<Seq<char>>, (i32, Seq<char>)>(run.successful),
                )
            }
        }),
{
    let event = BatchEvent::Slots { current_slot, blockhash_slot, now };
    let then = batch_step(run, event).0;
    assert(then.skipped.len() > run.skipped.len() ==> then.skipped.drop_last() =~= run.skipped);
}

/// Whatever the events: while a batch goes on, the transaction whose turn it is is what
/// the text at that place stands for, and the slots are asked for by its blockhash. The
/// batch succeeds only when every transaction had its turn; it fails only because a
/// transaction cannot be decoded or a confirmation did not come.
pub proof fn law_batch_takes_each_text(
    txns: Seq<Seq<char>>,
    encoding: TransactionBinaryEncoding,
    max_retries: usize,
    api_key: Option<Seq<char>>,
    events: Seq<BatchEvent>,
)
    ensures
        ({
            let (run, action) = batch_after(
                batch_begun(txns, encoding, max_retries, api_key),
                events,
            );
            &&& run.max_retries == max_retries
            &&& run.api_key == api_key
            &&& run.phase != BatchPhase::Over ==> {
                let pending = run.pending->0;
                &&& decoded_text(txns[run.next], encoding) == Ok::<Seq<u8>, Seq<char>>(
                    pending.wire_transaction,
                )
                &&& pending.versioned_transaction == pending.wire_transaction
                &&& transaction_in(pending.wire_transaction).signatures.len() > 0
                &&& pending.signature == signature_text(
                    transaction_in(pending.wire_transaction).signatures[0],
                )
            }
            &&& action matches BatchActionView::AskSlots(blockhash) ==> run.phase
                == BatchPhase::Slots && blockhash == digest_text(
                transaction_in(run.pending->0.wire_transaction).recent_blockhash,
            )
            &&& action matches BatchActionView::MissingSigner ==> run.next < txns.len()
                && transaction_in(decoded_text(txns[run.next], encoding)->Ok_0).signatures.len() == 0
            &&& action matches BatchActionView::Finished(result) ==> match result {
                Ok(_) => run.next == txns.len(),
                Err((code, message)) => run.next < txns.len() && {
                    ||| code == -32000 && events.len() > 0 && (
                    events.last() matches BatchEvent::Confirmation(confirmed_at)
                        && confirmed_at is None)
                    ||| code == -32602 && decoded_text(txns[run.next], encoding) is Err && message
                        == failure_text(
                        "Failed to decode transaction at index "@ + decimal(run.next) + ": "@
                            + error_object_text(
                            INVALID_REQUEST_CODE,
                            decoded_text(txns[run.next], encoding)->Err_0,
                        ) + ". Successful signatures so far: "@,
                        run.successful,
                        run.skipped,
                    )
                },
            }
        }),
    decreases events.len(),
{
    law_batch_accounts_for_all(txns, encoding, max_retries, api_key, events);
    let begun = batch_begun(txns, encoding, max_retries, api_key);
    if events.len() > 0 {
        law_batch_takes_each_text(txns, encoding, max_retries, api_key, events.drop_last());
        law_batch_accounts_for_all(txns, encoding, max_retries, api_key, events.drop_last());
    }
    let run = batch_after(begun, events).0;
    let reason = decoded_text(run.txns[run.next], run.encoding)->Err_0;
    assert(decode_failure(
        run.next,
        error_object_text(INVALID_REQUEST_CODE, reason),
        run.successful,
        run.skipped,
    ) =~= failure_text(
        "Failed to decode transaction at index "@ + decimal(run.next) + ": "@ + error_object_text(
            INVALID_REQUEST_CODE,
            reason,
        ) + ". Successful signatures so far: "@,
        run.successful,
        run.skipped,
    ));
}

/// A batch answers only when it is over, and goes on as long as the word comes that it
/// waits for: any other word changes nothing.
pub proof fn law_batch_waits_for_its_word(run: BatchRunView, event: BatchEvent)
    requires
        run.wf(),
    ensures
        ({
            let (then, action) = batch_step(run, event);
            &&& action is Idle ==> then == run
            &&& action is Idle <==> !({
                ||| run.phase == BatchPhase::Slots && event is Slots
                ||| run.phase == BatchPhase::Confirmation && event is Confirmation
            })
            &&& then.txns == run.txns
            &&& then.encoding == run.encoding
            &&& then.next < then.txns.len() && decoded_text(then.txns[then.next], then.encoding)
                is Ok && transaction_in(
                decoded_text(then.txns[then.next], then.encoding)->Ok_0,
            ).signatures.len() > 0 && then.next > run.next ==> action is AskSlots
        }),
{
}

/// An action stands for what it holds.
pub proof fn law_batch_actions_say_all(action: BatchAction, i: int)
    ensures
        match action {
            BatchAction::AskSlots(blockhash) => action@ == BatchActionView::AskSlots(blockhash@),
            BatchAction::Send(transaction) => action@ == BatchActionView::Send(transaction@),
            BatchAction::MissingSigner => action@ == BatchActionView::MissingSigner,
            BatchAction::Finished(Ok(signatures)) => (action@
                matches BatchActionView::Finished(Ok(told)) && told.len() == signatures@.len() && (0
                <= i < told.len() ==> told[i] == signatures@[i]@)),
            BatchAction::Finished(Err(error)) => action@ == BatchActionView::Finished(
                Err((error.code, error.message@)),
            ),
            BatchAction::Idle => action@ == BatchActionView::Idle,
        },
{
}

} // verus!

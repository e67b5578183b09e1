//! Sending a bundle of transactions, each after the one before it.
use crate::errors::{TransactionError, TransportError, TransportErrorView};
use crate::leader_tracker::{contact_views, ContactInfo, ContactView};
use crate::send_run::{
    either, send_begun, send_step, send_turn, Answers, SendAction, SendActionView, SendEvent,
    SendPhase, SendRun, SendRunView,
};
use crate::transaction::{all_true, signature_checks, transaction_in, Digest, Signature};
use crate::transaction_store::{TransactionData, TransactionDataView};
use crate::txn_sender::TxnSenderImpl;
use vstd::prelude::*;

verus! {

/// Where the sending of a bundle stands.
#[derive(Clone, Copy, Debug, PartialEq, Eq, Structural)]
pub enum BundlePhase {
    /// Waits for word whether the previous transaction was committed.
    Previous,
    /// Waits for word whether the transaction's blockhash is valid.
    Preflight,
    /// Waits for the upcoming leaders.
    Leaders,
    /// The transaction is being sent.
    Sending,
    Over,
}

/// Word that the sending of a bundle waits for.
pub enum BundleEvent {
    Committed(Answers),
    Blockhash(Answers),
    Leaders(Vec<ContactInfo>),
    Sent,
}

/// What a [`BundleEvent`] stands for.
pub enum BundleEventView {
    Committed(Answers),
    Blockhash(Answers),
    Leaders(Seq<ContactView>),
    Sent,
}

impl View for BundleEvent {
    type V = BundleEventView;

    open spec fn view(&self) -> BundleEventView {
        match self {
            BundleEvent::Committed(answers) => BundleEventView::Committed(*answers),
            BundleEvent::Blockhash(answers) => BundleEventView::Blockhash(*answers),
            BundleEvent::Leaders(leaders) => BundleEventView::Leaders(contact_views(leaders@)),
            BundleEvent::Sent => BundleEventView::Sent,
        }
    }
}

/// The sending of a bundle of transactions.
pub struct BundleRun {
    transactions: Vec<TransactionData>,
    /// Index of the transaction whose turn it is.
    next: usize,
    /// Signatures of the transactions before that one.
    signatures: Vec<Signature>,
    /// How far that transaction has been sent.
    sending: Option<SendRun>,
    phase: BundlePhase,
}

/// What a [`BundleRun`] stands for.
#[verifier::ext_equal]
pub struct BundleRunView {
    pub transactions: Seq<TransactionDataView>,
    pub next: int,
    pub signatures: Seq<Seq<u8>>,
    pub sending: Option<SendRunView>,
    pub phase: BundlePhase,
}

/// Transactions by their views.
pub open spec fn data_views(transactions: Seq<TransactionData>) -> Seq<TransactionDataView> {
    transactions.map_values(|t: TransactionData| t@)
}

/// Signatures by their views.
pub open spec fn signature_views(signatures: Seq<Signature>) -> Seq<Seq<u8>> {
    signatures.map_values(|s: Signature| s@)
}

/// An optional run by its view.
pub open spec fn sending_view(sending: Option<SendRun>) -> Option<SendRunView> {
    match sending {
        Some(run) => Some(run@),
        None => None,
    }
}

impl View for BundleRun {
    type V = BundleRunView;

    closed spec fn view(&self) -> BundleRunView {
        BundleRunView {
            transactions: data_views(self.transactions@),
            next: self.next as int,
            signatures: signature_views(self.signatures@),
            sending: sending_view(self.sending),
            phase: self.phase,
        }
    }
}

impl BundleRunView {
    /// While the run is not over it is some transaction's turn, and while that one is
    /// being sent its own run is well formed.
    pub open spec fn wf(self) -> bool {
        &&& 0 <= self.next <= self.transactions.len()
        &&& self.phase != BundlePhase::Over ==> self.next < self.transactions.len()
        &&& self.phase == BundlePhase::Sending <==> self.sending is Some
        &&& self.sending matches Some(run) ==> run.wf()
    }
}

/// What is to be done to send a bundle.
pub enum BundleAction {
    /// Ask whether the transaction with this signature was committed and
    /// successful.
    AskCommitted(Signature),
    /// Ask whether this is a valid blockhash.
    AskBlockhash(Digest),
    /// Track the transaction and look up the upcoming leaders for it.
    Begin(TransactionData),
    /// Send the wire transaction to a leader; the number counts the leaders that
    /// are sent to.
    Send { wire_transaction: Vec<u8>, leader: ContactInfo, leader_num: usize },
    /// The transaction has no signature to be known by, and the bundle cannot go on.
    MissingSigner,
    /// The run is over.
    Finished(Result<Vec<Signature>, TransportError>),
    /// Nothing: the event was not waited for.
    Idle,
}

/// What a [`BundleAction`] stands for.
pub enum BundleActionView {
    AskCommitted(Seq<u8>),
    AskBlockhash(Seq<u8>),
    Begin(TransactionDataView),
    Send { wire_transaction: Seq<u8>, leader: ContactView, leader_num: int },
    MissingSigner,
    Finished(Result<Seq<Seq<u8>>, TransportErrorView>),
    Idle,
}

/// The result of a run by its view.
pub open spec fn bundle_result_view(result: Result<Vec<Signature>, TransportError>) -> Result<
    Seq<Seq<u8>>,
    TransportErrorView,
> {
    match result {
        Ok(signatures) => Ok(signature_views(signatures@)),
        Err(e) => Err(e@),
    }
}

impl View for BundleAction {
    type V = BundleActionView;

    open spec fn view(&self) -> BundleActionView {
        match self {
            BundleAction::AskCommitted(signature) => BundleActionView::AskCommitted(signature@),
            BundleAction::AskBlockhash(digest) => BundleActionView::AskBlockhash(digest@),
            BundleAction::Begin(transaction) => BundleActionView::Begin(transaction@),
            BundleAction::Send { wire_transaction, leader, leader_num } => BundleActionView::Send {
                wire_transaction: wire_transaction@,
                leader: leader@,
                leader_num: *leader_num as int,
            },
            BundleAction::MissingSigner => BundleActionView::MissingSigner,
            BundleAction::Finished(result) => BundleActionView::Finished(
                bundle_result_view(*result),
            ),
            BundleAction::Idle => BundleActionView::Idle,
        }
    }
}

/// The signatures in a transaction.
pub open spec fn signatures_in(transaction: TransactionDataView) -> Seq<Seq<u8>> {
    transaction_in(transaction.versioned_transaction).signatures
}

/// The end of a run.
pub open spec fn bundle_over(run: BundleRunView, action: BundleActionView) -> (
    BundleRunView,
    BundleActionView,
) {
    (BundleRunView { phase: BundlePhase::Over, sending: None, ..run }, action)
}

/// The end of a run that fails.
pub open spec fn bundle_fails(run: BundleRunView, error: TransportErrorView) -> (
    BundleRunView,
    BundleActionView,
) {
    bundle_over(run, BundleActionView::Finished(Err(error)))
}

/// The checks before a transaction is sent: its signatures are verified, then its
/// blockhash is asked about.
pub open spec fn bundle_preflight(run: BundleRunView) -> (BundleRunView, BundleActionView) {
    let encoded = run.transactions[run.next].versioned_transaction;
    if !all_true(signature_checks(encoded)) {
        bundle_fails(run, TransportErrorView::TransactionError(TransactionError::SignatureFailure))
    } else {
        (
            BundleRunView { phase: BundlePhase::Preflight, sending: None, ..run },
            BundleActionView::AskBlockhash(transaction_in(encoded).recent_blockhash),
        )
    }
}

/// The turn of the next transaction, which begins with the question whether the
/// previous one was committed, if there is one; without a next transaction the run
/// succeeds.
pub open spec fn bundle_turn(run: BundleRunView) -> (BundleRunView, BundleActionView) {
    if run.next >= run.transactions.len() {
        bundle_over(run, BundleActionView::Finished(Ok(run.signatures)))
    } else if run.next == 0 {
        bundle_preflight(run)
    } else if signatures_in(run.transactions[run.next - 1]).len() == 0 {
        bundle_fails(run, TransportErrorView::TransactionError(TransactionError::SignatureFailure))
    } else {
        (
            BundleRunView { phase: BundlePhase::Previous, sending: None, ..run },
            BundleActionView::AskCommitted(signatures_in(run.transactions[run.next - 1])[0]),
        )
    }
}

/// What follows on a step of the transaction that is being sent.
pub open spec fn bundle_sending(run: BundleRunView, sending: SendRunView, action: SendActionView)
    -> (BundleRunView, BundleActionView) {
    let going_on = BundleRunView { phase: BundlePhase::Sending, sending: Some(sending), ..run };
    match action {
        SendActionView::AskCommitted(signature) => (
            going_on,
            BundleActionView::AskCommitted(signature),
        ),
        SendActionView::AskBlockhash(digest) => (going_on, BundleActionView::AskBlockhash(digest)),
        SendActionView::Send { wire_transaction, leader, leader_num } => (
            going_on,
            BundleActionView::Send { wire_transaction, leader, leader_num },
        ),
        SendActionView::Finished(Ok(signature)) => bundle_turn(
            BundleRunView {
                next: run.next + 1,
                signatures: run.signatures.push(signature),
                ..run
            },
        ),
        SendActionView::Finished(Err(error)) => bundle_fails(run, error),
        SendActionView::Idle => (going_on, BundleActionView::Idle),
    }
}

/// What follows on an event. One that was not waited for changes nothing.
pub open spec fn bundle_step(run: BundleRunView, event: BundleEventView) -> (
    BundleRunView,
    BundleActionView,
) {
    match (run.phase, event) {
        (BundlePhase::Previous, BundleEventView::Committed(answers)) => if either(answers) {
            bundle_preflight(run)
        } else {
            bundle_fails(
                run,
                TransportErrorView::Custom(
                    "Previous transaction is not confirmed/finalized and successful"@,
                ),
            )
        },
        (BundlePhase::Preflight, BundleEventView::Blockhash(answers)) => if !either(answers) {
            bundle_fails(
                run,
                TransportErrorView::TransactionError(TransactionError::BlockhashNotFound),
            )
        } else {
            (
                BundleRunView { phase: BundlePhase::Leaders, ..run },
                BundleActionView::Begin(run.transactions[run.next]),
            )
        },
        (BundlePhase::Leaders, BundleEventView::Leaders(leaders)) => {
            let transaction = run.transactions[run.next];
            if signatures_in(transaction).len() == 0 {
                bundle_over(run, BundleActionView::MissingSigner)
            } else {
                let (sending, action) = send_turn(send_begun(transaction, leaders));
                bundle_sending(run, sending, action)
            }
        },
        (BundlePhase::Sending, BundleEventView::Committed(answers)) => {
            let (sending, action) = send_step(run.sending->0, SendEvent::Committed(answers));
            bundle_sending(run, sending, action)
        },
        (BundlePhase::Sending, BundleEventView::Blockhash(answers)) => {
            let (sending, action) = send_step(run.sending->0, SendEvent::Blockhash(answers));
            bundle_sending(run, sending, action)
        },
        (BundlePhase::Sending, BundleEventView::Sent) => {
            let (sending, action) = send_step(run.sending->0, SendEvent::Sent);
            bundle_sending(run, sending, action)
        },
        _ => (run, BundleActionView::Idle),
    }
}

/// The run before its first step.
pub open spec fn bundle_begun(transactions: Seq<TransactionDataView>) -> BundleRunView {
    BundleRunView {
        transactions,
        next: 0,
        signatures: Seq::empty(),
        sending: None,
        phase: BundlePhase::Over,
    }
}

impl BundleRun {
    /// Begins to send the transactions, one after the other.
    pub fn begin(transactions: Vec<TransactionData>) -> (r: (BundleRun, BundleAction))
        ensures
            (r.0@, r.1@) == bundle_turn(bundle_begun(data_views(transactions@))),
            r.0@.wf(),
    {
        let run = BundleRun {
            transactions,
            next: 0,
            signatures: Vec::new(),
            sending: None,
            phase: BundlePhase::Over,
        };
        assert(run@ =~= bundle_begun(data_views(transactions@)));
        run.turn()
    }

    /// Ends the run.
    fn over(self, action: BundleAction) -> (r: (BundleRun, BundleAction))
        requires
            0 <= self.next <= self.transactions.len(),
        ensures
            (r.0@, r.1@) == bundle_over(self@, action@),
            r.0@.wf(),
    {
        (BundleRun { phase: BundlePhase::Over, sending: None, ..self }, action)
    }

    /// Gives the next transaction its turn.
    fn turn(self) -> (r: (BundleRun, BundleAction))
        requires
            0 <= self.next <= self.transactions.len(),
        ensures
            (r.0@, r.1@) == bundle_turn(self@),
            r.0@.wf(),
    {
        if self.next >= self.transactions.len() {
            let mut signatures: Vec<Signature> = Vec::new();
            for i in 0..self.signatures.len()
                invariant
                    signatures@ == self.signatures@.take(i as int),
            {
                signatures.push(self.signatures[i]);
            }
            assert(signatures@ =~= self.signatures@);
            return self.over(BundleAction::Finished(Ok(signatures)));
        }
        if self.next == 0 {
            return self.preflight();
        }
        assert(self@.transactions[self.next - 1] == self.transactions[self.next - 1]@);
        match self.transactions[self.next - 1].versioned_transaction.signer_signature() {
            Some(signature) => (
                BundleRun { phase: BundlePhase::Previous, sending: None, ..self },
                BundleAction::AskCommitted(signature),
            ),
            None => self.over(
                BundleAction::Finished(
                    Err(TransportError::TransactionError(TransactionError::SignatureFailure)),
                ),
            ),
        }
    }

    /// Checks the transaction whose turn it is before it is sent.
    fn preflight(self) -> (r: (BundleRun, BundleAction))
        requires
            0 <= self.next < self.transactions.len(),
        ensures
            (r.0@, r.1@) == bundle_preflight(self@),
            r.0@.wf(),
    {
        assert(self@.transactions[self.next as int] == self.transactions[self.next as int]@);
        match TxnSenderImpl::preflight_signatures(
            &self.transactions[self.next].versioned_transaction,
        ) {
            Err(error) => self.over(
                BundleAction::Finished(Err(TransportError::TransactionError(error))),
            ),
            Ok(()) => {
                let blockhash =
                    self.transactions[self.next].versioned_transaction.parts().recent_blockhash;
                (
                    BundleRun { phase: BundlePhase::Preflight, sending: None, ..self },
                    BundleAction::AskBlockhash(blockhash),
                )
            },
        }
    }

    /// Takes in a step of the transaction that is being sent.
    fn after_sending(self, sending: SendRun, action: SendAction) -> (r: (BundleRun, BundleAction))
        requires
            0 <= self.next < self.transactions.len(),
            sending@.wf(),
        ensures
            (r.0@, r.1@) == bundle_sending(self@, sending@, action@),
            r.0@.wf(),
    {
        match action {
            SendAction::Finished(Ok(signature)) => {
                let ghost before = self@;
                let mut signatures = self.signatures;
                signatures.push(signature);
                let run = BundleRun { next: self.next + 1, signatures, ..self };
                assert(run@.signatures =~= before.signatures.push(signature@));
                run.turn()
            },
            SendAction::Finished(Err(error)) => self.over(BundleAction::Finished(Err(error))),
            SendAction::AskCommitted(signature) => (
                BundleRun { phase: BundlePhase::Sending, sending: Some(sending), ..self },
                BundleAction::AskCommitted(signature),
            ),
            SendAction::AskBlockhash(digest) => (
                BundleRun { phase: BundlePhase::Sending, sending: Some(sending), ..self },
                BundleAction::AskBlockhash(digest),
            ),
            SendAction::Send { wire_transaction, leader, leader_num } => (
                BundleRun { phase: BundlePhase::Sending, sending: Some(sending), ..self },
                BundleAction::Send { wire_transaction, leader, leader_num },
            ),
            SendAction::Idle => (
                BundleRun { phase: BundlePhase::Sending, sending: Some(sending), ..self },
                BundleAction::Idle,
            ),
        }
    }

    /// Takes in an event and says what to do next.
    pub fn step(self, event: BundleEvent) -> (r: (BundleRun, BundleAction))
        requires
            self@.wf(),
        ensures
            (r.0@, r.1@) == bundle_step(self@, event@),
            r.0@.wf(),
    {
        assert(self@.transactions.len() == self.transactions.len());
        match self.phase {
            BundlePhase::Previous => match event {
                BundleEvent::Committed(answers) => {
                    if TxnSenderImpl::transaction_confirmed_or_finalized_and_successful(answers) {
                        self.preflight()
                    } else {
                        let error = TransportError::Custom(
                            "Previous transaction is not confirmed/finalized and successful".to_string(),
                        );
                        self.over(BundleAction::Finished(Err(error)))
                    }
                },
                _ => (self, BundleAction::Idle),
            },
            BundlePhase::Preflight => match event {
                BundleEvent::Blockhash(answers) => match TxnSenderImpl::preflight_blockhash(
                    answers,
                ) {
                    Err(error) => self.over(
                        BundleAction::Finished(Err(TransportError::TransactionError(error))),
                    ),
                    Ok(()) => {
                        assert(self@.transactions[self.next as int]
                            == self.transactions[self.next as int]@);
                        let transaction = self.transactions[self.next].clone();
                        (
                            BundleRun { phase: BundlePhase::Leaders, ..self },
                            BundleAction::Begin(transaction),
                        )
                    },
                },
                _ => (self, BundleAction::Idle),
            },
            BundlePhase::Leaders => match event {
                BundleEvent::Leaders(leaders) => {
                    assert(self@.transactions[self.next as int]
                        == self.transactions[self.next as int]@);
                    match SendRun::begin(self.transactions[self.next].clone(), leaders) {
                        Some((sending, action)) => self.after_sending(sending, action),
                        None => self.over(BundleAction::MissingSigner),
                    }
                },
                _ => (self, BundleAction::Idle),
            },
            BundlePhase::Sending => {
                let event = match event {
                    BundleEvent::Committed(answers) => SendEvent::Committed(answers),
                    BundleEvent::Blockhash(answers) => SendEvent::Blockhash(answers),
                    BundleEvent::Sent => SendEvent::Sent,
                    BundleEvent::Leaders(_) => {
                        return (self, BundleAction::Idle);
                    },
                };
                let BundleRun { transactions, next, signatures, sending, phase } = self;
                match sending {
                    Some(sending) => {
                        let (sending, action) = sending.step(event);
                        let run = BundleRun {
                            transactions,
                            next,
                            signatures,
                            sending: None,
                            phase,
                        };
                        run.after_sending(sending, action)
                    },
                    None => (
                        BundleRun { transactions, next, signatures, sending: None, phase },
                        BundleAction::Idle,
                    ),
                }
            },
            BundlePhase::Over => (self, BundleAction::Idle),
        }
    }
}

/// The signature by which a transaction is known.
pub open spec fn signer_of(transaction: TransactionDataView) -> Seq<u8> {
    signatures_in(transaction)[0]
}

/// The run has gathered the signatures of the transactions before the one whose turn
/// it is, in order, and that one is being sent under its own signature.
pub open spec fn in_order(run: BundleRunView) -> bool {
    &&& run.signatures == run.transactions.take(run.next).map_values(
        |t: TransactionDataView| signer_of(t),
    )
    &&& run.sending matches Some(sending) ==> sending.signature == signer_of(
        run.transactions[run.next],
    )
}

proof fn lemma_turn_in_order(run: BundleRunView)
    requires
        0 <= run.next <= run.transactions.len(),
        run.sending is None,
        in_order(run),
    ensures
        in_order(bundle_turn(run).0),
        bundle_turn(run).0.transactions == run.transactions,
        bundle_turn(run).1 matches BundleActionView::Finished(Ok(signatures))
            ==> signatures == run.transactions.map_values(|t: TransactionDataView| signer_of(t)),
{
    if run.next >= run.transactions.len() {
        assert(run.transactions.take(run.next) =~= run.transactions);
    }
}

proof fn lemma_sending_in_order(
    run: BundleRunView,
    sending: SendRunView,
    action: SendActionView,
)
    requires
        0 <= run.next < run.transactions.len(),
        in_order(run),
        sending.signature == signer_of(run.transactions[run.next]),
        action matches SendActionView::Finished(Ok(signature)) ==> signature == sending.signature,
    ensures
        in_order(bundle_sending(run, sending, action).0),
        bundle_sending(run, sending, action).0.transactions == run.transactions,
        bundle_sending(run, sending, action).1 matches BundleActionView::Finished(Ok(signatures))
            ==> signatures == run.transactions.map_values(|t: TransactionDataView| signer_of(t)),
{
    if let SendActionView::Finished(Ok(signature)) = action {
        let after = BundleRunView {
            next: run.next + 1,
            signatures: run.signatures.push(signature),
            ..run
        };
        assert(after.transactions.take(after.next) =~= run.transactions.take(run.next).push(
            run.transactions[run.next],
        ));
        assert(after.signatures =~= after.transactions.take(after.next).map_values(
            |t: TransactionDataView| signer_of(t),
        ));
        let alone = BundleRunView { sending: None, ..after };
        lemma_turn_in_order(alone);
        assert(bundle_turn(alone) == bundle_turn(after));
    }
}

/// A bundle that succeeds is answered with the signatures of its transactions, all
/// of them and in their order, whatever events it took.
pub proof fn law_bundle_answers_in_order(
    transactions: Seq<TransactionDataView>,
    events: Seq<BundleEventView>,
)
    ensures
        in_order(bundle_after(transactions, events).0),
        bundle_after(transactions, events).0.wf(),
        bundle_after(transactions, events).0.transactions == transactions,
        bundle_after(transactions, events).1 matches BundleActionView::Finished(Ok(signatures))
            ==> signatures == transactions.map_values(|t: TransactionDataView| signer_of(t)),
    decreases events.len(),
{
    if events.len() == 0 {
        let begun = bundle_begun(transactions);
        assert(in_order(begun)) by {
            assert(begun.signatures =~= transactions.take(0).map_values(
                |t: TransactionDataView| signer_of(t),
            ));
        }
        lemma_turn_in_order(begun);
    } else {
        law_bundle_answers_in_order(transactions, events.drop_last());
        let run = bundle_after(transactions, events.drop_last()).0;
        match (run.phase, events.last()) {
            (BundlePhase::Leaders, BundleEventView::Leaders(leaders)) => {
                let transaction = run.transactions[run.next];
                let (sending, action) = send_turn(send_begun(transaction, leaders));
                lemma_sending_in_order(run, sending, action);
            },
            (BundlePhase::Sending, BundleEventView::Committed(answers)) => {
                let (sending, action) = send_step(run.sending->0, SendEvent::Committed(answers));
                lemma_sending_in_order(run, sending, action);
            },
            (BundlePhase::Sending, BundleEventView::Blockhash(answers)) => {
                let (sending, action) = send_step(run.sending->0, SendEvent::Blockhash(answers));
                lemma_sending_in_order(run, sending, action);
            },
            (BundlePhase::Sending, BundleEventView::Sent) => {
                let (sending, action) = send_step(run.sending->0, SendEvent::Sent);
                lemma_sending_in_order(run, sending, action);
            },
            _ => {},
        }
    }
}

/// The run and its last action after a series of events.
pub open spec fn bundle_after(
    transactions: Seq<TransactionDataView>,
    events: Seq<BundleEventView>,
) -> (BundleRunView, BundleActionView)
    decreases events.len(),
{
    if events.len() == 0 {
        bundle_turn(bundle_begun(transactions))
    } else {
        bundle_step(bundle_after(transactions, events.drop_last()).0, events.last())
    }
}

/// Once a bundle has failed, or is otherwise over, nothing more is done for it.
pub proof fn law_bundle_stays_over(run: BundleRunView, event: BundleEventView)
    requires
        run.phase == BundlePhase::Over,
    ensures
        bundle_step(run, event) == (run, BundleActionView::Idle),
{
}

/// Past its signature check, the transaction whose turn it is has good signatures.
pub open spec fn signatures_verified(run: BundleRunView) -> bool {
    run.phase == BundlePhase::Preflight || run.phase == BundlePhase::Leaders || run.phase
        == BundlePhase::Sending ==> all_true(
        signature_checks(run.transactions[run.next].versioned_transaction),
    )
}

proof fn lemma_signatures_verified(
    transactions: Seq<TransactionDataView>,
    events: Seq<BundleEventView>,
)
    ensures
        signatures_verified(bundle_after(transactions, events).0),
    decreases events.len(),
{
    if events.len() > 0 {
        lemma_signatures_verified(transactions, events.drop_last());
    }
}

/// A transaction of a bundle is begun only when its signatures are good and a level
/// has just said that its blockhash is valid.
pub proof fn law_bundle_checks_first(
    transactions: Seq<TransactionDataView>,
    events: Seq<BundleEventView>,
)
    requires
        bundle_after(transactions, events).1 is Begin,
    ensures
        bundle_after(transactions, events).1 == BundleActionView::Begin(
            transactions[bundle_after(transactions, events).0.next],
        ),
        all_true(
            signature_checks(
                transactions[bundle_after(transactions, events).0.next].versioned_transaction,
            ),
        ),
        events.len() > 0,
        events.last() matches BundleEventView::Blockhash(answers) && either(answers),
{
    lemma_signatures_verified(transactions, events);
    law_bundle_answers_in_order(transactions, events);
}

/// What a bundle waits for after a series of events: its last action that asked for
/// something.
pub open spec fn last_request(
    transactions: Seq<TransactionDataView>,
    events: Seq<BundleEventView>,
) -> BundleActionView
    decreases events.len(),
{
    let action = bundle_after(transactions, events).1;
    if events.len() > 0 && action is Idle {
        last_request(transactions, events.drop_last())
    } else {
        action
    }
}

/// Whatever the events, what a bundle waits for is about the right transaction: before a
/// transaction's turn, whether the one right before it was committed; at its turn, its own
/// blockhash, then the leaders for it, then its own first signature and its blockhash, and
/// its own wire form is what is sent.
pub proof fn law_bundle_asks_about_the_right_transaction(
    transactions: Seq<TransactionDataView>,
    events: Seq<BundleEventView>,
)
    ensures
        ({
            let run = bundle_after(transactions, events).0;
            let request = last_request(transactions, events);
            let current = transactions[run.next];
            let parts = transaction_in(current.versioned_transaction);
            match run.phase {
                BundlePhase::Previous => 0 < run.next && request == BundleActionView::AskCommitted(
                    transaction_in(transactions[run.next - 1].versioned_transaction).signatures[0],
                ),
                BundlePhase::Preflight => request == BundleActionView::AskBlockhash(
                    parts.recent_blockhash,
                ),
                BundlePhase::Leaders => request == BundleActionView::Begin(current),
                BundlePhase::Sending => {
                    let sending = run.sending->0;
                    &&& sending.data == current
                    &&& sending.signature == parts.signatures[0]
                    &&& match sending.phase {
                        SendPhase::Committed => request == BundleActionView::AskCommitted(
                            parts.signatures[0],
                        ),
                        SendPhase::Blockhash => request == BundleActionView::AskBlockhash(
                            parts.recent_blockhash,
                        ),
                        SendPhase::Sending => request == (BundleActionView::Send {
                            wire_transaction: current.wire_transaction,
                            leader: sending.leaders[sending.next],
                            leader_num: sending.leader_num,
                        }),
                        SendPhase::Over => false,
                    }
                },
                BundlePhase::Over => true,
            }
        }),
    decreases events.len(),
{
    law_bundle_answers_in_order(transactions, events);
    if events.len() > 0 {
        let less = events.drop_last();
        law_bundle_asks_about_the_right_transaction(transactions, less);
        law_bundle_answers_in_order(transactions, less);
    }
}

/// At event number `j` word came that the transaction before number `i` is committed at
/// one of the levels, in answer to the question about its first signature.
pub open spec fn previous_committed_at(
    transactions: Seq<TransactionDataView>,
    events: Seq<BundleEventView>,
    i: int,
    j: int,
) -> bool {
    let run = bundle_after(transactions, events.take(j)).0;
    &&& 0 <= j < events.len()
    &&& run.phase == BundlePhase::Previous
    &&& run.next == i
    &&& last_request(transactions, events.take(j)) == BundleActionView::AskCommitted(
        transaction_in(transactions[i - 1].versioned_transaction).signatures[0],
    )
    &&& events[j] matches BundleEventView::Committed(answers) && (answers.confirmed
        || answers.finalized)
}

proof fn lemma_previous_committed(
    transactions: Seq<TransactionDataView>,
    events: Seq<BundleEventView>,
)
    ensures
        ({
            let run = bundle_after(transactions, events).0;
            run.next > 0 && (run.phase == BundlePhase::Preflight || run.phase
                == BundlePhase::Leaders || run.phase == BundlePhase::Sending) ==> exists|j: int|
                previous_committed_at(transactions, events, run.next, j)
        }),
    decreases events.len(),
{
    let run = bundle_after(transactions, events).0;
    if events.len() > 0 && run.next > 0 && (run.phase == BundlePhase::Preflight || run.phase
        == BundlePhase::Leaders || run.phase == BundlePhase::Sending) {
        let less = events.drop_last();
        let last = events.len() - 1;
        assert(events.take(last) =~= less);
        lemma_previous_committed(transactions, less);
        law_bundle_asks_about_the_right_transaction(transactions, less);
        law_bundle_answers_in_order(transactions, less);
        let before = bundle_after(transactions, less).0;
        if before.phase == BundlePhase::Previous && events.last() is Committed {
            assert(previous_committed_at(transactions, events, run.next, last));
        } else {
            assert(before.next == run.next);
            let j = choose|j: int| previous_committed_at(transactions, less, run.next, j);
            assert(events.take(j) =~= less.take(j));
            assert(previous_committed_at(transactions, events, run.next, j));
        }
    }
}

/// A transaction of a bundle other than the first is begun only after word came that the
/// one right before it is committed at one of the levels.
pub proof fn law_bundle_waits_for_the_previous(
    transactions: Seq<TransactionDataView>,
    events: Seq<BundleEventView>,
)
    requires
        bundle_after(transactions, events).1 is Begin,
        bundle_after(transactions, events).0.next > 0,
    ensures
        exists|j: int|
            previous_committed_at(
                transactions,
                events,
                bundle_after(transactions, events).0.next,
                j,
            ),
{
    lemma_previous_committed(transactions, events);
}

/// What a bundle does on word about the previous transaction and on word about a
/// blockhash. No at both levels ends it with the error that says so; yes at one of them
/// leads on, from the previous transaction to the checks of the current one, from its
/// blockhash to its sending. A signature that does not check ends it, too.
pub proof fn law_bundle_goes_on_by_yes(run: BundleRunView, answers: Answers)
    requires
        run.wf(),
    ensures
        ({
            let yes = answers.confirmed || answers.finalized;
            let current = run.transactions[run.next];
            let checks = signature_checks(current.versioned_transaction);
            let (on_previous, then) = bundle_step(run, BundleEventView::Committed(answers));
            let (on_blockhash, next) = bundle_step(run, BundleEventView::Blockhash(answers));
            &&& run.phase == BundlePhase::Previous && !yes ==> on_previous.phase
                == BundlePhase::Over && then == BundleActionView::Finished(
                Err(
                    TransportErrorView::Custom(
                        "Previous transaction is not confirmed/finalized and successful"@,
                    ),
                ),
            )
            &&& run.phase == BundlePhase::Previous && yes && (forall|k: int|
                0 <= k < checks.len() ==> #[trigger] checks[k]) ==> on_previous.phase
                == BundlePhase::Preflight && on_previous.next == run.next && then
                == BundleActionView::AskBlockhash(
                transaction_in(current.versioned_transaction).recent_blockhash,
            )
            &&& run.phase == BundlePhase::Previous && yes && (exists|k: int|
                0 <= k < checks.len() && !#[trigger] checks[k]) ==> on_previous.phase
                == BundlePhase::Over && then == BundleActionView::Finished(
                Err(TransportErrorView::TransactionError(TransactionError::SignatureFailure)),
            )
            &&& run.phase == BundlePhase::Preflight && !yes ==> on_blockhash.phase
                == BundlePhase::Over && next == BundleActionView::Finished(
                Err(TransportErrorView::TransactionError(TransactionError::BlockhashNotFound)),
            )
            &&& run.phase == BundlePhase::Preflight && yes ==> on_blockhash.phase
                == BundlePhase::Leaders && on_blockhash.next == run.next && next
                == BundleActionView::Begin(current)
        }),
{
}

/// How a bundle goes with the run that sends its current transaction: it does what that
/// run asks for, fails with it, and when it succeeds passes the turn on; after the last
/// transaction the bundle succeeds, else it asks whether this one is committed.
pub proof fn law_bundle_follows_its_runs(
    run: BundleRunView,
    sending: SendRunView,
    action: SendActionView,
)
    requires
        0 <= run.next < run.transactions.len(),
        signatures_in(run.transactions[run.next]).len() > 0,
    ensures
        ({
            let (then, next) = bundle_sending(run, sending, action);
            match action {
                SendActionView::AskCommitted(signature) => then.sending == Some(sending) && next
                    == BundleActionView::AskCommitted(signature),
                SendActionView::AskBlockhash(blockhash) => then.sending == Some(sending) && next
                    == BundleActionView::AskBlockhash(blockhash),
                SendActionView::Send { wire_transaction, leader, leader_num } => then.sending
                    == Some(sending) && next == (BundleActionView::Send {
                    wire_transaction,
                    leader,
                    leader_num,
                }),
                SendActionView::Idle => then.sending == Some(sending) && next is Idle,
                SendActionView::Finished(Err(error)) => then.phase == BundlePhase::Over && next
                    == BundleActionView::Finished(Err(error)),
                SendActionView::Finished(Ok(signature)) => {
                    &&& then.next == run.next + 1
                    &&& then.signatures == run.signatures.push(signature)
                    &&& then.next == run.transactions.len() ==> next == BundleActionView::Finished(
                        Ok(then.signatures),
                    )
                    &&& then.next < run.transactions.len() ==> next
                        == BundleActionView::AskCommitted(
                        transaction_in(
                            run.transactions[run.next].versioned_transaction,
                        ).signatures[0],
                    )
                },
            }
        }),
{
}

/// A bundle takes in only the word that it waits for; any other changes nothing. The run
/// that sends a transaction begins with the leaders that are named for it and hears all
/// word that comes while it lasts.
pub proof fn law_bundle_waits_for_its_word(run: BundleRunView, event: BundleEventView)
    requires
        run.wf(),
    ensures
        ({
            let (then, action) = bundle_step(run, event);
            &&& then.transactions == run.transactions
            &&& (match run.phase {
                BundlePhase::Previous => !(event is Committed),
                BundlePhase::Preflight => !(event is Blockhash),
                BundlePhase::Leaders => !(event is Leaders),
                BundlePhase::Sending => event is Leaders,
                BundlePhase::Over => true,
            }) ==> then == run && action is Idle
            &&& run.phase == BundlePhase::Leaders && event is Leaders && then.sending is Some
                ==> then.sending->0.leaders == event->Leaders_0 && then.sending->0.data
                == run.transactions[run.next]
            &&& run.phase == BundlePhase::Sending && event is Committed ==> (then, action)
                == bundle_sending(
                run,
                send_step(run.sending->0, SendEvent::Committed(event->Committed_0)).0,
                send_step(run.sending->0, SendEvent::Committed(event->Committed_0)).1,
            )
            &&& run.phase == BundlePhase::Sending && event is Blockhash ==> (then, action)
                == bundle_sending(
                run,
                send_step(run.sending->0, SendEvent::Blockhash(event->Blockhash_0)).0,
                send_step(run.sending->0, SendEvent::Blockhash(event->Blockhash_0)).1,
            )
            &&& run.phase == BundlePhase::Sending && event is Sent ==> (then, action)
                == bundle_sending(
                run,
                send_step(run.sending->0, SendEvent::Sent).0,
                send_step(run.sending->0, SendEvent::Sent).1,
            )
            &&& run.phase == BundlePhase::Leaders && transaction_in(
                run.transactions[run.next].versioned_transaction,
            ).signatures.len() == 0 && event is Leaders ==> action is MissingSigner
        }),
{
}

/// A bundle begins with its first transaction: with a bad signature it fails at once, else
/// the first question is about that one's blockhash. Without transactions it succeeds.
pub proof fn law_bundle_begins_with_the_first(transactions: Seq<TransactionDataView>)
    ensures
        ({
            let (run, action) = bundle_after(transactions, Seq::empty());
            let checks = signature_checks(transactions[0].versioned_transaction);
            &&& transactions.len() == 0 ==> action == BundleActionView::Finished(Ok(Seq::empty()))
            &&& transactions.len() > 0 && (forall|k: int|
                0 <= k < checks.len() ==> #[trigger] checks[k]) ==> run.next == 0 && action
                == BundleActionView::AskBlockhash(
                transaction_in(transactions[0].versioned_transaction).recent_blockhash,
            )
            &&& transactions.len() > 0 && (exists|k: int|
                0 <= k < checks.len() && !#[trigger] checks[k]) ==> action
                == BundleActionView::Finished(
                Err(TransportErrorView::TransactionError(TransactionError::SignatureFailure)),
            )
        }),
{
}

/// An action stands for what it holds.
pub proof fn law_bundle_actions_say_all(action: BundleAction, i: int)
    ensures
        match action {
            BundleAction::AskCommitted(signature) => action@ == BundleActionView::AskCommitted(
                signature.bytes@,
            ),
            BundleAction::AskBlockhash(digest) => action@ == BundleActionView::AskBlockhash(
                digest.bytes@,
            ),
            BundleAction::Begin(transaction) => action@ == BundleActionView::Begin(transaction@),
            BundleAction::Send { wire_transaction, leader, leader_num } => action@ == (
            BundleActionView::Send {
                wire_transaction: wire_transaction@,
                leader: leader@,
                leader_num: leader_num as int,
            }),
            BundleAction::MissingSigner => action@ == BundleActionView::MissingSigner,
            BundleAction::Finished(Ok(signatures)) => (action@
                matches BundleActionView::Finished(Ok(told)) && told.len() == signatures@.len() && (
            0 <= i < told.len() ==> told[i] == signatures@[i].bytes@)),
            BundleAction::Finished(Err(TransportError::TransactionError(error))) => action@
                == BundleActionView::Finished(Err(TransportErrorView::TransactionError(error))),
            BundleAction::Finished(Err(TransportError::Custom(text))) => action@
                == BundleActionView::Finished(Err(TransportErrorView::Custom(text@))),
            BundleAction::Idle => action@ == BundleActionView::Idle,
        },
{
}

/// Events and transactions stand for what they hold, one for one.
pub proof fn law_bundle_events_say_all(
    event: BundleEvent,
    transactions: Seq<TransactionData>,
    i: int,
)
    ensures
        data_views(transactions).len() == transactions.len(),
        0 <= i < transactions.len() ==> data_views(transactions)[i] == transactions[i]@,
        match event {
            BundleEvent::Committed(answers) => event@ == BundleEventView::Committed(answers),
            BundleEvent::Blockhash(answers) => event@ == BundleEventView::Blockhash(answers),
            BundleEvent::Leaders(leaders) => (event@ matches BundleEventView::Leaders(told)
                && told.len() == leaders@.len() && (0 <= i < told.len() ==> told[i]
                == leaders@[i]@)),
            BundleEvent::Sent => event@ == BundleEventView::Sent,
        },
{
}

/// At the turn of a transaction that is not the first, the previous one must have a
/// signature to be asked about: without one the bundle fails, and with one nothing but that
/// question comes first.
pub proof fn law_bundle_needs_the_previous_signature(run: BundleRunView)
    requires
        0 < run.next < run.transactions.len(),
    ensures
        ({
            let previous = run.transactions[run.next - 1].versioned_transaction;
            let (then, action) = bundle_turn(run);
            &&& action == BundleActionView::Finished(
                Err(TransportErrorView::TransactionError(TransactionError::SignatureFailure)),
            ) <==> transaction_in(previous).signatures.len() == 0
            &&& action is AskCommitted <==> transaction_in(previous).signatures.len() > 0
            &&& action is AskCommitted <==> then.phase == BundlePhase::Previous
            &&& then.next == run.next
            &&& then.signatures == run.signatures
        }),
{
}

} // verus!

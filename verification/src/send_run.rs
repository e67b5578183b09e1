//! Sending one transaction to the upcoming leaders.
use crate::errors::{TransactionError, TransportError, TransportErrorView};
use crate::leader_tracker::{contact_views, ContactInfo, ContactView};
use crate::transaction::{
    all_true, copy_bytes, signature_checks, transaction_in, Digest, Signature,
};
use crate::transaction_store::{TransactionData, TransactionDataView};
use crate::txn_sender::TxnSenderImpl;
use vstd::prelude::*;

verus! {

/// The answers to one question at the two commitment levels.
#[derive(Clone, Copy, Debug, PartialEq, Eq, Structural)]
pub struct Answers {
    pub confirmed: bool,
    pub finalized: bool,
}

/// The answer is yes at one of the levels.
pub open spec fn either(answers: Answers) -> bool {
    answers.confirmed || answers.finalized
}

/// Where the sending of a transaction stands.
#[derive(Clone, Copy, Debug, PartialEq, Eq, Structural)]
pub enum SendPhase {
    /// Waits for word whether the transaction was committed.
    Committed,
    /// Waits for word whether the transaction's blockhash is valid.
    Blockhash,
    /// Waits until the transaction is under way to a leader.
    Sending,
    Over,
}

/// Word that the sending of a transaction waits for.
#[derive(Clone, Copy, Debug, PartialEq, Eq, Structural)]
pub enum SendEvent {
    Committed(Answers),
    Blockhash(Answers),
    Sent,
}

/// The sending of one transaction to the upcoming leaders, one after the other.
pub struct SendRun {
    data: TransactionData,
    signature: Signature,
    leaders: Vec<ContactInfo>,
    /// Index of the leader whose turn it is.
    next: usize,
    /// Number of leaders that the transaction is under way to.
    leader_num: usize,
    phase: SendPhase,
}

/// What a [`SendRun`] stands for.
#[verifier::ext_equal]
pub struct SendRunView {
    pub data: TransactionDataView,
    pub signature: Seq<u8>,
    pub leaders: Seq<ContactView>,
    pub next: int,
    pub leader_num: int,
    pub phase: SendPhase,
}

impl View for SendRun {
    type V = SendRunView;

    closed spec fn view(&self) -> SendRunView {
        SendRunView {
            data: self.data@,
            signature: self.signature@,
            leaders: contact_views(self.leaders@),
            next: self.next as int,
            leader_num: self.leader_num as int,
            phase: self.phase,
        }
    }
}

impl SendRunView {
    /// No more leaders were sent to than had their turn, and while the run is not
    /// over it is some leader's turn.
    pub open spec fn wf(self) -> bool {
        &&& 0 <= self.leader_num <= self.next <= self.leaders.len()
        &&& self.phase != SendPhase::Over ==> self.next < self.leaders.len()
    }
}

/// What is to be done to send a transaction.
pub enum SendAction {
    /// Ask whether the transaction with this signature was committed and
    /// successful.
    AskCommitted(Signature),
    /// Ask whether this is a valid blockhash.
    AskBlockhash(Digest),
    /// Send the wire transaction to a leader; the number counts the leaders that
    /// are sent to.
    Send { wire_transaction: Vec<u8>, leader: ContactInfo, leader_num: usize },
    /// The run is over.
    Finished(Result<Signature, TransportError>),
    /// Nothing: the event was not waited for.
    Idle,
}

/// What a [`SendAction`] stands for.
pub enum SendActionView {
    AskCommitted(Seq<u8>),
    AskBlockhash(Seq<u8>),
    Send { wire_transaction: Seq<u8>, leader: ContactView, leader_num: int },
    Finished(Result<Seq<u8>, TransportErrorView>),
    Idle,
}

/// The result of a run by its view.
pub open spec fn send_result_view(result: Result<Signature, TransportError>) -> Result<
    Seq<u8>,
    TransportErrorView,
> {
    match result {
        Ok(signature) => Ok(signature@),
        Err(e) => Err(e@),
    }
}

impl View for SendAction {
    type V = SendActionView;

    open spec fn view(&self) -> SendActionView {
        match self {
            SendAction::AskCommitted(signature) => SendActionView::AskCommitted(signature@),
            SendAction::AskBlockhash(digest) => SendActionView::AskBlockhash(digest@),
            SendAction::Send { wire_transaction, leader, leader_num } => SendActionView::Send {
                wire_transaction: wire_transaction@,
                leader: leader@,
                leader_num: *leader_num as int,
            },
            SendAction::Finished(result) => SendActionView::Finished(send_result_view(*result)),
            SendAction::Idle => SendActionView::Idle,
        }
    }
}

/// The end of a run.
pub open spec fn send_over(run: SendRunView, result: Result<Seq<u8>, TransportErrorView>) -> (
    SendRunView,
    SendActionView,
) {
    (SendRunView { phase: SendPhase::Over, ..run }, SendActionView::Finished(result))
}

/// The turn of the next leader, which begins with the question whether the
/// transaction was committed; without a next leader the run fails.
pub open spec fn send_turn(run: SendRunView) -> (SendRunView, SendActionView) {
    if run.next < run.leaders.len() {
        (
            SendRunView { phase: SendPhase::Committed, ..run },
            SendActionView::AskCommitted(run.signature),
        )
    } else {
        send_over(run, Err(TransportErrorView::Custom("Send Transaction failed"@)))
    }
}

/// What follows on word about whether the transaction was committed: success when a
/// level reports it, else its signatures are verified and its blockhash is asked about.
pub open spec fn send_committed(run: SendRunView, answers: Answers) -> (
    SendRunView,
    SendActionView,
) {
    if either(answers) {
        send_over(run, Ok(run.signature))
    } else if !all_true(signature_checks(run.data.versioned_transaction)) {
        send_over(
            run,
            Err(TransportErrorView::TransactionError(TransactionError::SignatureFailure)),
        )
    } else {
        (
            SendRunView { phase: SendPhase::Blockhash, ..run },
            SendActionView::AskBlockhash(
                transaction_in(run.data.versioned_transaction).recent_blockhash,
            ),
        )
    }
}

/// What follows on word about the blockhash: the run fails when no level knows it, else
/// the leader is sent to, if it has an address.
pub open spec fn send_blockhash(run: SendRunView, answers: Answers) -> (
    SendRunView,
    SendActionView,
) {
    if !either(answers) {
        send_over(run, Err(TransportErrorView::Custom("Transaction failed on-chain verification"@)))
    } else if run.leaders[run.next].tpu_quic is None {
        send_turn(SendRunView { next: run.next + 1, ..run })
    } else {
        (
            SendRunView { phase: SendPhase::Sending, ..run },
            SendActionView::Send {
                wire_transaction: run.data.wire_transaction,
                leader: run.leaders[run.next],
                leader_num: run.leader_num,
            },
        )
    }
}

/// What follows on an event. One that was not waited for changes nothing.
pub open spec fn send_step(run: SendRunView, event: SendEvent) -> (SendRunView, SendActionView) {
    match (run.phase, event) {
        (SendPhase::Committed, SendEvent::Committed(answers)) => send_committed(run, answers),
        (SendPhase::Blockhash, SendEvent::Blockhash(answers)) => send_blockhash(run, answers),
        (SendPhase::Sending, SendEvent::Sent) => send_turn(
            SendRunView { next: run.next + 1, leader_num: run.leader_num + 1, ..run },
        ),
        _ => (run, SendActionView::Idle),
    }
}

/// The run before its first step.
pub open spec fn send_begun(
    data: TransactionDataView,
    leaders: Seq<ContactView>,
) -> SendRunView {
    SendRunView {
        data,
        signature: transaction_in(data.versioned_transaction).signatures[0],
        leaders,
        next: 0,
        leader_num: 0,
        phase: SendPhase::Over,
    }
}

impl SendRun {
    /// Begins to send a transaction to the leaders, in their order. There is no
    /// run for a transaction without signatures.
    pub fn begin(data: TransactionData, leaders: Vec<ContactInfo>) -> (r: Option<
        (SendRun, SendAction),
    >)
        ensures
            match r {
                Some((run, action)) => {
                    &&& transaction_in(data@.versioned_transaction).signatures.len() > 0
                    &&& (run@, action@) == send_turn(send_begun(data@, contact_views(leaders@)))
                    &&& run@.wf()
                },
                None => transaction_in(data@.versioned_transaction).signatures.len() == 0,
            },
    {
        match data.versioned_transaction.signer_signature() {
            Some(signature) => {
                let run = SendRun {
                    data,
                    signature,
                    leaders,
                    next: 0,
                    leader_num: 0,
                    phase: SendPhase::Over,
                };
                Some(run.turn())
            },
            None => None,
        }
    }

    /// Gives the next leader its turn.
    fn turn(self) -> (r: (SendRun, SendAction))
        requires
            0 <= self.leader_num <= self.next <= self.leaders.len(),
        ensures
            (r.0@, r.1@) == send_turn(self@),
            r.0@.wf(),
    {
        if self.next < self.leaders.len() {
            let action = SendAction::AskCommitted(self.signature);
            (SendRun { phase: SendPhase::Committed, ..self }, action)
        } else {
            let error = TransportError::Custom("Send Transaction failed".to_string());
            self.over(Err(error))
        }
    }

    /// Ends the run.
    fn over(self, result: Result<Signature, TransportError>) -> (r: (SendRun, SendAction))
        requires
            0 <= self.leader_num <= self.next <= self.leaders.len(),
        ensures
            (r.0@, r.1@) == send_over(self@, send_result_view(result)),
            r.0@.wf(),
    {
        (SendRun { phase: SendPhase::Over, ..self }, SendAction::Finished(result))
    }

    /// Takes in an event and says what to do next.
    pub fn step(self, event: SendEvent) -> (r: (SendRun, SendAction))
        requires
            self@.wf(),
        ensures
            (r.0@, r.1@) == send_step(self@, event),
            r.0@.wf(),
    {
        let count: usize = self.leaders.len();
        assert(self@.leaders.len() == count);
        match (self.phase, event) {
            (SendPhase::Committed, SendEvent::Committed(answers)) => {
                if TxnSenderImpl::transaction_confirmed_or_finalized_and_successful(answers) {
                    let signature = self.signature;
                    return self.over(Ok(signature));
                }
                match self.data.versioned_transaction.verify_and_hash_message() {
                    Some(_) => {
                        let blockhash = self.data.versioned_transaction.parts().recent_blockhash;
                        (
                            SendRun { phase: SendPhase::Blockhash, ..self },
                            SendAction::AskBlockhash(blockhash),
                        )
                    },
                    None => self.over(
                        Err(TransportError::TransactionError(TransactionError::SignatureFailure)),
                    ),
                }
            },
            (SendPhase::Blockhash, SendEvent::Blockhash(answers)) => {
                if !answers.confirmed && !answers.finalized {
                    let error = TransportError::Custom(
                        "Transaction failed on-chain verification".to_string(),
                    );
                    return self.over(Err(error));
                }
                assert(self@.leaders[self.next as int] == self.leaders[self.next as int]@);
                if self.leaders[self.next].tpu_quic.is_none() {
                    let run = SendRun { next: self.next + 1, ..self };
                    run.turn()
                } else {
                    let action = SendAction::Send {
                        wire_transaction: copy_bytes(&self.data.wire_transaction),
                        leader: self.leaders[self.next].clone(),
                        leader_num: self.leader_num,
                    };
                    (SendRun { phase: SendPhase::Sending, ..self }, action)
                }
            },
            (SendPhase::Sending, SendEvent::Sent) => {
                let run = SendRun {
                    next: self.next + 1,
                    leader_num: self.leader_num + 1,
                    ..self
                };
                run.turn()
            },
            _ => (self, SendAction::Idle),
        }
    }
}

/// A wire transaction on its way to a leader.
pub struct Sending {
    pub wire_transaction: Seq<u8>,
    pub leader: ContactView,
    pub leader_num: int,
}

/// A wire transaction that is to be sent to a leader; the number counts the leaders that
/// are sent to.
pub struct Delivery {
    pub wire_transaction: Vec<u8>,
    pub leader: ContactInfo,
    pub leader_num: usize,
}

impl View for Delivery {
    type V = Sending;

    open spec fn view(&self) -> Sending {
        Sending {
            wire_transaction: self.wire_transaction@,
            leader: self.leader@,
            leader_num: self.leader_num as int,
        }
    }
}

/// Deliveries by their views.
pub open spec fn delivery_views(deliveries: Seq<Delivery>) -> Seq<Sending> {
    deliveries.map_values(|d: Delivery| d@)
}

/// How many steps a leader's turn can take from an action on.
pub open spec fn steps_left(action: SendActionView) -> int {
    match action {
        SendActionView::AskCommitted(_) => 3,
        SendActionView::AskBlockhash(_) => 2,
        SendActionView::Send { .. } => 1,
        _ => 0,
    }
}

/// What a run does from here on: what it sends, and its result. `committed` and `valid`
/// are the answers that come at the turn of each leader to the question about a
/// signature, or about a blockhash.
pub open spec fn play(
    run: SendRunView,
    action: SendActionView,
    committed: spec_fn(int, Seq<u8>) -> Answers,
    valid: spec_fn(int, Seq<u8>) -> Answers,
) -> (Seq<Sending>, Option<Result<Seq<u8>, TransportErrorView>>)
    decreases run.leaders.len() - run.next, steps_left(action),
{
    if let SendActionView::Finished(result) = action {
        (Seq::empty(), Some(result))
    } else if run.next >= run.leaders.len() {
        (Seq::empty(), None)
    } else {
        match action {
            SendActionView::AskCommitted(signature) => {
                let (then, next) = send_step(
                    run,
                    SendEvent::Committed(committed(run.next, signature)),
                );
                play(then, next, committed, valid)
            },
            SendActionView::AskBlockhash(blockhash) => {
                let (then, next) = send_step(run, SendEvent::Blockhash(valid(run.next, blockhash)));
                play(then, next, committed, valid)
            },
            SendActionView::Send { wire_transaction, leader, leader_num } => {
                let (then, next) = send_step(run, SendEvent::Sent);
                let (sendings, result) = play(then, next, committed, valid);
                (seq![Sending { wire_transaction, leader, leader_num }] + sendings, result)
            },
            _ => (Seq::empty(), None),
        }
    }
}

/// What a run does when it begins to send a transaction.
pub open spec fn played(
    data: TransactionDataView,
    leaders: Seq<ContactView>,
    committed: spec_fn(int, Seq<u8>) -> Answers,
    valid: spec_fn(int, Seq<u8>) -> Answers,
) -> (Seq<Sending>, Option<Result<Seq<u8>, TransportErrorView>>) {
    let (run, action) = send_turn(send_begun(data, leaders));
    play(run, action, committed, valid)
}

/// At the turns of the leaders before `n` nothing ends the run of the transaction with
/// this signature and blockhash.
pub open spec fn goes_on(
    committed: spec_fn(int, Seq<u8>) -> Answers,
    valid: spec_fn(int, Seq<u8>) -> Answers,
    signature: Seq<u8>,
    blockhash: Seq<u8>,
    from: int,
    n: int,
) -> bool {
    forall|i: int|
        from <= i < n ==> !either(#[trigger] committed(i, signature)) && either(
            valid(i, blockhash),
        )
}

/// The leaders that have an address, from number `from` up to number `to`.
pub open spec fn addressed(leaders: Seq<ContactView>, from: int, to: int) -> Seq<ContactView>
    decreases to - from,
{
    if from >= to {
        Seq::empty()
    } else if leaders[from].tpu_quic is Some {
        seq![leaders[from]] + addressed(leaders, from + 1, to)
    } else {
        addressed(leaders, from + 1, to)
    }
}

/// The leader has an address.
pub open spec fn has_address() -> spec_fn(ContactView) -> bool {
    |leader: ContactView| leader.tpu_quic is Some
}

/// The addressed leaders are those that pass the test for an address.
pub(crate) proof fn lemma_addressed(leaders: Seq<ContactView>, from: int, to: int)
    requires
        0 <= from <= to <= leaders.len(),
    ensures
        addressed(leaders, from, to) == leaders.subrange(from, to).filter(has_address()),
    decreases to - from,
{
    let all = leaders.subrange(from, to);
    if from < to {
        lemma_addressed(leaders, from + 1, to);
        let first = seq![leaders[from]];
        let rest = leaders.subrange(from + 1, to);
        assert(all =~= first + rest);
        Seq::filter_distributes_over_add(first, rest, has_address());
        reveal(Seq::filter);
        assert(first.drop_last() =~= Seq::empty());
        assert(first.drop_last().filter(has_address()) =~= Seq::empty());
        assert(Seq::<ContactView>::empty().push(leaders[from]) =~= first);
        assert(first.filter(has_address()) =~= if leaders[from].tpu_quic is Some {
            first
        } else {
            Seq::empty()
        });
        assert(addressed(leaders, from, to) =~= first.filter(has_address()) + rest.filter(
            has_address(),
        ));
    } else {
        reveal(Seq::filter);
    }
}

/// The leaders that have an address, in their order.
pub fn addressed_leaders(leaders: &Vec<ContactInfo>) -> (r: Vec<ContactInfo>)
    ensures
        contact_views(r@) == addressed(contact_views(leaders@), 0, leaders.len() as int),
{
    let ghost views = contact_views(leaders@);
    let mut r: Vec<ContactInfo> = Vec::new();
    for i in 0..leaders.len()
        invariant
            views == contact_views(leaders@),
            contact_views(r@) + addressed(views, i as int, leaders.len() as int) == addressed(
                views,
                0,
                leaders.len() as int,
            ),
    {
        assert(views[i as int] == leaders[i as int]@);
        if leaders[i].tpu_quic.is_some() {
            let ghost before = r@;
            r.push(leaders[i].clone());
            assert(contact_views(r@) =~= contact_views(before).push(views[i as int]));
            assert(contact_views(r@) + addressed(views, i + 1, leaders.len() as int)
                =~= contact_views(before) + addressed(views, i as int, leaders.len() as int));
        }
    }
    assert(contact_views(r@) + Seq::empty() =~= contact_views(r@));
    r
}

/// The wire transaction goes to each of the leaders, which are numbered in order.
pub open spec fn sent_in_order(
    sendings: Seq<Sending>,
    wire_transaction: Seq<u8>,
    leaders: Seq<ContactView>,
    leader_num: int,
) -> bool {
    &&& sendings.len() == leaders.len()
    &&& forall|i: int|
        0 <= i < sendings.len() ==> #[trigger] sendings[i] == (Sending {
            wire_transaction,
            leader: leaders[i],
            leader_num: leader_num + i,
        })
}

/// The deliveries of a wire transaction to those leaders that have an address, in their
/// order, numbered from zero.
pub fn deliveries(wire_transaction: &Vec<u8>, leaders: &Vec<ContactInfo>) -> (r: Vec<Delivery>)
    ensures
        sent_in_order(
            delivery_views(r@),
            wire_transaction@,
            addressed(contact_views(leaders@), 0, leaders.len() as int),
            0,
        ),
{
    let with_address = addressed_leaders(leaders);
    let mut r: Vec<Delivery> = Vec::new();
    for i in 0..with_address.len()
        invariant
            r.len() == i,
            forall|j: int|
                0 <= j < i ==> (#[trigger] r[j])@ == (Sending {
                    wire_transaction: wire_transaction@,
                    leader: with_address[j]@,
                    leader_num: j,
                }),
    {
        r.push(
            Delivery {
                wire_transaction: copy_bytes(wire_transaction),
                leader: with_address[i].clone(),
                leader_num: i,
            },
        );
    }
    r
}

/// The result of a run that ends at the turn of leader number `n`, or after the last
/// leader.
pub open spec fn result_after(
    signature: Seq<u8>,
    leaders: Seq<ContactView>,
    committed: spec_fn(int, Seq<u8>) -> Answers,
    n: int,
) -> Result<Seq<u8>, TransportErrorView> {
    if n >= leaders.len() {
        Err(TransportErrorView::Custom("Send Transaction failed"@))
    } else if either(committed(n, signature)) {
        Ok(signature)
    } else {
        Err(TransportErrorView::Custom("Transaction failed on-chain verification"@))
    }
}

proof fn lemma_play(
    run: SendRunView,
    committed: spec_fn(int, Seq<u8>) -> Answers,
    valid: spec_fn(int, Seq<u8>) -> Answers,
    n: int,
)
    requires
        run.wf(),
        run.phase == SendPhase::Committed,
        all_true(signature_checks(run.data.versioned_transaction)),
        run.next <= n <= run.leaders.len(),
        goes_on(
            committed,
            valid,
            run.signature,
            transaction_in(run.data.versioned_transaction).recent_blockhash,
            run.next,
            n,
        ),
        n < run.leaders.len() ==> either(committed(n, run.signature)) || !either(
            valid(n, transaction_in(run.data.versioned_transaction).recent_blockhash),
        ),
    ensures
        sent_in_order(
            play(run, SendActionView::AskCommitted(run.signature), committed, valid).0,
            run.data.wire_transaction,
            addressed(run.leaders, run.next, n),
            run.leader_num,
        ),
        play(run, SendActionView::AskCommitted(run.signature), committed, valid).1 == Some(
            result_after(run.signature, run.leaders, committed, n),
        ),
    decreases n - run.next,
{
    let asked = SendRunView { phase: SendPhase::Blockhash, ..run };
    let ask = SendActionView::AskBlockhash(
        transaction_in(run.data.versioned_transaction).recent_blockhash,
    );
    let begin = SendActionView::AskCommitted(run.signature);
    if run.next == n {
        reveal_with_fuel(play, 3);
        assert(addressed(run.leaders, run.next, n).len() == 0);
        assert(play(run, begin, committed, valid).0.len() == 0);
    } else {
        assert(!either(committed(run.next, run.signature)));
        assert(play(run, begin, committed, valid) == play(asked, ask, committed, valid));
        let leader = run.leaders[run.next];
        if leader.tpu_quic is None {
            let after = SendRunView { next: run.next + 1, ..run };
            let (then, next) = send_turn(after);
            assert(send_turn(SendRunView { next: asked.next + 1, ..asked }) == (then, next));
            assert(play(asked, ask, committed, valid) == play(then, next, committed, valid));
            if after.next < after.leaders.len() {
                lemma_play(after, committed, valid, n);
                assert(then == after);
            }
            assert(play(then, next, committed, valid).0.len() == addressed(
                run.leaders,
                run.next + 1,
                n,
            ).len());
        } else {
            let sending = SendRunView { phase: SendPhase::Sending, ..run };
            let send = SendActionView::Send {
                wire_transaction: run.data.wire_transaction,
                leader,
                leader_num: run.leader_num,
            };
            assert(play(asked, ask, committed, valid) == play(sending, send, committed, valid));
            let after = SendRunView {
                next: run.next + 1,
                leader_num: run.leader_num + 1,
                ..run
            };
            let (then, next) = send_turn(after);
            assert(send_step(sending, SendEvent::Sent) == (then, next));
            if after.next < after.leaders.len() {
                lemma_play(after, committed, valid, n);
                assert(then == after);
            }
            let (sendings, result) = play(then, next, committed, valid);
            assert(play(sending, send, committed, valid) == (
                seq![
                    Sending {
                        wire_transaction: run.data.wire_transaction,
                        leader,
                        leader_num: run.leader_num,
                    },
                ] + sendings,
                result,
            ));
            let rest = addressed(run.leaders, run.next + 1, n);
            assert(sent_in_order(sendings, run.data.wire_transaction, rest, run.leader_num + 1));
            let all = play(run, begin, committed, valid).0;
            assert(addressed(run.leaders, run.next, n) == seq![leader] + rest);
            assert forall|i: int| 0 <= i < all.len() implies #[trigger] all[i] == (Sending {
                wire_transaction: run.data.wire_transaction,
                leader: addressed(run.leaders, run.next, n)[i],
                leader_num: run.leader_num + i,
            }) by {
                if i > 0 {
                    assert(all[i] == sendings[i - 1]);
                }
            }
        }
    }
}

/// A transaction whose signatures are good is sent to one leader after the other, to each
/// that has an address, numbered from zero, until at some leader's turn a level reports
/// its first signature as committed, which is success, or no level knows its blockhash,
/// which is failure; without such a leader the run fails after the last one.
pub proof fn law_sent_to_leaders_in_order(
    data: TransactionDataView,
    leaders: Seq<ContactView>,
    committed: spec_fn(int, Seq<u8>) -> Answers,
    valid: spec_fn(int, Seq<u8>) -> Answers,
    n: int,
)
    requires
        0 <= n <= leaders.len(),
        forall|k: int|
            0 <= k < signature_checks(data.versioned_transaction).len()
                ==> #[trigger] signature_checks(data.versioned_transaction)[k],
        forall|i: int|
            #![trigger committed(
                i,
                transaction_in(data.versioned_transaction).signatures[0],
            )]
            0 <= i < n ==> {
                let answers = committed(
                    i,
                    transaction_in(data.versioned_transaction).signatures[0],
                );
                let word = valid(i, transaction_in(data.versioned_transaction).recent_blockhash);
                !answers.confirmed && !answers.finalized && (word.confirmed || word.finalized)
            },
        n < leaders.len() ==> {
            let answers = committed(n, transaction_in(data.versioned_transaction).signatures[0]);
            let word = valid(n, transaction_in(data.versioned_transaction).recent_blockhash);
            answers.confirmed || answers.finalized || (!word.confirmed && !word.finalized)
        },
    ensures
        ({
            let signature = transaction_in(data.versioned_transaction).signatures[0];
            let sent = played(data, leaders, committed, valid).0;
            let reached = leaders.take(n).filter(|leader: ContactView| leader.tpu_quic is Some);
            &&& sent.len() == reached.len()
            &&& forall|k: int|
                0 <= k < sent.len() ==> #[trigger] sent[k] == (Sending {
                    wire_transaction: data.wire_transaction,
                    leader: reached[k],
                    leader_num: k,
                })
            &&& played(data, leaders, committed, valid).1 == Some(
                if n == leaders.len() {
                    Err(TransportErrorView::Custom("Send Transaction failed"@))
                } else if committed(n, signature).confirmed || committed(n, signature).finalized {
                    Ok(signature)
                } else {
                    Err(TransportErrorView::Custom("Transaction failed on-chain verification"@))
                },
            )
        }),
{
    let (run, action) = send_turn(send_begun(data, leaders));
    lemma_addressed(leaders, 0, n);
    assert(leaders.subrange(0, n) =~= leaders.take(n));
    assert(has_address() =~= (|leader: ContactView| leader.tpu_quic is Some));
    if leaders.len() > 0 {
        lemma_play(run, committed, valid, n);
        assert(sent_in_order(
            played(data, leaders, committed, valid).0,
            data.wire_transaction,
            addressed(leaders, 0, n),
            0,
        ));
    }
}

/// A transaction with a bad signature is sent to nobody: the run fails for the
/// signature, unless a level already reports the transaction as committed.
pub proof fn law_bad_signature_is_not_sent(
    data: TransactionDataView,
    leaders: Seq<ContactView>,
    committed: spec_fn(int, Seq<u8>) -> Answers,
    valid: spec_fn(int, Seq<u8>) -> Answers,
    k: int,
)
    requires
        0 <= k < signature_checks(data.versioned_transaction).len(),
        !signature_checks(data.versioned_transaction)[k],
        leaders.len() > 0,
    ensures
        ({
            let signature = transaction_in(data.versioned_transaction).signatures[0];
            played(data, leaders, committed, valid) == (
                Seq::<Sending>::empty(),
                Some(
                    if committed(0, signature).confirmed || committed(0, signature).finalized {
                        Ok(signature)
                    } else {
                        Err(
                            TransportErrorView::TransactionError(
                                TransactionError::SignatureFailure,
                            ),
                        )
                    },
                ),
            )
        }),
{
    reveal_with_fuel(play, 2);
}

/// The run and its last action after a series of events.
pub open spec fn send_after(
    data: TransactionDataView,
    leaders: Seq<ContactView>,
    events: Seq<SendEvent>,
) -> (SendRunView, SendActionView)
    decreases events.len(),
{
    if events.len() == 0 {
        send_turn(send_begun(data, leaders))
    } else {
        send_step(send_after(data, leaders, events.drop_last()).0, events.last())
    }
}

/// Whatever the events, every question of a run is about the transaction that it was
/// begun with, about its first signature or its blockhash; what is sent is that
/// transaction's wire form, to a leader that has an address; and success is answered with
/// its first signature.
pub proof fn law_run_is_about_its_transaction(
    data: TransactionDataView,
    leaders: Seq<ContactView>,
    events: Seq<SendEvent>,
)
    ensures
        ({
            let (run, action) = send_after(data, leaders, events);
            let transaction = transaction_in(data.versioned_transaction);
            &&& run.wf()
            &&& run.data == data
            &&& run.leaders == leaders
            &&& run.signature == transaction.signatures[0]
            &&& action matches SendActionView::AskCommitted(signature) ==> signature
                == transaction.signatures[0]
            &&& action matches SendActionView::AskBlockhash(blockhash) ==> blockhash
                == transaction.recent_blockhash
            &&& action matches SendActionView::Send { wire_transaction, leader, leader_num } ==> {
                &&& wire_transaction == data.wire_transaction
                &&& 0 <= leader_num <= run.next < leaders.len()
                &&& leader == leaders[run.next]
                &&& leader.tpu_quic is Some
            }
            &&& action matches SendActionView::Finished(Ok(signature)) ==> signature
                == transaction.signatures[0]
        }),
    decreases events.len(),
{
    if events.len() > 0 {
        law_run_is_about_its_transaction(data, leaders, events.drop_last());
    }
}

/// A run takes one step for one word that it waits for: whether the transaction is
/// committed, then whether its blockhash is valid, then that it was sent, then the same at
/// the turn of the next leader; any other word changes nothing. It is over only with a
/// result, and it ends with success only on word that the transaction is committed.
pub proof fn law_run_waits_for_its_word(run: SendRunView, event: SendEvent)
    requires
        run.wf(),
    ensures
        ({
            let (then, action) = send_step(run, event);
            &&& then.phase == SendPhase::Over && run.phase != SendPhase::Over <==> action is Finished
            &&& then.phase == SendPhase::Committed && then.next > run.next
                <==> action is AskCommitted
            &&& action is AskBlockhash ==> run.phase == SendPhase::Committed && then.next
                == run.next && (event matches SendEvent::Committed(answers) && !answers.confirmed
                && !answers.finalized)
            &&& action is Send ==> run.phase == SendPhase::Blockhash && then.next == run.next && (
            event matches SendEvent::Blockhash(answers) && (answers.confirmed
                || answers.finalized))
            &&& action matches SendActionView::Finished(Ok(_)) ==> event
                matches SendEvent::Committed(answers) && (answers.confirmed || answers.finalized)
            &&& action is AskCommitted ==> then.next == run.next + 1 && then.leader_num
                == run.leader_num + if event is Sent {
                1int
            } else {
                0
            }
            &&& run.phase == SendPhase::Blockhash ==> (event matches SendEvent::Blockhash(answers)
                ==> (action is Send <==> (answers.confirmed || answers.finalized)
                && run.leaders[run.next].tpu_quic is Some))
            &&& action is Idle ==> then == run
            &&& action is Idle <==> !({
                ||| run.phase == SendPhase::Committed && event is Committed
                ||| run.phase == SendPhase::Blockhash && event is Blockhash
                ||| run.phase == SendPhase::Sending && event is Sent
            })
        }),
{
}

/// What is delivered of a wire transaction goes to the leaders that have an address, each
/// once and in order, numbered from zero, and to nobody else.
pub proof fn law_deliveries_reach_the_addressed(
    sendings: Seq<Sending>,
    wire_transaction: Seq<u8>,
    leaders: Seq<ContactView>,
)
    requires
        sent_in_order(
            sendings,
            wire_transaction,
            addressed(leaders, 0, leaders.len() as int),
            0,
        ),
    ensures
        ({
            let reached = leaders.filter(|leader: ContactView| leader.tpu_quic is Some);
            &&& sendings.len() == reached.len()
            &&& forall|k: int|
                0 <= k < sendings.len() ==> #[trigger] sendings[k] == (Sending {
                    wire_transaction,
                    leader: reached[k],
                    leader_num: k,
                })
        }),
{
    lemma_addressed(leaders, 0, leaders.len() as int);
    assert(leaders.subrange(0, leaders.len() as int) =~= leaders);
    assert(has_address() =~= (|leader: ContactView| leader.tpu_quic is Some));
}

/// Why a run fails, at whichever leader's turn: a transaction that is not committed yet and
/// has a bad signature is not asked about any further; one whose blockhash no level knows is
/// not sent; and there is no success when the last leader's turn passes without word that
/// the transaction is committed.
pub proof fn law_run_tells_why_it_fails(run: SendRunView, answers: Answers, i: int)
    requires
        run.wf(),
        !answers.confirmed,
        !answers.finalized,
    ensures
        ({
            let checks = signature_checks(run.data.versioned_transaction);
            let committed = send_step(run, SendEvent::Committed(answers)).1;
            let blockhash = send_step(run, SendEvent::Blockhash(answers)).1;
            let sent = send_step(run, SendEvent::Sent).1;
            &&& run.phase == SendPhase::Committed && 0 <= i < checks.len() && !checks[i]
                ==> committed == SendActionView::Finished(
                Err(TransportErrorView::TransactionError(TransactionError::SignatureFailure)),
            )
            &&& run.phase == SendPhase::Committed && (forall|j: int|
                0 <= j < checks.len() ==> #[trigger] checks[j]) ==> committed is AskBlockhash
            &&& run.phase == SendPhase::Blockhash ==> blockhash == SendActionView::Finished(
                Err(TransportErrorView::Custom("Transaction failed on-chain verification"@)),
            )
            &&& run.phase == SendPhase::Sending && run.next + 1 == run.leaders.len() ==> sent
                == SendActionView::Finished(
                Err(TransportErrorView::Custom("Send Transaction failed"@)),
            )
            &&& run.phase == SendPhase::Sending && run.next + 1 < run.leaders.len() ==> sent
                == SendActionView::AskCommitted(run.signature)
        }),
{
}

/// An action stands for what it holds.
pub proof fn law_send_actions_say_all(action: SendAction)
    ensures
        match action {
            SendAction::AskCommitted(signature) => action@ == SendActionView::AskCommitted(
                signature.bytes@,
            ),
            SendAction::AskBlockhash(digest) => action@ == SendActionView::AskBlockhash(
                digest.bytes@,
            ),
            SendAction::Send { wire_transaction, leader, leader_num } => action@ == (
            SendActionView::Send {
                wire_transaction: wire_transaction@,
                leader: leader@,
                leader_num: leader_num as int,
            }),
            SendAction::Finished(Ok(signature)) => action@ == SendActionView::Finished(
                Ok(signature.bytes@),
            ),
            SendAction::Finished(Err(TransportError::TransactionError(error))) => action@
                == SendActionView::Finished(Err(TransportErrorView::TransactionError(error))),
            SendAction::Finished(Err(TransportError::Custom(text))) => action@
                == SendActionView::Finished(Err(TransportErrorView::Custom(text@))),
            SendAction::Idle => action@ == SendActionView::Idle,
        },
{
}

/// Deliveries stand for what they hold, one for one.
pub proof fn law_deliveries_say_all(deliveries: Seq<Delivery>, i: int)
    requires
        0 <= i < deliveries.len(),
    ensures
        delivery_views(deliveries).len() == deliveries.len(),
        delivery_views(deliveries)[i].wire_transaction == deliveries[i].wire_transaction@,
        delivery_views(deliveries)[i].leader == deliveries[i].leader@,
        delivery_views(deliveries)[i].leader_num == deliveries[i].leader_num,
{
}

} // verus!

//! The sender: what becomes of a transaction from the request to its landing.
use crate::bundle::{bundle_begun, bundle_turn, data_views, BundleAction, BundleRun};
use crate::clock::Instant;
use crate::collections::{entry_count, texts};
use crate::errors::TransactionError;
use crate::leader_tracker::{contact_views, ContactInfo};
use crate::priority::{compute_priority_details, priority_details_of, PriorityDetails};
use crate::retry::{
    all_advanced, begin_round, is_shed, over_limit, shed_transactions, RetryRound,
};
use crate::rpc_server::{api_key_tag, key_tag};
use crate::send_run::{either, send_begun, send_turn, Answers, SendAction, SendRun};
use crate::tags::{bin_counter_to_tag, bin_tag, decimal, lemma_bin_index};
use crate::transaction::{
    all_true, signature_checks, signature_text, transaction_in, VersionedTransaction,
};
use crate::transaction_store::{
    get_signature, signature_of, with_transaction, TransactionData, TransactionDataView,
    TransactionStore, TransactionStoreImpl,
};
use vstd::prelude::*;

verus! {

/// Milliseconds that one attempt to send a transaction may take.
pub const MAX_TIMEOUT_SEND_DATA_MILLIS: u64 = 500;

/// Milliseconds that one attempt to send a transaction again may take.
pub const MAX_TIMEOUT_SEND_DATA_BATCH_MILLIS: u64 = 500;

/// Lower bounds of the bins for retry counts.
pub open spec fn retry_count_bins() -> Seq<i32> {
    seq![0i32, 1, 2, 5, 10, 25]
}

/// Lower bounds of the bins for retry limits.
pub open spec fn max_retries_bins() -> Seq<i32> {
    seq![0i32, 1, 5, 10, 30]
}

/// What is remembered of a transaction until it lands or is given up.
pub struct Tracking {
    pub signature: String,
    pub sent_at: Instant,
    pub details: PriorityDetails,
    pub priority_fees_enabled: bool,
    pub api_key: String,
}

impl Tracking {
    /// What is to be remembered of a transaction.
    pub open spec fn is_of(&self, transaction: TransactionDataView) -> bool {
        &&& signature_of(transaction) == Some(self.signature@)
        &&& self.sent_at == transaction.sent_at
        &&& self.details == priority_details_of(transaction.versioned_transaction)
        &&& self.priority_fees_enabled == (self.details.fee > 0)
        &&& self.api_key@ == key_tag(transaction.api_key)
    }
}

/// How the tracking of a transaction ended.
pub struct LandingReport {
    pub landed: bool,
    pub retries_tag: String,
    pub max_retries_tag: String,
}

/// A count as it is sorted into bins.
pub open spec fn bin_counter(count: usize) -> i32 {
    #[verifier::truncate]
    (count as i32)
}

/// The retry count of a transaction that was still stored, for its bin.
pub open spec fn retries_counter(stored: Option<TransactionDataView>) -> Option<i32> {
    match stored {
        Some(transaction) => Some(bin_counter(transaction.retry_count)),
        None => None,
    }
}

/// The retry limit of a transaction that was still stored, for its bin.
pub open spec fn max_retries_counter(stored: Option<TransactionDataView>) -> Option<i32> {
    match stored {
        Some(transaction) => Some(bin_counter(transaction.max_retries)),
        None => None,
    }
}

/// What a round of retries does before anything is sent.
pub struct RetryPass {
    /// Length of the queue when the round began.
    pub queue_length: usize,
    /// Signatures of the transactions that were shed.
    pub shed: Vec<String>,
    /// By how much the queue was over its limit, if it was: so many were shed.
    pub records_dropped: Option<usize>,
    /// What is to be sent.
    pub round: RetryRound,
}

/// By how much a queue of this length is over its limit, if it is.
pub open spec fn excess(queue_length: usize, max_retry_queue_size: Option<usize>) -> Option<usize> {
    match max_retry_queue_size {
        Some(max_size) => if queue_length > max_size {
            Some((queue_length - max_size) as usize)
        } else {
            None
        },
        None => None,
    }
}

/// How the sending of a transaction begins.
pub struct SendStart {
    /// What is remembered of the transaction; nothing if it has no signature.
    pub tracking: Option<Tracking>,
    /// The run that sends it; there is none if it has no signature.
    pub run: Option<(SendRun, SendAction)>,
}

/// A service that sends transactions.
pub trait TxnSender {
    /// Tracks a transaction in the store and begins to send it to the given leaders,
    /// in their order. Without a signature nothing is tracked or sent.
    fn send_transaction(
        &self,
        store: &mut TransactionStoreImpl,
        txn: TransactionData,
        leaders: Vec<ContactInfo>,
    ) -> (r: SendStart)
        ensures
            final(store).entries() == with_transaction(old(store).entries(), txn@),
            match r.tracking {
                Some(tracking) => tracking.is_of(txn@),
                None => signature_of(txn@) is None,
            },
            match r.run {
                Some((run, action)) => {
                    &&& signature_of(txn@) is Some
                    &&& (run@, action@) == send_turn(send_begun(txn@, contact_views(leaders@)))
                    &&& run@.wf()
                },
                None => signature_of(txn@) is None,
            },
    ;

    /// Begins to send a bundle, each transaction after the one before it.
    fn send_transaction_bundle(&self, txn_data_bundle: Vec<TransactionData>) -> (r: (
        BundleRun,
        BundleAction,
    ))
        ensures
            (r.0@, r.1@) == bundle_turn(bundle_begun(data_views(txn_data_bundle@))),
            r.0@.wf(),
    ;
}

/// Sends transactions and sends them again until they land.
pub struct TxnSenderImpl {
    /// Seconds between two rounds of retries.
    pub txn_send_retry_interval_seconds: usize,
    /// Longest queue of transactions that is retried without shedding any.
    pub max_retry_queue_size: Option<usize>,
}

impl TxnSenderImpl {
    /// A sender with the given settings.
    pub fn new(
        txn_send_retry_interval_seconds: usize,
        max_retry_queue_size: Option<usize>,
    ) -> (r: Self)
        ensures
            r.txn_send_retry_interval_seconds == txn_send_retry_interval_seconds,
            r.max_retry_queue_size == max_retry_queue_size,
    {
        TxnSenderImpl { txn_send_retry_interval_seconds, max_retry_queue_size }
    }

    /// Prepares a round of retries: sheds transactions if the queue is over its
    /// limit, then counts the retry for each transaction that may be retried again.
    pub fn retry_transactions(&self, store: &mut TransactionStoreImpl) -> (r: RetryPass)
        ensures
            entry_count(old(store).entries(), r.queue_length as nat),
            r.records_dropped == excess(r.queue_length, self.max_retry_queue_size),
            r.records_dropped matches Some(count) ==> count == r.shed.len(),
            if over_limit(old(store).entries(), self.max_retry_queue_size) {
                is_shed(old(store).entries(), self.max_retry_queue_size->0, texts(r.shed@))
            } else {
                r.shed.len() == 0
            },
            final(store).entries() == all_advanced(
                old(store).entries().remove_keys(texts(r.shed@).to_set()),
            ),
            r.round.is_round_of(old(store).entries().remove_keys(texts(r.shed@).to_set())),
    {
        let queue_length = store.queue_length();
        let records_dropped = match self.max_retry_queue_size {
            Some(max_size) => if queue_length > max_size {
                Some(queue_length - max_size)
            } else {
                None
            },
            None => None,
        };
        let shed = shed_transactions(store, self.max_retry_queue_size);
        let round = begin_round(store);
        RetryPass { queue_length, shed, records_dropped, round }
    }

    /// Takes up a transaction in the store and says what is to be remembered of it
    /// until it lands. One without a signature is not tracked.
    pub fn track_transaction(
        &self,
        store: &mut TransactionStoreImpl,
        transaction_data: &TransactionData,
    ) -> (r: Option<Tracking>)
        ensures
            final(store).entries() == with_transaction(old(store).entries(), transaction_data@),
            match r {
                Some(tracking) => tracking.is_of(transaction_data@),
                None => signature_of(transaction_data@) is None,
            },
    {
        let signature = match get_signature(transaction_data) {
            Some(signature) => signature,
            None => {
                return None;
            },
        };
        store.add_transaction(transaction_data.clone());
        let details = compute_priority_details(&transaction_data.versioned_transaction);
        Some(
            Tracking {
                signature,
                sent_at: transaction_data.sent_at,
                details,
                priority_fees_enabled: details.fee > 0,
                api_key: api_key_tag(&transaction_data.request_metadata),
            },
        )
    }

    /// Ends the tracking of a transaction, which was confirmed at the given time or
    /// not at all: it leaves the store.
    pub fn finish_tracking(
        &self,
        store: &mut TransactionStoreImpl,
        tracking: &Tracking,
        confirmed_at: Option<i64>,
    ) -> (r: LandingReport)
        ensures
            final(store).entries() == old(store).entries().remove(tracking.signature@),
            r.landed == confirmed_at is Some,
            r.retries_tag@ == bin_tag(
                retries_counter(old(store).entries().get(tracking.signature@)),
                retry_count_bins(),
            ),
            r.max_retries_tag@ == bin_tag(
                max_retries_counter(old(store).entries().get(tracking.signature@)),
                max_retries_bins(),
            ),
    {
        let mut retries: Option<i32> = None;
        let mut max_retries: Option<i32> = None;
        if let Some(transaction_data) = store.remove_transaction(tracking.signature.clone()) {
            retries = Some(
                #[verifier::truncate]
                (transaction_data.retry_count as i32),
            );
            max_retries = Some(
                #[verifier::truncate]
                (transaction_data.max_retries as i32),
            );
        }
        let retry_bins: Vec<i32> = vec![0, 1, 2, 5, 10, 25];
        let limit_bins: Vec<i32> = vec![0, 1, 5, 10, 30];
        assert(retry_bins@ =~= retry_count_bins());
        assert(limit_bins@ =~= max_retries_bins());
        LandingReport {
            landed: confirmed_at.is_some(),
            retries_tag: bin_counter_to_tag(retries, &retry_bins),
            max_retries_tag: bin_counter_to_tag(max_retries, &limit_bins),
        }
    }

    /// The verdict on a transaction, from the answers whether it was committed and
    /// successful: it holds when one of the levels reports the transaction.
    pub fn transaction_confirmed_or_finalized_and_successful(answers: Answers) -> (r: bool)
        ensures
            r == (answers.confirmed || answers.finalized),
    {
        answers.confirmed || answers.finalized
    }

    /// The first check before a transaction is sent: every signature signs the
    /// message.
    pub fn preflight_signatures(transaction: &VersionedTransaction) -> (r: Result<
        (),
        TransactionError,
    >)
        ensures
            match r {
                Ok(()) => all_true(signature_checks(transaction@)),
                Err(e) => e == TransactionError::SignatureFailure && !all_true(
                    signature_checks(transaction@),
                ),
            },
    {
        let signed = transaction.verify_with_results();
        for i in 0..signed.len()
            invariant
                signed@ == signature_checks(transaction@),
                forall|j: int| 0 <= j < i ==> #[trigger] signed[j],
        {
            if !signed[i] {
                return Err(TransactionError::SignatureFailure);
            }
        }
        Ok(())
    }

    /// The second check before a transaction is sent, from the answers whether its
    /// blockhash is valid: one level must know it.
    pub fn preflight_blockhash(answers: Answers) -> (r: Result<(), TransactionError>)
        ensures
            match r {
                Ok(()) => either(answers),
                Err(e) => e == TransactionError::BlockhashNotFound && !either(answers),
            },
    {
        if !answers.confirmed && !answers.finalized {
            return Err(TransactionError::BlockhashNotFound);
        }
        Ok(())
    }
}

impl TxnSender for TxnSenderImpl {
    fn send_transaction(
        &self,
        store: &mut TransactionStoreImpl,
        txn: TransactionData,
        leaders: Vec<ContactInfo>,
    ) -> (r: SendStart) {
        let tracking = self.track_transaction(store, &txn);
        let run = SendRun::begin(txn, leaders);
        SendStart { tracking, run }
    }

    fn send_transaction_bundle(&self, txn_data_bundle: Vec<TransactionData>) -> (r: (
        BundleRun,
        BundleAction,
    )) {
        BundleRun::begin(txn_data_bundle)
    }
}

/// What is remembered of a transaction is its own: its first signature, when it was sent,
/// what it pays, whether it pays anything, and the API key, or `none`.
pub proof fn law_tracking_is_of_its_transaction(
    tracking: Tracking,
    transaction: TransactionDataView,
)
    requires
        tracking.is_of(transaction),
    ensures
        ({
            let signatures = transaction_in(transaction.versioned_transaction).signatures;
            let paid = priority_details_of(transaction.versioned_transaction);
            &&& signatures.len() > 0
            &&& tracking.signature@ == signature_text(signatures[0])
            &&& tracking.sent_at == transaction.sent_at
            &&& tracking.details.fee == paid.fee
            &&& tracking.details.cu_limit == paid.cu_limit
            &&& tracking.details.priority == paid.priority
            &&& tracking.priority_fees_enabled <==> paid.fee >= 1
            &&& transaction.api_key matches Some(key) ==> tracking.api_key@ == key
            &&& transaction.api_key is None ==> tracking.api_key@ == "none"@
        }),
{
}

/// The counters of a landing are those of the stored transaction, and there are none if it
/// was no longer stored.
pub proof fn law_landing_counts_the_stored(stored: Option<TransactionDataView>)
    ensures
        stored is None <==> retries_counter(stored) is None,
        stored is None <==> max_retries_counter(stored) is None,
        stored matches Some(transaction) ==> {
            &&& transaction.retry_count <= i32::MAX ==> retries_counter(stored)->0
                == transaction.retry_count
            &&& transaction.max_retries <= i32::MAX ==> max_retries_counter(stored)->0
                == transaction.max_retries
        },
{
}

/// A queue is reported as too long exactly if it is longer than its limit, by as much as
/// it is.
pub proof fn law_excess_is_over_the_limit(queue_length: usize, max_retry_queue_size: Option<usize>)
    ensures
        excess(queue_length, max_retry_queue_size) is Some <==> (max_retry_queue_size
            matches Some(max_size) && queue_length > max_size),
        excess(queue_length, max_retry_queue_size) matches Some(count) ==> count
            + max_retry_queue_size->0 == queue_length,
{
}

/// Retry counts and retry limits are grouped by their size: a counter lies at or above the
/// bound that its group begins with and below the one that the next group begins with. The
/// groups of retry counts begin with 0, 1, 2, 5, 10 and 25, those of limits with 0, 1, 5, 10
/// and 30.
pub proof fn law_landings_are_grouped(counter: i32)
    requires
        counter >= 0,
    ensures
        ({
            let retries = bin_tag(Some(counter), retry_count_bins());
            let limits = bin_tag(Some(counter), max_retries_bins());
            &&& counter < 1 ==> retries == decimal(0) + "_"@ + decimal(1) && limits == retries
            &&& 1 <= counter < 2 ==> retries == decimal(1) + "_"@ + decimal(2)
            &&& 2 <= counter < 5 ==> retries == decimal(2) + "_"@ + decimal(5)
            &&& 1 <= counter < 5 ==> limits == decimal(1) + "_"@ + decimal(5)
            &&& 5 <= counter < 10 ==> retries == decimal(5) + "_"@ + decimal(10) && limits
                == retries
            &&& 10 <= counter < 25 ==> retries == decimal(10) + "_"@ + decimal(25)
            &&& 10 <= counter < 30 ==> limits == decimal(10) + "_"@ + decimal(30)
            &&& 25 <= counter ==> retries == decimal(25) + "_"@ + "inf"@
            &&& 30 <= counter ==> limits == decimal(30) + "_"@ + "inf"@
        }),
{
    let c = counter as int;
    let retries = retry_count_bins();
    let limits = max_retries_bins();
    lemma_bin_index(
        c,
        retries,
        if c < 1 {
            0
        } else if c < 2 {
            1
        } else if c < 5 {
            2
        } else if c < 10 {
            3
        } else if c < 25 {
            4
        } else {
            5
        },
    );
    lemma_bin_index(
        c,
        limits,
        if c < 1 {
            0
        } else if c < 5 {
            1
        } else if c < 10 {
            2
        } else if c < 30 {
            3
        } else {
            4
        },
    );
}

} // verus!

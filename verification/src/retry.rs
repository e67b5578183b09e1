//! Rounds of sending the stored transactions again.
use crate::collections::{is_walk, texts};
use crate::leader_tracker::ContactView;
use crate::send_run::{addressed, has_address, lemma_addressed, sent_in_order, Sending};
use crate::transaction::copy_bytes;
use crate::transaction_store::{
    byte_views, keyed_by_signature, lemma_filter_step, lemma_key_in_walk, signature_of, wires_of,
    TransactionData, TransactionDataView, TransactionStore, TransactionStoreImpl,
};
use vstd::prelude::*;

verus! {

/// The retry counts in a queue of signatures.
pub open spec fn retry_counts(queue: Seq<(String, usize)>) -> Seq<usize> {
    queue.map_values(|entry: (String, usize)| entry.1)
}

/// `places` names each place of `counts` once, by ascending count, places with
/// equal counts in their own order.
pub open spec fn is_stable_order(counts: Seq<usize>, places: Seq<int>) -> bool {
    &&& places.len() == counts.len()
    &&& places.no_duplicates()
    &&& forall|i: int| 0 <= i < places.len() ==> 0 <= #[trigger] places[i] < counts.len()
    &&& forall|a: int, b: int|
        #![trigger places[a], places[b]]
        0 <= a < b < places.len() ==> counts[places[a]] < counts[places[b]] || (
        counts[places[a]] == counts[places[b]] && places[a] < places[b])
}

/// `after` holds the elements of `before` sorted by retry count, elements with
/// equal counts in the order that they had.
pub open spec fn stably_sorted(
    before: Seq<(String, usize)>,
    after: Seq<(String, usize)>,
) -> bool {
    exists|places: Seq<int>|
        #![trigger is_stable_order(retry_counts(before), places)]
        is_stable_order(retry_counts(before), places) && after == places.map_values(
            |place: int| before[place],
        )
}

/// Calls `sort_by_key` of std's slices with the retry count as the key: a stable
/// sort.
#[verifier::external_body]
fn sort_by_retry_count(queue: &mut Vec<(String, usize)>)
    ensures
        stably_sorted(old(queue)@, final(queue)@),
{
    queue.sort_by_key(|entry| entry.1)
}

/// The signatures that leave a queue that is longer than `max_size`: sorted by
/// retry count, all but the first `max_size`.
pub fn signatures_to_shed(queue: Vec<(String, usize)>, max_size: usize) -> (r: Vec<String>)
    requires
        queue.len() > max_size,
    ensures
        exists|places: Seq<int>|
            #![trigger is_stable_order(retry_counts(queue@), places)]
            is_stable_order(retry_counts(queue@), places) && r@ == places.skip(
                max_size as int,
            ).map_values(|place: int| queue@[place].0),
{
    let ghost before = queue@;
    let mut queue = queue;
    sort_by_retry_count(&mut queue);
    let ghost places = choose|places: Seq<int>|
        #![trigger is_stable_order(retry_counts(before), places)]
        is_stable_order(retry_counts(before), places) && queue@ == places.map_values(
            |place: int| before[place],
        );
    let mut r: Vec<String> = Vec::new();
    for i in max_size..queue.len()
        invariant
            max_size < queue.len(),
            queue@ == places.map_values(|place: int| before[place]),
            r@ == places.subrange(max_size as int, i as int).map_values(
                |place: int| before[place].0,
            ),
    {
        r.push(queue[i].0.clone());
        assert(places.subrange(max_size as int, i + 1) =~= places.subrange(
            max_size as int,
            i as int,
        ).push(places[i as int]));
        assert(r@ =~= places.subrange(max_size as int, i + 1).map_values(
            |place: int| before[place].0,
        ));
    }
    assert(places.skip(max_size as int) =~= places.subrange(max_size as int, queue.len() as int));
    r
}

/// `shed` are the keys that leave an over-long queue: no retry count among the
/// ones that stay exceeds one among them, and `max_size` keys stay.
pub open spec fn is_shed(
    entries: Map<Seq<char>, TransactionDataView>,
    max_size: usize,
    shed: Seq<Seq<char>>,
) -> bool {
    &&& shed.no_duplicates()
    &&& shed.to_set().subset_of(entries.dom())
    &&& shed.len() == entries.dom().len() - max_size
    &&& forall|stays: Seq<char>, leaves: Seq<char>|
        #![trigger entries[stays], entries[leaves]]
        entries.contains_key(stays) && !shed.contains(stays) && shed.contains(leaves)
            ==> entries[stays].retry_count <= entries[leaves].retry_count
}

/// The queue is longer than its limit.
pub open spec fn over_limit(
    entries: Map<Seq<char>, TransactionDataView>,
    max_retry_queue_size: Option<usize>,
) -> bool {
    match max_retry_queue_size {
        Some(max_size) => entries.dom().len() > max_size,
        None => false,
    }
}

/// Takes each of the given transactions out of the store.
pub fn remove_all(store: &mut TransactionStoreImpl, signatures: &Vec<String>)
    ensures
        final(store).entries() == old(store).entries().remove_keys(
            texts(signatures@).to_set(),
        ),
{
    let ghost names = texts(signatures@);
    assert(old(store).entries().remove_keys(names.take(0).to_set()) =~= old(store).entries());
    for i in 0..signatures.len()
        invariant
            names == texts(signatures@),
            store.entries() == old(store).entries().remove_keys(names.take(i as int).to_set()),
    {
        store.remove_transaction(signatures[i].clone());
        assert(names.take(i + 1) =~= names.take(i as int).push(names[i as int]));
        assert(names.take(i + 1).to_set() =~= names.take(i as int).to_set().insert(
            names[i as int],
        )) by {
            lemma_push_to_set(names.take(i as int), names[i as int]);
        }
        assert(store.entries() =~= old(store).entries().remove_keys(
            names.take(i + 1).to_set(),
        ));
    }
    assert(names.take(signatures.len() as int) =~= names);
}

proof fn lemma_push_to_set<A>(s: Seq<A>, a: A)
    ensures
        s.push(a).to_set() == s.to_set().insert(a),
{
    assert forall|x: A| s.push(a).to_set().contains(x) <==> s.to_set().insert(a).contains(x) by {
        if s.contains(x) {
            let i = choose|i: int| 0 <= i < s.len() && s[i] == x;
            assert(s.push(a)[i] == x);
        }
        assert(s.push(a)[s.len() as int] == a);
    }
    assert(s.push(a).to_set() =~= s.to_set().insert(a));
}

/// The keys and retry counts of a walk through the store.
proof fn lemma_shed(
    entries: Map<Seq<char>, TransactionDataView>,
    queue: Seq<(String, usize)>,
    places: Seq<int>,
    max_size: usize,
    shed: Seq<Seq<char>>,
)
    requires
        is_walk(queue.map_values(|entry: (String, usize)| entry.0@), entries),
        forall|i: int|
            0 <= i < queue.len() ==> (#[trigger] queue[i]).1 == entries[queue[i].0@].retry_count,
        is_stable_order(retry_counts(queue), places),
        max_size < queue.len(),
        shed == places.skip(max_size as int).map_values(|place: int| queue[place].0@),
    ensures
        is_shed(entries, max_size, shed),
{
    let order = queue.map_values(|entry: (String, usize)| entry.0@);
    let left = places.skip(max_size as int);
    order.unique_seq_to_set();
    assert forall|a: int, b: int| 0 <= a < b < shed.len() implies shed[a] != shed[b] by {
        assert(left[a] == places[a + max_size] && left[b] == places[b + max_size]);
        assert(order[left[a]] != order[left[b]]);
    }
    assert forall|key: Seq<char>| shed.to_set().contains(key) implies entries.dom().contains(
        key,
    ) by {
        let a = choose|a: int| 0 <= a < shed.len() && shed[a] == key;
        assert(left[a] == places[a + max_size]);
        assert(order[left[a]] == key);
        assert(order.to_set().contains(key));
    }
    lemma_places_cover(retry_counts(queue), places);
    assert forall|stays: Seq<char>, leaves: Seq<char>|
        #![trigger entries[stays], entries[leaves]]
        entries.contains_key(stays) && !shed.contains(stays) && shed.contains(
            leaves,
        ) implies entries[stays].retry_count <= entries[leaves].retry_count by {
        let b = choose|b: int| 0 <= b < shed.len() && shed[b] == leaves;
        assert(left[b] == places[b + max_size]);
        assert(order.to_set().contains(stays));
        let p = choose|p: int| 0 <= p < order.len() && order[p] == stays;
        assert(places.contains(p));
        let a = choose|a: int| 0 <= a < places.len() && places[a] == p;
        if a >= max_size {
            assert(left[a - max_size] == p);
            assert(shed[a - max_size] == stays);
        }
        assert(places[a] == p && places[b + max_size] == left[b]);
        assert(queue[p].1 == entries[stays].retry_count);
        assert(queue[left[b]].1 == entries[leaves].retry_count);
        assert(retry_counts(queue)[places[a]] <= retry_counts(queue)[places[b + max_size]]);
    }
}

/// A list of distinct places as long as the sequence names every place.
proof fn lemma_places_cover(counts: Seq<usize>, places: Seq<int>)
    requires
        is_stable_order(counts, places),
    ensures
        forall|p: int| 0 <= p < counts.len() ==> #[trigger] places.contains(p),
{
    let all = vstd::set_lib::set_int_range(0, counts.len() as int);
    vstd::set_lib::lemma_int_range(0, counts.len() as int);
    places.unique_seq_to_set();
    assert(places.to_set().subset_of(all));
    vstd::set_lib::lemma_subset_equality(places.to_set(), all);
    assert forall|p: int| 0 <= p < counts.len() implies #[trigger] places.contains(p) by {
        assert(all.contains(p));
    }
}

/// Shortens a queue that is over its limit: the transactions that were retried
/// most leave the store. Gives the signatures of those that left.
pub fn shed_transactions(
    store: &mut TransactionStoreImpl,
    max_retry_queue_size: Option<usize>,
) -> (r: Vec<String>)
    ensures
        final(store).entries() == old(store).entries().remove_keys(texts(r@).to_set()),
        if over_limit(old(store).entries(), max_retry_queue_size) {
            is_shed(old(store).entries(), max_retry_queue_size->0, texts(r@))
        } else {
            r.len() == 0
        },
{
    let ghost entries = store.entries();
    let queue_length = store.queue_length();
    let max_size: usize = match max_retry_queue_size {
        Some(max_size) => max_size,
        None => queue_length,
    };
    if queue_length <= max_size {
        let r: Vec<String> = Vec::new();
        assert(store.entries() == entries);
        assert(entries.remove_keys(texts(r@).to_set()) =~= entries);
        return r;
    }
    let keys = store.get_signatures();
    let ghost order = texts(keys@);
    let mut queue: Vec<(String, usize)> = Vec::new();
    for i in 0..keys.len()
        invariant
            order == texts(keys@),
            entries == store.entries(),
            is_walk(order, entries),
            queue.len() == i,
            forall|j: int|
                0 <= j < i ==> (#[trigger] queue[j]).0@ == order[j] && queue[j].1
                    == entries[order[j]].retry_count,
    {
        proof {
            lemma_key_in_walk(order, entries, i as int);
        }
        if let Some(data) = store.get_transaction(&keys[i]) {
            queue.push((keys[i].clone(), data.retry_count));
        }
    }
    let ghost walked = queue@;
    assert(walked.map_values(|entry: (String, usize)| entry.0@) =~= order);
    proof {
        order.unique_seq_to_set();
    }
    let r = signatures_to_shed(queue, max_size);
    proof {
        let places = choose|places: Seq<int>|
            #![trigger is_stable_order(retry_counts(walked), places)]
            is_stable_order(retry_counts(walked), places) && r@ == places.skip(
                max_size as int,
            ).map_values(|place: int| walked[place].0);
        assert(texts(r@) =~= places.skip(max_size as int).map_values(
            |place: int| walked[place].0@,
        ));
        lemma_shed(entries, walked, places, max_size, texts(r@));
    }
    remove_all(store, &r);
    r
}

/// The transaction has been retried as often as it may be.
pub open spec fn is_exhausted(transaction: TransactionDataView) -> bool {
    transaction.retry_count >= transaction.max_retries
}

/// The transaction after one more round: its retry count goes up, unless it is
/// exhausted.
pub open spec fn advanced(transaction: TransactionDataView) -> TransactionDataView {
    if is_exhausted(transaction) {
        transaction
    } else {
        TransactionDataView { retry_count: (transaction.retry_count + 1) as usize, ..transaction }
    }
}

/// The entries after one more round.
pub open spec fn all_advanced(entries: Map<Seq<char>, TransactionDataView>) -> Map<
    Seq<char>,
    TransactionDataView,
> {
    entries.map_values(|transaction: TransactionDataView| advanced(transaction))
}

/// Whether the transaction under a key is exhausted.
pub open spec fn exhausted_in(entries: Map<Seq<char>, TransactionDataView>) -> spec_fn(
    Seq<char>,
) -> bool {
    |key: Seq<char>| is_exhausted(entries[key])
}

/// What one round of retries sends, and which transactions it is the last for.
pub struct RetryRound {
    pub wire_transactions: Vec<Vec<u8>>,
    pub reached_max_retries: Vec<String>,
}

impl RetryRound {
    /// The round that a walk through the entries in the given order makes: every
    /// wire transaction is sent, and the exhausted transactions are listed.
    pub open spec fn is_round(
        &self,
        order: Seq<Seq<char>>,
        entries: Map<Seq<char>, TransactionDataView>,
    ) -> bool {
        &&& byte_views(self.wire_transactions@) == wires_of(order, entries)
        &&& texts(self.reached_max_retries@) == order.filter(exhausted_in(entries))
    }

    /// The round that a walk through the entries in some order makes.
    pub open spec fn is_round_of(&self, entries: Map<Seq<char>, TransactionDataView>) -> bool {
        exists|order: Seq<Seq<char>>|
            #![trigger is_walk(order, entries)]
            is_walk(order, entries) && self.is_round(order, entries)
    }
}

/// Begins a round of retries that walks the store in the order of `keys`: counts
/// the retry for each transaction that may be retried again.
pub fn begin_round_along(store: &mut TransactionStoreImpl, keys: &Vec<String>) -> (r: RetryRound)
    requires
        is_walk(texts(keys@), old(store).entries()),
    ensures
        final(store).entries() == all_advanced(old(store).entries()),
        r.is_round(texts(keys@), old(store).entries()),
{
    let ghost order = texts(keys@);
    let ghost entries = store.entries();
    let ghost exhausted = exhausted_in(entries);
    let mut wire_transactions: Vec<Vec<u8>> = Vec::new();
    let mut reached_max_retries: Vec<String> = Vec::new();
    assert(order.take(0).filter(exhausted) =~= Seq::empty()) by {
        reveal(Seq::filter);
    }
    for i in 0..keys.len()
        invariant
            order == texts(keys@),
            is_walk(order, entries),
            exhausted == exhausted_in(entries),
            store.entries().dom() == entries.dom(),
            forall|j: int|
                0 <= j < i ==> store.entries()[#[trigger] order[j]] == advanced(entries[order[j]]),
            forall|j: int|
                i <= j < order.len() ==> store.entries()[#[trigger] order[j]] == entries[order[j]],
            byte_views(wire_transactions@) == wires_of(order.take(i as int), entries),
            texts(reached_max_retries@) == order.take(i as int).filter(exhausted),
    {
        proof {
            lemma_key_in_walk(order, entries, i as int);
            lemma_filter_step(order, exhausted, i as int);
        }
        let ghost wires_before = wire_transactions@;
        let ghost reached_before = reached_max_retries@;
        let ghost entries_before = store.entries();
        if let Some(data) = store.get_transaction(&keys[i]) {
            wire_transactions.push(copy_bytes(&data.wire_transaction));
            assert(byte_views(wire_transactions@) =~= byte_views(wires_before).push(
                wire_transactions@.last()@,
            ));
            if data.retry_count >= data.max_retries {
                reached_max_retries.push(keys[i].clone());
                assert(texts(reached_max_retries@) =~= texts(reached_before).push(
                    order[i as int],
                ));
            } else {
                let advanced = TransactionData { retry_count: data.retry_count + 1, ..data };
                store.put_transaction(keys[i].clone(), advanced);
                assert(store.entries().dom() =~= entries_before.dom());
            }
        }
        assert(wires_of(order.take(i + 1), entries) =~= wires_of(
            order.take(i as int),
            entries,
        ).push(entries[order[i as int]].wire_transaction));
    }
    proof {
        assert(order.take(keys.len() as int) =~= order);
        assert forall|key: Seq<char>| entries.contains_key(key) implies store.entries()[key]
            == advanced(entries[key]) by {
            assert(order.to_set().contains(key));
            let j = choose|j: int| 0 <= j < order.len() && order[j] == key;
            assert(store.entries()[order[j]] == advanced(entries[order[j]]));
        }
        assert(store.entries() =~= all_advanced(entries));
    }
    RetryRound { wire_transactions, reached_max_retries }
}

/// Begins a round of retries: counts the retry for each transaction that may be
/// retried again.
pub fn begin_round(store: &mut TransactionStoreImpl) -> (r: RetryRound)
    ensures
        final(store).entries() == all_advanced(old(store).entries()),
        r.is_round_of(old(store).entries()),
{
    let keys = store.get_signatures();
    assert(is_walk(texts(keys@), old(store).entries()));
    begin_round_along(store, &keys)
}

/// Ends a round of retries: the transactions that it was the last for leave the
/// store.
pub fn end_round(store: &mut TransactionStoreImpl, round: &RetryRound)
    ensures
        final(store).entries() == old(store).entries().remove_keys(
            texts(round.reached_max_retries@).to_set(),
        ),
{
    remove_all(store, &round.reached_max_retries)
}

/// How often a wire transaction is offered to one leader.
pub const SEND_TXN_RETRIES: usize = 10;

/// What came of offering a wire transaction to a leader.
#[derive(Clone, Copy, Debug, PartialEq, Eq, Structural)]
pub enum AttemptOutcome {
    Delivered,
    Failed,
    TimedOut,
}

/// What is counted for an attempt.
#[derive(Clone, Copy, Debug, PartialEq, Eq, Structural)]
pub enum AttemptReport {
    ReceivedByLeader,
    SendError { last_attempt: bool },
    SendTimeout,
}

/// What follows on an attempt.
#[derive(Clone, Copy, Debug, PartialEq, Eq, Structural)]
pub struct AttemptStep {
    pub report: AttemptReport,
    pub try_again: bool,
}

/// What is counted for attempt number `attempt`, counted from zero.
pub open spec fn report_on(attempt: int, outcome: AttemptOutcome) -> AttemptReport {
    match outcome {
        AttemptOutcome::Delivered => AttemptReport::ReceivedByLeader,
        AttemptOutcome::Failed => AttemptReport::SendError {
            last_attempt: attempt == SEND_TXN_RETRIES - 1,
        },
        AttemptOutcome::TimedOut => AttemptReport::SendTimeout,
    }
}

/// Whether another attempt follows on attempt number `attempt`, counted from zero, when
/// a transaction is first sent.
pub open spec fn tries_again(attempt: int, outcome: AttemptOutcome) -> bool {
    outcome != AttemptOutcome::Delivered && attempt + 1 < SEND_TXN_RETRIES
}

/// What follows on attempt number `attempt`, counted from zero, when a transaction is
/// first sent: every attempt but the last is repeated unless it delivered.
pub fn after_attempt(attempt: usize, outcome: AttemptOutcome) -> (r: AttemptStep)
    requires
        attempt < SEND_TXN_RETRIES,
    ensures
        r.try_again == tries_again(attempt as int, outcome),
        r.report == report_on(attempt as int, outcome),
{
    let more = attempt + 1 < SEND_TXN_RETRIES;
    match outcome {
        AttemptOutcome::Delivered => AttemptStep {
            report: AttemptReport::ReceivedByLeader,
            try_again: false,
        },
        AttemptOutcome::Failed => AttemptStep {
            report: AttemptReport::SendError { last_attempt: attempt == SEND_TXN_RETRIES - 1 },
            try_again: more,
        },
        AttemptOutcome::TimedOut => AttemptStep {
            report: AttemptReport::SendTimeout,
            try_again: more,
        },
    }
}

/// Number of attempts from number `attempt` on when a transaction is first sent, where
/// `outcomes` says what comes of each.
pub open spec fn attempts_from(attempt: int, outcomes: spec_fn(int) -> AttemptOutcome) -> int
    decreases SEND_TXN_RETRIES - attempt,
{
    if attempt >= SEND_TXN_RETRIES {
        0
    } else if tries_again(attempt, outcomes(attempt)) {
        1 + attempts_from(attempt + 1, outcomes)
    } else {
        1
    }
}

/// When a transaction is first sent it is offered to a leader until it is delivered, ten
/// times at most: if the first delivery is attempt number `n`, there are `n + 1` attempts;
/// if no attempt delivers, there are ten.
pub proof fn law_attempts_until_delivery(outcomes: spec_fn(int) -> AttemptOutcome, n: int)
    requires
        0 <= n <= SEND_TXN_RETRIES,
        forall|i: int| 0 <= i < n ==> #[trigger] outcomes(i) != AttemptOutcome::Delivered,
        n < SEND_TXN_RETRIES ==> outcomes(n) == AttemptOutcome::Delivered,
    ensures
        attempts_from(0, outcomes) == if n < SEND_TXN_RETRIES {
            n + 1
        } else {
            SEND_TXN_RETRIES as int
        },
{
    lemma_attempts_until_delivery(outcomes, n, 0);
}

proof fn lemma_attempts_until_delivery(
    outcomes: spec_fn(int) -> AttemptOutcome,
    n: int,
    attempt: int,
)
    requires
        0 <= attempt <= n <= SEND_TXN_RETRIES,
        forall|i: int| 0 <= i < n ==> #[trigger] outcomes(i) != AttemptOutcome::Delivered,
        n < SEND_TXN_RETRIES ==> outcomes(n) == AttemptOutcome::Delivered,
    ensures
        attempts_from(attempt, outcomes) == if n < SEND_TXN_RETRIES {
            n + 1 - attempt
        } else {
            SEND_TXN_RETRIES - attempt
        },
    decreases n - attempt,
{
    if attempt < n {
        lemma_attempts_until_delivery(outcomes, n, attempt + 1);
    }
}

/// Whether another attempt follows on attempt number `attempt`, counted from zero, in a
/// round of retries.
pub open spec fn tries_again_in_round(attempt: int, outcome: AttemptOutcome) -> bool {
    outcome == AttemptOutcome::Failed && attempt + 1 < SEND_TXN_RETRIES
}

/// What follows on attempt number `attempt`, counted from zero, in a round of retries:
/// every attempt but the last is repeated if it failed, but not if it timed out.
pub fn after_retry_attempt(attempt: usize, outcome: AttemptOutcome) -> (r: AttemptStep)
    requires
        attempt < SEND_TXN_RETRIES,
    ensures
        r.try_again == (outcome == AttemptOutcome::Failed && attempt + 1 < SEND_TXN_RETRIES),
        r.try_again == tries_again_in_round(attempt as int, outcome),
        r.report == report_on(attempt as int, outcome),
{
    let step = after_attempt(attempt, outcome);
    match outcome {
        AttemptOutcome::TimedOut => AttemptStep { report: step.report, try_again: false },
        _ => step,
    }
}

/// Number of attempts from number `attempt` on in a round of retries, where `outcomes`
/// says what comes of each.
pub open spec fn attempts_in_round_from(
    attempt: int,
    outcomes: spec_fn(int) -> AttemptOutcome,
) -> int
    decreases SEND_TXN_RETRIES - attempt,
{
    if attempt >= SEND_TXN_RETRIES {
        0
    } else if tries_again_in_round(attempt, outcomes(attempt)) {
        1 + attempts_in_round_from(attempt + 1, outcomes)
    } else {
        1
    }
}

/// In a round of retries a wire transaction is offered to a leader until it is delivered
/// or an attempt times out, ten times at most: if the first `n` attempts fail and the
/// next one does not, there are `n + 1` attempts; if all fail, there are ten.
pub proof fn law_attempts_in_round(outcomes: spec_fn(int) -> AttemptOutcome, n: int)
    requires
        0 <= n <= SEND_TXN_RETRIES,
        forall|i: int| 0 <= i < n ==> #[trigger] outcomes(i) == AttemptOutcome::Failed,
        n < SEND_TXN_RETRIES ==> outcomes(n) != AttemptOutcome::Failed,
    ensures
        attempts_in_round_from(0, outcomes) == if n < SEND_TXN_RETRIES {
            n + 1
        } else {
            SEND_TXN_RETRIES as int
        },
{
    lemma_attempts_in_round(outcomes, n, 0);
}

proof fn lemma_attempts_in_round(
    outcomes: spec_fn(int) -> AttemptOutcome,
    n: int,
    attempt: int,
)
    requires
        0 <= attempt <= n <= SEND_TXN_RETRIES,
        forall|i: int| 0 <= i < n ==> #[trigger] outcomes(i) == AttemptOutcome::Failed,
        n < SEND_TXN_RETRIES ==> outcomes(n) != AttemptOutcome::Failed,
    ensures
        attempts_in_round_from(attempt, outcomes) == if n < SEND_TXN_RETRIES {
            n + 1 - attempt
        } else {
            SEND_TXN_RETRIES - attempt
        },
    decreases n - attempt,
{
    if attempt < n {
        lemma_attempts_in_round(outcomes, n, attempt + 1);
    }
}

/// The entries after a whole round: each transaction that is not exhausted has
/// been retried once more, the exhausted ones are gone.
pub open spec fn after_round(entries: Map<Seq<char>, TransactionDataView>) -> Map<
    Seq<char>,
    TransactionDataView,
> {
    all_advanced(entries).remove_keys(
        entries.dom().filter(|key: Seq<char>| is_exhausted(entries[key])),
    )
}

/// What a round lists as exhausted is what leaves the store at its end, in
/// whatever order the store is walked.
pub proof fn law_round_removes_exhausted(
    order: Seq<Seq<char>>,
    entries: Map<Seq<char>, TransactionDataView>,
)
    requires
        is_walk(order, entries),
    ensures
        all_advanced(entries).remove_keys(order.filter(exhausted_in(entries)).to_set())
            == after_round(entries),
{
    let exhausted = exhausted_in(entries);
    lemma_filter_to_set(order, exhausted);
    assert(order.filter(exhausted).to_set() =~= entries.dom().filter(
        |key: Seq<char>| is_exhausted(entries[key]),
    ));
}

proof fn lemma_filter_to_set<A>(s: Seq<A>, keep: spec_fn(A) -> bool)
    ensures
        s.filter(keep).to_set() == s.to_set().filter(keep),
    decreases s.len(),
{
    reveal(Seq::filter);
    if s.len() > 0 {
        let front = s.drop_last();
        lemma_filter_to_set(front, keep);
        assert(s =~= front.push(s.last()));
        lemma_push_to_set(front, s.last());
        lemma_push_to_set(front.filter(keep), s.last());
    }
    assert(s.filter(keep).to_set() =~= s.to_set().filter(keep));
}

/// A round sends every stored transaction once to every leader that has an address, and
/// nothing else, the leaders numbered from zero; a transaction for which it is the last
/// round is sent like the others. `sendings` holds what goes out for each wire transaction
/// of the round.
pub proof fn law_round_sends_every_pair(
    round: RetryRound,
    entries: Map<Seq<char>, TransactionDataView>,
    leaders: Seq<ContactView>,
    sendings: Seq<Seq<Sending>>,
)
    requires
        round.is_round_of(entries),
        sendings.len() == round.wire_transactions.len(),
        forall|i: int|
            0 <= i < sendings.len() ==> sent_in_order(
                #[trigger] sendings[i],
                round.wire_transactions[i]@,
                addressed(leaders, 0, leaders.len() as int),
                0,
            ),
    ensures
        exists|order: Seq<Seq<char>>| #[trigger]
            is_walk(order, entries) && sends_every_pair(
                sendings,
                order,
                entries,
                leaders.filter(|leader: ContactView| leader.tpu_quic is Some),
            ),
{
    assert(has_address() =~= (|leader: ContactView| leader.tpu_quic is Some));
    lemma_addressed(leaders, 0, leaders.len() as int);
    assert(leaders.subrange(0, leaders.len() as int) =~= leaders);
    let order = choose|order: Seq<Seq<char>>|
        #![trigger is_walk(order, entries)]
        is_walk(order, entries) && round.is_round(order, entries);
    assert(byte_views(round.wire_transactions@) == wires_of(order, entries));
    let with_address = leaders.filter(has_address());
    assert forall|i: int| 0 <= i < sendings.len() implies sent_in_order(
        #[trigger] sendings[i],
        entries[order[i]].wire_transaction,
        with_address,
        0,
    ) by {
        assert(byte_views(round.wire_transactions@)[i] == wires_of(order, entries)[i]);
    }
    assert(byte_views(round.wire_transactions@).len() == order.len());
    assert(sends_every_pair(sendings, order, entries, with_address));
}

/// What goes out for each key of the order is its wire transaction, to each of the
/// leaders in order.
pub open spec fn sends_every_pair(
    sendings: Seq<Seq<Sending>>,
    order: Seq<Seq<char>>,
    entries: Map<Seq<char>, TransactionDataView>,
    leaders: Seq<ContactView>,
) -> bool {
    &&& sendings.len() == order.len()
    &&& forall|i: int|
        0 <= i < sendings.len() ==> (#[trigger] sendings[i]).len() == leaders.len()
    &&& forall|i: int, k: int|
        0 <= i < sendings.len() && 0 <= k < leaders.len() ==> #[trigger] sendings[i][k] == (
        Sending {
            wire_transaction: entries[order[i]].wire_transaction,
            leader: leaders[k],
            leader_num: k,
        })
}

/// The entries after `n` whole rounds.
pub open spec fn after_rounds(entries: Map<Seq<char>, TransactionDataView>, n: nat) -> Map<
    Seq<char>,
    TransactionDataView,
>
    decreases n,
{
    if n == 0 {
        entries
    } else {
        after_round(after_rounds(entries, (n - 1) as nat))
    }
}

/// A transaction that is neither confirmed nor shed stays in the store for as
/// many rounds as it has retries left, is sent in one round more, and then
/// leaves.
pub proof fn law_retry_budget(
    entries: Map<Seq<char>, TransactionDataView>,
    key: Seq<char>,
    n: nat,
)
    requires
        entries.contains_key(key),
        entries[key].retry_count <= entries[key].max_retries,
    ensures
        after_rounds(entries, n).contains_key(key) <==> n <= entries[key].max_retries
            - entries[key].retry_count,
        after_rounds(entries, n).contains_key(key) ==> after_rounds(entries, n)[key] == (
        TransactionDataView {
            retry_count: (entries[key].retry_count + n) as usize,
            ..entries[key]
        }),
    decreases n,
{
    if n > 0 {
        law_retry_budget(entries, key, (n - 1) as nat);
        let before = after_rounds(entries, (n - 1) as nat);
        assert(before.contains_key(key) ==> all_advanced(before)[key] == advanced(before[key]));
    }
}

/// Shedding shortens an over-long queue to its limit.
pub proof fn law_shedding_shortens_queue(
    entries: Map<Seq<char>, TransactionDataView>,
    max_size: usize,
    shed: Seq<Seq<char>>,
)
    requires
        entries.dom().finite(),
        entries.dom().len() > max_size,
        is_shed(entries, max_size, shed),
    ensures
        entries.remove_keys(shed.to_set()).dom().len() == max_size,
{
    shed.unique_seq_to_set();
    let left = entries.dom().difference(shed.to_set());
    assert(entries.remove_keys(shed.to_set()).dom() =~= left);
    assert(entries.dom() =~= left.union(shed.to_set()));
    vstd::set_lib::lemma_set_disjoint_lens(left, shed.to_set());
}

/// Rounds and shedding leave every transaction under its own signature.
pub proof fn law_round_keeps_keys(
    entries: Map<Seq<char>, TransactionDataView>,
    gone: Set<Seq<char>>,
)
    requires
        keyed_by_signature(entries),
    ensures
        keyed_by_signature(all_advanced(entries)),
        keyed_by_signature(entries.remove_keys(gone)),
{
    assert forall|key: Seq<char>| #[trigger]
        all_advanced(entries).contains_key(key) implies signature_of(all_advanced(entries)[key])
        == Some(key) by {
        assert(entries.contains_key(key));
    }
    assert forall|key: Seq<char>| #[trigger]
        entries.remove_keys(gone).contains_key(key) implies signature_of(
        entries.remove_keys(gone)[key],
    ) == Some(key) by {
        assert(entries.contains_key(key));
    }
}

/// What one whole round does to a stored transaction, in whatever order the store is
/// walked: one that has retries left stays, its retry count one higher and all else as it
/// was; one that has none left is gone.
pub proof fn law_round_counts_one_retry(
    order: Seq<Seq<char>>,
    entries: Map<Seq<char>, TransactionDataView>,
    key: Seq<char>,
)
    requires
        is_walk(order, entries),
    ensures
        ({
            let after = all_advanced(entries).remove_keys(
                order.filter(exhausted_in(entries)).to_set(),
            );
            &&& after.contains_key(key) <==> entries.contains_key(key) && entries[key].retry_count
                < entries[key].max_retries
            &&& after.contains_key(key) ==> {
                &&& after[key].retry_count == entries[key].retry_count + 1
                &&& after[key].max_retries == entries[key].max_retries
                &&& after[key].wire_transaction == entries[key].wire_transaction
                &&& after[key].versioned_transaction == entries[key].versioned_transaction
                &&& after[key].sent_at == entries[key].sent_at
                &&& after[key].api_key == entries[key].api_key
            }
        }),
{
    lemma_filter_to_set(order, exhausted_in(entries));
    let gone = order.filter(exhausted_in(entries)).to_set();
    assert(gone.contains(key) <==> order.to_set().contains(key) && exhausted_in(entries)(key));
    assert(all_advanced(entries).contains_key(key) <==> entries.contains_key(key));
}

/// A round lists as exhausted exactly the stored transactions that have no retries left.
pub proof fn law_round_lists_the_exhausted(
    round: RetryRound,
    entries: Map<Seq<char>, TransactionDataView>,
    key: Seq<char>,
)
    requires
        round.is_round_of(entries),
    ensures
        texts(round.reached_max_retries@).contains(key) <==> entries.contains_key(key)
            && entries[key].retry_count >= entries[key].max_retries,
{
    let order = choose|order: Seq<Seq<char>>|
        #![trigger is_walk(order, entries)]
        is_walk(order, entries) && round.is_round(order, entries);
    lemma_filter_to_set(order, exhausted_in(entries));
    let listed = texts(round.reached_max_retries@);
    assert(listed.to_set().contains(key) <==> listed.contains(key));
    assert(order.to_set().contains(key) <==> entries.contains_key(key));
}

/// Of an over-long queue as many transactions leave as it is too long by, all of them
/// stored ones, none twice, and none that was retried less often than one that stays.
pub proof fn law_most_retried_are_shed(
    entries: Map<Seq<char>, TransactionDataView>,
    max_size: usize,
    shed: Seq<Seq<char>>,
    stays: Seq<char>,
    i: int,
    j: int,
)
    requires
        is_shed(entries, max_size, shed),
        0 <= i < j < shed.len() || (0 <= i < shed.len() && j == i),
    ensures
        shed.len() + max_size == entries.dom().len(),
        entries.contains_key(shed[i]),
        i != j ==> shed[i] != shed[j],
        entries.contains_key(stays) && (forall|k: int|
            0 <= k < shed.len() ==> #[trigger] shed[k] != stays) ==> entries[stays].retry_count
            <= entries[shed[i]].retry_count,
{
    assert(shed.to_set().contains(shed[i]));
    assert(shed.contains(shed[i]));
}

/// How attempts to reach a leader go on. A delivery ends them. An error is followed by
/// another attempt until the tenth, a timeout too, except in a round of retries, where it
/// ends them. Only the tenth is reported as the last one.
pub proof fn law_attempts_are_repeated(attempt: int, outcome: AttemptOutcome)
    requires
        0 <= attempt < 10,
    ensures
        tries_again(attempt, AttemptOutcome::Delivered) == false,
        tries_again(attempt, AttemptOutcome::Failed) <==> attempt < 9,
        tries_again(attempt, AttemptOutcome::TimedOut) <==> attempt < 9,
        tries_again_in_round(attempt, AttemptOutcome::Delivered) == false,
        tries_again_in_round(attempt, AttemptOutcome::Failed) <==> attempt < 9,
        tries_again_in_round(attempt, AttemptOutcome::TimedOut) == false,
        report_on(attempt, outcome) is ReceivedByLeader <==> outcome is Delivered,
        report_on(attempt, outcome) is SendTimeout <==> outcome is TimedOut,
        report_on(attempt, outcome) matches AttemptReport::SendError { last_attempt }
            ==> last_attempt == (attempt == 9),
{
}

/// A queue is over its limit exactly if there is a limit and the queue is longer; to allow
/// more never puts a queue over its limit.
pub proof fn law_queue_over_its_limit(
    entries: Map<Seq<char>, TransactionDataView>,
    max_size: usize,
    larger: usize,
)
    requires
        max_size <= larger,
    ensures
        !over_limit(entries, None),
        over_limit(entries, Some(max_size)) <==> entries.dom().len() > max_size,
        over_limit(entries, Some(larger)) ==> over_limit(entries, Some(max_size)),
{
}

} // verus!

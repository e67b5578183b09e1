//! The transactions that wait for confirmation, each under its signature.
use crate::clock::Instant;
use crate::collections::{entry_count, is_walk, no_entries, texts};
use crate::rpc_server::RequestMetadata;
use crate::transaction::{copy_bytes, signature_text, transaction_in, VersionedTransaction};
use dashmap::DashMap;
use vstd::prelude::*;

verus! {

/// A transaction on its way to the leaders.
pub struct TransactionData {
    pub wire_transaction: Vec<u8>,
    pub versioned_transaction: VersionedTransaction,
    pub sent_at: Instant,
    pub retry_count: usize,
    pub max_retries: usize,
    pub request_metadata: Option<RequestMetadata>,
}

/// What a [`TransactionData`] stands for.
#[verifier::ext_equal]
pub struct TransactionDataView {
    pub wire_transaction: Seq<u8>,
    pub versioned_transaction: Seq<u8>,
    pub sent_at: Instant,
    pub retry_count: usize,
    pub max_retries: usize,
    pub api_key: Option<Seq<char>>,
}

/// The API key that a request names, if it names one.
pub open spec fn api_key_view(metadata: Option<RequestMetadata>) -> Option<Seq<char>> {
    match metadata {
        Some(m) => Some(m.api_key@),
        None => None,
    }
}

impl View for TransactionData {
    type V = TransactionDataView;

    open spec fn view(&self) -> TransactionDataView {
        TransactionDataView {
            wire_transaction: self.wire_transaction@,
            versioned_transaction: self.versioned_transaction@,
            sent_at: self.sent_at,
            retry_count: self.retry_count,
            max_retries: self.max_retries,
            api_key: api_key_view(self.request_metadata),
        }
    }
}

impl Clone for TransactionData {
    fn clone(&self) -> (r: Self)
        ensures
            r@ == self@,
    {
        TransactionData {
            wire_transaction: copy_bytes(&self.wire_transaction),
            versioned_transaction: self.versioned_transaction.clone(),
            sent_at: self.sent_at,
            retry_count: self.retry_count,
            max_retries: self.max_retries,
            request_metadata: match &self.request_metadata {
                Some(m) => Some(m.clone()),
                None => None,
            },
        }
    }
}

/// The text of a transaction's first signature, if it has one.
pub open spec fn signature_of(transaction: TransactionDataView) -> Option<Seq<char>> {
    let signatures = transaction_in(transaction.versioned_transaction).signatures;
    if signatures.len() > 0 {
        Some(signature_text(signatures[0]))
    } else {
        None
    }
}

/// The text of the transaction's first signature.
pub fn get_signature(transaction: &TransactionData) -> (r: Option<String>)
    ensures
        match r {
            Some(text) => signature_of(transaction@) == Some(text@),
            None => signature_of(transaction@) is None,
        },
{
    match transaction.versioned_transaction.signer_signature() {
        Some(signature) => Some(signature.text()),
        None => None,
    }
}

/// The entries of a map of transactions.
pub uninterp spec fn store_contents(map: DashMap<String, TransactionData>) -> Map<
    Seq<char>,
    TransactionDataView,
>;

/// Calls `DashMap::new`, which gives a map without entries.
#[verifier::external_body]
fn store_new() -> (r: DashMap<String, TransactionData>)
    ensures
        no_entries(store_contents(r)),
{
    DashMap::new()
}

/// Calls `DashMap::len`, which counts the entries.
#[verifier::external_body]
fn store_len(map: &DashMap<String, TransactionData>) -> (r: usize)
    ensures
        entry_count(store_contents(*map), r as nat),
{
    map.len()
}

/// Calls `DashMap::contains_key`, which says whether the key has an entry.
#[verifier::external_body]
fn store_contains_key(map: &DashMap<String, TransactionData>, key: &String) -> (r: bool)
    ensures
        r == store_contents(*map).contains_key(key@),
{
    map.contains_key(key)
}

/// Calls `DashMap::insert`, which puts the value under the key in place of what
/// was there.
#[verifier::external_body]
fn store_insert(
    map: &mut DashMap<String, TransactionData>,
    key: String,
    value: TransactionData,
)
    ensures
        store_contents(*final(map)) == store_contents(*old(map)).insert(key@, value@),
{
    map.insert(key, value);
}

/// Calls `DashMap::remove`, which takes the key's entry out of the map and gives
/// its value.
#[verifier::external_body]
fn store_remove(map: &mut DashMap<String, TransactionData>, key: &String) -> (r: Option<
    TransactionData,
>)
    ensures
        store_contents(*final(map)) == store_contents(*old(map)).remove(key@),
        data_view(r) == store_contents(*old(map)).get(key@),
{
    map.remove(key).map(|entry| entry.1)
}

/// Calls `DashMap::get` and copies the value that the key has.
#[verifier::external_body]
fn store_get(map: &DashMap<String, TransactionData>, key: &String) -> (r: Option<
    TransactionData,
>)
    ensures
        data_view(r) == store_contents(*map).get(key@),
{
    map.get(key).map(|entry| entry.value().clone())
}

/// Calls `DashMap::iter` and copies the keys: each key once, in an order that
/// differs from map to map.
#[verifier::external_body]
fn store_keys(map: &DashMap<String, TransactionData>) -> (r: Vec<String>)
    ensures
        is_walk(texts(r@), store_contents(*map)),
{
    map.iter().map(|entry| entry.key().clone()).collect()
}

/// An optional transaction by its view.
pub open spec fn data_view(data: Option<TransactionData>) -> Option<TransactionDataView> {
    match data {
        Some(d) => Some(d@),
        None => None,
    }
}

/// From this many entries on, only fresh transactions are handed out.
pub const MAX_QUEUE: usize = 40_000;

/// A transaction stays fresh for this many seconds after it came in.
pub const FRESH_SECS: u64 = 10;

/// The entries after a transaction was offered: it is taken up under its
/// signature, unless it has none or the signature is already there.
pub open spec fn with_transaction(
    entries: Map<Seq<char>, TransactionDataView>,
    transaction: TransactionDataView,
) -> Map<Seq<char>, TransactionDataView> {
    match signature_of(transaction) {
        Some(signature) => if entries.contains_key(signature) {
            entries
        } else {
            entries.insert(signature, transaction)
        },
        None => entries,
    }
}

/// The wire transactions under the given keys, in their order.
pub open spec fn wires_of(
    order: Seq<Seq<char>>,
    entries: Map<Seq<char>, TransactionDataView>,
) -> Seq<Seq<u8>> {
    order.map_values(|key: Seq<char>| entries[key].wire_transaction)
}

/// Whether the transaction under a key came in less than [`FRESH_SECS`] ago.
pub open spec fn is_fresh(
    entries: Map<Seq<char>, TransactionDataView>,
    now: Instant,
) -> spec_fn(Seq<char>) -> bool {
    |key: Seq<char>| entries[key].sent_at.secs_until(now) < FRESH_SECS
}

/// The keys whose wire transactions are handed out when the entries are walked in
/// the given order: all of them in a short queue; in a long one the fresh ones,
/// [`MAX_QUEUE`] at most.
pub open spec fn handed_out(
    order: Seq<Seq<char>>,
    entries: Map<Seq<char>, TransactionDataView>,
    now: Instant,
) -> Seq<Seq<char>> {
    if order.len() < MAX_QUEUE {
        order
    } else {
        at_most(order.filter(is_fresh(entries, now)), MAX_QUEUE as int)
    }
}

/// Byte vectors by their views.
pub open spec fn byte_views(vectors: Seq<Vec<u8>>) -> Seq<Seq<u8>> {
    vectors.map_values(|v: Vec<u8>| v@)
}

/// A store of transactions that wait for confirmation.
pub trait TransactionStore: Sized {
    /// The stored transactions, each under the text of its signature.
    spec fn entries(&self) -> Map<Seq<char>, TransactionDataView>;

    /// Takes up a transaction under its signature. One without a signature, or
    /// whose signature is already there, changes nothing.
    fn add_transaction(&mut self, transaction: TransactionData)
        ensures
            final(self).entries() == with_transaction(old(self).entries(), transaction@),
    ;

    /// The signatures of the stored transactions, in no particular order.
    fn get_signatures(&self) -> (r: Vec<String>)
        ensures
            is_walk(texts(r@), self.entries()),
    ;

    /// Whether a transaction with this signature is stored.
    fn has_signature(&self, signature: &String) -> (r: bool)
        ensures
            r == self.entries().contains_key(signature@),
    ;

    /// Takes the transaction with this signature out of the store.
    fn remove_transaction(&mut self, signature: String) -> (r: Option<TransactionData>)
        ensures
            final(self).entries() == old(self).entries().remove(signature@),
            data_view(r) == old(self).entries().get(signature@),
    ;

    /// The wire transactions to send again, in no particular order; from a long
    /// queue only fresh ones.
    fn get_wire_transactions(&self, now: Instant) -> (r: Vec<Vec<u8>>)
        ensures
            exists|order: Seq<Seq<char>>|
                #![trigger is_walk(order, self.entries())]
                is_walk(order, self.entries()) && byte_views(r@) == wires_of(
                    handed_out(order, self.entries(), now),
                    self.entries(),
                ),
            r.len() <= self.entries().dom().len(),
    ;
}

/// A store that keeps its transactions in a concurrent hash map.
pub struct TransactionStoreImpl {
    transactions: DashMap<String, TransactionData>,
}

impl TransactionStoreImpl {
    /// A store without transactions.
    pub fn new() -> (r: Self)
        ensures
            no_entries(r.entries()),
    {
        TransactionStoreImpl { transactions: store_new() }
    }

    /// Number of stored transactions.
    pub fn queue_length(&self) -> (r: usize)
        ensures
            entry_count(self.entries(), r as nat),
    {
        store_len(&self.transactions)
    }

    /// A copy of the transaction with this signature.
    pub fn get_transaction(&self, signature: &String) -> (r: Option<TransactionData>)
        ensures
            data_view(r) == self.entries().get(signature@),
    {
        store_get(&self.transactions, signature)
    }

    /// Puts a transaction under a signature, in place of what was there.
    pub(crate) fn put_transaction(&mut self, signature: String, transaction: TransactionData)
        ensures
            final(self).entries() == old(self).entries().insert(signature@, transaction@),
    {
        store_insert(&mut self.transactions, signature, transaction)
    }

    /// How many transactions were left out when the given wire transactions were handed
    /// out; from a short queue none ever are.
    pub fn transactions_dropped(&self, wire_transactions: &Vec<Vec<u8>>) -> (r: Option<usize>)
        requires
            wire_transactions.len() <= self.entries().dom().len(),
        ensures
            match r {
                Some(count) => self.entries().dom().len() >= MAX_QUEUE && count
                    == self.entries().dom().len() - wire_transactions.len(),
                None => self.entries().dom().len() < MAX_QUEUE,
            },
    {
        let queue_length = store_len(&self.transactions);
        if queue_length < MAX_QUEUE {
            None
        } else {
            Some(queue_length - wire_transactions.len())
        }
    }

    /// The wire transactions to send again when the entries are walked in the
    /// order of `keys`.
    pub fn wire_transactions_along(&self, keys: &Vec<String>, now: Instant) -> (r: Vec<Vec<u8>>)
        requires
            is_walk(texts(keys@), self.entries()),
        ensures
            byte_views(r@) == wires_of(
                handed_out(texts(keys@), self.entries(), now),
                self.entries(),
            ),
    {
        let ghost order = texts(keys@);
        let ghost entries = self.entries();
        let queue_length = store_len(&self.transactions);
        proof {
            order.unique_seq_to_set();
        }
        let mut wires: Vec<Vec<u8>> = Vec::new();
        if queue_length < MAX_QUEUE {
            for i in 0..keys.len()
                invariant
                    order == texts(keys@),
                    entries == store_contents(self.transactions),
                    is_walk(order, entries),
                    byte_views(wires@) == wires_of(order.take(i as int), entries),
            {
                proof {
                    lemma_key_in_walk(order, entries, i as int);
                }
                if let Some(data) = store_get(&self.transactions, &keys[i]) {
                    let ghost before = wires@;
                    wires.push(data.wire_transaction);
                    assert(byte_views(wires@) =~= byte_views(before).push(wires@.last()@));
                }
                assert(wires_of(order.take(i + 1), entries) =~= wires_of(
                    order.take(i as int),
                    entries,
                ).push(entries[order[i as int]].wire_transaction));
            }
            assert(order.take(keys.len() as int) =~= order);
        } else {
            let ghost fresh = is_fresh(entries, now);
            assert(order.take(0).filter(fresh) =~= Seq::empty()) by {
                reveal(Seq::filter);
            }
            for i in 0..keys.len()
                invariant
                    order == texts(keys@),
                    entries == store_contents(self.transactions),
                    is_walk(order, entries),
                    fresh == is_fresh(entries, now),
                    byte_views(wires@) == wires_of(
                        at_most(order.take(i as int).filter(fresh), MAX_QUEUE as int),
                        entries,
                    ),
                    wires.len() <= MAX_QUEUE,
            {
                proof {
                    lemma_key_in_walk(order, entries, i as int);
                    lemma_filter_step(order, fresh, i as int);
                }
                if let Some(data) = store_get(&self.transactions, &keys[i]) {
                    let ghost before = wires@;
                    let ghost so_far = order.take(i as int).filter(fresh);
                    if data.sent_at.elapsed_secs(now) < FRESH_SECS {
                        if wires.len() < MAX_QUEUE {
                            wires.push(data.wire_transaction);
                            assert(byte_views(wires@) =~= byte_views(before).push(wires@.last()@));
                            assert(wires_of(
                                at_most(so_far.push(order[i as int]), MAX_QUEUE as int),
                                entries,
                            ) =~= wires_of(at_most(so_far, MAX_QUEUE as int), entries).push(
                                entries[order[i as int]].wire_transaction,
                            ));
                        } else {
                            assert(byte_views(before).len() == MAX_QUEUE);
                            assert(at_most(so_far.push(order[i as int]), MAX_QUEUE as int)
                                =~= at_most(so_far, MAX_QUEUE as int));
                        }
                    }
                }
            }
            assert(order.take(keys.len() as int) =~= order);
        }
        wires
    }
}

impl TransactionStore for TransactionStoreImpl {
    closed spec fn entries(&self) -> Map<Seq<char>, TransactionDataView> {
        store_contents(self.transactions)
    }

    fn add_transaction(&mut self, transaction: TransactionData) {
        if let Some(signature) = get_signature(&transaction) {
            if store_contains_key(&self.transactions, &signature) {
                return;
            }
            store_insert(&mut self.transactions, signature, transaction);
        }
    }

    fn get_signatures(&self) -> (r: Vec<String>) {
        store_keys(&self.transactions)
    }

    fn has_signature(&self, signature: &String) -> (r: bool) {
        store_contains_key(&self.transactions, signature)
    }

    fn remove_transaction(&mut self, signature: String) -> (r: Option<TransactionData>) {
        store_remove(&mut self.transactions, &signature)
    }

    fn get_wire_transactions(&self, now: Instant) -> (r: Vec<Vec<u8>>) {
        let keys = store_keys(&self.transactions);
        assert(is_walk(texts(keys@), self.entries()));
        let r = self.wire_transactions_along(&keys, now);
        proof {
            let order = texts(keys@);
            order.unique_seq_to_set();
            lemma_filter_is_shorter(order, is_fresh(self.entries(), now));
            assert(byte_views(r@).len() == handed_out(order, self.entries(), now).len());
        }
        r
    }
}

/// The first `n` elements, or all where there are fewer.
pub open spec fn at_most<A>(s: Seq<A>, n: int) -> Seq<A> {
    if s.len() <= n {
        s
    } else {
        s.take(n)
    }
}

/// Each key of a walk has an entry.
pub(crate) proof fn lemma_key_in_walk<K, V>(order: Seq<K>, entries: Map<K, V>, i: int)
    requires
        is_walk(order, entries),
        0 <= i < order.len(),
    ensures
        entries.contains_key(order[i]),
{
    assert(order.to_set().contains(order[i]));
}

/// Filtering adds nothing.
proof fn lemma_filter_is_shorter<A>(s: Seq<A>, keep: spec_fn(A) -> bool)
    ensures
        s.filter(keep).len() <= s.len(),
    decreases s.len(),
{
    reveal(Seq::filter);
    if s.len() > 0 {
        lemma_filter_is_shorter(s.drop_last(), keep);
    }
}

/// Filtering one element more.
pub(crate) proof fn lemma_filter_step<A>(s: Seq<A>, keep: spec_fn(A) -> bool, i: int)
    requires
        0 <= i < s.len(),
    ensures
        s.take(i + 1).filter(keep) == if keep(s[i]) {
            s.take(i).filter(keep).push(s[i])
        } else {
            s.take(i).filter(keep)
        },
{
    reveal(Seq::filter);
    assert(s.take(i + 1).drop_last() =~= s.take(i));
}

/// Every stored transaction is kept under its own signature.
pub open spec fn keyed_by_signature(entries: Map<Seq<char>, TransactionDataView>) -> bool {
    forall|key: Seq<char>| #[trigger]
        entries.contains_key(key) ==> signature_of(entries[key]) == Some(key)
}

/// A store keeps every transaction under its own signature: an empty one does, and
/// adding or removing a transaction does not change that.
pub proof fn law_keyed_by_signature(
    entries: Map<Seq<char>, TransactionDataView>,
    transaction: TransactionDataView,
    signature: Seq<char>,
)
    requires
        keyed_by_signature(entries),
    ensures
        keyed_by_signature(Map::<Seq<char>, TransactionDataView>::empty()),
        keyed_by_signature(with_transaction(entries, transaction)),
        keyed_by_signature(entries.remove(signature)),
{
}

/// Of several transactions with one signature the store keeps the first.
pub proof fn law_first_transaction_stays(
    entries: Map<Seq<char>, TransactionDataView>,
    first: TransactionDataView,
    second: TransactionDataView,
)
    requires
        signature_of(first) == signature_of(second),
    ensures
        with_transaction(with_transaction(entries, first), second) == with_transaction(
            entries,
            first,
        ),
{
}

/// Taking a transaction out again undoes taking it up.
pub proof fn law_remove_undoes_add(
    entries: Map<Seq<char>, TransactionDataView>,
    transaction: TransactionDataView,
    signature: Seq<char>,
)
    requires
        signature_of(transaction) == Some(signature),
        !entries.contains_key(signature),
    ensures
        with_transaction(entries, transaction).get(signature) == Some(transaction),
        with_transaction(entries, transaction).remove(signature) == entries,
{
    assert(with_transaction(entries, transaction).remove(signature) =~= entries);
}

/// A transaction is known by the text of its first signature, and by nothing if it has
/// none.
pub proof fn law_known_by_first_signature(transaction: TransactionDataView)
    ensures
        ({
            let signatures = transaction_in(transaction.versioned_transaction).signatures;
            &&& signatures.len() == 0 ==> signature_of(transaction) is None
            &&& signatures.len() > 0 ==> signature_of(transaction) == Some(
                signature_text(signatures[0]),
            )
        }),
{
}

/// Offering a transaction to the store changes at most the entry of its first signature:
/// there it is found afterwards, unless another one was there before, which stays.
pub proof fn law_offered_transaction_is_found(
    entries: Map<Seq<char>, TransactionDataView>,
    transaction: TransactionDataView,
    other: Seq<char>,
)
    ensures
        ({
            let signatures = transaction_in(transaction.versioned_transaction).signatures;
            let key = signature_text(signatures[0]);
            let after = with_transaction(entries, transaction);
            &&& signatures.len() == 0 ==> after == entries
            &&& signatures.len() > 0 && !entries.contains_key(key) ==> after.get(key) == Some(
                transaction,
            )
            &&& entries.contains_key(other) ==> after.get(other) == entries.get(other)
            &&& other != key ==> after.get(other) == entries.get(other)
        }),
{
}

/// From a queue of fewer than 40000 every transaction is handed out. From a longer one
/// those are that came in less than ten seconds ago, in the order of the walk, as many as
/// there are but 40000 at most.
pub proof fn law_long_queues_hand_out_fresh(
    order: Seq<Seq<char>>,
    entries: Map<Seq<char>, TransactionDataView>,
    now: Instant,
)
    ensures
        ({
            let handed = handed_out(order, entries, now);
            let fresh = order.filter(
                |key: Seq<char>| now.nanos < entries[key].sent_at.nanos + 10_000_000_000,
            );
            &&& order.len() < 40_000 ==> handed == order
            &&& order.len() >= 40_000 && fresh.len() <= 40_000 ==> handed == fresh
            &&& order.len() >= 40_000 && fresh.len() > 40_000 ==> handed == fresh.take(40_000)
            &&& wires_of(handed, entries).len() == handed.len()
            &&& forall|i: int|
                0 <= i < handed.len() ==> #[trigger] wires_of(handed, entries)[i]
                    == entries[handed[i]].wire_transaction
        }),
{
    let fresh = |key: Seq<char>| now.nanos < entries[key].sent_at.nanos + 10_000_000_000;
    assert forall|key: Seq<char>| is_fresh(entries, now)(key) == #[trigger] fresh(key) by {}
    assert(is_fresh(entries, now) =~= fresh);
}

/// A transaction on its way stands for what it holds, with the API key of its request
/// where there is one.
pub proof fn law_transactions_say_all(data: TransactionData)
    ensures
        data@.wire_transaction == data.wire_transaction@,
        data@.versioned_transaction == data.versioned_transaction@,
        data@.sent_at == data.sent_at,
        data@.retry_count == data.retry_count,
        data@.max_retries == data.max_retries,
        data.request_metadata is None ==> data@.api_key is None,
        data.request_metadata matches Some(metadata) ==> data@.api_key == Some(
            metadata.api_key@,
        ),
{
}

} // verus!

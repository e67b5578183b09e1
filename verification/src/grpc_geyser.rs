//! What the geyser streams tell: the latest slot and the confirmed transactions.
use crate::clock::Instant;
use crate::collections::no_entries;
use crate::leader_tracker::known_slot;
use crate::transaction::{signature_text, Signature};
use dashmap::DashMap;
use rand::Rng;
use vstd::prelude::*;

verus! {

/// A confirmed signature is remembered for this many seconds.
pub const SIGNATURE_CACHE_SECS: u64 = 90;

/// The remembered signatures are gone through this often, in milliseconds.
pub const SIGNATURE_CACHE_SWEEP_MILLIS: u64 = 60_000;

/// A confirmation is waited for this long, in nanoseconds.
pub const CONFIRM_TIMEOUT_NANOS: u64 = 60_000_000_000;

/// Milliseconds between two looks for a confirmation.
pub const CONFIRM_POLL_MILLIS: u64 = 200;

/// Milliseconds to wait after a stream failed.
pub const STREAM_RETRY_MILLIS: u64 = 1_000;

/// Length of the label of a subscription.
pub const LABEL_LENGTH: usize = 20;

/// The entries of a map from signatures to the time of their block and the moment
/// at which they were seen.
pub uninterp spec fn cache_contents(map: DashMap<String, (i64, Instant)>) -> Map<
    Seq<char>,
    (i64, Instant),
>;

/// Calls `DashMap::new`, which gives a map without entries.
#[verifier::external_body]
fn cache_new() -> (r: DashMap<String, (i64, Instant)>)
    ensures
        no_entries(cache_contents(r)),
{
    DashMap::new()
}

/// Calls `DashMap::insert`, which puts the value under the key in place of what
/// was there.
#[verifier::external_body]
fn cache_insert(map: &mut DashMap<String, (i64, Instant)>, key: String, value: (i64, Instant))
    ensures
        cache_contents(*final(map)) == cache_contents(*old(map)).insert(key@, value),
{
    map.insert(key, value);
}

/// Calls `DashMap::get` and copies the value that the key has.
#[verifier::external_body]
fn cache_get(map: &DashMap<String, (i64, Instant)>, key: &String) -> (r: Option<(i64, Instant)>)
    ensures
        r == cache_contents(*map).get(key@),
{
    map.get(key).map(|entry| *entry.value())
}

/// Calls `DashMap::retain` with [`is_recent`], which keeps the entries of which it
/// is true and takes the others out of the map.
#[verifier::external_body]
fn cache_retain_recent(map: &mut DashMap<String, (i64, Instant)>, now: Instant)
    ensures
        cache_contents(*final(map)) == recent_entries(cache_contents(*old(map)), now),
{
    map.retain(|_, entry| is_recent(entry.1, now))
}

/// The entries that were seen less than [`SIGNATURE_CACHE_SECS`] ago.
pub open spec fn recent_entries(
    entries: Map<Seq<char>, (i64, Instant)>,
    now: Instant,
) -> Map<Seq<char>, (i64, Instant)> {
    Map::new(
        |key: Seq<char>|
            entries.contains_key(key) && entries[key].1.secs_until(now) < SIGNATURE_CACHE_SECS,
        |key: Seq<char>| entries[key],
    )
}

/// Whether the moment is less than [`SIGNATURE_CACHE_SECS`] ago.
pub fn is_recent(seen: Instant, now: Instant) -> (r: bool)
    ensures
        r == (seen.secs_until(now) < SIGNATURE_CACHE_SECS),
{
    seen.elapsed_secs(now) < SIGNATURE_CACHE_SECS
}

/// What happens on the stream of blocks.
pub enum BlockEvent {
    SubscribeFailed,
    Subscribed,
    /// A block, with its time and the signatures of its transactions.
    Block { block_time: Option<i64>, signatures: Vec<Vec<u8>> },
    Ping,
    PingSent,
    PingFailed,
    Pong,
    Other,
    StreamError,
    StreamEnded,
}

/// What happens on the stream of slots.
pub enum SlotEvent {
    SubscribeFailed,
    Subscribed,
    RequestSent,
    Slot(u64),
    Ping,
    PingSent,
    PingFailed,
    Pong,
    Other,
    StreamError,
    StreamEnded,
}

/// What is to be done on a stream.
#[derive(Clone, Copy, Debug, PartialEq, Eq, Structural)]
pub enum StreamAction {
    Subscribe,
    SendSlotRequest,
    SendPing,
    Receive,
}

/// What is to be done on a stream, and how long to wait before it.
#[derive(Clone, Copy, Debug, PartialEq, Eq, Structural)]
pub struct StreamStep {
    pub wait_millis: u64,
    pub action: StreamAction,
}

/// The step that takes the action at once.
pub open spec fn at_once(action: StreamAction) -> StreamStep {
    StreamStep { wait_millis: 0, action }
}

/// The step that takes the action after a pause.
pub open spec fn after_pause(action: StreamAction) -> StreamStep {
    StreamStep { wait_millis: STREAM_RETRY_MILLIS, action }
}

/// What follows on an event of the block stream: the stream is read on, also after
/// an error, until it ends or a ping cannot be answered.
pub open spec fn block_step(event: BlockEvent) -> StreamStep {
    match event {
        BlockEvent::SubscribeFailed => after_pause(StreamAction::Subscribe),
        BlockEvent::Ping => at_once(StreamAction::SendPing),
        BlockEvent::PingFailed | BlockEvent::StreamEnded => at_once(StreamAction::Subscribe),
        BlockEvent::StreamError => after_pause(StreamAction::Receive),
        _ => at_once(StreamAction::Receive),
    }
}

/// What follows on an event of the slot stream: the stream is read on until it
/// ends, fails or a ping cannot be answered.
pub open spec fn slot_step(event: SlotEvent) -> StreamStep {
    match event {
        SlotEvent::Subscribed => at_once(StreamAction::SendSlotRequest),
        SlotEvent::Ping => at_once(StreamAction::SendPing),
        SlotEvent::SubscribeFailed
        | SlotEvent::PingFailed
        | SlotEvent::StreamError
        | SlotEvent::StreamEnded => after_pause(StreamAction::Subscribe),
        _ => at_once(StreamAction::Receive),
    }
}

/// The latest slot after an event of the slot stream.
pub open spec fn slot_on(slot: u64, event: SlotEvent) -> u64 {
    match event {
        SlotEvent::Slot(latest) => latest,
        _ => slot,
    }
}

/// Every signature has 64 bytes.
pub open spec fn are_signatures(signatures: Seq<Vec<u8>>) -> bool {
    forall|i: int| 0 <= i < signatures.len() ==> (#[trigger] signatures[i]).len() == 64
}

/// A block that the stream delivers has a time and signatures of 64 bytes.
pub open spec fn is_complete(event: BlockEvent) -> bool {
    event matches BlockEvent::Block { block_time, signatures } ==> block_time is Some
        && are_signatures(signatures@)
}

/// Whether a block has a time and signatures of 64 bytes.
pub fn is_complete_event(event: &BlockEvent) -> (r: bool)
    ensures
        r == is_complete(*event),
{
    match event {
        BlockEvent::Block { block_time, signatures } => block_time.is_some()
            && have_signature_length(signatures),
        _ => true,
    }
}

/// Whether every signature has 64 bytes.
fn have_signature_length(signatures: &Vec<Vec<u8>>) -> (r: bool)
    ensures
        r == are_signatures(signatures@),
{
    for i in 0..signatures.len()
        invariant
            are_signatures(signatures@.take(i as int)),
    {
        if signatures[i].len() != 64 {
            return false;
        }
        assert(signatures@.take(i + 1) =~= signatures@.take(i as int).push(signatures[i as int]));
    }
    assert(signatures@.take(signatures.len() as int) =~= signatures@);
    true
}

/// The key is the text of one of the signatures.
pub open spec fn is_signature_among(signatures: Seq<Seq<u8>>, key: Seq<char>) -> bool {
    exists|i: int| 0 <= i < signatures.len() && key == signature_text(#[trigger] signatures[i])
}

/// The remembered signatures after a block: the block's are remembered with its
/// time and the present moment.
pub open spec fn with_block(
    entries: Map<Seq<char>, (i64, Instant)>,
    signatures: Seq<Seq<u8>>,
    block_time: i64,
    now: Instant,
) -> Map<Seq<char>, (i64, Instant)> {
    entries.union_prefer_right(
        Map::new(
            |key: Seq<char>| is_signature_among(signatures, key),
            |key: Seq<char>| (block_time, now),
        ),
    )
}

/// What to do next while a confirmation is waited for.
#[derive(Clone, Copy, Debug, PartialEq, Eq, Structural)]
pub enum ConfirmStep {
    /// The wait is over: the time of the block, or none if it took too long.
    Done(Option<i64>),
    /// Look again after so many milliseconds.
    Wait(u64),
}

/// What to do next for a signature that was waited for from `start` to `now`.
pub open spec fn confirm_step(
    entries: Map<Seq<char>, (i64, Instant)>,
    signature: Seq<char>,
    start: Instant,
    now: Instant,
) -> ConfirmStep {
    if start.nanos_until(now) >= CONFIRM_TIMEOUT_NANOS {
        ConfirmStep::Done(None)
    } else if entries.contains_key(signature) {
        ConfirmStep::Done(Some(entries[signature].0))
    } else {
        ConfirmStep::Wait(CONFIRM_POLL_MILLIS)
    }
}

/// Who knows the latest slot and the confirmed transactions.
pub trait SolanaRpc: Sized {
    /// The latest slot; zero before one is known.
    spec fn slot(&self) -> u64;

    /// The remembered signatures, with the time of their block and the moment at
    /// which they were seen.
    spec fn confirmed(&self) -> Map<Seq<char>, (i64, Instant)>;

    /// The latest slot, if one is known.
    fn get_next_slot(&self) -> (r: Option<u64>)
        ensures
            r == known_slot(self.slot()),
    ;

    /// What to do next for a signature that was waited for from `start` to `now`.
    fn confirm_transaction(&self, signature: &String, start: Instant, now: Instant) -> (r:
        ConfirmStep)
        ensures
            r == confirm_step(self.confirmed(), signature@, start, now),
    ;
}

/// What the geyser streams have told.
pub struct GrpcGeyserImpl {
    cur_slot: u64,
    signature_cache: DashMap<String, (i64, Instant)>,
}

impl SolanaRpc for GrpcGeyserImpl {
    closed spec fn slot(&self) -> u64 {
        self.cur_slot
    }

    closed spec fn confirmed(&self) -> Map<Seq<char>, (i64, Instant)> {
        cache_contents(self.signature_cache)
    }

    fn get_next_slot(&self) -> (r: Option<u64>) {
        if self.cur_slot == 0 {
            return None;
        }
        Some(self.cur_slot)
    }

    fn confirm_transaction(&self, signature: &String, start: Instant, now: Instant) -> (r:
        ConfirmStep) {
        if start.elapsed_nanos(now) >= CONFIRM_TIMEOUT_NANOS {
            return ConfirmStep::Done(None);
        }
        match cache_get(&self.signature_cache, signature) {
            Some((block_time, _)) => ConfirmStep::Done(Some(block_time)),
            None => ConfirmStep::Wait(CONFIRM_POLL_MILLIS),
        }
    }
}

impl GrpcGeyserImpl {
    /// Before the streams have told anything.
    pub fn new() -> (r: Self)
        ensures
            r.slot() == 0,
            no_entries(r.confirmed()),
    {
        GrpcGeyserImpl { cur_slot: 0, signature_cache: cache_new() }
    }

    /// Forgets the signatures that were not seen lately.
    pub fn clean_signature_cache(&mut self, now: Instant)
        ensures
            final(self).confirmed() == recent_entries(old(self).confirmed(), now),
            final(self).slot() == old(self).slot(),
    {
        cache_retain_recent(&mut self.signature_cache, now)
    }

    /// Takes in an event of the block stream and says what to do next.
    pub fn poll_blocks(&mut self, event: BlockEvent, now: Instant) -> (r: StreamStep)
        requires
            is_complete(event),
        ensures
            r == block_step(event),
            final(self).confirmed() == match event {
                BlockEvent::Block { block_time, signatures } => with_block(
                    old(self).confirmed(),
                    crate::transaction_store::byte_views(signatures@),
                    block_time->0,
                    now,
                ),
                _ => old(self).confirmed(),
            },
            final(self).slot() == old(self).slot(),
    {
        match event {
            BlockEvent::SubscribeFailed => StreamStep {
                wait_millis: STREAM_RETRY_MILLIS,
                action: StreamAction::Subscribe,
            },
            BlockEvent::Block { block_time, signatures } => {
                if let Some(block_time) = block_time {
                    self.record_block(&signatures, block_time, now);
                }
                StreamStep { wait_millis: 0, action: StreamAction::Receive }
            },
            BlockEvent::Ping => StreamStep { wait_millis: 0, action: StreamAction::SendPing },
            BlockEvent::PingFailed | BlockEvent::StreamEnded => StreamStep {
                wait_millis: 0,
                action: StreamAction::Subscribe,
            },
            BlockEvent::StreamError => StreamStep {
                wait_millis: STREAM_RETRY_MILLIS,
                action: StreamAction::Receive,
            },
            BlockEvent::Subscribed | BlockEvent::PingSent | BlockEvent::Pong | BlockEvent::Other =>
                StreamStep { wait_millis: 0, action: StreamAction::Receive },
        }
    }

    /// Remembers the signatures of a block.
    fn record_block(&mut self, signatures: &Vec<Vec<u8>>, block_time: i64, now: Instant)
        requires
            are_signatures(signatures@),
        ensures
            final(self).confirmed() == with_block(
                old(self).confirmed(),
                crate::transaction_store::byte_views(signatures@),
                block_time,
                now,
            ),
            final(self).slot() == old(self).slot(),
    {
        let ghost all = crate::transaction_store::byte_views(signatures@);
        let ghost before = self.confirmed();
        assert(before =~= with_block(before, all.take(0), block_time, now));
        for i in 0..signatures.len()
            invariant
                all == crate::transaction_store::byte_views(signatures@),
                are_signatures(signatures@),
                self.confirmed() == with_block(before, all.take(i as int), block_time, now),
                self.slot() == old(self).slot(),
        {
            let signature = Signature::from_bytes(&signatures[i]).text();
            let ghost key = signature@;
            cache_insert(&mut self.signature_cache, signature, (block_time, now));
            proof {
                let less = all.take(i as int);
                let more = all.take(i + 1);
                assert(key == signature_text(all[i as int]));
                assert(more[i as int] == all[i as int]);
                assert forall|k: Seq<char>| #[trigger]
                    is_signature_among(more, k) <==> k == key || is_signature_among(less, k) by {
                    if is_signature_among(less, k) {
                        let j = choose|j: int|
                            0 <= j < less.len() && k == signature_text(#[trigger] less[j]);
                        assert(more[j] == less[j]);
                    }
                    if is_signature_among(more, k) {
                        let j = choose|j: int|
                            0 <= j < more.len() && k == signature_text(#[trigger] more[j]);
                        if j < i {
                            assert(less[j] == more[j]);
                        }
                    }
                }
                assert(self.confirmed() =~= with_block(before, more, block_time, now));
            }
        }
        assert(all.take(signatures.len() as int) =~= all);
    }

    /// Takes in an event of the slot stream and says what to do next.
    pub fn poll_slots(&mut self, event: SlotEvent) -> (r: StreamStep)
        ensures
            r == slot_step(event),
            final(self).slot() == slot_on(old(self).slot(), event),
            final(self).confirmed() == old(self).confirmed(),
    {
        match event {
            SlotEvent::Subscribed => StreamStep {
                wait_millis: 0,
                action: StreamAction::SendSlotRequest,
            },
            SlotEvent::Slot(slot) => {
                self.cur_slot = slot;
                StreamStep { wait_millis: 0, action: StreamAction::Receive }
            },
            SlotEvent::Ping => StreamStep { wait_millis: 0, action: StreamAction::SendPing },
            SlotEvent::SubscribeFailed
            | SlotEvent::PingFailed
            | SlotEvent::StreamError
            | SlotEvent::StreamEnded => StreamStep {
                wait_millis: STREAM_RETRY_MILLIS,
                action: StreamAction::Subscribe,
            },
            SlotEvent::RequestSent | SlotEvent::PingSent | SlotEvent::Pong | SlotEvent::Other =>
                StreamStep { wait_millis: 0, action: StreamAction::Receive },
        }
    }
}

/// An ASCII letter or digit.
pub open spec fn is_alphanumeric(c: char) -> bool {
    ('a' <= c && c <= 'z') || ('A' <= c && c <= 'Z') || ('0' <= c && c <= '9')
}

/// Calls `sample` of rand's thread generator with the `Alphanumeric`
/// distribution, which gives an ASCII letter or digit; which one is left to
/// chance.
#[verifier::external_body]
fn sample_alphanumeric() -> (r: char)
    ensures
        is_alphanumeric(r),
{
    char::from(rand::thread_rng().sample(rand::distributions::Alphanumeric))
}

/// A label of a subscription: so many letters and digits.
pub open spec fn is_label(label: Seq<char>, length: nat) -> bool {
    label.len() == length && forall|i: int|
        0 <= i < label.len() ==> is_alphanumeric(#[trigger] label[i])
}

/// A string of `len` random letters and digits.
pub fn generate_random_string(len: usize) -> (r: String)
    ensures
        is_label(r@, len as nat),
{
    let mut label = String::new();
    for i in 0..len
        invariant
            is_label(label@, i as nat),
    {
        label.push(sample_alphanumeric());
    }
    label
}

/// How final the data of a subscription has to be.
#[derive(Clone, Copy, Debug, PartialEq, Eq, Structural)]
pub enum CommitmentLevel {
    Processed,
    Confirmed,
    Finalized,
}

/// Which blocks a subscription delivers, and what of them.
pub struct SubscribeRequestFilterBlocks {
    pub account_include: Vec<String>,
    pub include_transactions: Option<bool>,
    pub include_accounts: Option<bool>,
    pub include_entries: Option<bool>,
}

/// Which slots a subscription delivers.
pub struct SubscribeRequestFilterSlots {
    pub filter_by_commitment: Option<bool>,
}

/// What is said to the geyser stream.
pub struct SubscribeRequest {
    pub slots: Vec<(String, SubscribeRequestFilterSlots)>,
    pub blocks: Vec<(String, SubscribeRequestFilterBlocks)>,
    pub commitment: Option<CommitmentLevel>,
    pub ping: Option<i32>,
}

/// Asks for confirmed blocks with their transactions, and nothing else.
pub fn get_block_subscribe_request() -> (r: SubscribeRequest)
    ensures
        r.slots.len() == 0,
        r.blocks.len() == 1,
        is_label(r.blocks[0].0@, LABEL_LENGTH as nat),
        r.blocks[0].1.account_include.len() == 0,
        r.blocks[0].1.include_transactions == Some(true),
        r.blocks[0].1.include_accounts == Some(false),
        r.blocks[0].1.include_entries == Some(false),
        r.commitment == Some(CommitmentLevel::Confirmed),
        r.ping is None,
{
    let mut blocks: Vec<(String, SubscribeRequestFilterBlocks)> = Vec::new();
    blocks.push(
        (
            generate_random_string(LABEL_LENGTH),
            SubscribeRequestFilterBlocks {
                account_include: Vec::new(),
                include_transactions: Some(true),
                include_accounts: Some(false),
                include_entries: Some(false),
            },
        ),
    );
    SubscribeRequest {
        slots: Vec::new(),
        blocks,
        commitment: Some(CommitmentLevel::Confirmed),
        ping: None,
    }
}

/// Asks for slots of the default commitment.
pub fn get_slot_subscribe_request() -> (r: SubscribeRequest)
    ensures
        r.slots.len() == 1,
        is_label(r.slots[0].0@, LABEL_LENGTH as nat),
        r.slots[0].1.filter_by_commitment == Some(true),
        r.blocks.len() == 0,
        r.commitment is None,
        r.ping is None,
{
    let mut slots: Vec<(String, SubscribeRequestFilterSlots)> = Vec::new();
    slots.push(
        (
            generate_random_string(LABEL_LENGTH),
            SubscribeRequestFilterSlots { filter_by_commitment: Some(true) },
        ),
    );
    SubscribeRequest { slots, blocks: Vec::new(), commitment: None, ping: None }
}

/// Answers a ping.
pub fn ping() -> (r: SubscribeRequest)
    ensures
        r.slots.len() == 0,
        r.blocks.len() == 0,
        r.commitment is None,
        r.ping == Some(1i32),
{
    SubscribeRequest { slots: Vec::new(), blocks: Vec::new(), commitment: None, ping: Some(1) }
}

/// A signature that was seen in a block is confirmed with the time of that block,
/// for as long as the cache remembers it and the wait is not over.
pub proof fn law_block_confirms(
    entries: Map<Seq<char>, (i64, Instant)>,
    signatures: Seq<Seq<u8>>,
    block_time: i64,
    seen: Instant,
    i: int,
    swept: Instant,
    start: Instant,
    now: Instant,
)
    requires
        0 <= i < signatures.len(),
        seen.secs_until(swept) < SIGNATURE_CACHE_SECS,
        start.nanos_until(now) < CONFIRM_TIMEOUT_NANOS,
    ensures
        confirm_step(
            recent_entries(with_block(entries, signatures, block_time, seen), swept),
            signature_text(signatures[i]),
            start,
            now,
        ) == ConfirmStep::Done(Some(block_time)),
{
}

/// A signature that no block brought is not confirmed.
pub proof fn law_no_block_no_confirmation(
    entries: Map<Seq<char>, (i64, Instant)>,
    signatures: Seq<Seq<u8>>,
    block_time: i64,
    seen: Instant,
    key: Seq<char>,
    start: Instant,
    now: Instant,
)
    requires
        !entries.contains_key(key),
        !is_signature_among(signatures, key),
    ensures
        !(confirm_step(with_block(entries, signatures, block_time, seen), key, start, now) matches
            ConfirmStep::Done(Some(_))),
{
}

/// A confirmation is waited for a full minute: until then a signature that is not
/// remembered is looked for again after 200 milliseconds, and one that is remembered is
/// confirmed with the time of its block; from then on the wait is over.
pub proof fn law_confirmation_is_waited_for(
    entries: Map<Seq<char>, (i64, Instant)>,
    signature: Seq<char>,
    start: Instant,
    now: Instant,
)
    ensures
        ({
            let step = confirm_step(entries, signature, start, now);
            let in_time = now.nanos < start.nanos + 60_000_000_000;
            &&& step == ConfirmStep::Done(None) <==> !in_time
            &&& in_time && entries.contains_key(signature) ==> step == ConfirmStep::Done(
                Some(entries[signature].0),
            )
            &&& in_time && !entries.contains_key(signature) ==> step == ConfirmStep::Wait(200)
        }),
{
}

/// Waiting longer never takes a confirmation back before the minute is over, and the
/// outcome depends on nothing but the signature's own entry.
pub proof fn law_confirmation_stays(
    entries: Map<Seq<char>, (i64, Instant)>,
    others: Map<Seq<char>, (i64, Instant)>,
    signature: Seq<char>,
    start: Instant,
    now: Instant,
    later: Instant,
)
    requires
        entries.get(signature) == others.get(signature),
        now.nanos <= later.nanos < start.nanos + 60_000_000_000,
    ensures
        confirm_step(entries, signature, start, now) == confirm_step(
            others,
            signature,
            start,
            later,
        ),
{
}

/// A signature is forgotten once it was last seen 90 seconds ago or more, and not before;
/// what is remembered of it does not change.
pub proof fn law_signatures_are_remembered(
    entries: Map<Seq<char>, (i64, Instant)>,
    signature: Seq<char>,
    now: Instant,
)
    requires
        entries.contains_key(signature),
    ensures
        recent_entries(entries, now).contains_key(signature) <==> now.nanos
            < entries[signature].1.nanos + 90_000_000_000,
        recent_entries(entries, now).contains_key(signature) ==> recent_entries(
            entries,
            now,
        )[signature] == entries[signature],
        recent_entries(entries, now).dom().subset_of(entries.dom()),
{
}

/// A block makes its own signatures known, with its time and the moment, in place of what
/// was known of them, and touches no other signature.
pub proof fn law_block_brings_its_signatures(
    entries: Map<Seq<char>, (i64, Instant)>,
    signatures: Seq<Seq<u8>>,
    block_time: i64,
    now: Instant,
    key: Seq<char>,
)
    ensures
        ({
            let after = with_block(entries, signatures, block_time, now);
            &&& (exists|i: int|
                0 <= i < signatures.len() && key == signature_text(#[trigger] signatures[i]))
                ==> after.get(key) == Some((block_time, now))
            &&& (forall|i: int|
                0 <= i < signatures.len() ==> key != signature_text(#[trigger] signatures[i]))
                ==> after.get(key) == entries.get(key)
        }),
{
}

/// The latest slot is the one that the stream told last.
pub proof fn law_latest_slot_counts(slot: u64, latest: u64, event: SlotEvent)
    ensures
        slot_on(slot, SlotEvent::Slot(latest)) == latest,
        !(event is Slot) ==> slot_on(slot, event) == slot,
{
}

/// The streams are kept up. A failed subscription is tried again after a second; a ping is
/// answered; a stream that has ended, or on which a ping could not be answered, is
/// subscribed to again, the one of blocks at once, that of slots after a second; a block or
/// a slot is followed by the next message.
pub proof fn law_streams_are_kept_up(block: BlockEvent, slot: SlotEvent)
    ensures
        block_step(block).action == StreamAction::Subscribe <==> block is SubscribeFailed || block
            is PingFailed || block is StreamEnded,
        block_step(block).action == StreamAction::SendPing <==> block is Ping,
        block_step(block).action != StreamAction::SendSlotRequest,
        block_step(block).wait_millis == if block is SubscribeFailed || block is StreamError {
            1_000u64
        } else {
            0
        },
        slot_step(slot).action == StreamAction::Subscribe <==> slot is SubscribeFailed || slot
            is PingFailed || slot is StreamError || slot is StreamEnded,
        slot_step(slot).action == StreamAction::SendPing <==> slot is Ping,
        slot_step(slot).action == StreamAction::SendSlotRequest <==> slot is Subscribed,
        slot_step(slot).wait_millis == if slot_step(slot).action == StreamAction::Subscribe {
            1_000u64
        } else {
            0
        },
{
}

/// Only a block can be incomplete: one without a time, or with a signature that does not
/// have 64 bytes.
pub proof fn law_complete_blocks(event: BlockEvent, i: int)
    ensures
        !(event is Block) ==> is_complete(event),
        event matches BlockEvent::Block { block_time, signatures } ==> {
            &&& block_time is None ==> !is_complete(event)
            &&& 0 <= i < signatures@.len() && signatures@[i].len() != 64 ==> !is_complete(event)
            &&& block_time is Some && (forall|j: int|
                0 <= j < signatures@.len() ==> (#[trigger] signatures@[j]).len() == 64)
                ==> is_complete(event)
        },
{
}

} // verus!

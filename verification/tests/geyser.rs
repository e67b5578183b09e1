use atlas_txn_sender::clock::Instant;
use atlas_txn_sender::grpc_geyser::{
    generate_random_string, get_block_subscribe_request, get_slot_subscribe_request,
    is_complete_event, is_recent, ping, BlockEvent, CommitmentLevel, ConfirmStep,
    GrpcGeyserImpl, SlotEvent, SolanaRpc, StreamAction, StreamStep,
};

fn second(secs: u64) -> Instant {
    Instant { nanos: secs * 1_000_000_000 }
}

fn block(block_time: i64, first_bytes: &[u8]) -> BlockEvent {
    let signatures = first_bytes.iter().map(|b| vec![*b; 64]).collect();
    BlockEvent::Block { block_time: Some(block_time), signatures }
}

fn name_of(first_byte: u8) -> String {
    solana_sdk::signature::Signature::from([first_byte; 64]).to_string()
}

fn step(wait_millis: u64, action: StreamAction) -> StreamStep {
    StreamStep { wait_millis, action }
}

#[test]
fn blocks_confirm_their_transactions() {
    let mut geyser = GrpcGeyserImpl::new();
    let start = second(1);
    assert_eq!(
        geyser.confirm_transaction(&name_of(5), start, second(2)),
        ConfirmStep::Wait(200)
    );
    let next = geyser.poll_blocks(block(1_700, &[4, 5]), second(3));
    assert_eq!(next, step(0, StreamAction::Receive));
    assert_eq!(
        geyser.confirm_transaction(&name_of(5), start, second(4)),
        ConfirmStep::Done(Some(1_700))
    );
    assert_eq!(
        geyser.confirm_transaction(&name_of(6), start, second(4)),
        ConfirmStep::Wait(200)
    );
    geyser.poll_blocks(block(1_800, &[5]), second(5));
    assert_eq!(
        geyser.confirm_transaction(&name_of(5), start, second(6)),
        ConfirmStep::Done(Some(1_800))
    );
}

#[test]
fn confirmation_is_waited_for_a_minute() {
    let mut geyser = GrpcGeyserImpl::new();
    geyser.poll_blocks(block(1_700, &[5]), second(3));
    let start = second(10);
    let last = Instant { nanos: 69_999_999_999 };
    assert_eq!(
        geyser.confirm_transaction(&name_of(5), start, last),
        ConfirmStep::Done(Some(1_700))
    );
    assert_eq!(
        geyser.confirm_transaction(&name_of(5), start, second(70)),
        ConfirmStep::Done(None)
    );
}

#[test]
fn old_signatures_are_forgotten() {
    let mut geyser = GrpcGeyserImpl::new();
    geyser.poll_blocks(block(1_700, &[5]), second(0));
    geyser.poll_blocks(block(1_800, &[6]), second(1));
    geyser.clean_signature_cache(second(90));
    assert_eq!(
        geyser.confirm_transaction(&name_of(5), second(80), second(90)),
        ConfirmStep::Wait(200)
    );
    assert_eq!(
        geyser.confirm_transaction(&name_of(6), second(80), second(90)),
        ConfirmStep::Done(Some(1_800))
    );
    assert!(is_recent(second(1), second(90)));
    assert!(!is_recent(second(0), second(90)));
}

#[test]
fn incomplete_blocks_are_recognized() {
    assert!(is_complete_event(&block(1, &[1, 2])));
    assert!(is_complete_event(&BlockEvent::Ping));
    assert!(!is_complete_event(&BlockEvent::Block { block_time: None, signatures: vec![] }));
    assert!(!is_complete_event(&BlockEvent::Block {
        block_time: Some(1),
        signatures: vec![vec![0; 64], vec![0; 63]],
    }));
}

#[test]
fn block_stream_is_kept_up() {
    let mut geyser = GrpcGeyserImpl::new();
    let now = second(1);
    assert_eq!(
        geyser.poll_blocks(BlockEvent::SubscribeFailed, now),
        step(1_000, StreamAction::Subscribe)
    );
    assert_eq!(geyser.poll_blocks(BlockEvent::Subscribed, now), step(0, StreamAction::Receive));
    assert_eq!(geyser.poll_blocks(BlockEvent::Ping, now), step(0, StreamAction::SendPing));
    assert_eq!(geyser.poll_blocks(BlockEvent::PingSent, now), step(0, StreamAction::Receive));
    assert_eq!(
        geyser.poll_blocks(BlockEvent::PingFailed, now),
        step(0, StreamAction::Subscribe)
    );
    assert_eq!(geyser.poll_blocks(BlockEvent::Pong, now), step(0, StreamAction::Receive));
    assert_eq!(geyser.poll_blocks(BlockEvent::Other, now), step(0, StreamAction::Receive));
    assert_eq!(
        geyser.poll_blocks(BlockEvent::StreamError, now),
        step(1_000, StreamAction::Receive)
    );
    assert_eq!(
        geyser.poll_blocks(BlockEvent::StreamEnded, now),
        step(0, StreamAction::Subscribe)
    );
}

#[test]
fn slot_stream_is_kept_up() {
    let mut geyser = GrpcGeyserImpl::new();
    assert_eq!(geyser.get_next_slot(), None);
    assert_eq!(
        geyser.poll_slots(SlotEvent::SubscribeFailed),
        step(1_000, StreamAction::Subscribe)
    );
    assert_eq!(
        geyser.poll_slots(SlotEvent::Subscribed),
        step(0, StreamAction::SendSlotRequest)
    );
    assert_eq!(geyser.poll_slots(SlotEvent::RequestSent), step(0, StreamAction::Receive));
    assert_eq!(geyser.poll_slots(SlotEvent::Slot(77)), step(0, StreamAction::Receive));
    assert_eq!(geyser.get_next_slot(), Some(77));
    assert_eq!(geyser.poll_slots(SlotEvent::Slot(76)), step(0, StreamAction::Receive));
    assert_eq!(geyser.get_next_slot(), Some(76));
    assert_eq!(geyser.poll_slots(SlotEvent::Ping), step(0, StreamAction::SendPing));
    assert_eq!(
        geyser.poll_slots(SlotEvent::PingFailed),
        step(1_000, StreamAction::Subscribe)
    );
    assert_eq!(
        geyser.poll_slots(SlotEvent::StreamError),
        step(1_000, StreamAction::Subscribe)
    );
    assert_eq!(
        geyser.poll_slots(SlotEvent::StreamEnded),
        step(1_000, StreamAction::Subscribe)
    );
}

#[test]
fn labels_are_random() {
    let label = generate_random_string(20);
    assert_eq!(label.len(), 20);
    assert!(label.chars().all(|c| c.is_ascii_alphanumeric()));
    assert_ne!(label, generate_random_string(20));
    assert_eq!(generate_random_string(0), "");
}

#[test]
fn subscriptions_ask_for_what_is_needed() {
    let blocks = get_block_subscribe_request();
    assert_eq!(blocks.blocks.len(), 1);
    assert_eq!(blocks.blocks[0].0.len(), 20);
    assert_eq!(blocks.blocks[0].1.include_transactions, Some(true));
    assert_eq!(blocks.blocks[0].1.include_accounts, Some(false));
    assert_eq!(blocks.blocks[0].1.include_entries, Some(false));
    assert_eq!(blocks.commitment, Some(CommitmentLevel::Confirmed));
    assert!(blocks.slots.is_empty() && blocks.ping.is_none());
    let slots = get_slot_subscribe_request();
    assert_eq!(slots.slots.len(), 1);
    assert_eq!(slots.slots[0].1.filter_by_commitment, Some(true));
    assert!(slots.blocks.is_empty() && slots.commitment.is_none() && slots.ping.is_none());
    assert_eq!(ping().ping, Some(1));
}

use atlas_txn_sender::connection_manager::{ConnectionManager, ConnectionManagerImpl};
use atlas_txn_sender::errors::AtlasTxnSenderError;
use atlas_txn_sender::leader_tracker::{
    cluster_nodes_reply, is_start_slot_defined, next_poll_delay, slot_leaders_reply,
    ContactInfo, LeaderTracker, LeaderTrackerImpl, _get_start_slot,
};

fn node(name: &str, address: Option<&str>) -> ContactInfo {
    ContactInfo { pubkey: name.to_string(), tpu_quic: address.map(|a| a.to_string()) }
}

fn names(slots: &str) -> Vec<String> {
    slots.chars().map(|c| c.to_string()).collect()
}

fn leaders_of(tracker: &LeaderTrackerImpl) -> String {
    assert!(tracker.is_window_defined());
    tracker.get_leaders().into_iter().map(|l| l.pubkey).collect()
}

fn known_nodes() -> Vec<ContactInfo> {
    vec![node("a", Some("1:1")), node("b", None), node("c", Some("3:3"))]
}

#[test]
fn start_slot_is_offset_by_leaders() {
    assert_eq!(_get_start_slot(100, 0), 100);
    assert_eq!(_get_start_slot(100, 2), 108);
    assert_eq!(_get_start_slot(100, -2), 92);
    assert!(is_start_slot_defined(8, -2));
    assert!(!is_start_slot_defined(7, -2));
    assert!(!is_start_slot_defined(u64::MAX, 1));
    assert!(!is_start_slot_defined(5, i64::MAX));
}

#[test]
fn slots_only_move_forward() {
    let mut tracker = LeaderTrackerImpl::new(2, 1);
    assert_eq!(tracker.get_current_slot(), None);
    tracker.poll_slot(None);
    assert!(matches!(tracker.slot_leaders_request(), Err(AtlasTxnSenderError::NoStartSlot)));
    tracker.poll_slot(Some(10));
    assert_eq!(tracker.get_current_slot(), Some(14));
    tracker.poll_slot(Some(9));
    assert_eq!(tracker.get_current_slot(), Some(14));
    assert!(matches!(tracker.slot_leaders_request(), Ok((14, 1_000))));
}

#[test]
fn leaders_come_in_slot_order() {
    let mut tracker = LeaderTrackerImpl::new(2, 0);
    tracker.poll_slot(Some(10));
    assert_eq!(leaders_of(&tracker), "");
    tracker.record_slot_leaders(10, &names("ccccaaaabbbb"), &known_nodes());
    assert_eq!(leaders_of(&tracker), "ca");
    tracker.poll_slot(Some(14));
    assert_eq!(leaders_of(&tracker), "ab");
    assert!(tracker.get_leaders()[1].tpu_quic.is_none());
    tracker.poll_slot(Some(18));
    assert_eq!(leaders_of(&tracker), "b");
}

#[test]
fn unknown_nodes_leave_gaps() {
    let mut tracker = LeaderTrackerImpl::new(2, 0);
    tracker.poll_slot(Some(10));
    tracker.record_slot_leaders(10, &names("xxxxaaaab"), &known_nodes());
    assert_eq!(leaders_of(&tracker), "a");
}

#[test]
fn later_entries_of_a_node_win() {
    let mut tracker = LeaderTrackerImpl::new(1, 0);
    tracker.poll_slot(Some(10));
    let nodes = vec![node("a", None), node("a", Some("2:2"))];
    tracker.record_slot_leaders(10, &names("a"), &nodes);
    assert_eq!(tracker.get_leaders()[0].tpu_quic, Some("2:2".to_string()));
}

#[test]
fn past_slots_are_forgotten() {
    let mut tracker = LeaderTrackerImpl::new(1, 0);
    tracker.poll_slot(Some(10));
    tracker.record_slot_leaders(10, &names("aabb"), &known_nodes());
    tracker.poll_slot(Some(12));
    tracker.clean_up_slot_leaders();
    assert_eq!(leaders_of(&tracker), "b");
    tracker.poll_slot(Some(14));
    tracker.clean_up_slot_leaders();
    assert_eq!(leaders_of(&tracker), "");
    tracker.record_slot_leaders(12, &names("aac"), &known_nodes());
    assert_eq!(leaders_of(&tracker), "c");
}

#[test]
fn recording_twice_changes_nothing() {
    let mut tracker = LeaderTrackerImpl::new(3, 0);
    tracker.poll_slot(Some(10));
    tracker.record_slot_leaders(10, &names("abc"), &known_nodes());
    assert_eq!(leaders_of(&tracker), "abc");
    tracker.record_slot_leaders(10, &names("abc"), &known_nodes());
    assert_eq!(leaders_of(&tracker), "abc");
}

#[test]
fn windows_must_be_representable() {
    let mut tracker = LeaderTrackerImpl::new(usize::MAX, 0);
    assert!(!tracker.is_window_defined());
    tracker.poll_slot(Some(3));
    assert!(!tracker.is_window_defined());
}

#[test]
fn replies_are_taken_or_wrapped() {
    assert_eq!(slot_leaders_reply(Ok(names("ab"))).ok(), Some(names("ab")));
    match slot_leaders_reply(Err("gone".to_string())) {
        Err(AtlasTxnSenderError::Custom(text)) => {
            assert_eq!(text, "Error getting slot leaders: gone")
        }
        _ => panic!("the request failed"),
    }
    assert_eq!(cluster_nodes_reply(Ok(known_nodes())).ok().map(|n| n.len()), Some(3));
    match cluster_nodes_reply(Err("gone".to_string())) {
        Err(AtlasTxnSenderError::Custom(text)) => {
            assert_eq!(text, "Error getting cluster nodes: gone")
        }
        _ => panic!("the request failed"),
    }
}

#[test]
fn polls_record_leaders_or_leave_everything() {
    let mut tracker = LeaderTrackerImpl::new(3, 0);
    tracker.poll_slot(Some(10));
    assert!(tracker.finish_poll(10, Ok(names("abc")), Ok(known_nodes())).is_ok());
    assert_eq!(leaders_of(&tracker), "abc");
    match tracker.finish_poll(10, Err("one".to_string()), Err("two".to_string())) {
        Err(AtlasTxnSenderError::Custom(text)) => {
            assert_eq!(text, "Error getting slot leaders: one")
        }
        _ => panic!("the poll failed"),
    }
    match tracker.finish_poll(10, Ok(names("c")), Err("two".to_string())) {
        Err(AtlasTxnSenderError::Custom(text)) => {
            assert_eq!(text, "Error getting cluster nodes: two")
        }
        _ => panic!("the poll failed"),
    }
    assert_eq!(leaders_of(&tracker), "abc");
}

#[test]
fn polls_wait_by_their_outcome() {
    assert_eq!(next_poll_delay(&Ok(())), 60_000);
    assert_eq!(next_poll_delay(&Err(AtlasTxnSenderError::NoStartSlot)), 200);
    assert_eq!(next_poll_delay(&Err(AtlasTxnSenderError::Custom("e".to_string()))), 1_000);
}

#[test]
fn identities_take_turns() {
    let mut manager = ConnectionManagerImpl::new_multi(vec!["a", "b", "c"]);
    let mut picks: Vec<usize> = vec![];
    for _ in 0..9 {
        picks.push(manager.get_nonblocking_connection());
    }
    assert_eq!(picks, vec![0, 1, 2, 0, 0, 1, 2, 0, 0]);
    assert_eq!(manager.warm_connections(), &vec!["a", "b", "c"]);
    let mut single = ConnectionManagerImpl::new_with_identity("a");
    assert_eq!(single.get_next_connection_index(), 0);
    assert_eq!(single.get_next_connection_index(), 0);
}

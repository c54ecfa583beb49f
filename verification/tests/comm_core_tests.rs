use swordfish_comm::response_opcode;
use swordfish_comm::SwordFishConcentratedMessage;
use swordfish_comm::SwordFishMessageBucket;
use swordfish_comm::SwordFishMessageCategory;
use swordfish_comm::swordfish_comm::SwordFishCommCore;
use swordfish_comm::swordfish_comm::SwordFishInstanceCounter;
use swordfish_comm::swordfish_comm::SwordFishLinkFault;
use swordfish_comm::swordfish_messages::create_swordfish_messages_hashmap;

#[test]
fn registry_holds_the_catalog() {
    let map = create_swordfish_messages_hashmap();
    assert_eq!(map.len(), 2);
    let ping_bucket = map.get(&0).unwrap();
    assert_eq!(ping_bucket.category, SwordFishMessageCategory::Bounce);
    assert!(ping_bucket.message.is_none());
    let version_bucket = map.get(&2).unwrap();
    assert_eq!(version_bucket.category, SwordFishMessageCategory::Bounce);
    assert!(version_bucket.message.is_none());
    assert!(map.get(&1).is_none());
}

#[test]
fn bucket_slot_is_last_writer_wins() {
    let mut bucket = SwordFishMessageBucket::new(SwordFishMessageCategory::Param);
    assert!(bucket.message.is_none());
    let first = SwordFishConcentratedMessage::new(1, 0, &[]);
    let second = SwordFishConcentratedMessage::new(2, 0, &[]);
    bucket.store(first);
    bucket.store(second.clone());
    // the earlier frame is silently overwritten; taking clears the slot
    let taken = bucket.take().unwrap();
    assert_eq!(taken, second);
    assert!(bucket.take().is_none());
    assert_eq!(bucket.category, SwordFishMessageCategory::Param);
}

#[test]
fn response_opcode_by_category() {
    // where a sender must wait for the peer's reply, per category
    assert_eq!(response_opcode(SwordFishMessageCategory::Bounce, 7), Some(7));
    assert_eq!(response_opcode(SwordFishMessageCategory::Param, 9), Some(9));
    assert_eq!(
        response_opcode(SwordFishMessageCategory::Operation(Some(5)), 7),
        Some(5)
    );
    assert_eq!(response_opcode(SwordFishMessageCategory::Operation(None), 7), None);
    assert_eq!(response_opcode(SwordFishMessageCategory::Response, 7), None);
}

#[test]
fn core_counts_and_delivers() {
    let mut core = SwordFishCommCore::new();
    assert!(core.is_alive());
    assert_eq!(core.get_tx_counter(), 0);
    assert_eq!(core.get_rx_counter(), 0);
    core.record_transmit();
    assert_eq!(core.get_tx_counter(), 1);

    let frame = SwordFishConcentratedMessage::new(11, 0, &[]);
    let bytes = frame.clone().into_bytes();
    let received = core.feed_bytes(&bytes).unwrap();
    assert_eq!(core.get_rx_counter(), 1);
    assert_eq!(received, frame);

    assert!(core.deliver(received));
    let taken = core.take_message(0).unwrap();
    assert_eq!(taken, frame);
    assert!(core.take_message(0).is_none());
}

#[test]
fn core_reports_unknown_opcodes() {
    let mut core = SwordFishCommCore::new();
    let stray = SwordFishConcentratedMessage::new(0, 9, &[]);
    assert!(!core.deliver(stray));
    assert!(core.take_message(9).is_none());
    assert_eq!(core.send_wait_opcode(9), None);
}

#[test]
fn core_send_wait_targets() {
    let core = SwordFishCommCore::new();
    // both catalog opcodes are bounce: the sender waits on the same opcode
    assert_eq!(core.send_wait_opcode(0), Some(Some(0)));
    assert_eq!(core.send_wait_opcode(2), Some(Some(2)));
}

#[test]
fn core_link_faults() {
    let mut core = SwordFishCommCore::new();
    core.on_link_fault(SwordFishLinkFault::TimedOut);
    assert!(core.is_alive());
    core.on_link_fault(SwordFishLinkFault::Other);
    assert!(core.is_alive());
    core.on_link_fault(SwordFishLinkFault::BrokenLink);
    assert!(!core.is_alive());
    let mut stopped = SwordFishCommCore::new();
    stopped.stop();
    assert!(!stopped.is_alive());
}

#[test]
fn single_session_invariant() {
    // a second session is refused while the first is live, and the refusal
    // leaves the first session's claim untouched
    let mut counter = SwordFishInstanceCounter::new();
    assert!(counter.try_acquire());
    assert!(!counter.try_acquire());
    assert_eq!(counter.live_sessions, 1);
    counter.release();
    assert_eq!(counter.live_sessions, 0);
    assert!(counter.try_acquire());
}

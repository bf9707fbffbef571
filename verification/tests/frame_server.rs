use std::time::Instant;

use tandem_client::frame_server::{client_slot, frame_packet, next_packet, requested_slot, socket_url, FrameSlot};
use tandem_client::slot_map::SlotMap;

#[test]
fn empty_slot_has_no_frame() {
    let slot = FrameSlot::new();
    assert!(!slot.has_frame());
    assert!(slot.latest_frame().is_none());
}

#[test]
fn published_frame_is_read_back() {
    let mut slot = FrameSlot::new();
    slot.publish(2, 1, vec![1, 2, 3, 4, 5, 6, 7, 8]);
    assert!(slot.has_frame());
    let frame = slot.latest_frame().expect("frame");
    assert_eq!((frame.width, frame.height, frame.generation), (2, 1, 1));
    assert_eq!(frame.pixels.as_slice(), &[1, 2, 3, 4, 5, 6, 7, 8]);
}

#[test]
fn frames_closer_than_the_interval_are_dropped() {
    let mut slot = FrameSlot::new();
    let now = Instant::now();
    assert!(slot.publish_at(now, None, 1, 1, vec![1, 1, 1, 1]));
    assert!(!slot.publish_at(now, Some(10_000), 1, 1, vec![2, 2, 2, 2]));
    let frame = slot.latest_frame().expect("frame");
    assert_eq!(frame.pixels.as_slice(), &[1, 1, 1, 1]);
    assert_eq!(frame.generation, 1);
    assert!(slot.publish_at(now, Some(33_000), 1, 1, vec![3, 3, 3, 3]));
    let frame = slot.latest_frame().expect("frame");
    assert_eq!(frame.pixels.as_slice(), &[3, 3, 3, 3]);
    assert_eq!(frame.generation, 2);
}

#[test]
fn clear_drops_the_frame_and_the_throttle() {
    let mut slot = FrameSlot::new();
    let now = Instant::now();
    assert!(slot.publish_at(now, None, 1, 1, vec![1, 1, 1, 1]));
    slot.clear();
    assert!(!slot.has_frame());
    assert!(slot.publish_at(now, Some(0), 1, 1, vec![2, 2, 2, 2]));
    assert_eq!(slot.latest_frame().expect("frame").generation, 2);
}

#[test]
fn packets_carry_size_then_pixels() {
    let mut slot = FrameSlot::new();
    slot.publish(0x0102, 0x0304, vec![9, 8, 7]);
    let frame = slot.latest_frame().expect("frame");
    assert_eq!(frame_packet(&frame), vec![0x02, 0x01, 0, 0, 0x04, 0x03, 0, 0, 9, 8, 7]);
}

#[test]
fn a_frame_is_sent_once() {
    let mut slot = FrameSlot::new();
    slot.publish(1, 1, vec![5, 5, 5, 5]);
    let latest = slot.latest_frame();
    let (packet, generation) = next_packet(&latest, 0).expect("new frame is sent");
    assert_eq!(packet.len(), 12);
    assert_eq!(generation, 1);
    assert!(next_packet(&latest, generation).is_none());
    assert!(next_packet(&None, 0).is_none());
}

#[test]
fn socket_urls_name_the_slot() {
    assert_eq!(socket_url(8123, "main"), "ws://127.0.0.1:8123/ws/main");
    assert_eq!(requested_slot("/ws/notes").as_deref(), Some("notes"));
    assert_eq!(requested_slot("/other"), None);
}

#[test]
fn slot_map_keeps_one_value_per_slot() {
    let mut slots: SlotMap<u32> = SlotMap::new();
    assert_eq!(slots.insert("main", 1), None);
    assert_eq!(slots.insert("notes", 2), None);
    assert_eq!(slots.insert("main", 3), Some(1));
    assert_eq!(slots.get("main"), Some(&3));
    assert_eq!(slots.remove("main"), Some(3));
    assert_eq!(slots.get("main"), None);
    assert_eq!(slots.get("notes"), Some(&2));
    assert_eq!(slots.remove("aux1"), None);
}

#[test]
fn clients_are_served_registered_slots_only() {
    let mut slots: SlotMap<u8> = SlotMap::new();
    slots.insert("main", 7);
    assert_eq!(client_slot(&slots, Some("main".to_string())), Ok(&7));
    assert_eq!(client_slot(&slots, Some("aux1".to_string())), Err("Unknown frame slot: aux1".to_string()));
    assert_eq!(client_slot(&slots, None), Err("Missing websocket slot path".to_string()));
}

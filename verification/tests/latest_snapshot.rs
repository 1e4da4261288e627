use tuxctl::linux::latest_snapshot::LatestSlot;

#[test]
fn empty_receiver_has_no_snapshot() {
    let mut slot = LatestSlot::<u32>::new();

    assert_eq!(slot.take_latest(), None);
}

#[test]
fn published_snapshot_is_available() {
    let mut slot = LatestSlot::new();

    assert!(slot.publish("A"));
    assert_eq!(slot.take_latest(), Some("A"));
}

#[test]
fn newest_snapshot_replaces_all_obsolete_snapshots() {
    let mut slot = LatestSlot::new();

    assert!(slot.publish("A"));
    assert!(slot.publish("B"));
    assert!(slot.publish("C"));

    assert_eq!(slot.take_latest(), Some("C"));
    assert_eq!(slot.take_latest(), None);
}

#[test]
fn slot_can_be_reused_after_consumption() {
    let mut slot = LatestSlot::new();

    assert!(slot.publish(1));
    assert_eq!(slot.take_latest(), Some(1));
    assert_eq!(slot.take_latest(), None);

    assert!(slot.publish(2));
    assert_eq!(slot.take_latest(), Some(2));
}

#[test]
fn rapid_publication_keeps_only_the_newest_value() {
    let mut slot = LatestSlot::new();

    for value in 0..10_000 {
        assert!(slot.publish(value));
    }

    assert_eq!(slot.take_latest(), Some(9_999));
    assert_eq!(slot.take_latest(), None);
}

#[test]
fn dropping_receiver_disconnects_publisher_without_panicking() {
    let mut slot = LatestSlot::new();
    assert!(slot.publish(1));

    slot.close();

    assert!(!slot.publish(2));
    assert_eq!(slot.pending, None);
}

#[test]
fn dropping_publisher_preserves_the_last_pending_snapshot() {
    // Nothing is told to the slot when the publisher goes.
    let mut slot = LatestSlot::new();
    assert!(slot.publish(7));

    assert_eq!(slot.take_latest(), Some(7));
    assert_eq!(slot.take_latest(), None);
}

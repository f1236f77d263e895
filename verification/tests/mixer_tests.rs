use sonify_health::mixer::{on_stream_error, SlotTable, STREAM_ERROR_THRESHOLD};

#[test]
fn add_reuses_first_empty_slot() {
    let mut t: SlotTable<u32> = SlotTable::new();
    assert_eq!(t.add(10), 0);
    assert_eq!(t.add(11), 1);
    assert_eq!(t.add(12), 2);
    t.remove(1);
    assert_eq!(t.active_count(), 2);
    assert_eq!(t.add(13), 1);
    assert_eq!(t.active_count(), 3);
    t.remove(99);
    assert_eq!(t.active_count(), 3);
    t.clear();
    assert_eq!(t.active_count(), 0);
}

#[test]
fn replace_crossfades_from_old_graph() {
    let mut t: SlotTable<u32> = SlotTable::new();
    t.add(1);
    t.replace(0, 2, 0);
    let slot = t.slots[0].as_ref().unwrap();
    assert_eq!(slot.graph, 2);
    let fade = slot.prev.as_ref().unwrap();
    assert_eq!(fade.graph, 1);
    assert_eq!(fade.remaining_frames, 1);
    // Past the table: grows with empty slots.
    t.replace(3, 9, 100);
    assert_eq!(t.slots.len(), 4);
    assert!(t.slots[2].is_none());
    assert!(t.slots[3].as_ref().unwrap().prev.is_none());
}

#[test]
fn crossfade_counts_down() {
    let mut t: SlotTable<u32> = SlotTable::new();
    t.add(1);
    t.replace(0, 2, 2);
    let mut fade = t.slots[0].take().unwrap().prev.unwrap();
    assert!(!fade.step());
    assert!(fade.step());
    assert!(fade.step());
    assert_eq!(fade.remaining_frames, 0);
}

#[test]
fn stream_errors_throttle_at_threshold() {
    let first = on_stream_error(0);
    assert_eq!(first.count, 1);
    assert!(first.log && !first.fail);
    let tenth = on_stream_error(STREAM_ERROR_THRESHOLD - 1);
    assert!(tenth.log && tenth.fail);
    let later = on_stream_error(STREAM_ERROR_THRESHOLD);
    assert!(!later.log && later.fail);
    assert_eq!(on_stream_error(u64::MAX).count, 0);
}

#[test]
fn error_callback_throttle_sets_failed_flag() {
    let mut count = 0;
    let mut failed = false;
    for _ in 0..STREAM_ERROR_THRESHOLD {
        let r = on_stream_error(count);
        count = r.count;
        failed = failed || r.fail;
    }
    assert!(failed, "stream_failed should be set after threshold errors");
    assert!(count >= STREAM_ERROR_THRESHOLD);
}

use native_high_performance::counter::publish_total;
use native_high_performance::metrics::{
    AsyncMetricsDaemon, MetricsError, NetworkMetricFrame, SlotAction, MAX_METRICS_SLOTS, METRICS_RING_BASE,
    METRICS_RING_END, METRICS_STRIDE,
};
use std::sync::atomic::{AtomicU64, Ordering};
use std::sync::Arc;

fn frame(total_packets: u64, total_bytes: u64, state_flags: u64) -> NetworkMetricFrame {
    NetworkMetricFrame { total_packets, dropped_packets: 3, total_bytes, state_flags }
}

#[test]
fn new_daemon_starts_at_first_slot() {
    let counter = Arc::new(AtomicU64::new(9));
    let daemon = AsyncMetricsDaemon::new(counter.clone());
    assert_eq!(daemon.ring_cursor, 0);
    assert!(Arc::ptr_eq(&daemon.packet_counter, &counter));
    assert_eq!(daemon.current_slot_address(), Ok(0x8000_0000));
}

#[test]
fn slot_addresses_follow_the_stride() {
    let mut daemon = AsyncMetricsDaemon::new(Arc::new(AtomicU64::new(0)));
    daemon.ring_cursor = 5;
    assert_eq!(daemon.current_slot_address(), Ok(0x8000_0000 + 5 * 32));
    daemon.ring_cursor = MAX_METRICS_SLOTS - 1;
    let last = daemon.current_slot_address().unwrap();
    assert_eq!(last, 0x8000_FFE0);
    assert_eq!(last + METRICS_STRIDE, METRICS_RING_END);
    assert_eq!(METRICS_RING_BASE, 0x8000_0000);
}

#[test]
fn cursor_outside_ring_is_refused() {
    let mut daemon = AsyncMetricsDaemon::new(Arc::new(AtomicU64::new(0)));
    daemon.ring_cursor = MAX_METRICS_SLOTS;
    let err = daemon.current_slot_address().unwrap_err();
    assert_eq!(err, MetricsError::CursorOutOfBounds);
    assert_eq!(err.message(), "FAIL: Metrics daemon tracking pointer out of bounds maps");
    daemon.ring_cursor = u32::MAX;
    assert_eq!(daemon.current_slot_address(), Err(MetricsError::CursorOutOfBounds));
}

#[test]
fn finished_frame_is_published_and_cleared() {
    let counter = Arc::new(AtomicU64::new(0));
    let mut daemon = AsyncMetricsDaemon::new(counter.clone());
    let action = daemon.complete_slot(frame(1234, 99_000, 1));
    assert_eq!(
        action,
        SlotAction { publish: Some(1234), write_back: Some(frame(1234, 99_000, 0)) }
    );
    assert_eq!(daemon.ring_cursor, 1);
    publish_total(&daemon.packet_counter, action.publish.unwrap());
    assert_eq!(counter.load(Ordering::Relaxed), 1234);
}

#[test]
fn unfinished_frame_is_left_alone() {
    let counter = Arc::new(AtomicU64::new(77));
    let mut daemon = AsyncMetricsDaemon::new(counter.clone());
    let none = SlotAction { publish: None, write_back: None };
    assert_eq!(daemon.complete_slot(frame(5, 6, 0)), none);
    assert_eq!(daemon.complete_slot(frame(5, 6, 2)), none);
    assert_eq!(counter.load(Ordering::Relaxed), 77);
    assert_eq!(daemon.ring_cursor, 2);
}

#[test]
fn cursor_wraps_at_the_end_of_the_ring() {
    let mut daemon = AsyncMetricsDaemon::new(Arc::new(AtomicU64::new(0)));
    daemon.ring_cursor = MAX_METRICS_SLOTS - 1;
    daemon.complete_slot(frame(0, 0, 0));
    assert_eq!(daemon.ring_cursor, 0);
}

#[test]
fn watcher_returns_to_its_slot_after_a_full_cycle() {
    let mut daemon = AsyncMetricsDaemon::new(Arc::new(AtomicU64::new(0)));
    daemon.ring_cursor = 700;
    let mut seen = std::collections::HashSet::new();
    for _ in 0..MAX_METRICS_SLOTS {
        let addr = daemon.current_slot_address().unwrap();
        assert!(addr >= METRICS_RING_BASE && addr + METRICS_STRIDE <= METRICS_RING_END);
        assert_eq!(addr % 8, 0);
        assert!(seen.insert(addr));
        daemon.complete_slot(frame(1, 1, 0));
    }
    assert_eq!(daemon.ring_cursor, 700);
    assert_eq!(seen.len(), MAX_METRICS_SLOTS as usize);
}

#[test]
fn acknowledged_frame_is_left_alone_on_the_next_visit() {
    let mut daemon = AsyncMetricsDaemon::new(Arc::new(AtomicU64::new(0)));
    let first = daemon.complete_slot(frame(10, 20, 1));
    let written = first.write_back.unwrap();
    let second = daemon.complete_slot(written);
    assert_eq!(second, SlotAction { publish: None, write_back: None });
}

//! The metrics ring: a fixed partition of memory-mapped frames that the
//! watcher visits one slot at a time, publishing finished frames.

use std::sync::Arc;
use std::sync::atomic::AtomicU64;
use vstd::prelude::*;

verus! {

/// First byte of the metrics ring partition.
pub const METRICS_RING_BASE: u64 = 0x8000_0000;
/// Size in bytes of the metrics ring partition.
pub const METRICS_RING_SIZE: u64 = 64 * 1024;
/// One past the last byte of the metrics ring partition.
pub const METRICS_RING_END: u64 = METRICS_RING_BASE + METRICS_RING_SIZE;
/// Distance in bytes between two consecutive frames of the ring.
pub const METRICS_STRIDE: u64 = 32;
/// Number of frames the ring holds.
pub const MAX_METRICS_SLOTS: u32 = 2048;
/// Alignment in bytes that every frame of the ring has.
pub const METRICS_FRAME_ALIGN: u64 = 8;

/// A frame of network counters as the hardware lays it out in a ring slot.
#[derive(Clone, Copy, Debug, PartialEq, Eq, Structural)]
pub struct NetworkMetricFrame {
    pub total_packets: u64,
    pub dropped_packets: u64,
    pub total_bytes: u64,
    pub state_flags: u64,
}

/// Why the watcher stopped.
#[derive(Clone, Copy, Debug, PartialEq, Eq, Structural)]
pub enum MetricsError {
    /// The cursor designates no slot of the ring.
    CursorOutOfBounds,
}

impl MetricsError {
    /// The diagnostic text of the error.
    pub fn message(&self) -> (text: &'static str)
        ensures
            text@ == "FAIL: Metrics daemon tracking pointer out of bounds maps"@,
    {
        match self {
            MetricsError::CursorOutOfBounds => "FAIL: Metrics daemon tracking pointer out of bounds maps",
        }
    }
}

/// The address of the frame in slot `slot` of the ring.
pub open spec fn metrics_slot_address(slot: int) -> int {
    METRICS_RING_BASE + slot * METRICS_STRIDE
}

/// The slot the watcher visits after slot `cursor`.
pub open spec fn next_cursor(cursor: int) -> int {
    (cursor + 1) % (MAX_METRICS_SLOTS as int)
}

/// The slot the watcher visits `n` slots after `cursor`.
pub open spec fn cursor_after(cursor: int, n: nat) -> int
    decreases n,
{
    if n == 0 {
        cursor
    } else {
        next_cursor(cursor_after(cursor, (n - 1) as nat))
    }
}

/// What a frame that the hardware marked as finished is written back as: the
/// same counters, with the mark cleared.
pub open spec fn acknowledged(frame: NetworkMetricFrame) -> NetworkMetricFrame {
    NetworkMetricFrame { state_flags: 0, ..frame }
}

/// What the watcher does with the frame of a slot: the packet total to
/// publish to the shared counter, and the frame to write back into the slot.
#[derive(Clone, Copy, Debug, PartialEq, Eq)]
pub struct SlotAction {
    pub publish: Option<u64>,
    pub write_back: Option<NetworkMetricFrame>,
}

/// A finished frame (state flag 1) has its packet total published and is
/// written back acknowledged; any other frame is left alone.
pub open spec fn slot_action(frame: NetworkMetricFrame) -> SlotAction {
    if frame.state_flags == 1 {
        SlotAction { publish: Some(frame.total_packets), write_back: Some(acknowledged(frame)) }
    } else {
        SlotAction { publish: None, write_back: None }
    }
}

/// The watcher's state: the slot it visits next and the shared counter it
/// publishes packet totals to.
pub struct AsyncMetricsDaemon {
    pub ring_cursor: u32,
    pub packet_counter: Arc<AtomicU64>,
}

impl AsyncMetricsDaemon {
    /// A watcher that starts at the first slot and publishes to `packet_counter`.
    pub fn new(packet_counter: Arc<AtomicU64>) -> (daemon: Self)
        ensures
            daemon.ring_cursor == 0,
            daemon.packet_counter == packet_counter,
    {
        AsyncMetricsDaemon { ring_cursor: 0, packet_counter }
    }

    /// The cursor designates a slot of the ring.
    pub open spec fn well_formed(&self) -> bool {
        self.ring_cursor < MAX_METRICS_SLOTS
    }

    /// The address of the frame the watcher reads next, or an error if the
    /// cursor lies outside the ring.
    pub fn current_slot_address(&self) -> (r: Result<u64, MetricsError>)
        ensures
            r is Ok <==> self.well_formed(),
            r matches Ok(addr) ==> addr == metrics_slot_address(self.ring_cursor as int),
            r matches Ok(addr) ==> addr == 0x8000_0000 + 32 * self.ring_cursor,
            r is Ok <==> self.ring_cursor < 2048,
            r matches Err(e) ==> e == MetricsError::CursorOutOfBounds,
    {
        let current_slot: u64 = self.ring_cursor as u64;
        if current_slot >= MAX_METRICS_SLOTS as u64 {
            return Err(MetricsError::CursorOutOfBounds);
        }
        let byte_offset: u64 = current_slot * METRICS_STRIDE;
        Ok(METRICS_RING_BASE + byte_offset)
    }

    /// Decides what to do with the frame read from the current slot, and moves
    /// to the next slot. A frame whose state flag is 1 is finished: its packet
    /// total is to be published to the shared counter, and the frame with the
    /// flag cleared is to be written back into the slot. Any other frame is
    /// left alone: nothing is published and nothing written.
    pub fn complete_slot(&mut self, frame: NetworkMetricFrame) -> (action: SlotAction)
        requires
            old(self).well_formed(),
        ensures
            final(self).ring_cursor == next_cursor(old(self).ring_cursor as int),
            final(self).ring_cursor == if old(self).ring_cursor == 2047 {
                0
            } else {
                old(self).ring_cursor + 1
            },
            final(self).well_formed(),
            final(self).packet_counter == old(self).packet_counter,
            action == slot_action(frame),
            frame.state_flags == 1 ==> action.publish == Some(frame.total_packets),
            frame.state_flags == 1 ==> action.write_back == Some(
                NetworkMetricFrame {
                    total_packets: frame.total_packets,
                    dropped_packets: frame.dropped_packets,
                    total_bytes: frame.total_bytes,
                    state_flags: 0,
                },
            ),
            frame.state_flags != 1 ==> action.publish is None && action.write_back is None,
    {
        let mut action = SlotAction { publish: None, write_back: None };
        if frame.state_flags == 1 {
            let mut cleared = frame;
            cleared.state_flags = 0;
            action = SlotAction { publish: Some(frame.total_packets), write_back: Some(cleared) };
        }
        self.ring_cursor = (self.ring_cursor + 1) % MAX_METRICS_SLOTS;
        action
    }
}

/// The ring's slots tile its partition: every frame lies inside the
/// partition, aligned, and the frames of two different slots do not overlap.
pub proof fn lemma_metrics_slots_tile_the_ring(a: int, b: int)
    requires
        0 <= a < MAX_METRICS_SLOTS,
        0 <= b < MAX_METRICS_SLOTS,
    ensures
        MAX_METRICS_SLOTS * METRICS_STRIDE == METRICS_RING_SIZE,
        METRICS_RING_BASE <= metrics_slot_address(a),
        metrics_slot_address(a) + METRICS_STRIDE <= METRICS_RING_END,
        metrics_slot_address(a) % (METRICS_FRAME_ALIGN as int) == 0,
        a != b ==> metrics_slot_address(a) + METRICS_STRIDE <= metrics_slot_address(b)
            || metrics_slot_address(b) + METRICS_STRIDE <= metrics_slot_address(a),
{
}

/// The watcher walks the ring in a cycle: `n` slots after slot `cursor` it is
/// at slot `cursor + n` modulo the ring's size, so it never leaves the ring
/// and returns to its starting slot after visiting every slot once.
pub proof fn lemma_watcher_cycles_through_the_ring(cursor: int, n: nat)
    requires
        0 <= cursor < MAX_METRICS_SLOTS,
    ensures
        cursor_after(cursor, n) == (cursor + n) % (MAX_METRICS_SLOTS as int),
        0 <= cursor_after(cursor, n) < MAX_METRICS_SLOTS,
        cursor_after(cursor, MAX_METRICS_SLOTS as nat) == cursor,
{
    lemma_cursor_after_closed_form(cursor, n);
    lemma_cursor_after_closed_form(cursor, MAX_METRICS_SLOTS as nat);
}

/// A watcher made by `new` never leaves the ring: after `k` slots it is at
/// slot `k` modulo the ring's size, so finding the slot's address never fails,
/// and it reads the frames at the ring's base, then 32 bytes on, and so on.
pub proof fn lemma_fresh_watcher_reads_the_ring_in_order(k: nat)
    ensures
        cursor_after(0, k) == (k as int) % (MAX_METRICS_SLOTS as int),
        0 <= cursor_after(0, k) < MAX_METRICS_SLOTS,
        metrics_slot_address(cursor_after(0, k)) == METRICS_RING_BASE + METRICS_STRIDE * ((k as int)
            % (MAX_METRICS_SLOTS as int)),
{
    lemma_cursor_after_closed_form(0, k);
}

/// Every frame flagged 1 is finished, whatever its counters: its packet total
/// is published and it is written back with the flag cleared and every counter
/// kept; a frame with any other flag publishes nothing and writes nothing.
pub proof fn lemma_finished_frames_are_published(frame: NetworkMetricFrame)
    ensures
        frame.state_flags == 1 ==> slot_action(frame).publish == Some(frame.total_packets),
        frame.state_flags == 1 ==> slot_action(frame).write_back == Some(
            NetworkMetricFrame {
                total_packets: frame.total_packets,
                dropped_packets: frame.dropped_packets,
                total_bytes: frame.total_bytes,
                state_flags: 0,
            },
        ),
        frame.state_flags != 1 ==> slot_action(frame).publish is None && slot_action(
            frame,
        ).write_back is None,
{
}

/// Handling a frame is idempotent: a frame written back acknowledged, when
/// visited again, publishes nothing and writes nothing.
pub proof fn lemma_acknowledged_frame_is_left_alone(frame: NetworkMetricFrame)
    ensures
        slot_action(acknowledged(frame)) == (SlotAction { publish: None, write_back: None }),
{
}

proof fn lemma_cursor_after_closed_form(cursor: int, n: nat)
    requires
        0 <= cursor < MAX_METRICS_SLOTS,
    ensures
        cursor_after(cursor, n) == (cursor + n) % (MAX_METRICS_SLOTS as int),
    decreases n,
{
    let m = MAX_METRICS_SLOTS as int;
    if n > 0 {
        lemma_cursor_after_closed_form(cursor, (n - 1) as nat);
        vstd::arithmetic::div_mod::lemma_add_mod_noop(cursor + n - 1, 1, m);
        vstd::arithmetic::div_mod::lemma_mod_twice(cursor + n - 1, m);
    }
}

} // verus!

//! Publishing to the counter shared with the rest of the process.

use std::sync::atomic::{AtomicU64, Ordering};
use vstd::prelude::*;

verus! {

/// Stores `total` into the shared packet counter, with relaxed ordering.
/// The atomic's contents have no view, so no clause speaks of the store; what
/// is stored is decided by `AsyncMetricsDaemon::complete_slot`.
pub fn publish_total(counter: &AtomicU64, total: u64) {
    counter.store(total, Ordering::Relaxed);
}

} // verus!

use vstd::prelude::*;

use std::sync::atomic::{AtomicU64, Ordering};

verus! {

/// Count of frames emitted to the hardware, shared between the output callback
/// (its only writer) and any number of readers.
pub struct AudioClock {
    elapsed: AtomicU64,
}

impl AudioClock {
    /// A clock at frame zero.
    pub fn new() -> (r: AudioClock) {
        AudioClock { elapsed: AtomicU64::new(0) }
    }

    /// Counts one more emitted frame; publishes it to readers.
    pub fn advance(&self) {
        self.elapsed.fetch_add(1, Ordering::Release);
    }

    /// The latest published frame count. Other threads may advance the clock at
    /// any time, so nothing is promised of the value beyond its type.
    pub fn read(&self) -> (r: u64) {
        self.elapsed.load(Ordering::Acquire)
    }
}

} // verus!

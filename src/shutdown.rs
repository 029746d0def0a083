//! A stop request that a signal handler sets and the emission loop polls.
use vstd::prelude::*;
use std::sync::atomic::{AtomicBool, Ordering};

verus! {

/// A flag that starts clear and, once set, stays set. Setting it again is harmless.
/// Another thread may set it at any moment, so a read promises nothing about later
/// reads; relaxed ordering suffices for a notify-once signal.
pub struct ShutdownToken {
    flag: AtomicBool,
}

impl ShutdownToken {
    /// A token with no stop requested.
    pub fn new() -> (r: ShutdownToken) {
        ShutdownToken { flag: AtomicBool::new(false) }
    }

    /// Requests a stop. Neither allocates nor performs I/O, so a signal handler may
    /// call it.
    pub fn request_stop(&self) {
        self.flag.store(true, Ordering::Relaxed);
    }

    /// Whether a stop has been requested.
    pub fn is_stopped(&self) -> bool {
        self.flag.load(Ordering::Relaxed)
    }
}

} // verus!

//! The shutdown flag that the signal listeners raise and the probing loop
//! reads. Listening for signals is left to the caller.

use std::sync::Arc;
use std::sync::atomic::{AtomicBool, Ordering};
use vstd::prelude::*;

verus! {

/// A shared flag that asks the session to end. Clones share the flag.
///
/// The flag is shared with other threads, so nothing is stated of what a
/// read of it gives.
#[derive(Clone)]
pub struct SignalHandler {
    shutdown_flag: Arc<AtomicBool>,
}

impl SignalHandler {
    /// A handler whose flag is down.
    pub fn new() -> Self {
        Self { shutdown_flag: Arc::new(AtomicBool::new(false)) }
    }

    /// Raises the flag.
    pub fn request_shutdown(&self) {
        self.shutdown_flag.store(true, Ordering::SeqCst);
    }

    /// Has the flag been raised?
    pub fn should_shutdown(&self) -> bool {
        self.shutdown_flag.load(Ordering::SeqCst)
    }
}

impl Default for SignalHandler {
    fn default() -> Self {
        Self::new()
    }
}

} // verus!

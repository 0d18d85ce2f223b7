use vstd::prelude::*;
use std::sync::Arc;
use std::sync::atomic::{AtomicBool, Ordering};

verus! {

/// The one-shot readiness flag: false until the display surface has loaded
/// and can run scripts, then true for good. Every handle made by `share`
/// reads and sets the same flag; what a read returns depends on the other
/// threads, so no contract speaks of it.
pub struct ReadyFlag {
    flag: Arc<AtomicBool>,
}

impl ReadyFlag {
    /// A flag that is not set yet.
    pub fn new() -> (r: ReadyFlag) {
        ReadyFlag { flag: Arc::new(AtomicBool::new(false)) }
    }

    /// Another handle on the same flag, for the display surface's side.
    pub fn share(&self) -> (r: ReadyFlag) {
        ReadyFlag { flag: self.flag.clone() }
    }

    /// Sets the flag; it is never cleared.
    pub fn mark_ready(&self) {
        self.flag.store(true, Ordering::Relaxed);
    }

    /// Reads the flag, without synchronising with anything else.
    pub fn is_ready(&self) -> (r: bool) {
        self.flag.load(Ordering::Relaxed)
    }
}

} // verus!

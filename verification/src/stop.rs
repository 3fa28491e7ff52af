use std::sync::atomic::AtomicBool;
use vstd::prelude::*;

verus! {

/// Whether the user asked the running test to stop (the flag is raised by
/// the Ctrl+C handler; its value depends on other threads, so nothing is
/// promised of the answer).
pub fn should_stop(flag: &AtomicBool) -> bool {
    flag.load(std::sync::atomic::Ordering::Relaxed)
}

} // verus!

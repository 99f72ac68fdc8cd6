use vstd::prelude::*;

use std::sync::atomic::AtomicBool;
use std::sync::Arc;

verus! {

/// Whether results reach their publisher, shared between the result handler (which records
/// each publish attempt) and the dispatcher (which refuses commands while publishing fails).
/// Its value is written by another thread, so no read of it is known in advance.
#[derive(Clone, Debug)]
pub struct EngineHealth {
    publisher_healthy: Arc<AtomicBool>,
}

impl Default for EngineHealth {
    /// A publisher taken as healthy until a publish fails.
    fn default() -> (h: EngineHealth) {
        EngineHealth { publisher_healthy: Arc::new(AtomicBool::new(true)) }
    }
}

impl EngineHealth {
    /// Whether the last publish attempt succeeded (true before any attempt).
    pub fn is_publisher_healthy(&self) -> bool {
        self.publisher_healthy.load(std::sync::atomic::Ordering::SeqCst)
    }

    /// Records a failed publish attempt.
    pub fn mark_publisher_unhealthy(&self) {
        self.publisher_healthy.store(false, std::sync::atomic::Ordering::SeqCst);
    }

    /// Records a successful publish attempt.
    pub fn mark_publisher_healthy(&self) {
        self.publisher_healthy.store(true, std::sync::atomic::Ordering::SeqCst);
    }
}

/// The first wait, in milliseconds, before publishing a result again after a failure.
pub const FIRST_RETRY_DELAY_MS: u64 = 10;

/// The longest wait, in milliseconds, between two publish attempts.
pub const MAX_RETRY_DELAY_MS: u64 = 1000;

/// The wait before the next publish attempt after one more failure: twice the last wait,
/// at most a second.
pub fn next_retry_delay_ms(delay_ms: u64) -> (r: u64)
    requires
        delay_ms <= MAX_RETRY_DELAY_MS,
    ensures
        r == if 2 * delay_ms < MAX_RETRY_DELAY_MS { 2 * delay_ms } else { MAX_RETRY_DELAY_MS as int },
{
    let doubled = delay_ms * 2;
    if doubled < MAX_RETRY_DELAY_MS {
        doubled
    } else {
        MAX_RETRY_DELAY_MS
    }
}

} // verus!

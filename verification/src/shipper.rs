use vstd::prelude::*;

verus! {

/// Event lines the game may queue for the collector before it drops them.
pub const QUEUE_CAPACITY: usize = 4096;

/// Commands from the collector that may wait for the game.
pub const INBOX_CAPACITY: usize = 64;

/// The first pause before the collector is tried again, in milliseconds.
pub const FIRST_RETRY_MS: u64 = 250;

/// The longest pause between two tries, in milliseconds.
pub const MAX_RETRY_MS: u64 = 5000;

/// How a lost collector is retried: each failure waits twice as long as the
/// one before, up to [`MAX_RETRY_MS`], and only the first is reported.
#[derive(Clone, Copy, Debug, PartialEq, Eq, Structural)]
pub struct Backoff {
    pub retry_ms: u64,
    pub reported: bool,
}

/// What a failed try leads to: whether to report it and how long to wait.
#[derive(Clone, Copy, Debug, PartialEq, Eq, Structural)]
pub struct Retry {
    pub report: bool,
    pub wait_ms: u64,
}

/// The pause after `retry_ms`: twice as long, but no longer than the cap.
pub open spec fn next_retry(retry_ms: u64) -> u64 {
    if 2 * retry_ms > MAX_RETRY_MS { MAX_RETRY_MS } else { (2 * retry_ms) as u64 }
}

impl Backoff {
    /// The state before the first try.
    pub fn new() -> (b: Backoff)
        ensures
            b == (Backoff { retry_ms: FIRST_RETRY_MS, reported: false }),
    {
        Backoff { retry_ms: FIRST_RETRY_MS, reported: false }
    }

    /// A try failed: report it if none was reported yet, wait the current
    /// pause, and double the pause for next time.
    pub fn failed(&mut self) -> (r: Retry)
        ensures
            r == (Retry { report: !old(self).reported, wait_ms: old(self).retry_ms }),
            *final(self) == (Backoff { retry_ms: next_retry(old(self).retry_ms), reported: true }),
    {
        let r = Retry { report: !self.reported, wait_ms: self.retry_ms };
        self.retry_ms = if self.retry_ms > MAX_RETRY_MS / 2 { MAX_RETRY_MS } else { self.retry_ms * 2 };
        self.reported = true;
        r
    }
}

/// Starting from the first pause, the pauses never shrink and never pass the
/// cap: each is twice the last until the cap is reached.
pub proof fn backoff_grows_to_the_cap(b: Backoff)
    requires
        FIRST_RETRY_MS <= b.retry_ms <= MAX_RETRY_MS,
    ensures
        b.retry_ms <= next_retry(b.retry_ms) <= MAX_RETRY_MS,
        next_retry(b.retry_ms) == MAX_RETRY_MS || next_retry(b.retry_ms) == 2 * b.retry_ms,
{
}

} // verus!

use vstd::prelude::*;

verus! {

/// Default interval, in milliseconds, between two tick messages.
pub const TICK_RATE_MS: u64 = 200;

/// How long the input pump may block waiting for a key before the next
/// tick is due: the remainder of the tick interval, or zero once the
/// interval has fully elapsed.
pub fn poll_timeout(tick_rate_ms: u64, elapsed_ms: u64) -> (r: u64)
    ensures
        r == if elapsed_ms >= tick_rate_ms {
            0u64
        } else {
            (tick_rate_ms - elapsed_ms) as u64
        },
{
    if elapsed_ms >= tick_rate_ms {
        0
    } else {
        tick_rate_ms - elapsed_ms
    }
}

/// Whether a tick message is due: the full tick interval has elapsed
/// since the last tick was emitted.
pub fn tick_due(tick_rate_ms: u64, elapsed_ms: u64) -> (r: bool)
    ensures
        r == (elapsed_ms >= tick_rate_ms),
{
    elapsed_ms >= tick_rate_ms
}

} // verus!

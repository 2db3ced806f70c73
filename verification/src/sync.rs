use vstd::prelude::*;

verus! {

/// The sleep interval the loop falls back to after a failed exchange,
/// in seconds.
pub const FALLBACK_INTERVAL_SECS: u64 = 10;

/// The sync loop's one decision: after a successful exchange the next
/// sleep interval is the configured one; after a failure, whatever its
/// kind, it is the short fallback.
pub fn next_interval(configured_secs: u64, exchange_succeeded: bool) -> (r: u64)
    ensures
        exchange_succeeded ==> r == configured_secs,
        !exchange_succeeded ==> r == FALLBACK_INTERVAL_SECS,
{
    if exchange_succeeded {
        configured_secs
    } else {
        FALLBACK_INTERVAL_SECS
    }
}

} // verus!

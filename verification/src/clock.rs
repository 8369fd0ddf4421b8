//! Wall-clock time.
use vstd::prelude::*;

verus! {

/// Seconds since the Unix epoch from `SystemTime::now()` (zero if the clock
/// reads before the epoch). The value depends on when it is called, so
/// nothing is stated about it.
#[verifier::external_body]
pub(crate) fn unix_now_secs() -> u64 {
    std::time::SystemTime::now().duration_since(std::time::UNIX_EPOCH).unwrap_or_default().as_secs()
}

} // verus!

//! The call-activity probe's settings as the webview sends them.
use vstd::prelude::*;

verus! {

/// Shortest cooldown between two call prompts, in minutes.
pub const MIN_COOLDOWN_MIN: u32 = 1;

/// Longest cooldown between two call prompts, in minutes.
pub const MAX_COOLDOWN_MIN: u32 = 60;

/// The cooldown the probe runs with: the requested minutes clamped to
/// `1..=60`.
pub fn probe_cooldown_min(requested: u32) -> (m: u64)
    ensures
        m == (if requested < MIN_COOLDOWN_MIN {
            MIN_COOLDOWN_MIN
        } else if requested > MAX_COOLDOWN_MIN {
            MAX_COOLDOWN_MIN
        } else {
            requested
        }),
{
    if requested < MIN_COOLDOWN_MIN {
        MIN_COOLDOWN_MIN as u64
    } else if requested > MAX_COOLDOWN_MIN {
        MAX_COOLDOWN_MIN as u64
    } else {
        requested as u64
    }
}

} // verus!

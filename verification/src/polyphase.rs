//! Shape of the polyphase filter bank: phase and tap counts.

use vstd::prelude::*;
use crate::error::{FilterIssue, ResampleError};

verus! {

/// Default number of fractional phases.
pub const DEFAULT_PHASES: usize = 256;

/// Default taps per phase (odd, so each phase has a centre tap).
pub const DEFAULT_TAPS_PER_PHASE: usize = 63;

/// Checks the phase and tap counts of a filter configuration: at least one
/// phase, and an odd number of taps per phase. The phase count is checked
/// first.
pub fn validate_filter_shape(phases: usize, taps_per_phase: usize) -> (r: Result<(), ResampleError>)
    ensures
        match r {
            Ok(()) => phases > 0 && taps_per_phase % 2 == 1,
            Err(e) => e == if phases == 0 {
                ResampleError::InvalidFilterConfig(FilterIssue::ZeroPhases)
            } else {
                ResampleError::InvalidFilterConfig(FilterIssue::EvenOrZeroTaps)
            } && (phases == 0 || taps_per_phase % 2 == 0),
        },
{
    if phases == 0 {
        return Err(ResampleError::InvalidFilterConfig(FilterIssue::ZeroPhases));
    }
    if taps_per_phase == 0 || taps_per_phase % 2 == 0 {
        return Err(ResampleError::InvalidFilterConfig(FilterIssue::EvenOrZeroTaps));
    }
    Ok(())
}

/// Taps on each side of a phase's centre tap: the filter's lookahead and
/// the streaming latency in input frames.
pub fn filter_radius(taps_per_phase: usize) -> (r: usize)
    ensures
        r == taps_per_phase / 2,
        taps_per_phase % 2 == 1 ==> 2 * r + 1 == taps_per_phase,
{
    taps_per_phase / 2
}

} // verus!

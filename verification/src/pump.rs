//! Pacing rules of the frame pump.
//!
//! The playback loop decodes one frame per cycle, renders it when it is
//! complete, and then sleeps for whatever is left of the frame interval.
//! Pacing is best effort: a cycle that overruns its budget gets no sleep,
//! and the next one starts immediately.

use vstd::prelude::*;

verus! {

/// Target playback rate in frames per second.
pub const TARGET_FPS: u32 = 20;

/// Length of one frame interval in microseconds for a target rate of `fps`
/// frames per second.
pub fn frame_interval_us(fps: u32) -> (interval: u32)
    requires
        fps >= 1,
    ensures
        interval == 1_000_000u32 / fps,
{
    1_000_000 / fps
}

/// How long the pump sleeps at the end of a cycle: the unused part of the
/// frame interval, and nothing when the cycle already overran it.
pub fn sleep_budget_us(interval_us: u64, elapsed_us: u64) -> (budget: u64)
    ensures
        budget == if elapsed_us < interval_us {
            interval_us - elapsed_us
        } else {
            0int
        },
{
    if elapsed_us < interval_us {
        interval_us - elapsed_us
    } else {
        0
    }
}

} // verus!

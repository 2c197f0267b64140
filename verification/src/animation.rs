//! Animation frames: indices that step and wrap.

use vstd::prelude::*;

verus! {

/// Time from the appearance of a sprite until its animation first steps,
/// in microseconds.
pub const FIRST_FRAME_DELAY: u64 = 50_000;

/// The index that follows `index` in an animation of `frames` frames.
pub open spec fn next_frame(index: u8, frames: u8) -> u8 {
    if index + 1 == frames {
        0
    } else {
        (index + 1) as u8
    }
}

/// Steps an animation index, wrapping at the end of the animation.
pub fn step_frame(index: u8, frames: u8) -> (next: u8)
    requires
        index < frames,
    ensures
        next == next_frame(index, frames),
        next < frames,
{
    if index + 1 == frames {
        0
    } else {
        index + 1
    }
}

} // verus!

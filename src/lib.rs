use vstd::prelude::*;

pub mod frame_buffer;
pub mod scheduler;
pub mod app;
pub mod title;

verus! {

/// Target frame duration in milliseconds for a positive frame rate.
pub fn frame_length(fps: usize) -> (r: u64)
    requires
        fps > 0,
    ensures
        r as int == 1000int / (fps as int),
{
    (1000usize / fps) as u64
}

} // verus!

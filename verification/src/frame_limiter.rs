//! The frame limiter's arithmetic: a fixed frame budget from a target
//! rate, and how much of the budget a frame left over. The sleep itself
//! is the caller's: this library only computes its length.

use vstd::prelude::*;

verus! {

/// Paces the loop to a fixed target rate, with no adaptive catch-up.
pub struct FrameLimiter {
    target_fps: u32,
    frame_duration_millis: u64,
}

impl FrameLimiter {
    /// The target rate, in frames per second.
    pub closed spec fn target_fps(&self) -> u32 {
        self.target_fps
    }

    /// The budget of one frame, in milliseconds.
    pub closed spec fn frame_duration_millis(&self) -> u64 {
        self.frame_duration_millis
    }

    /// A limiter pacing to `target_fps` frames per second: each frame gets
    /// a whole-millisecond budget of `1000 / target_fps`.
    pub fn new(target_fps: u32) -> (r: Self)
        requires
            target_fps >= 1,
        ensures
            r.target_fps() == target_fps,
            r.frame_duration_millis() == 1000u64 / (target_fps as u64),
    {
        FrameLimiter { target_fps, frame_duration_millis: 1000u64 / (target_fps as u64) }
    }

    /// The budget of one frame, in milliseconds.
    pub fn get_frame_duration_millis(&self) -> (r: u64)
        ensures
            r == self.frame_duration_millis(),
    {
        self.frame_duration_millis
    }

    /// The target rate, in frames per second.
    pub fn get_target_fps(&self) -> (r: u32)
        ensures
            r == self.target_fps(),
    {
        self.target_fps
    }

    /// How long the caller should block to finish out the frame budget:
    /// whatever of the budget the elapsed time left, and nothing when the
    /// frame already ran over.
    pub fn sleep_millis_needed(&self, elapsed_millis: u64) -> (r: u64)
        ensures
            r == if elapsed_millis < self.frame_duration_millis() {
                (self.frame_duration_millis() - elapsed_millis) as u64
            } else {
                0u64
            },
    {
        if elapsed_millis < self.frame_duration_millis {
            self.frame_duration_millis - elapsed_millis
        } else {
            0
        }
    }
}

} // verus!

//! The frame counter of the application loop: how long it has been
//! running and how many frames it drew since the last reset.

use vstd::prelude::*;
use crate::game_timer::spec_sat_sub;

verus! {

/// Counts frames against a start point on the millisecond clock.
pub struct Timer {
    pub start_millis: u64,
    pub frame_count: u64,
}

impl Timer {
    /// A timer started at `now_millis` with no frames counted.
    pub fn new(now_millis: u64) -> (r: Self)
        ensures
            r.start_millis == now_millis,
            r.frame_count == 0,
    {
        Timer { start_millis: now_millis, frame_count: 0 }
    }

    /// How long the timer has been running, in milliseconds.
    pub fn elapsed(&self, now_millis: u64) -> (r: u64)
        ensures
            r == spec_sat_sub(now_millis, self.start_millis),
    {
        if now_millis >= self.start_millis {
            now_millis - self.start_millis
        } else {
            0
        }
    }

    /// Count one more frame.
    pub fn increment_frame(&mut self)
        requires
            old(self).frame_count < u64::MAX,
        ensures
            final(self).frame_count == old(self).frame_count + 1,
            final(self).start_millis == old(self).start_millis,
    {
        self.frame_count = self.frame_count + 1;
    }

    /// Start over at `now_millis` with no frames counted.
    pub fn reset(&mut self, now_millis: u64)
        ensures
            final(self).start_millis == now_millis,
            final(self).frame_count == 0,
    {
        self.start_millis = now_millis;
        self.frame_count = 0;
    }
}

} // verus!

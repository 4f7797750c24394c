//! The game timer: one initialisation yields two clocks. "Since last
//! sample" resets its reference point on every mutating read; "since
//! start" is absolute and never moves. The current time itself is a plain
//! `now_millis` argument, handed in by whoever owns the real clock.

use vstd::prelude::*;

verus! {

/// Subtraction on millisecond clocks, saturating at zero when the clock
/// appears to have run backwards.
pub open spec fn spec_sat_sub(a: u64, b: u64) -> u64 {
    if a >= b {
        (a - b) as u64
    } else {
        0
    }
}

/// Tracks when the game started and when the loop last sampled it.
#[derive(Clone, Copy, Debug)]
pub struct GameTimer {
    start_millis: u64,
    last_loop_millis: u64,
}

impl GameTimer {
    /// When the game started.
    pub closed spec fn start_millis(&self) -> u64 {
        self.start_millis
    }

    /// When the loop clock was last sampled.
    pub closed spec fn last_loop_millis(&self) -> u64 {
        self.last_loop_millis
    }

    /// A timer whose start and sample point are both `now_millis`.
    pub fn new(now_millis: u64) -> (r: Self)
        ensures
            r.start_millis() == now_millis,
            r.last_loop_millis() == now_millis,
    {
        GameTimer { start_millis: now_millis, last_loop_millis: now_millis }
    }

    /// Reset both reference points to `now_millis`.
    pub fn init(&mut self, now_millis: u64)
        ensures
            final(self).start_millis() == now_millis,
            final(self).last_loop_millis() == now_millis,
    {
        self.start_millis = now_millis;
        self.last_loop_millis = now_millis;
    }

    /// The time since the last sample, moving the sample point to
    /// `now_millis`: two consecutive reads never count the same span
    /// twice.
    pub fn get_elapsed_millis(&mut self, now_millis: u64) -> (r: u64)
        ensures
            r == spec_sat_sub(now_millis, old(self).last_loop_millis()),
            final(self).last_loop_millis() == now_millis,
            final(self).start_millis() == old(self).start_millis(),
    {
        let elapsed = if now_millis >= self.last_loop_millis {
            now_millis - self.last_loop_millis
        } else {
            0
        };
        self.last_loop_millis = now_millis;
        elapsed
    }

    /// The time since the last sample, without moving the sample point.
    pub fn peek_elapsed_millis(&self, now_millis: u64) -> (r: u64)
        ensures
            r == spec_sat_sub(now_millis, self.last_loop_millis()),
    {
        if now_millis >= self.last_loop_millis {
            now_millis - self.last_loop_millis
        } else {
            0
        }
    }

    /// The current sample point of the loop clock.
    pub fn get_last_loop_time(&self) -> (r: u64)
        ensures
            r == self.last_loop_millis(),
    {
        self.last_loop_millis
    }

    /// The time since the game started, in milliseconds. Absolute and
    /// non-mutating: reading it moves nothing.
    pub fn get_game_time_millis(&self, now_millis: u64) -> (r: u64)
        ensures
            r == spec_sat_sub(now_millis, self.start_millis()),
    {
        if now_millis >= self.start_millis {
            now_millis - self.start_millis
        } else {
            0
        }
    }
}

} // verus!

//! Performance statistics: a sliding window of recent frame times with
//! exact minimum, maximum and truncated-mean queries, plus the totals
//! since start.

use vstd::prelude::*;
use crate::game_timer::spec_sat_sub;

verus! {

/// The sum of a sequence of frame times.
pub open spec fn seq_sum(s: Seq<u64>) -> int
    decreases s.len(),
{
    if s.len() == 0 {
        0
    } else {
        seq_sum(s.drop_last()) + s.last()
    }
}

/// The least element of a non-empty sequence of frame times.
pub open spec fn seq_min(s: Seq<u64>) -> u64
    recommends
        s.len() > 0,
    decreases s.len(),
{
    if s.len() <= 1 {
        if s.len() == 1 {
            s[0]
        } else {
            0
        }
    } else {
        let m = seq_min(s.drop_last());
        if s.last() < m {
            s.last()
        } else {
            m
        }
    }
}

/// The greatest element of a non-empty sequence of frame times.
pub open spec fn seq_max(s: Seq<u64>) -> u64
    recommends
        s.len() > 0,
    decreases s.len(),
{
    if s.len() <= 1 {
        if s.len() == 1 {
            s[0]
        } else {
            0
        }
    } else {
        let m = seq_max(s.drop_last());
        if s.last() > m {
            s.last()
        } else {
            m
        }
    }
}

/// How many frame times the sliding window keeps.
pub const STATS_WINDOW: usize = 120;

/// Collects per-frame timing samples into a bounded sliding window.
pub struct StatsCollector {
    frame_times: Vec<u64>,
    last_frame_millis: u64,
    total_frames: u64,
    start_millis: u64,
    max_samples: usize,
}

impl StatsCollector {
    /// The window of recent frame times, oldest first.
    pub closed spec fn frame_times(&self) -> Seq<u64> {
        self.frame_times@
    }

    /// When the previous frame ended.
    pub closed spec fn last_frame_millis(&self) -> u64 {
        self.last_frame_millis
    }

    /// How many frames were recorded since start.
    pub closed spec fn total_frames(&self) -> u64 {
        self.total_frames
    }

    /// When the collector started.
    pub closed spec fn start_millis(&self) -> u64 {
        self.start_millis
    }

    /// The window capacity.
    pub closed spec fn max_samples(&self) -> usize {
        self.max_samples
    }

    /// The window never outgrows its capacity.
    pub open spec fn wf(&self) -> bool {
        self.frame_times().len() <= self.max_samples() && self.max_samples() >= 1
    }

    /// An empty collector started at `now_millis`.
    pub fn new(now_millis: u64) -> (r: Self)
        ensures
            r.wf(),
            r.frame_times() =~= Seq::<u64>::empty(),
            r.last_frame_millis() == now_millis,
            r.total_frames() == 0,
            r.start_millis() == now_millis,
            r.max_samples() == STATS_WINDOW,
    {
        StatsCollector {
            frame_times: Vec::new(),
            last_frame_millis: now_millis,
            total_frames: 0,
            start_millis: now_millis,
            max_samples: STATS_WINDOW,
        }
    }

    /// Record the end of a frame at `now_millis`: its duration (the time
    /// since the previous frame ended) joins the window, pushing out the
    /// oldest sample once the window is full.
    pub fn record_frame(&mut self, now_millis: u64)
        requires
            old(self).wf(),
            old(self).total_frames() < u64::MAX,
        ensures
            final(self).wf(),
            final(self).frame_times() == {
                let with_new = old(self).frame_times().push(
                    spec_sat_sub(now_millis, old(self).last_frame_millis()),
                );
                if old(self).frame_times().len() < old(self).max_samples() {
                    with_new
                } else {
                    with_new.skip(1)
                }
            },
            final(self).last_frame_millis() == now_millis,
            final(self).total_frames() == old(self).total_frames() + 1,
            final(self).start_millis() == old(self).start_millis(),
            final(self).max_samples() == old(self).max_samples(),
    {
        let frame_time = if now_millis >= self.last_frame_millis {
            now_millis - self.last_frame_millis
        } else {
            0
        };
        self.frame_times.push(frame_time);
        if self.frame_times.len() > self.max_samples {
            let _ = self.frame_times.remove(0);
            proof {
                assert(self.frame_times@ =~= old(self).frame_times@.push(frame_time).skip(1));
            }
        }
        self.last_frame_millis = now_millis;
        self.total_frames = self.total_frames + 1;
    }

    /// How many frames were recorded since start.
    pub fn get_total_frames(&self) -> (r: u64)
        ensures
            r == self.total_frames(),
    {
        self.total_frames
    }

    /// How many samples the window currently holds.
    pub fn sample_count(&self) -> (r: usize)
        ensures
            r == self.frame_times().len(),
    {
        self.frame_times.len()
    }

    /// How long the collector has been running, in milliseconds.
    pub fn get_uptime_millis(&self, now_millis: u64) -> (r: u64)
        ensures
            r == spec_sat_sub(now_millis, self.start_millis()),
    {
        if now_millis >= self.start_millis {
            now_millis - self.start_millis
        } else {
            0
        }
    }

    /// The duration of the most recent frame, where any was recorded.
    pub fn get_instant_frame_millis(&self) -> (r: Option<u64>)
        ensures
            match r {
                Some(t) => self.frame_times().len() > 0 && t == self.frame_times().last(),
                None => self.frame_times().len() == 0,
            },
    {
        let n = self.frame_times.len();
        if n > 0 {
            Some(self.frame_times[n - 1])
        } else {
            None
        }
    }

    /// The shortest frame in the window, where the window is non-empty.
    pub fn min_frame_millis(&self) -> (r: Option<u64>)
        ensures
            match r {
                Some(t) => self.frame_times().len() > 0 && t == seq_min(self.frame_times()),
                None => self.frame_times().len() == 0,
            },
    {
        let n = self.frame_times.len();
        if n == 0 {
            return None;
        }
        let mut m: u64 = self.frame_times[0];
        let mut i: usize = 1;
        proof {
            assert(self.frame_times@.take(1) =~= seq![self.frame_times@[0]]);
        }
        while i < n
            invariant
                n == self.frame_times@.len(),
                1 <= i <= n,
                m == seq_min(self.frame_times@.take(i as int)),
            decreases n - i,
        {
            let t = self.frame_times[i];
            proof {
                assert(self.frame_times@.take(i + 1).drop_last() =~= self.frame_times@.take(
                    i as int,
                ));
                assert(self.frame_times@.take(i + 1).last() == t);
            }
            if t < m {
                m = t;
            }
            i = i + 1;
        }
        proof {
            assert(self.frame_times@.take(n as int) =~= self.frame_times@);
        }
        Some(m)
    }

    /// The longest frame in the window, where the window is non-empty.
    pub fn max_frame_millis(&self) -> (r: Option<u64>)
        ensures
            match r {
                Some(t) => self.frame_times().len() > 0 && t == seq_max(self.frame_times()),
                None => self.frame_times().len() == 0,
            },
    {
        let n = self.frame_times.len();
        if n == 0 {
            return None;
        }
        let mut m: u64 = self.frame_times[0];
        let mut i: usize = 1;
        proof {
            assert(self.frame_times@.take(1) =~= seq![self.frame_times@[0]]);
        }
        while i < n
            invariant
                n == self.frame_times@.len(),
                1 <= i <= n,
                m == seq_max(self.frame_times@.take(i as int)),
            decreases n - i,
        {
            let t = self.frame_times[i];
            proof {
                assert(self.frame_times@.take(i + 1).drop_last() =~= self.frame_times@.take(
                    i as int,
                ));
                assert(self.frame_times@.take(i + 1).last() == t);
            }
            if t > m {
                m = t;
            }
            i = i + 1;
        }
        proof {
            assert(self.frame_times@.take(n as int) =~= self.frame_times@);
        }
        Some(m)
    }

    /// The mean frame time over the window, rounded down to whole
    /// milliseconds, where the window is non-empty.
    pub fn avg_frame_millis(&self) -> (r: Option<u64>)
        ensures
            match r {
                Some(t) => self.frame_times().len() > 0 && t == seq_sum(self.frame_times())
                    / self.frame_times().len() as int,
                None => self.frame_times().len() == 0,
            },
    {
        let n = self.frame_times.len();
        if n == 0 {
            return None;
        }
        let mut sum: u128 = 0;
        let mut i: usize = 0;
        while i < n
            invariant
                n == self.frame_times@.len(),
                i <= n,
                sum == seq_sum(self.frame_times@.take(i as int)),
                sum <= i * (u64::MAX as u128),
            decreases n - i,
        {
            let t = self.frame_times[i];
            proof {
                assert(self.frame_times@.take(i + 1).drop_last() =~= self.frame_times@.take(
                    i as int,
                ));
                assert(self.frame_times@.take(i + 1).last() == t);
                assert((i + 1) * (u64::MAX as int) == i * (u64::MAX as int) + u64::MAX as int)
                    by (nonlinear_arith);
            }
            sum = sum + t as u128;
            i = i + 1;
        }
        proof {
            assert(self.frame_times@.take(n as int) =~= self.frame_times@);
            vstd::arithmetic::div_mod::lemma_multiply_divide_le(
                sum as int,
                n as int,
                u64::MAX as int,
            );
            assert(n * (u64::MAX as int) == (u64::MAX as int) * n) by (nonlinear_arith);
        }
        Some((sum / (n as u128)) as u64)
    }
}

} // verus!

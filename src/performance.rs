use vstd::prelude::*;

use crate::animation::MICROS_PER_SECOND;
use crate::fixed::UNIT;

verus! {

/// Number of readings kept in each history by default.
pub const HISTORY_LEN: usize = 60;

/// `history` with `value` appended, then its oldest reading dropped if it
/// has grown past `max_len`.
pub open spec fn pushed_history(history: Seq<i64>, value: i64, max_len: nat) -> Seq<i64> {
    let h = history.push(value);
    if h.len() > max_len {
        h.subrange(1, h.len() as int)
    } else {
        h
    }
}

/// Frames per second, in millionths, for `frames` frames over `elapsed`
/// microseconds, rounded down.
pub open spec fn frame_rate(frames: int, elapsed: int) -> int {
    frames * UNIT * MICROS_PER_SECOND / elapsed
}

/// Frame-rate and memory readings, refreshed once a second.
#[derive(Debug)]
pub struct PerformanceState {
    pub show_performance: bool,
    pub fps_history: Vec<i64>,
    pub memory_history: Vec<i64>,
    /// Frames counted since the last refresh.
    pub frame_count: u32,
    /// Frames per second at the last refresh, in millionths.
    pub fps: i64,
    /// Memory in use at the last refresh, in millionths of a megabyte.
    pub memory_usage_mb: i64,
    pub max_history_len: usize,
}

impl PerformanceState {
    /// Counts one more frame.
    pub fn record_frame(&mut self)
        ensures
            final(self).frame_count == if old(self).frame_count == u32::MAX {
                u32::MAX as int
            } else {
                old(self).frame_count + 1
            },
            final(self).fps_history@ == old(self).fps_history@,
            final(self).memory_history@ == old(self).memory_history@,
            final(self).fps == old(self).fps,
            final(self).memory_usage_mb == old(self).memory_usage_mb,
            final(self).max_history_len == old(self).max_history_len,
            final(self).show_performance == old(self).show_performance,
    {
        self.frame_count = self.frame_count.saturating_add(1);
    }

    /// Whether a second or more has passed since the last refresh.
    pub fn should_refresh(elapsed: u64) -> (r: bool)
        ensures
            r == (elapsed >= MICROS_PER_SECOND),
    {
        elapsed >= MICROS_PER_SECOND
    }

    /// Takes the readings at the end of a period of `elapsed` microseconds:
    /// the frame rate over it and the memory in use, each appended to its
    /// bounded history; the frame count starts again from zero.
    pub fn refresh(&mut self, elapsed: u64, memory: i64)
        requires
            elapsed >= MICROS_PER_SECOND,
        ensures
            final(self).fps == frame_rate(old(self).frame_count as int, elapsed as int),
            final(self).frame_count == 0,
            final(self).memory_usage_mb == memory,
            final(self).fps_history@ == pushed_history(
                old(self).fps_history@,
                final(self).fps,
                old(self).max_history_len as nat,
            ),
            final(self).memory_history@ == pushed_history(
                old(self).memory_history@,
                memory,
                old(self).max_history_len as nat,
            ),
            final(self).max_history_len == old(self).max_history_len,
            final(self).show_performance == old(self).show_performance,
    {
        let frames = self.frame_count as u128;
        assert(frames * 1_000_000_000_000 <= 0x1_0000_0000 * 1_000_000_000_000) by (nonlinear_arith)
            requires
                frames <= 0xffff_ffff,
        ;
        let scaled: u128 = frames * 1_000_000_000_000;
        assert(scaled == frames * UNIT * MICROS_PER_SECOND);
        let rate: u128 = scaled / (elapsed as u128);
        assert(rate <= frames * 1_000_000_000_000 / 1_000_000) by (nonlinear_arith)
            requires
                rate == frames * 1_000_000_000_000 / (elapsed as int),
                elapsed >= 1_000_000,
                frames >= 0,
        ;
        self.fps = rate as i64;
        self.frame_count = 0;
        self.memory_usage_mb = memory;
        let max = self.max_history_len;
        push_bounded(&mut self.fps_history, rate as i64, max);
        push_bounded(&mut self.memory_history, memory, max);
    }

    /// Flips whether the readings are shown and returns the new setting.
    pub fn toggle(&mut self) -> (r: bool)
        ensures
            r == final(self).show_performance,
            final(self).show_performance == !old(self).show_performance,
            final(self).fps_history@ == old(self).fps_history@,
            final(self).memory_history@ == old(self).memory_history@,
            final(self).frame_count == old(self).frame_count,
    {
        self.show_performance = !self.show_performance;
        self.show_performance
    }
}

fn push_bounded(history: &mut Vec<i64>, value: i64, max_len: usize)
    ensures
        final(history)@ == pushed_history(old(history)@, value, max_len as nat),
{
    history.push(value);
    if history.len() > max_len {
        history.remove(0);
        assert(final(history)@ =~= pushed_history(old(history)@, value, max_len as nat));
    }
}

impl Default for PerformanceState {
    /// Hidden, with empty histories of at most `HISTORY_LEN` readings.
    fn default() -> (r: PerformanceState)
        ensures
            !r.show_performance,
            r.fps_history@.len() == 0 && r.memory_history@.len() == 0,
            r.frame_count == 0 && r.fps == 0 && r.memory_usage_mb == 0,
            r.max_history_len == HISTORY_LEN,
    {
        PerformanceState {
            show_performance: false,
            fps_history: Vec::new(),
            memory_history: Vec::new(),
            frame_count: 0,
            fps: 0,
            memory_usage_mb: 0,
            max_history_len: HISTORY_LEN,
        }
    }
}

/// A rough memory reading, in millionths of a megabyte: 50 MB plus half a
/// megabyte for each second past the minute of the clock.
pub fn memory_usage_estimate(unix_seconds: u64) -> (r: i64)
    ensures
        r == 50 * UNIT + (unix_seconds % 60) * (UNIT / 2),
{
    50 * UNIT + ((unix_seconds % 60) as i64) * (UNIT / 2)
}

/// How healthy a reading is.
#[derive(Clone, Copy, Debug, PartialEq, Eq, Structural)]
pub enum Level {
    Good,
    Fair,
    Poor,
}

/// A frame rate of 60 or more is good, 30 or more fair, less poor.
pub fn fps_level(fps: i64) -> (r: Level)
    ensures
        fps >= 60 * UNIT ==> r == Level::Good,
        30 * UNIT <= fps < 60 * UNIT ==> r == Level::Fair,
        fps < 30 * UNIT ==> r == Level::Poor,
{
    if fps >= 60 * UNIT {
        Level::Good
    } else if fps >= 30 * UNIT {
        Level::Fair
    } else {
        Level::Poor
    }
}

/// Memory under 100 MB is good, under 200 MB fair, more poor.
pub fn memory_level(megabytes: i64) -> (r: Level)
    ensures
        megabytes < 100 * UNIT ==> r == Level::Good,
        100 * UNIT <= megabytes < 200 * UNIT ==> r == Level::Fair,
        megabytes >= 200 * UNIT ==> r == Level::Poor,
{
    if megabytes < 100 * UNIT {
        Level::Good
    } else if megabytes < 200 * UNIT {
        Level::Fair
    } else {
        Level::Poor
    }
}

/// Sum of the readings.
pub open spec fn seq_sum(s: Seq<i64>) -> int
    decreases s.len(),
{
    if s.len() == 0 {
        0
    } else {
        seq_sum(s.drop_last()) + s.last()
    }
}

/// The largest reading, or 0 if all are smaller.
pub open spec fn seq_max(s: Seq<i64>) -> int
    decreases s.len(),
{
    if s.len() == 0 {
        0
    } else {
        let m = seq_max(s.drop_last());
        if s.last() > m {
            s.last() as int
        } else {
            m
        }
    }
}

/// The smallest reading of a non-empty history.
pub open spec fn seq_min(s: Seq<i64>) -> int
    decreases s.len(),
{
    if s.len() <= 1 {
        if s.len() == 1 {
            s[0] as int
        } else {
            0
        }
    } else {
        let m = seq_min(s.drop_last());
        if s.last() < m {
            s.last() as int
        } else {
            m
        }
    }
}

/// Average (rounded down), largest and smallest of a history.
#[derive(Clone, Copy, Debug, PartialEq, Eq, Structural)]
pub struct HistoryStats {
    pub average: i64,
    pub max: i64,
    pub min: i64,
}

/// The statistics of a history; `None` when it is empty. The average is
/// rounded down; the largest reading counts as 0 when all are negative.
pub fn history_stats(history: &Vec<i64>) -> (r: Option<HistoryStats>)
    ensures
        history@.len() == 0 <==> r is None,
        r is Some ==> r->Some_0 == (HistoryStats {
            average: (seq_sum(history@) / (history@.len() as int)) as i64,
            max: seq_max(history@) as i64,
            min: seq_min(history@) as i64,
        }),
{
    let n = history.len();
    if n == 0 {
        return None;
    }
    let mut sum: i128 = 0;
    let mut max: i64 = 0;
    let mut min: i64 = history[0];
    let mut i: usize = 0;
    while i < n
        invariant
            n == history@.len() > 0,
            i <= n,
            sum == seq_sum(history@.take(i as int)),
            -0x8000_0000_0000_0000 * i <= sum <= 0x7fff_ffff_ffff_ffff * i,
            max == seq_max(history@.take(i as int)),
            i > 0 ==> min == seq_min(history@.take(i as int)),
            i == 0 ==> min == history@[0],
        decreases n - i,
    {
        let v = history[i];
        proof {
            assert(history@.take(i as int + 1).drop_last() == history@.take(i as int));
            assert(history@.take(i as int + 1).last() == v);
            assert(0x8000_0000_0000_0000 * i <= 0x8000_0000_0000_0000 * 0xffff_ffff_ffff_ffff)
                by (nonlinear_arith)
                requires
                    i <= 0xffff_ffff_ffff_ffff,
            ;
            if i == 0 {
                assert(history@.take(1) =~= seq![v]);
            }
        }
        sum = sum + v as i128;
        if v > max {
            max = v;
        }
        if i > 0 && v < min {
            min = v;
        }
        i = i + 1;
    }
    proof {
        assert(history@.take(n as int) == history@);
    }
    let average: i64 = if sum >= 0 {
        let q: u128 = (sum as u128) / (n as u128);
        assert(q <= 0x7fff_ffff_ffff_ffff) by (nonlinear_arith)
            requires
                q as int == sum as int / (n as int),
                0 <= sum <= 0x7fff_ffff_ffff_ffff * n,
                n >= 1,
        ;
        q as i64
    } else {
        let q: u128 = ((-sum) as u128 + (n as u128) - 1) / (n as u128);
        assert(-(q as int) == sum as int / n as int && q <= 0x8000_0000_0000_0000)
            by (nonlinear_arith)
            requires
                q as int == (-sum + n - 1) / (n as int),
                -0x8000_0000_0000_0000 * n <= sum < 0,
                n >= 1,
        ;
        (-(q as i128)) as i64
    };
    Some(HistoryStats { average, max, min })
}

/// The last `n` readings of a history, or all of them if there are fewer.
pub fn recent(history: &Vec<i64>, n: usize) -> (r: Vec<i64>)
    ensures
        r@ == history@.subrange(
            if history@.len() > n {
                history@.len() - n
            } else {
                0
            },
            history@.len() as int,
        ),
{
    let start: usize = if history.len() > n {
        history.len() - n
    } else {
        0
    };
    let mut r: Vec<i64> = Vec::new();
    let mut i: usize = start;
    while i < history.len()
        invariant
            start <= i <= history@.len(),
            r@ == history@.subrange(start as int, i as int),
        decreases history@.len() - i,
    {
        r.push(history[i]);
        assert(r@ =~= history@.subrange(start as int, i as int + 1));
        i = i + 1;
    }
    r
}

} // verus!

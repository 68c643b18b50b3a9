//! Running trackers for elapsed time and memory use.
//!
//! The clock is outside the verified core: callers read it and hand each
//! operation the current time as plain milliseconds.

use vstd::prelude::*;

use vstd::string::StringExecFns;

use crate::format::{format_duration, spec_format_duration};

verus! {

/// `a - b`, floored at zero.
pub open spec fn spec_saturating_sub(a: int, b: int) -> int {
    if a >= b {
        a - b
    } else {
        0
    }
}

/// One report line per checkpoint: its name and the time since the previous
/// checkpoint (or the start).
pub open spec fn spec_checkpoint_lines(cps: Seq<(String, u64)>, prev: int) -> Seq<char>
    decreases cps.len(),
{
    if cps.len() == 0 {
        Seq::empty()
    } else {
        "  "@ + cps[0].0@ + ": "@ + spec_format_duration(
            spec_saturating_sub(cps[0].1 as int, prev),
        ) + "\n"@ + spec_checkpoint_lines(cps.drop_first(), cps[0].1 as int)
    }
}

/// The whole report: the total elapsed time, then one line per checkpoint.
pub open spec fn spec_report(start: int, cps: Seq<(String, u64)>, now: int) -> Seq<char> {
    "Total time: "@ + spec_format_duration(spec_saturating_sub(now, start)) + "\n"@
        + spec_checkpoint_lines(cps, start)
}

/// Tracks the time spent since a start instant, with named checkpoints.
/// Instants are plain milliseconds read from whatever clock the caller uses.
pub struct PerformanceTracker {
    /// The instant the tracker was started, in milliseconds.
    pub start_ms: u64,
    /// The named checkpoints, each with its instant in milliseconds.
    pub checkpoints: Vec<(String, u64)>,
}

impl PerformanceTracker {
    /// A tracker started at `now_ms`, with no checkpoints.
    pub fn new(now_ms: u64) -> (r: PerformanceTracker)
        ensures
            r.start_ms == now_ms,
            r.checkpoints@.len() == 0,
    {
        PerformanceTracker { start_ms: now_ms, checkpoints: Vec::new() }
    }

    /// Records a named checkpoint at `now_ms`.
    pub fn checkpoint(&mut self, name: String, now_ms: u64)
        ensures
            final(self).start_ms == old(self).start_ms,
            final(self).checkpoints@ == old(self).checkpoints@.push((name, now_ms)),
    {
        self.checkpoints.push((name, now_ms));
    }

    /// The time elapsed from the start to `now_ms`, zero when the clock
    /// stands before the start.
    pub fn elapsed(&self, now_ms: u64) -> (r: u64)
        ensures
            r == spec_saturating_sub(now_ms as int, self.start_ms as int),
    {
        if now_ms >= self.start_ms {
            now_ms - self.start_ms
        } else {
            0
        }
    }

    /// The report at `now_ms`: the total elapsed time, then each checkpoint
    /// with the time since the one before it.
    pub fn report(&self, now_ms: u64) -> (r: String)
        ensures
            r@ == spec_report(self.start_ms as int, self.checkpoints@, now_ms as int),
    {
        let mut out = String::from_str("Total time: ");
        let total = format_duration(self.elapsed(now_ms));
        out.append(total.as_str());
        out.append("\n");
        let n = self.checkpoints.len();
        let mut prev: u64 = self.start_ms;
        let mut i: usize = 0;
        proof {
            assert(self.checkpoints@.skip(0) =~= self.checkpoints@);
            assert(out@ =~= spec_report(self.start_ms as int, Seq::empty(), now_ms as int));
            assert(spec_report(self.start_ms as int, self.checkpoints@, now_ms as int) =~= out@
                + spec_checkpoint_lines(self.checkpoints@.skip(0), self.start_ms as int));
        }
        while i < n
            invariant
                n == self.checkpoints@.len(),
                i <= n,
                spec_report(self.start_ms as int, self.checkpoints@, now_ms as int) == out@
                    + spec_checkpoint_lines(self.checkpoints@.skip(i as int), prev as int),
            decreases n - i,
        {
            let ghost pre_out = out@;
            let ghost suf = self.checkpoints@.skip(i as int);
            let name = &self.checkpoints[i].0;
            let time = self.checkpoints[i].1;
            proof {
                assert(suf[0] == self.checkpoints@[i as int]);
            }
            out.append("  ");
            out.append(name.as_str());
            out.append(": ");
            let gap = if time >= prev {
                time - prev
            } else {
                0
            };
            let line = format_duration(gap);
            out.append(line.as_str());
            out.append("\n");
            proof {
                assert(self.checkpoints@.skip(i as int).drop_first() =~= self.checkpoints@.skip(
                    i as int + 1,
                ));
                let chunk = "  "@ + name@ + ": "@ + spec_format_duration(
                    spec_saturating_sub(time as int, prev as int),
                ) + "\n"@;
                assert(out@ =~= pre_out + chunk);
                assert(spec_checkpoint_lines(suf, prev as int) == chunk + spec_checkpoint_lines(
                    self.checkpoints@.skip(i as int + 1),
                    time as int,
                ));
                assert(pre_out + (chunk + spec_checkpoint_lines(
                    self.checkpoints@.skip(i as int + 1),
                    time as int,
                )) =~= (pre_out + chunk) + spec_checkpoint_lines(
                    self.checkpoints@.skip(i as int + 1),
                    time as int,
                ));
            }
            prev = time;
            i = i + 1;
        }
        proof {
            assert(self.checkpoints@.skip(n as int) =~= Seq::<(String, u64)>::empty());
            assert(out@ + spec_checkpoint_lines(self.checkpoints@.skip(n as int), prev as int)
                =~= out@);
        }
        out
    }
}

/// Tracks current and peak memory use, in bytes.
pub struct MemoryTracker {
    /// The highest usage seen so far.
    pub peak: u64,
    /// The current usage.
    pub current: u64,
}

impl MemoryTracker {
    /// A tracker with no usage recorded.
    pub fn new() -> (r: MemoryTracker)
        ensures
            r.current == 0,
            r.peak == 0,
    {
        MemoryTracker { peak: 0, current: 0 }
    }

    /// Records an allocation of `bytes`, raising the peak when the new usage
    /// exceeds it.
    pub fn allocate(&mut self, bytes: u64)
        requires
            old(self).current + bytes <= u64::MAX,
        ensures
            final(self).current == old(self).current + bytes,
            final(self).peak == if old(self).current + bytes > old(self).peak {
                old(self).current + bytes
            } else {
                old(self).peak as int
            },
    {
        self.current = self.current + bytes;
        if self.current > self.peak {
            self.peak = self.current;
        }
    }

    /// Records a deallocation of `bytes`; usage never goes below zero, and
    /// the peak keeps its value.
    pub fn deallocate(&mut self, bytes: u64)
        ensures
            final(self).current == spec_saturating_sub(old(self).current as int, bytes as int),
            final(self).peak == old(self).peak,
    {
        if self.current >= bytes {
            self.current = self.current - bytes;
        } else {
            self.current = 0;
        }
    }

    /// The current usage in bytes.
    pub fn current_usage(&self) -> (r: u64)
        ensures
            r == self.current,
    {
        self.current
    }

    /// The peak usage in bytes.
    pub fn peak_usage(&self) -> (r: u64)
        ensures
            r == self.peak,
    {
        self.peak
    }
}

impl Default for PerformanceTracker {
    /// A tracker started at instant zero.
    fn default() -> (r: PerformanceTracker)
        ensures
            r.start_ms == 0,
            r.checkpoints@.len() == 0,
    {
        PerformanceTracker::new(0)
    }
}

impl Default for MemoryTracker {
    /// A tracker with no usage recorded.
    fn default() -> (r: MemoryTracker)
        ensures
            r.current == 0,
            r.peak == 0,
    {
        MemoryTracker::new()
    }
}

} // verus!

//! Fractional tick accumulator.
//!
//! Elapsed time is given in microseconds and clock rates in millihertz, so
//! the accumulator counts in billionths of a tick and never rounds.
use vstd::prelude::*;

verus! {

/// Units of the accumulator in one whole tick.
pub const TICK_SCALE: u64 = 1_000_000_000;

/// The accumulator after `time_us` microseconds at `rate_mhz` millihertz.
pub open spec fn produced(ticks: nat, time_us: nat, rate_mhz: nat) -> nat {
    ticks + time_us * rate_mhz
}

/// The whole ticks held by an accumulator.
pub open spec fn whole_ticks(ticks: nat) -> nat {
    ticks / (TICK_SCALE as nat)
}

/// What an accumulator keeps once its whole ticks are taken.
pub open spec fn fraction(ticks: nat) -> nat {
    ticks % (TICK_SCALE as nat)
}

/// One frame of a subsystem's clock: time `(time_us, rate_mhz)` is produced,
/// then the whole ticks are consumed. Returns the accumulator after each of
/// the `frames` and the sum of the ticks consumed.
pub open spec fn run_frames(ticks: nat, frames: Seq<(nat, nat)>) -> (nat, nat)
    decreases frames.len(),
{
    if frames.len() == 0 {
        (ticks, 0)
    } else {
        let (before, consumed) = run_frames(ticks, frames.drop_last());
        let after = produced(before, frames.last().0, frames.last().1);
        (fraction(after), consumed + whole_ticks(after))
    }
}

/// The total time of `frames`, in billionths of a tick.
pub open spec fn total_produced(frames: Seq<(nat, nat)>) -> nat
    decreases frames.len(),
{
    if frames.len() == 0 {
        0
    } else {
        total_produced(frames.drop_last()) + frames.last().0 * frames.last().1
    }
}

/// Over any sequence of frames, starting from an empty accumulator, the ticks
/// consumed are the ticks produced rounded down: they fall short by less than
/// one tick, and that shortfall is exactly what the accumulator keeps, which
/// is always less than one tick.
pub proof fn lemma_ticks_conserved(frames: Seq<(nat, nat)>)
    ensures
        run_frames(0, frames).0 < TICK_SCALE,
        run_frames(0, frames).1 * TICK_SCALE + run_frames(0, frames).0 == total_produced(frames),
        run_frames(0, frames).1 * TICK_SCALE <= total_produced(frames),
        total_produced(frames) < (run_frames(0, frames).1 + 1) * TICK_SCALE,
    decreases frames.len(),
{
    if frames.len() > 0 {
        lemma_ticks_conserved(frames.drop_last());
        let (before, consumed) = run_frames(0, frames.drop_last());
        let after = produced(before, frames.last().0, frames.last().1);
        let s = TICK_SCALE as nat;
        assert(after == (after / s) * s + after % s) by (nonlinear_arith)
            requires
                s > 0,
        ;
        assert((consumed + after / s) * s == consumed * s + (after / s) * s) by (nonlinear_arith);
    }
}

#[derive(Debug)]
pub struct ClockState {
    /// Accumulated time, in billionths of a tick.
    ticks: u64,
}

impl ClockState {
    /// The accumulated time, in billionths of a tick.
    pub closed spec fn pending(&self) -> nat {
        self.ticks as nat
    }

    pub fn new() -> (r: ClockState)
        ensures
            r.pending() == 0,
    {
        ClockState { ticks: 0 }
    }

    /// Adds the ticks of `time_us` microseconds at `rate_mhz` millihertz.
    pub fn produce(&mut self, time_us: u64, rate_mhz: u64)
        requires
            old(self).pending() + time_us * rate_mhz <= u64::MAX,
        ensures
            final(self).pending() == produced(old(self).pending(), time_us as nat, rate_mhz as nat),
    {
        assert(time_us * rate_mhz <= u64::MAX);
        self.ticks = self.ticks + time_us * rate_mhz;
    }

    /// Takes out the whole ticks, keeping the fraction of a tick.
    pub fn consume_whole(&mut self) -> (r: u64)
        ensures
            r == whole_ticks(old(self).pending()),
            final(self).pending() == fraction(old(self).pending()),
            final(self).pending() < TICK_SCALE,
    {
        let whole = self.ticks / TICK_SCALE;
        self.ticks = self.ticks % TICK_SCALE;
        whole
    }
}

} // verus!

//! Pacing the machine at its clock rate: how many cycles are due.
use vstd::prelude::*;

verus! {

/// The most cycles run in one go; a machine further behind than this drops
/// the rest and starts pacing afresh.
pub const MAX_STEPS_PER_FRAME: usize = 4096;

/// How far the machine is behind its clock.
pub struct Pacing {
    /// Cycles to run now.
    pub due: usize,
    /// When the cycle after them falls due.
    pub next_tick: u64,
    /// The count reached its limit: pacing starts afresh, the next cycle
    /// falling due one tick after the time at which this is acted on.
    pub restart: bool,
}

/// The cycles due at time `now` when the next one was due at `next_tick` and
/// one falls due every `tick` (all in the same unit of time), counting at most
/// `MAX_STEPS_PER_FRAME`; when the cycle after them falls due; and whether
/// the limit was reached.
///
/// Each cycle counted was due, and, unless the count reached the limit, the
/// cycle after them is not due yet.
pub fn catch_up(now: u64, next_tick: u64, tick: u64) -> (pacing: Pacing)
    requires
        tick > 0,
        next_tick + MAX_STEPS_PER_FRAME * tick <= u64::MAX,
    ensures
        pacing.due <= MAX_STEPS_PER_FRAME,
        pacing.next_tick == next_tick + pacing.due * tick,
        pacing.due > 0 ==> now >= next_tick + (pacing.due - 1) * tick,
        pacing.due < MAX_STEPS_PER_FRAME ==> now < pacing.next_tick,
        pacing.restart == (pacing.due == MAX_STEPS_PER_FRAME),
{
    let mut due_steps: usize = 0;
    let mut next: u64 = next_tick;
    while due_steps < MAX_STEPS_PER_FRAME && now >= next
        invariant
            tick > 0,
            next_tick + MAX_STEPS_PER_FRAME * tick <= u64::MAX,
            due_steps <= MAX_STEPS_PER_FRAME,
            next == next_tick + due_steps * tick,
            due_steps > 0 ==> now >= next_tick + (due_steps - 1) * tick,
        decreases MAX_STEPS_PER_FRAME - due_steps,
    {
        assert(next + tick <= next_tick + MAX_STEPS_PER_FRAME * tick) by (nonlinear_arith)
            requires
                next == next_tick + due_steps * tick,
                due_steps < MAX_STEPS_PER_FRAME,
                tick > 0,
        ;
        assert(next + tick == next_tick + (due_steps + 1) * tick) by (nonlinear_arith)
            requires
                next == next_tick + due_steps * tick,
        ;
        due_steps = due_steps + 1;
        next = next + tick;
    }
    Pacing { due: due_steps, next_tick: next, restart: due_steps == MAX_STEPS_PER_FRAME }
}

} // verus!

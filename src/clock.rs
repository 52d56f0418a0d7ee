//! Fixed-timestep accumulator: turns variable real elapsed time into whole
//! simulation ticks.
use vstd::prelude::*;

verus! {

/// Sum of a sequence of durations.
pub open spec fn total(deltas: Seq<int>) -> int
    decreases deltas.len(),
{
    if deltas.len() == 0 { 0 } else { deltas[0] + total(deltas.drop_first()) }
}

/// Ticks and remainder after frames that each `accumulate` one of `deltas`
/// and then `consume_ticks`, starting from `accumulated` with step `step`.
pub open spec fn run_frames(accumulated: int, step: int, deltas: Seq<int>) -> (int, int)
    decreases deltas.len(),
{
    if deltas.len() == 0 {
        (0, accumulated)
    } else {
        let a = accumulated + deltas[0];
        let rest = run_frames(a % step, step, deltas.drop_first());
        (a / step + rest.0, rest.1)
    }
}

/// However real time is split into frames, the ticks drained over them
/// total the whole steps in the time fed in, and what remains is the rest:
/// no tick is lost or run twice, and the outcome depends on the deltas alone.
pub proof fn lemma_frames_drain_whole_steps(accumulated: int, step: int, deltas: Seq<int>)
    requires
        0 <= accumulated < step,
        forall|i: int| 0 <= i < deltas.len() ==> deltas[i] >= 0,
    ensures
        run_frames(accumulated, step, deltas)
            == ((accumulated + total(deltas)) / step, (accumulated + total(deltas)) % step),
    decreases deltas.len(),
{
    if deltas.len() == 0 {
        vstd::arithmetic::div_mod::lemma_small_mod(accumulated as nat, step as nat);
        vstd::arithmetic::div_mod::lemma_basic_div(accumulated, step);
    } else {
        let a = accumulated + deltas[0];
        let rest = deltas.drop_first();
        let s = total(rest);
        vstd::arithmetic::div_mod::lemma_mod_bound(a, step);
        assert forall|i: int| 0 <= i < rest.len() implies rest[i] >= 0 by {
            assert(rest[i] == deltas[i + 1]);
        }
        lemma_frames_drain_whole_steps(a % step, step, rest);
        vstd::arithmetic::div_mod::lemma_fundamental_div_mod(a, step);
        vstd::arithmetic::div_mod::lemma_hoist_over_denominator(a % step + s, a / step, step as nat);
        assert(a % step + s + (a / step) * step == a + s) by (nonlinear_arith)
            requires a == step * (a / step) + a % step;
        vstd::arithmetic::div_mod::lemma_mod_multiples_vanish(a / step, a % step + s, step);
        assert(step * (a / step) + (a % step + s) == a + s);
        assert(accumulated + total(deltas) == a + s);
    }
}

/// Real time waiting to be turned into ticks, in microseconds.
pub struct SimulationClock {
    pub time_step: u64,
    pub accumulated: u64,
}

impl SimulationClock {
    pub open spec fn wf(self) -> bool {
        self.time_step > 0
    }

    /// A clock with nothing accumulated; `time_step` must be positive.
    pub fn new(time_step: u64) -> (r: SimulationClock)
        requires
            time_step > 0,
        ensures
            r.wf(),
            r.time_step == time_step,
            r.accumulated == 0,
    {
        SimulationClock { time_step, accumulated: 0 }
    }

    /// Adds real elapsed time.
    pub fn accumulate(&mut self, real_dt: u64)
        requires
            old(self).accumulated + real_dt <= u64::MAX,
        ensures
            final(self).accumulated == old(self).accumulated + real_dt,
            final(self).time_step == old(self).time_step,
    {
        self.accumulated = self.accumulated + real_dt;
    }

    /// Drains every whole tick from the accumulated time and returns how
    /// many there were; what is left is less than one tick.
    pub fn consume_ticks(&mut self) -> (count: u64)
        requires
            old(self).wf(),
        ensures
            count == old(self).accumulated / old(self).time_step,
            final(self).accumulated == old(self).accumulated % old(self).time_step,
            final(self).accumulated < final(self).time_step,
            final(self).time_step == old(self).time_step,
    {
        let ghost start = self.accumulated;
        let mut count: u64 = 0;
        while self.accumulated >= self.time_step
            invariant
                self.time_step == old(self).time_step,
                self.time_step > 0,
                start == old(self).accumulated,
                start == count * self.time_step + self.accumulated,
            decreases self.accumulated,
        {
            self.accumulated = self.accumulated - self.time_step;
            assert((count + 1) * self.time_step == count * self.time_step + self.time_step)
                by (nonlinear_arith);
            assert(count + 1 <= start) by (nonlinear_arith)
                requires start == (count + 1) * self.time_step + self.accumulated,
                    self.time_step >= 1, self.accumulated >= 0;
            count = count + 1;
        }
        proof {
            vstd::arithmetic::div_mod::lemma_fundamental_div_mod_converse(
                start as int, self.time_step as int, count as int, self.accumulated as int);
        }
        count
    }
}

} // verus!

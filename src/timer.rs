use vstd::prelude::*;

verus! {

#[derive(Clone, Copy, Debug, PartialEq, Eq, Structural)]
pub enum TimerMode {
    Once,
    Repeating,
}

/// A timer over whole time units (for instance nanoseconds).
#[derive(Clone, Copy, Debug, PartialEq, Eq, Structural)]
pub struct Timer {
    pub duration: u64,
    pub elapsed: u64,
    pub mode: TimerMode,
    pub finished: bool,
}

/// The accumulator and the finished flag after one tick of `delta` units.
pub open spec fn tick_model(t: Timer, delta: u64) -> Timer {
    let sum = t.elapsed + delta;
    match t.mode {
        TimerMode::Once => Timer {
            elapsed: if sum >= t.duration { t.duration } else { sum as u64 },
            finished: sum >= t.duration,
            ..t
        },
        TimerMode::Repeating => if t.duration == 0 {
            Timer { elapsed: 0, finished: true, ..t }
        } else {
            Timer { elapsed: (sum % (t.duration as int)) as u64, finished: sum >= t.duration, ..t }
        },
    }
}

impl Timer {
    /// The accumulator has not passed the duration, and a repeating timer
    /// has already wrapped it.
    pub open spec fn wf(&self) -> bool {
        &&& self.elapsed <= self.duration
        &&& self.mode == TimerMode::Repeating && self.duration > 0 ==> self.elapsed < self.duration
    }

    pub fn new(duration: u64, mode: TimerMode) -> (r: Timer)
        ensures
            r.wf(),
            r == (Timer { duration, elapsed: 0, mode, finished: false }),
    {
        Timer { duration, elapsed: 0, mode, finished: false }
    }

    /// Whether the last tick reached the end of the interval (for a one-shot
    /// timer: whether it ever has).
    pub fn finished(&self) -> (r: bool)
        ensures
            r == self.finished,
    {
        self.finished
    }

    /// Advances the timer by `delta` units. A repeating timer that reaches its
    /// duration reports finished and keeps only the overshoot.
    pub fn tick(&mut self, delta: u64)
        requires
            old(self).wf(),
        ensures
            final(self).wf(),
            *final(self) == tick_model(*old(self), delta),
    {
        let d = self.duration;
        let e = self.elapsed;
        let rem = d - e;
        match self.mode {
            TimerMode::Once => {
                if delta >= rem {
                    self.elapsed = d;
                    self.finished = true;
                } else {
                    self.elapsed = e + delta;
                    self.finished = false;
                }
            },
            TimerMode::Repeating => {
                if d == 0 {
                    self.elapsed = 0;
                    self.finished = true;
                } else if delta >= rem {
                    let over = delta - rem;
                    self.elapsed = over % d;
                    self.finished = true;
                    proof {
                        vstd::arithmetic::div_mod::lemma_mod_add_multiples_vanish(over as int, d as int);
                        assert(e + delta == d + over);
                    }
                } else {
                    self.elapsed = e + delta;
                    self.finished = false;
                    proof {
                        vstd::arithmetic::div_mod::lemma_small_mod((e + delta) as nat, d as nat);
                    }
                }
            },
        }
    }
}

} // verus!

//! Process-wide timers: elapsed time accumulates tick by tick until a fixed
//! interval is reached, at which point the timer fires once and resets.

use vstd::prelude::*;

use crate::conf;

verus! {

/// How often a key press is let through, in milliseconds.
pub const KEY_PRESS_DELAY_MS: u64 = 250;

/// Calculation of flocking behavior is expensive. We undergo this calculation
/// only a few times a second.
#[derive(Clone, Copy, PartialEq, Eq, Structural, Debug)]
pub struct FlockUpdateTimer {
    pub elapsed_ms: u64,
    pub finished: bool,
}

/// Allows a key to be pressed only once in a while. Prevents unwanted bursts.
#[derive(Clone, Copy, PartialEq, Eq, Structural, Debug)]
pub struct KeyPressDelay {
    pub elapsed_ms: u64,
    pub finished: bool,
}

/// What one `tick` call leaves behind, for a repeating timer with the given
/// interval: it fires exactly when the accumulated time reaches the interval,
/// and resets its accumulator when it does.
pub open spec fn timer_tick_spec(
    elapsed_before: int,
    delta_ms: int,
    interval: int,
    elapsed_after: int,
    finished_after: bool,
) -> bool {
    &&& finished_after <==> elapsed_before + delta_ms >= interval
    &&& finished_after ==> elapsed_after == 0
    &&& !finished_after ==> elapsed_after == elapsed_before + delta_ms
}

impl FlockUpdateTimer {
    /// The accumulator never reaches the interval between ticks.
    pub open spec fn wf(self) -> bool {
        self.elapsed_ms < conf::prey::RECALCULATE_FLOCKING_MS
    }

    pub fn tick(&mut self, delta_ms: u64)
        requires
            old(self).wf(),
        ensures
            final(self).wf(),
            timer_tick_spec(
                old(self).elapsed_ms as int,
                delta_ms as int,
                conf::prey::RECALCULATE_FLOCKING_MS as int,
                final(self).elapsed_ms as int,
                final(self).finished,
            ),
    {
        let remaining = conf::prey::RECALCULATE_FLOCKING_MS - self.elapsed_ms;
        if delta_ms >= remaining {
            self.elapsed_ms = 0;
            self.finished = true;
        } else {
            self.elapsed_ms = self.elapsed_ms + delta_ms;
            self.finished = false;
        }
    }

    pub fn is_finished(&self) -> (r: bool)
        ensures
            r == self.finished,
    {
        self.finished
    }
}

impl Default for FlockUpdateTimer {
    fn default() -> (r: Self)
        ensures
            r.elapsed_ms == 0,
            !r.finished,
            r.wf(),
    {
        FlockUpdateTimer { elapsed_ms: 0, finished: false }
    }
}

impl KeyPressDelay {
    /// The accumulator never reaches the interval between ticks.
    pub open spec fn wf(self) -> bool {
        self.elapsed_ms < KEY_PRESS_DELAY_MS
    }

    pub fn tick(&mut self, delta_ms: u64)
        requires
            old(self).wf(),
        ensures
            final(self).wf(),
            timer_tick_spec(
                old(self).elapsed_ms as int,
                delta_ms as int,
                KEY_PRESS_DELAY_MS as int,
                final(self).elapsed_ms as int,
                final(self).finished,
            ),
    {
        let remaining = KEY_PRESS_DELAY_MS - self.elapsed_ms;
        if delta_ms >= remaining {
            self.elapsed_ms = 0;
            self.finished = true;
        } else {
            self.elapsed_ms = self.elapsed_ms + delta_ms;
            self.finished = false;
        }
    }

    pub fn is_finished(&self) -> (r: bool)
        ensures
            r == self.finished,
    {
        self.finished
    }
}

impl Default for KeyPressDelay {
    fn default() -> (r: Self)
        ensures
            r.elapsed_ms == 0,
            !r.finished,
            r.wf(),
    {
        KeyPressDelay { elapsed_ms: 0, finished: false }
    }
}

} // verus!

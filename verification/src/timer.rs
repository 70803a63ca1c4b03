//! A one-shot countdown over whole nanoseconds.
//!
//! The game never reads a clock. Whoever drives it says how much time has
//! passed since the last step, and the countdown adds that up until its
//! duration is reached.

use vstd::prelude::*;

verus! {

/// Nanoseconds in one second.
pub const NANOS_PER_SECOND: u64 = 1_000_000_000;

/// Nanoseconds in one millisecond.
pub const NANOS_PER_MILLI: u64 = 1_000_000;

/// What a [`Countdown`] stands for: a duration, the time counted so far, and
/// whether it has run out or is held.
pub struct CountdownView {
    pub duration: nat,
    pub elapsed: nat,
    pub finished: bool,
    pub paused: bool,
}

impl CountdownView {
    /// The state of a countdown of the same duration before its first tick.
    pub open spec fn reset(self) -> CountdownView {
        CountdownView { elapsed: 0, finished: false, ..self }
    }

    /// The state after `delta` nanoseconds have passed. A countdown that is
    /// held or has run out does not move; one that reaches its duration stops
    /// there and has run out.
    pub open spec fn tick(self, delta: nat) -> CountdownView {
        if self.paused || self.finished {
            self
        } else if self.elapsed + delta >= self.duration {
            CountdownView { elapsed: self.duration, finished: true, ..self }
        } else {
            CountdownView { elapsed: self.elapsed + delta, ..self }
        }
    }

    /// The time still to go.
    pub open spec fn remaining(self) -> nat {
        (self.duration - self.elapsed) as nat
    }

    /// The counted time has not passed the duration, and a countdown that has
    /// run out stands at its duration.
    pub open spec fn wf(self) -> bool {
        &&& self.elapsed <= self.duration
        &&& self.finished ==> self.elapsed == self.duration
    }
}

/// It does not matter how time is cut into steps: two steps one after the
/// other leave a countdown where one step of their joint length leaves it.
pub proof fn lemma_ticks_add_up(timer: CountdownView, first: nat, second: nat)
    requires
        timer.wf(),
    ensures
        timer.tick(first).tick(second) == timer.tick(first + second),
        timer.tick(first).wf(),
{
}

/// A countdown that is running runs out exactly when the time still to go has
/// passed; one that is held never runs out.
pub proof fn lemma_runs_out(timer: CountdownView, delta: nat)
    requires
        timer.wf(),
        !timer.finished,
    ensures
        !timer.paused ==> (timer.tick(delta).finished <==> delta >= timer.remaining()),
        timer.paused ==> !timer.tick(delta).finished,
{
}

/// A countdown that runs once from zero up to its duration.
#[derive(Debug, Clone, Copy, PartialEq, Eq)]
pub struct Countdown {
    duration: u64,
    elapsed: u64,
    finished: bool,
    paused: bool,
}

impl View for Countdown {
    type V = CountdownView;

    closed spec fn view(&self) -> CountdownView {
        CountdownView {
            duration: self.duration as nat,
            elapsed: self.elapsed as nat,
            finished: self.finished,
            paused: self.paused,
        }
    }
}

impl Countdown {
    #[verifier::type_invariant]
    spec fn within_duration(self) -> bool {
        &&& self.elapsed <= self.duration
        &&& self.finished ==> self.elapsed == self.duration
    }

    /// A fresh countdown of `nanos` nanoseconds: nothing counted, not held.
    pub fn from_nanos(nanos: u64) -> (timer: Countdown)
        ensures
            timer@ == (CountdownView {
                duration: nanos as nat,
                elapsed: 0,
                finished: false,
                paused: false,
            }),
    {
        Countdown { duration: nanos, elapsed: 0, finished: false, paused: false }
    }

    /// A fresh countdown of `millis` milliseconds.
    pub fn from_millis(millis: u32) -> (timer: Countdown)
        ensures
            timer@ == (CountdownView {
                duration: millis as nat * NANOS_PER_MILLI as nat,
                elapsed: 0,
                finished: false,
                paused: false,
            }),
    {
        let wide: u64 = millis as u64;
        assert(wide * NANOS_PER_MILLI <= u64::MAX) by (nonlinear_arith)
            requires
                wide <= u32::MAX,
        ;
        Countdown::from_nanos(wide * NANOS_PER_MILLI)
    }

    /// Lets `delta` nanoseconds pass.
    pub fn tick(&mut self, delta: u64)
        ensures
            final(self)@ == old(self)@.tick(delta as nat),
    {
        proof {
            use_type_invariant(&*self);
        }
        if self.paused || self.finished {
            return ;
        }
        if delta >= self.duration - self.elapsed {
            *self = Countdown {
                duration: self.duration,
                elapsed: self.duration,
                finished: true,
                paused: self.paused,
            };
        } else {
            self.elapsed = self.elapsed + delta;
        }
    }

    /// Whether the duration has been reached.
    pub fn finished(&self) -> (done: bool)
        ensures
            done == self@.finished,
            self@.wf(),
    {
        proof {
            use_type_invariant(self);
        }
        self.finished
    }

    /// Whether the countdown is held.
    pub fn paused(&self) -> (held: bool)
        ensures
            held == self@.paused,
    {
        self.paused
    }

    /// Holds the countdown: ticks do nothing until it is released.
    pub fn pause(&mut self)
        ensures
            final(self)@ == (CountdownView { paused: true, ..old(self)@ }),
    {
        proof {
            use_type_invariant(&*self);
        }
        self.paused = true;
    }

    /// Releases a held countdown.
    pub fn unpause(&mut self)
        ensures
            final(self)@ == (CountdownView { paused: false, ..old(self)@ }),
    {
        proof {
            use_type_invariant(&*self);
        }
        self.paused = false;
    }

    /// Starts over from zero. Whether the countdown is held does not change.
    pub fn reset(&mut self)
        ensures
            final(self)@ == old(self)@.reset(),
    {
        *self = Countdown {
            duration: self.duration,
            elapsed: 0,
            finished: false,
            paused: self.paused,
        };
    }

    /// The full duration, in nanoseconds.
    pub fn duration(&self) -> (nanos: u64)
        ensures
            nanos == self@.duration,
    {
        self.duration
    }

    /// The time counted so far, in nanoseconds.
    pub fn elapsed(&self) -> (nanos: u64)
        ensures
            nanos == self@.elapsed,
            self@.wf(),
    {
        proof {
            use_type_invariant(self);
        }
        self.elapsed
    }

    /// The time still to go, in nanoseconds.
    pub fn remaining(&self) -> (nanos: u64)
        ensures
            nanos == self@.remaining(),
    {
        proof {
            use_type_invariant(self);
        }
        self.duration - self.elapsed
    }
}

} // verus!

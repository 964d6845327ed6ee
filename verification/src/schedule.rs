//! The pause between two rounds of a worker.
//!
//! A worker that has finished a round waits for its interval, one second at a
//! time, and looks at the reload flag before each second and before the next
//! round. The waiting itself is done outside this crate; what to do at each
//! tick is decided here.

use vstd::prelude::*;

verus! {

/// What a worker does next.
#[derive(Debug, Clone, Copy, PartialEq, Eq, Structural)]
pub enum Tick {
    /// Wait a second and ask again.
    Sleep,
    /// Begin the next round.
    Round,
    /// Leave: a reload was asked for.
    Stop,
}

/// A pause in progress.
#[derive(Debug, Clone, Copy, PartialEq, Eq, Structural)]
pub struct Pause {
    /// The seconds that are still to wait.
    pub left: u64,
}

impl Pause {
    /// What the worker does at a tick, `reload` being the reload flag as it
    /// stands: it leaves if the flag is up, begins the next round if no
    /// second is left, and else waits one.
    pub open spec fn decide(&self, reload: bool) -> Tick {
        if reload {
            Tick::Stop
        } else if self.left == 0 {
            Tick::Round
        } else {
            Tick::Sleep
        }
    }

    /// The pause after a tick: a second shorter if the worker waits,
    /// unchanged otherwise.
    pub open spec fn after(&self, reload: bool) -> Pause {
        if !reload && self.left > 0 {
            Pause { left: (self.left - 1) as u64 }
        } else {
            *self
        }
    }

    /// The pause after `n` ticks at which the flag was down.
    pub open spec fn after_quiet(&self, n: nat) -> Pause
        decreases n,
    {
        if n == 0 {
            *self
        } else {
            self.after_quiet((n - 1) as nat).after(false)
        }
    }

    /// A pause of `interval` seconds.
    pub fn new(interval: u64) -> (pause: Pause)
        ensures
            pause.left == interval,
    {
        Pause { left: interval }
    }

    /// One tick of the pause.
    pub fn tick(&mut self, reload: bool) -> (tick: Tick)
        ensures
            tick == old(self).decide(reload),
            *final(self) == old(self).after(reload),
    {
        if reload {
            Tick::Stop
        } else if self.left == 0 {
            Tick::Round
        } else {
            self.left = self.left - 1;
            Tick::Sleep
        }
    }
}

/// A worker that pauses sees a reload request at its next tick, however much
/// of the pause is left.
pub proof fn law_reload_stops_at_next_tick(pause: Pause)
    ensures
        pause.decide(true) == Tick::Stop,
        pause.after(true) == pause,
{
}

/// Without a reload request a pause of `interval` seconds lasts exactly that
/// long: the worker waits at each of the first `interval` ticks and begins
/// its round at the next.
pub proof fn law_pause_lasts_its_interval(interval: u64, n: nat)
    requires
        n <= interval,
    ensures
        (Pause { left: interval }).after_quiet(n).left == interval - n,
        n < interval ==> (Pause { left: interval }).after_quiet(n).decide(false) == Tick::Sleep,
        n == interval ==> (Pause { left: interval }).after_quiet(n).decide(false) == Tick::Round,
    decreases n,
{
    if n > 0 {
        law_pause_lasts_its_interval(interval, (n - 1) as nat);
    }
}

} // verus!

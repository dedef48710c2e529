use vstd::prelude::*;

verus! {

/// What the scheduler does with a trigger.
#[derive(Debug, Clone, Copy, PartialEq, Eq, Structural)]
pub enum Decision {
    /// No run is active: start one.
    Start,
    /// A run is active: drop the trigger (it is not queued).
    Drop,
}

/// Serialises runs: at most one is active at any time.
#[derive(Debug)]
pub struct Gate {
    pub active: bool,
    pub dropped: u64,
}

impl Gate {
    /// A gate with no active run and nothing dropped.
    pub fn new() -> (r: Gate)
        ensures
            !r.active,
            r.dropped == 0,
    {
        Gate { active: false, dropped: 0 }
    }

    /// Handles a scheduled trigger. With no run active a run starts and the
    /// gate is held; with one active the trigger is dropped and counted, and
    /// the active run is not affected.
    pub fn trigger(&mut self) -> (d: Decision)
        ensures
            d == (if old(self).active { Decision::Drop } else { Decision::Start }),
            final(self).active,
            !old(self).active ==> final(self).dropped == old(self).dropped,
            old(self).active ==> final(self).dropped == if old(self).dropped < u64::MAX {
                (old(self).dropped + 1) as u64
            } else {
                old(self).dropped
            },
    {
        if self.active {
            if self.dropped < u64::MAX {
                self.dropped = self.dropped + 1;
            }
            Decision::Drop
        } else {
            self.active = true;
            Decision::Start
        }
    }

    /// The active run ended, however it ended.
    pub fn finish(&mut self)
        ensures
            !final(self).active,
            final(self).dropped == old(self).dropped,
    {
        self.active = false;
    }
}

} // verus!

//! Death saving throws: three successes stabilize, three failures kill.

use vstd::prelude::*;

verus! {

/// An unconscious actor's running death-save tally.  Both counters
/// saturate at three.
#[derive(Clone, Copy, PartialEq, Eq, Structural, Debug, Hash)]
pub struct DeathSaves {
    pub successes: u8,
    pub failures: u8,
}

impl DeathSaves {
    /// Record one successful death save; the tally caps at three.
    pub fn record_success(&mut self)
        ensures
            final(self).successes == if old(self).successes < 3 {
                old(self).successes + 1
            } else {
                old(self).successes as int
            },
            final(self).failures == old(self).failures,
    {
        if self.successes < 3 {
            self.successes = self.successes + 1;
        }
    }

    /// Record one failed death save; the tally caps at three.
    pub fn record_failure(&mut self)
        ensures
            final(self).failures == if old(self).failures < 3 {
                old(self).failures + 1
            } else {
                old(self).failures as int
            },
            final(self).successes == old(self).successes,
    {
        if self.failures < 3 {
            self.failures = self.failures + 1;
        }
    }

    /// Three successes stabilize the actor.
    pub fn is_stable(&self) -> (r: bool)
        ensures
            r == (self.successes >= 3),
    {
        self.successes >= 3
    }

    /// Three failures kill the actor outright.
    pub fn is_dead(&self) -> (r: bool)
        ensures
            r == (self.failures >= 3),
    {
        self.failures >= 3
    }

    /// Clear both tallies.
    pub fn reset(&mut self)
        ensures
            final(self).successes == 0,
            final(self).failures == 0,
    {
        self.successes = 0;
        self.failures = 0;
    }
}

impl Default for DeathSaves {
    fn default() -> (r: Self)
        ensures
            r.successes == 0,
            r.failures == 0,
    {
        DeathSaves { successes: 0, failures: 0 }
    }
}

} // verus!

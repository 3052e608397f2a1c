use vstd::prelude::*;

verus! {

/// A byte-sized countdown counter (the delay and the sound timer).
#[derive(Default)]
pub struct Timer {
    pub clock: u8,
}

impl Timer {
    pub fn get_value(&self) -> (r: u8)
        ensures
            r == self.clock,
    {
        self.clock
    }

    pub fn set_value(&mut self, value: u8)
        ensures
            final(self).clock == value,
    {
        self.clock = value;
    }

    /// Counts down by one, stopping at zero.
    pub fn tick_down(&mut self)
        ensures
            final(self).clock == ticked(old(self).clock),
    {
        if self.clock > 0 {
            self.clock = self.clock - 1;
        }
    }
}

/// The value of a counter after one tick.
pub open spec fn ticked(clock: u8) -> u8 {
    if clock > 0 {
        (clock - 1) as u8
    } else {
        0
    }
}

/// The value of a counter after `n` ticks.
pub open spec fn ticked_n(clock: u8, n: nat) -> u8
    decreases n,
{
    if n == 0 {
        clock
    } else {
        ticked(ticked_n(clock, (n - 1) as nat))
    }
}

/// A counter that starts at `clock` reads `clock - n` after `n` ticks, and zero
/// once `n` reaches `clock`; from then on it stays at zero.
pub proof fn lemma_ticks_reach_zero(clock: u8, n: nat)
    ensures
        n <= clock ==> ticked_n(clock, n) == clock - n,
        n >= clock ==> ticked_n(clock, n) == 0,
    decreases n,
{
    if n > 0 {
        lemma_ticks_reach_zero(clock, (n - 1) as nat);
    }
}

} // verus!

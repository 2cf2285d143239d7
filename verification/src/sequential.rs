//! The two-phase clock and the D-type flip-flop it drives.
use vstd::prelude::*;

verus! {

use crate::logic::bit;
use crate::logic::bit::O;
use crate::sequential::ClockState::{Tick, Tock};

/// The two phases of the clock: `Tick` is the sampling/commit phase, `Tock`
/// the exposure phase for newly latched values.
#[derive(Debug, Clone, Copy, PartialEq, Eq, Structural)]
pub enum ClockState {
    Tick,
    Tock,
}

/// The phase a clock moves to when it is advanced.
pub open spec fn toggled(s: ClockState) -> ClockState {
    match s {
        Tick => Tock,
        Tock => Tick,
    }
}

/// A free-running two-phase clock. Created in `Tick` and advanced only by
/// an explicit caller-driven transition that flips `Tick` and `Tock`.
#[derive(Debug, Clone, Copy, PartialEq, Eq, Structural)]
pub struct Clock {
    state: ClockState,
}

impl View for Clock {
    type V = ClockState;

    closed spec fn view(&self) -> ClockState {
        self.state
    }
}

impl Clock {
    /// The phase the clock is in.
    pub fn state(&self) -> (r: ClockState)
        ensures
            r == self@,
    {
        self.state
    }

    /// Advances the clock: toggles the phase unconditionally.
    pub fn next(&mut self)
        ensures
            final(self)@ == toggled(old(self)@),
    {
        self.state = match self.state {
            Tick => Tock,
            Tock => Tick,
        }
    }

    /// A fresh clock, in `Tick`.
    pub fn new() -> (r: Self)
        ensures
            r@ == Tick,
    {
        Clock { state: Tick }
    }
}

/// A D-type flip-flop: one bit of storage driven by the two-phase clock.
/// `committed` is the value visible during `Tick`, `pending` the value
/// visible during `Tock`.
#[derive(Debug, Clone, Copy)]
pub struct DFF {
    state_past: bit,
    state_new: bit,
}

impl DFF {
    /// The value visible while the clock is in `Tick`.
    pub closed spec fn committed(&self) -> bit {
        self.state_past
    }

    /// The value visible while the clock is in `Tock`.
    pub closed spec fn pending(&self) -> bit {
        self.state_new
    }

    /// A fresh flip-flop, with both stored bits `O`.
    pub fn new() -> (r: Self)
        ensures
            r.committed() == O,
            r.pending() == O,
    {
        DFF { state_past: O, state_new: O }
    }

    /// During `Tick`, commits the previously pending value and latches `a`
    /// as the new pending value; during `Tock`, writes are disabled and the
    /// call changes nothing.
    pub fn input(&mut self, a: bit, clock: &Clock)
        ensures
            clock@ == Tick ==> final(self).committed() == old(self).pending(),
            clock@ == Tick ==> final(self).pending() == a,
            clock@ == Tock ==> *final(self) == *old(self),
    {
        if clock.state() == Tick {
            self.state_past = self.state_new;
            self.state_new = a
        }
    }

    /// A pure read: the committed value during `Tick`, the pending value
    /// during `Tock`.
    pub fn output(self, clock: &Clock) -> (r: bit)
        ensures
            r == (if clock@ == Tick {
                self.committed()
            } else {
                self.pending()
            }),
    {
        match clock.state() {
            Tick => self.state_past,
            Tock => self.state_new,
        }
    }
}

/// A one-bit register node: a flip-flop owned by the circuit that
/// instantiates it.
#[derive(Debug, Clone, Copy)]
pub struct Bit {
    dff: DFF,
}

} // verus!

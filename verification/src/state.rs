//! The binary power state of a monitor, with its total inversion.

use vstd::prelude::*;

verus! {

/// The power state of a display output: `On` iff the output currently
/// drives a picture (an active resolution is reported for it), `Off`
/// otherwise. The state is always derived fresh from a query of the
/// external tool; it is never cached.
#[derive(Clone, Copy, Debug, PartialEq, Eq, Structural)]
pub enum MonitorState {
    On,
    Off,
}

impl MonitorState {
    /// The opposite state, as a mathematical value.
    pub open spec fn spec_not(self) -> MonitorState {
        match self {
            MonitorState::On => MonitorState::Off,
            MonitorState::Off => MonitorState::On,
        }
    }

    /// Total inversion: `On` becomes `Off` and `Off` becomes `On`.
    pub fn not(self) -> (r: MonitorState)
        ensures
            r == self.spec_not(),
    {
        match self {
            MonitorState::On => MonitorState::Off,
            MonitorState::Off => MonitorState::On,
        }
    }
}

/// Inversion is an involution: flipping a state twice gives the state back.
pub proof fn lemma_not_involution(s: MonitorState)
    ensures
        s.spec_not().spec_not() == s,
{
}

} // verus!

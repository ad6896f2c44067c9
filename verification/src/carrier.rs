//! What the carrier is asked to do, one action after the other.

use vstd::prelude::*;
use crate::config::Bits;

verus! {

/// One thing to do with the carrier. An action is over before the next one
/// begins.
#[derive(Clone, Copy, Debug, PartialEq, Eq, Structural)]
pub enum Action {
    /// Switch the carrier on.
    Enable,
    /// Leave the carrier as it is for this many microseconds.
    Sleep(u32),
    /// Switch the carrier off.
    Disable,
}

impl Bits {
    /// The actions that make one pulse: on, hold, off, hold.
    pub open spec fn actions(self) -> Seq<Action> {
        seq![Action::Enable, Action::Sleep(self.0), Action::Disable, Action::Sleep(self.1)]
    }
}

/// The actions that make `pulses`: those of each pulse, in order, the
/// off-phase of a pulse ending before the next pulse begins.
pub open spec fn carrier_actions(pulses: Seq<Bits>) -> Seq<Action> {
    Seq::new(4 * pulses.len(), |i: int| pulses[i / 4].actions()[i % 4])
}

/// Pulse `k` is carried out by the four actions from place `4 * k` on: the
/// carrier goes on, stays on for the on-time, goes off and stays off for the
/// off-time. Nothing of another pulse falls in between.
pub proof fn lemma_pulse_actions(pulses: Seq<Bits>, k: int)
    requires
        0 <= k < pulses.len(),
    ensures
        carrier_actions(pulses).len() == 4 * pulses.len(),
        carrier_actions(pulses).subrange(4 * k, 4 * k + 4) == pulses[k].actions(),
{
}

/// The actions of two runs of pulses, one sent after the other, are those
/// of the first followed by those of the second.
pub proof fn lemma_carrier_actions_concat(first: Seq<Bits>, second: Seq<Bits>)
    ensures
        carrier_actions(first + second) == carrier_actions(first) + carrier_actions(second),
{
}

} // verus!

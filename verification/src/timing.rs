//! How long pulses take.

use vstd::prelude::*;
use crate::config::{Bits, RemoteConfig};
use crate::frame::repeated;

verus! {

impl Bits {
    /// The time that the pulse takes, in microseconds: its on-time and its
    /// off-time.
    pub open spec fn micros(self) -> nat {
        (self.0 + self.1) as nat
    }
}

/// The time that `pulses` take, one sent after the other, in microseconds.
pub open spec fn total_micros(pulses: Seq<Bits>) -> nat
    decreases pulses.len(),
{
    if pulses.len() == 0 {
        0
    } else {
        total_micros(pulses.drop_last()) + pulses.last().micros()
    }
}

/// The time of two runs of pulses, one sent after the other, is the sum of
/// their times.
pub proof fn lemma_total_micros_concat(first: Seq<Bits>, second: Seq<Bits>)
    ensures
        total_micros(first + second) == total_micros(first) + total_micros(second),
    decreases second.len(),
{
    if second.len() > 0 {
        lemma_total_micros_concat(first, second.drop_last());
        assert((first + second).drop_last() =~= first + second.drop_last());
    }
}

/// Pulses of which none takes longer than `longest` take no longer than
/// their number times `longest`.
pub proof fn lemma_total_micros_bound(pulses: Seq<Bits>, longest: nat)
    requires
        forall|i: int| 0 <= i < pulses.len() ==> (#[trigger] pulses[i]).micros() <= longest,
    ensures
        total_micros(pulses) <= pulses.len() * longest,
    decreases pulses.len(),
{
    if pulses.len() > 0 {
        lemma_total_micros_bound(pulses.drop_last(), longest);
        assert(pulses.len() * longest == (pulses.len() - 1) * longest + longest)
            by (nonlinear_arith);
    }
}

/// `count` copies of `s` take `count` times as long as `s`.
proof fn lemma_total_micros_repeated(s: Seq<Bits>, count: nat)
    ensures
        total_micros(repeated(s, count)) == count * total_micros(s),
    decreases count,
{
    if count > 0 {
        lemma_total_micros_repeated(s, (count - 1) as nat);
        lemma_total_micros_concat(repeated(s, (count - 1) as nat), s);
        assert(count * total_micros(s) == (count - 1) * total_micros(s) + total_micros(s))
            by (nonlinear_arith);
    } else {
        assert(count * total_micros(s) == 0) by (nonlinear_arith)
            requires
                count == 0,
        ;
    }
}

/// How long a transmission takes: `repeat` times as long as a frame, and
/// so, where no pulse of the timing table takes longer than `longest`, no
/// longer than `repeat * (2 * bits + 2) * longest`.
pub proof fn lemma_transmission_time(config: RemoteConfig, code: u32, longest: nat)
    requires
        config.header.micros() <= longest,
        config.one.micros() <= longest,
        config.zero.micros() <= longest,
        config.gap.micros() <= longest,
    ensures
        total_micros(config.pulse_train(code)) == config.repeat * total_micros(
            config.frame(code),
        ),
        total_micros(config.pulse_train(code)) <= config.repeat * (2 * config.bits + 2)
            * longest,
{
    let frame = config.frame(code);
    let size: nat = (2 * config.bits + 2) as nat;
    lemma_total_micros_repeated(frame, config.repeat as nat);
    lemma_total_micros_bound(frame, longest);
    assert(config.repeat * total_micros(frame) <= config.repeat * (size * longest))
        by (nonlinear_arith)
        requires
            total_micros(frame) <= size * longest,
    ;
    assert(config.repeat * (size * longest) == config.repeat * size * longest)
        by (nonlinear_arith);
}

} // verus!

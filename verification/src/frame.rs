//! What a remote sends, as sequences of pulses.
//!
//! A data word is sent most significant bit first, one pulse per bit. A
//! frame is the header pulse, the address, the code and the gap pulse. A
//! transmission is the frame, sent `repeat` times over.

use vstd::prelude::*;
use vstd::arithmetic::power2::pow2;
use crate::config::{Bits, RemoteConfig};
use crate::word::{data_bits, lemma_high_bits_dropped};

verus! {

/// `count` copies of `s`, one after the other.
pub open spec fn repeated<A>(s: Seq<A>, count: nat) -> Seq<A>
    decreases count,
{
    if count == 0 {
        Seq::empty()
    } else {
        repeated(s, (count - 1) as nat) + s
    }
}

impl RemoteConfig {
    /// The pulse that stands for one bit.
    pub open spec fn symbol(&self, bit: bool) -> Bits {
        if bit {
            self.one
        } else {
            self.zero
        }
    }

    /// The pulses of one data word: a symbol for each of its low `bits`
    /// bits, most significant first. Higher bits of `data` are not sent.
    pub open spec fn data_pulses(&self, data: u32) -> Seq<Bits> {
        Seq::new(
            self.bits as nat,
            |n: int| self.symbol(data_bits(data, self.bits as nat)[n]),
        )
    }

    /// One frame for `code`: header, address, code, gap.
    pub open spec fn frame(&self, code: u32) -> Seq<Bits> {
        seq![self.header] + self.data_pulses(self.address) + self.data_pulses(code)
            + seq![self.gap]
    }

    /// All the pulses sent for `code`: `repeat` frames.
    pub open spec fn pulse_train(&self, code: u32) -> Seq<Bits> {
        repeated(self.frame(code), self.repeat as nat)
    }
}

/// Two words that agree modulo `2^bits` are sent as the same pulses.
pub proof fn lemma_data_pulses_truncate(config: RemoteConfig, a: u32, b: u32)
    requires
        a as nat % pow2(config.bits as nat) == b as nat % pow2(config.bits as nat),
    ensures
        config.data_pulses(a) == config.data_pulses(b),
{
    lemma_high_bits_dropped(a, b, config.bits as nat);
}

/// A frame holds two pulses more than twice the bit width.
pub proof fn lemma_frame_len(config: RemoteConfig, code: u32)
    ensures
        config.frame(code).len() == 2 * config.bits + 2,
{
}

/// `count` copies of `s` are `count` times as long as `s`.
pub proof fn lemma_repeated_len<A>(s: Seq<A>, count: nat)
    ensures
        repeated(s, count).len() == count * s.len(),
    decreases count,
{
    if count > 0 {
        lemma_repeated_len(s, (count - 1) as nat);
        assert(count * s.len() == (count - 1) * s.len() + s.len()) by (nonlinear_arith);
    } else {
        assert(count * s.len() == 0) by (nonlinear_arith)
            requires
                count == 0,
        ;
    }
}

/// The `k`-th stretch of the length of `s` in `count` copies of `s` is `s`.
pub proof fn lemma_repeated_copy<A>(s: Seq<A>, count: nat, k: int)
    requires
        0 <= k < count,
    ensures
        (k + 1) * s.len() <= repeated(s, count).len(),
        repeated(s, count).subrange(k * s.len(), (k + 1) * s.len()) == s,
    decreases count,
{
    let shorter: nat = (count - 1) as nat;
    lemma_repeated_len(s, count);
    assert((k + 1) * s.len() == k * s.len() + s.len()) by (nonlinear_arith);
    assert(count * s.len() == shorter * s.len() + s.len()) by (nonlinear_arith)
        requires
            count == shorter + 1,
    ;
    if k == shorter {
        assert(repeated(s, count).subrange(k * s.len(), (k + 1) * s.len()) =~= s);
    } else {
        lemma_repeated_copy(s, shorter, k);
        assert(repeated(s, count).subrange(k * s.len(), (k + 1) * s.len()) =~= repeated(
            s,
            shorter,
        ).subrange(k * s.len(), (k + 1) * s.len()));
    }
}

/// A transmission holds `repeat` times the pulses of a frame.
pub proof fn lemma_pulse_train_len(config: RemoteConfig, code: u32)
    ensures
        config.pulse_train(code).len() == config.repeat * (2 * config.bits + 2),
{
    lemma_repeated_len(config.frame(code), config.repeat as nat);
}

/// A transmission is exactly `repeat` frames: each stretch of a frame's
/// length in it is the frame, with nothing before, between or after.
pub proof fn lemma_pulse_train_frames(config: RemoteConfig, code: u32, k: int)
    requires
        0 <= k < config.repeat,
    ensures
        config.pulse_train(code).len() == config.repeat * config.frame(code).len(),
        (k + 1) * config.frame(code).len() <= config.pulse_train(code).len(),
        config.pulse_train(code).subrange(
            k * config.frame(code).len(),
            (k + 1) * config.frame(code).len(),
        ) == config.frame(code),
{
    lemma_repeated_len(config.frame(code), config.repeat as nat);
    lemma_repeated_copy(config.frame(code), config.repeat as nat, k);
}

} // verus!

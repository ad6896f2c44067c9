//! The encoder of one remote.

use vstd::prelude::*;
use crate::carrier::{carrier_actions, Action};
use crate::config::{code_of, Bits, RemoteConfig};
use crate::error::Error;
use crate::frame::repeated;
use crate::word::lemma_shift_reads_bit;

verus! {

/// A remote, ready to encode its signals.
pub struct Remote {
    config: RemoteConfig,
}

impl View for Remote {
    type V = RemoteConfig;

    closed spec fn view(&self) -> RemoteConfig {
        self.config
    }
}

impl Remote {
    #[verifier::type_invariant]
    spec fn inv(&self) -> bool {
        self.config.well_formed()
    }

    /// Makes the remote that `config` describes.
    pub fn from_config(config: RemoteConfig) -> (remote: Remote)
        requires
            config.well_formed(),
        ensures
            remote@ == config,
    {
        Remote { config }
    }

    /// The configuration of this remote.
    pub fn config(&self) -> (config: &RemoteConfig)
        ensures
            *config == self@,
            config.well_formed(),
    {
        proof {
            use_type_invariant(self);
        }
        &self.config
    }

    /// The actions that send `signal_name`: those of all the pulses of its
    /// code. Where the remote has no code of this name, the error says so
    /// and there is nothing to do.
    pub fn emit(&self, signal_name: &str) -> (result: Result<Vec<Action>, Error>)
        ensures
            code_of(self@.codes@, signal_name@) matches Some(code) ==> (result matches Ok(actions)
                && actions@ == carrier_actions(self@.pulse_train(code))),
            code_of(self@.codes@, signal_name@) is None ==> (result matches Err(error)
                && error is SignalNotFound && error->signal@ == signal_name@),
    {
        match self.config.lookup(signal_name) {
            Some(code) => {
                let pulses = self.emit_code(code);
                let mut actions: Vec<Action> = Vec::new();
                for i in 0..pulses.len()
                    invariant
                        actions@ == carrier_actions(pulses@.take(i as int)),
                {
                    let steps = self.emit_bit(pulses[i]);
                    actions.push(steps[0]);
                    actions.push(steps[1]);
                    actions.push(steps[2]);
                    actions.push(steps[3]);
                }
                Ok(actions)
            },
            None => Err(Error::SignalNotFound { signal: signal_name.to_owned() }),
        }
    }

    /// The pulses of a whole transmission of `code`: the frame, `repeat`
    /// times over.
    pub fn emit_code(&self, code: u32) -> (pulses: Vec<Bits>)
        ensures
            pulses@ == self@.pulse_train(code),
    {
        let mut pulses: Vec<Bits> = Vec::new();
        for k in 0..self.config.repeat
            invariant
                pulses@ == repeated(self.config.frame(code), k as nat),
        {
            pulses.push(self.config.header);
            let mut address = self.emit_data(self.config.address);
            pulses.append(&mut address);
            let mut data = self.emit_data(code);
            pulses.append(&mut data);
            pulses.push(self.config.gap);
        }
        pulses
    }

    /// The pulses that send the low `bits` bits of `data`, most significant
    /// bit first.
    pub fn emit_data(&self, data: u32) -> (pulses: Vec<Bits>)
        ensures
            pulses@ == self@.data_pulses(data),
    {
        proof {
            use_type_invariant(self);
        }
        let bits: u8 = self.config.bits;
        let mut pulses: Vec<Bits> = Vec::new();
        for n in 0..bits
            invariant
                bits == self.config.bits,
                bits <= 32,
                pulses@ == self.config.data_pulses(data).take(n as int),
        {
            let shift: u32 = ((bits - n) - 1) as u32;
            let bit: u32 = (data >> shift) & 1;
            proof {
                lemma_shift_reads_bit(data, shift);
            }
            if bit == 0 {
                pulses.push(self.config.zero);
            } else {
                pulses.push(self.config.one);
            }
        }
        pulses
    }

    /// The actions that make the pulse `bit`: carrier on, hold for the
    /// on-time, carrier off, hold for the off-time.
    pub fn emit_bit(&self, bit: Bits) -> (actions: [Action; 4])
        ensures
            actions@ == bit.actions(),
    {
        [Action::Enable, Action::Sleep(bit.0), Action::Disable, Action::Sleep(bit.1)]
    }
}

} // verus!

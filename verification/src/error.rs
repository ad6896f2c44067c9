//! The ways in which sending a signal can fail.

use vstd::prelude::*;
use vstd::string::StringExecFns;

verus! {

/// Why a signal was not sent.
#[derive(Debug, PartialEq, Eq)]
pub enum Error {
    /// The carrier could not be set up or switched.
    InitPwm,
    /// The configuration at `path` could not be read.
    ReadConfig { path: String },
    /// What was read at `path` is not a configuration.
    ParseConfig { path: String },
    /// The configuration has no code named `signal`.
    SignalNotFound { signal: String },
}

impl Error {
    /// What `message` returns, as a sequence of characters.
    pub open spec fn message_text(&self) -> Seq<char> {
        match self {
            Error::InitPwm => "PWM error"@,
            Error::ReadConfig { path } => "Unable to read config from "@ + path@,
            Error::ParseConfig { path } => "Unable to read config from "@ + path@,
            Error::SignalNotFound { signal } => "Signal not found "@ + signal@,
        }
    }

    /// A line that tells a person what went wrong.
    pub fn message(&self) -> (text: String)
        ensures
            text@ == self.message_text(),
    {
        match self {
            Error::InitPwm => String::from_str("PWM error"),
            Error::ReadConfig { path } => String::from_str("Unable to read config from ").concat(
                path.as_str(),
            ),
            Error::ParseConfig { path } => String::from_str("Unable to read config from ").concat(
                path.as_str(),
            ),
            Error::SignalNotFound { signal } => String::from_str("Signal not found ").concat(
                signal.as_str(),
            ),
        }
    }
}

} // verus!

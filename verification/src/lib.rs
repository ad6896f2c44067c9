//! Encoding of infrared remote-control signals.
//!
//! A remote is described by a [`RemoteConfig`]: a bit width, the pulse shapes
//! of the header, the two data symbols and the gap, a repeat count, a device
//! address and a table of named codes. A [`Remote`] turns the name of a
//! signal into the exact sequence of carrier actions that transmits it. The
//! library performs no input or output itself: the caller carries the
//! actions out, in order, on the hardware of its choice.

pub mod carrier;
pub mod config;
pub mod error;
pub mod frame;
pub mod remote;
pub mod timing;
pub mod word;

pub use carrier::Action;
pub use config::{Bits, Code, RemoteConfig};
pub use error::Error;
pub use remote::Remote;

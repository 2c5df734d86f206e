//! Driver for the HC-14 half-duplex radio transceiver.
//!
//! The module has two operating modes selected by its key pin: a transparent
//! data-relay mode (pin high) and an AT-command configuration mode (pin low).
//! This crate holds the AT command catalog, the response parser, the validated
//! parameter model, the command encoder, the blocking transport framing and
//! the type-state driver handle that ties them together.
//!
//! The board supplies three capabilities: a blocking serial port
//! (`driver::SerialPort`), the key pin (`driver::KeyPin`) and a delay source
//! (`driver::DelayUs`). Every failed transfer is reported to the caller as
//! `Error::Read` or `Error::Write`; none is unwrapped. Reads have no timeout:
//! a port that should give up waiting must return an error itself.
use vstd::prelude::*;

/// AT command catalog: queries, setters and expected responses.
pub mod conf;

/// Mode state machine and transport framing.
pub mod driver;

/// Response parser for the module's numeric replies.
pub mod parse;

/// Byte-level serial helpers: framing of numbers and strings, parity bits.
pub mod serial;

/// Validated parameter model and command encoder.
pub mod setting;

verus! {

/// Errors reported by the driver and the parameter model.
#[derive(Debug, Clone, Copy, PartialEq, Eq, Structural)]
pub enum Error {
    /// Reading from the serial channel failed.
    Read,
    /// Writing to the serial channel failed.
    Write,
    /// The baud rate is not allowed with the current speed class.
    InvalidBaudRate,
    /// The channel lies outside 1..=50.
    InvalidChannel,
    /// A response did not match its expected prefix, digits or terminator.
    Parse,
    /// Driving the key pin failed during a mode transition.
    Pin,
    /// A received line does not fit its buffer.
    Overflow,
}

} // verus!

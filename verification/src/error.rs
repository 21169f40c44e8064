//! Errors of frame decoding and data conversion.

use vstd::prelude::*;

verus! {

/// What is wrong with a frame or with the start of its data.
#[derive(Debug, Clone, Copy, PartialEq, Eq, Structural)]
pub enum FrameFault {
    /// Fewer bytes than the shortest frame has.
    TooShort { actual: usize },
    /// The first byte is not 68H.
    StartByte { found: u8 },
    /// The byte after the address is not 68H.
    SecondStartByte { found: u8 },
    /// The length byte promises more bytes than there are.
    Incomplete { expected: usize, actual: usize },
    /// The byte after the checksum is not 16H.
    EndByte { found: u8 },
    /// Fewer data bytes than a data identifier has.
    NoIdentifier { actual: usize },
}

/// Why a value could not be read.
#[derive(Debug, Clone, Copy, PartialEq, Eq, Structural)]
pub enum ParseFault {
    /// A half byte is above 9.
    BcdDigit { byte: u8 },
    /// No such date or time of day.
    NoSuchTime { year: i32, month: u32, day: u32, hour: u32, minute: u32, second: u32 },
    /// An address text that is not 12 bytes long.
    AddressLength { actual: usize },
    /// A character of an address text that is no hexadecimal digit.
    HexDigit,
}

#[allow(inconsistent_fields)]
#[derive(Debug, Clone, Copy, PartialEq, Eq, Structural)]
pub enum MeterError {
    InvalidFrame(FrameFault),
    ChecksumMismatch { expected: u8, actual: u8 },
    ParseError(ParseFault),
    InvalidDataLength { expected: usize, actual: usize },
}

} // verus!

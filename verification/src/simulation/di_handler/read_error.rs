//! Why a data item could not be read.

use crate::protocol::codec::ErrorInfoWord;
use vstd::prelude::*;

verus! {

/// Blocks of a load record.
#[derive(Debug, Clone, Copy, PartialEq, Eq, Structural)]
pub enum RecordBlock {
    Voltage,
    Current,
    ActivePower,
    ReactivePower,
    PowerFactor,
    Energy,
    Quadrant,
    Demand,
}

#[derive(Debug, Clone, Copy, PartialEq, Eq, Structural)]
pub enum ReadError {
    /// Fewer data bytes than a data identifier has.
    TooShort,
    /// No such data item.
    Unsupported { di3: u8, di2: u8, di1: u8, di0: u8 },
    /// The rate is not one of the configured ones.
    RateOutOfRange { rate: u8, configured: u8 },
    /// The harmonic is not one of 1 to 21.
    HarmonicOutOfRange { order: u8 },
    /// No event of this kind has ended.
    NoEventSummary { event_type: u8, sub_type: u8 },
    /// There is no event record with this number.
    NoEventRecord { event_type: u8, sub_type: u8, occurrence: u8 },
    /// Event records have numbers 0 to 10.
    EventIndex { di0: u8 },
    /// Frozen data and load records are read from the store.
    NeedsStore,
    /// The store is not connected.
    NoStore,
    /// The store failed.
    StoreFailed,
    /// A load record block has second identifier byte 0.
    RecordSelector { di1: u8 },
    /// All classes at once are not served.
    AllClasses,
    /// Load records have classes 1 to 6.
    RecordClass { di2: u8 },
    /// The time of the wanted record is too short.
    RecordTimeLength { actual: usize },
    /// A half byte of the time of the wanted record is above 9.
    RecordDigits { byte: u8 },
    /// The time of the wanted record does not exist.
    RecordTime { year: i32, month: u32, day: u32, hour: u32, minute: u32 },
    /// Load record blocks are the first, a given or the last one.
    RecordPosition { di0: u8 },
    /// All channels at once are not served.
    AllChannels,
    /// No load record was found.
    NoRecord,
    /// The record does not hold the block.
    NotRecorded { block: RecordBlock },
    /// No such item of a load record.
    RecordItem { di1: u8, di0: u8 },
}

impl ReadError {
    /// The error information word that a master is sent: "no such data" where the item or
    /// record does not exist, "other error" for everything else.
    pub open spec fn word(self) -> u8 {
        match self {
            ReadError::Unsupported { .. } => 0x02,
            ReadError::NoEventSummary { .. } => 0x02,
            ReadError::NoEventRecord { .. } => 0x02,
            _ => 0x01,
        }
    }

    /// The error information word that a master is sent.
    pub fn error_word(&self) -> (r: ErrorInfoWord)
        ensures
            r.word() == self.word(),
    {
        match self {
            ReadError::Unsupported { .. } => ErrorInfoWord::new(ErrorInfoWord::NO_DATA),
            ReadError::NoEventSummary { .. } => ErrorInfoWord::new(ErrorInfoWord::NO_DATA),
            ReadError::NoEventRecord { .. } => ErrorInfoWord::new(ErrorInfoWord::NO_DATA),
            _ => ErrorInfoWord::new(ErrorInfoWord::OTHER),
        }
    }
}

/// What a read yields: nothing if the identifier belongs elsewhere, else bytes or an error.
pub open spec fn outcome(r: Option<Result<Vec<u8>, ReadError>>) -> Option<
    Result<Seq<u8>, ReadError>,
> {
    match r {
        None => None,
        Some(Ok(v)) => Some(Ok(v@)),
        Some(Err(e)) => Some(Err(e)),
    }
}

/// What a read yields: bytes or an error.
pub open spec fn result_bytes(r: Result<Vec<u8>, ReadError>) -> Result<Seq<u8>, ReadError> {
    match r {
        Ok(v) => Ok(v@),
        Err(e) => Err(e),
    }
}

} // verus!

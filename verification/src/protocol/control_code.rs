//! Control codes and error codes.

use vstd::prelude::*;

verus! {

/// Control code of a frame. Commands go from the master to a meter; the matching
/// response has the top bit set.
#[derive(Debug, Clone, Copy, PartialEq, Eq, Structural)]
pub enum ControlCode {
    /// 11H: read data
    Read,
    /// 91H
    ReadResponse,
    /// 14H: write data
    Write,
    /// 94H
    WriteResponse,
    /// 08H: broadcast time
    BroadcastTime,
    /// 16H: freeze
    Freeze,
    /// 96H
    FreezeResponse,
    /// 17H: change the baud rate
    ChangeBaud,
    /// 97H
    ChangeBaudResponse,
    /// 18H: change a password
    ChangePassword,
    /// 98H
    ChangePasswordResponse,
    /// 19H: clear the maximum demand
    ClearDemand,
    /// 99H
    ClearDemandResponse,
    /// 1AH: clear the meter
    ClearEnergy,
    /// 9AH
    ClearEnergyResponse,
    /// 1BH: clear events
    ClearEvent,
    /// 9BH
    ClearEventResponse,
    /// D1H: error answer to a read
    Error,
}

impl ControlCode {
    /// The byte that stands for the control code.
    pub open spec fn code(self) -> u8 {
        match self {
            ControlCode::Read => 0x11,
            ControlCode::ReadResponse => 0x91,
            ControlCode::Write => 0x14,
            ControlCode::WriteResponse => 0x94,
            ControlCode::BroadcastTime => 0x08,
            ControlCode::Freeze => 0x16,
            ControlCode::FreezeResponse => 0x96,
            ControlCode::ChangeBaud => 0x17,
            ControlCode::ChangeBaudResponse => 0x97,
            ControlCode::ChangePassword => 0x18,
            ControlCode::ChangePasswordResponse => 0x98,
            ControlCode::ClearDemand => 0x19,
            ControlCode::ClearDemandResponse => 0x99,
            ControlCode::ClearEnergy => 0x1A,
            ControlCode::ClearEnergyResponse => 0x9A,
            ControlCode::ClearEvent => 0x1B,
            ControlCode::ClearEventResponse => 0x9B,
            ControlCode::Error => 0xD1,
        }
    }

    /// The byte that stands for the control code.
    pub fn to_u8(&self) -> (r: u8)
        ensures
            r == self.code(),
    {
        match self {
            ControlCode::Read => 0x11,
            ControlCode::ReadResponse => 0x91,
            ControlCode::Write => 0x14,
            ControlCode::WriteResponse => 0x94,
            ControlCode::BroadcastTime => 0x08,
            ControlCode::Freeze => 0x16,
            ControlCode::FreezeResponse => 0x96,
            ControlCode::ChangeBaud => 0x17,
            ControlCode::ChangeBaudResponse => 0x97,
            ControlCode::ChangePassword => 0x18,
            ControlCode::ChangePasswordResponse => 0x98,
            ControlCode::ClearDemand => 0x19,
            ControlCode::ClearDemandResponse => 0x99,
            ControlCode::ClearEnergy => 0x1A,
            ControlCode::ClearEnergyResponse => 0x9A,
            ControlCode::ClearEvent => 0x1B,
            ControlCode::ClearEventResponse => 0x9B,
            ControlCode::Error => 0xD1,
        }
    }

    /// The control code with byte `value`, if there is one.
    pub fn from_u8(value: u8) -> (r: Option<ControlCode>)
        ensures
            r matches Some(c) ==> c.code() == value,
            r is None ==> forall|c: ControlCode| #[trigger] c.code() != value,
    {
        match value {
            0x11 => Some(ControlCode::Read),
            0x91 => Some(ControlCode::ReadResponse),
            0x14 => Some(ControlCode::Write),
            0x94 => Some(ControlCode::WriteResponse),
            0x08 => Some(ControlCode::BroadcastTime),
            0x16 => Some(ControlCode::Freeze),
            0x96 => Some(ControlCode::FreezeResponse),
            0x17 => Some(ControlCode::ChangeBaud),
            0x97 => Some(ControlCode::ChangeBaudResponse),
            0x18 => Some(ControlCode::ChangePassword),
            0x98 => Some(ControlCode::ChangePasswordResponse),
            0x19 => Some(ControlCode::ClearDemand),
            0x99 => Some(ControlCode::ClearDemandResponse),
            0x1A => Some(ControlCode::ClearEnergy),
            0x9A => Some(ControlCode::ClearEnergyResponse),
            0x1B => Some(ControlCode::ClearEvent),
            0x9B => Some(ControlCode::ClearEventResponse),
            0xD1 => Some(ControlCode::Error),
            _ => None,
        }
    }

    /// Whether a meter sends this code: exactly the codes with the top bit set.
    pub fn is_response(&self) -> (r: bool)
        ensures
            r == (self.code() >= 0x80),
    {
        matches!(
            self,
            ControlCode::ReadResponse
                | ControlCode::WriteResponse
                | ControlCode::FreezeResponse
                | ControlCode::ChangeBaudResponse
                | ControlCode::ChangePasswordResponse
                | ControlCode::ClearDemandResponse
                | ControlCode::ClearEnergyResponse
                | ControlCode::ClearEventResponse
                | ControlCode::Error
        )
    }

    /// Whether a master sends this code.
    pub fn is_command(&self) -> (r: bool)
        ensures
            r == (self.code() < 0x80),
    {
        !self.is_response()
    }
}

/// No two control codes share a byte.
pub proof fn law_control_codes_distinct(a: ControlCode, b: ControlCode)
    requires
        a.code() == b.code(),
    ensures
        a == b,
{
}

/// Data byte of an error answer.
#[derive(Debug, Clone, Copy, PartialEq, Eq, Structural)]
pub enum ErrorCode {
    /// 01H
    Other,
    /// 02H: no such data
    NoData,
    /// 04H: wrong password or not authorised
    Unauthorized,
    /// 08H: the baud rate cannot be changed
    BaudNotChangeable,
    /// 10H: too many year zones
    YearZoneOverflow,
    /// 20H: too many day slots
    DayTimeOverflow,
    /// 40H: too many rates
    RateOverflow,
}

impl ErrorCode {
    /// The bit of the error information word.
    pub open spec fn code(self) -> u8 {
        match self {
            ErrorCode::Other => 0x01,
            ErrorCode::NoData => 0x02,
            ErrorCode::Unauthorized => 0x04,
            ErrorCode::BaudNotChangeable => 0x08,
            ErrorCode::YearZoneOverflow => 0x10,
            ErrorCode::DayTimeOverflow => 0x20,
            ErrorCode::RateOverflow => 0x40,
        }
    }

    /// The bit of the error information word.
    pub fn to_u8(&self) -> (r: u8)
        ensures
            r == self.code(),
    {
        match self {
            ErrorCode::Other => 0x01,
            ErrorCode::NoData => 0x02,
            ErrorCode::Unauthorized => 0x04,
            ErrorCode::BaudNotChangeable => 0x08,
            ErrorCode::YearZoneOverflow => 0x10,
            ErrorCode::DayTimeOverflow => 0x20,
            ErrorCode::RateOverflow => 0x40,
        }
    }
}

} // verus!

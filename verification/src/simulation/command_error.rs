//! Why a command could not be carried out.

use crate::protocol::codec::ErrorInfoWord;
use vstd::prelude::*;

verus! {

/// Why a command could not be carried out.
#[allow(inconsistent_fields)]
#[derive(Debug, Clone, Copy, PartialEq, Eq, Structural)]
pub enum CommandError {
    /// The command has fewer bytes than identifier, password, operator code and data take.
    TooShort { actual: usize },
    /// The item is not a parameter and cannot be written.
    ReadOnlyItem { di3: u8, di2: u8, di1: u8, di0: u8 },
    /// Only parameters (04-xx-xx-xx) can be written.
    NotParameter { di3: u8, di2: u8, di1: u8, di0: u8 },
    /// The parameter cannot be written.
    Unsupported { di3: u8, di2: u8, di1: u8, di0: u8 },
    /// The data have the wrong length.
    Length { expected: usize, actual: usize },
    /// A half byte is above 9.
    Digits { byte: u8 },
    /// No such date or time of day.
    NoSuchTime { year: i32, month: u32, day: u32, hour: u32, minute: u32, second: u32 },
    /// Settlement days are 1 to 28.
    SettlementDay { day: u8 },
    /// Settlement hours are 0 to 23.
    SettlementHour { hour: u8 },
    /// The password is not that of the access level.
    WrongPassword { level: u8 },
    /// The access level is not high enough.
    AccessLevel { level: u8, needed: u8 },
    /// The identifier of a password change is not 04-00-02-xx.
    PasswordIdentifier { di3: u8, di2: u8, di1: u8, di0: u8 },
    /// There is no such access level.
    NoSuchLevel { di0: u8 },
    /// The password of a higher access level cannot be changed.
    LevelTooLow { level: u8, target: u8 },
    /// The new password names another access level than the identifier.
    LevelMismatch { level: u8, target: u8 },
    /// There is no such baud rate.
    BaudCode { code: u8 },
}

impl CommandError {
    /// The error information word that answers a refused write: a password error, no such
    /// data for what cannot be written, and other errors.
    pub open spec fn write_word(self) -> u8 {
        match self {
            CommandError::WrongPassword { .. } => 0x04,
            CommandError::AccessLevel { .. } => 0x04,
            CommandError::ReadOnlyItem { .. } => 0x02,
            CommandError::Unsupported { .. } => 0x02,
            _ => 0x01,
        }
    }

    /// The error information word that answers a refused password change. Only a wrong
    /// identifier is not a password error.
    pub open spec fn password_word(self) -> u8 {
        match self {
            CommandError::PasswordIdentifier { .. } => 0x01,
            _ => 0x04,
        }
    }

    /// The error information word that answers a refused clearing.
    pub open spec fn clear_word(self) -> u8 {
        match self {
            CommandError::WrongPassword { .. } => 0x04,
            CommandError::AccessLevel { .. } => 0x04,
            _ => 0x01,
        }
    }

    pub fn write_error_word(&self) -> (r: ErrorInfoWord)
        ensures
            r.word() == self.write_word(),
    {
        match self {
            CommandError::WrongPassword { .. } => ErrorInfoWord::new(ErrorInfoWord::PASSWORD_ERR),
            CommandError::AccessLevel { .. } => ErrorInfoWord::new(ErrorInfoWord::PASSWORD_ERR),
            CommandError::ReadOnlyItem { .. } => ErrorInfoWord::new(ErrorInfoWord::NO_DATA),
            CommandError::Unsupported { .. } => ErrorInfoWord::new(ErrorInfoWord::NO_DATA),
            _ => ErrorInfoWord::new(ErrorInfoWord::OTHER),
        }
    }

    pub fn password_error_word(&self) -> (r: ErrorInfoWord)
        ensures
            r.word() == self.password_word(),
    {
        match self {
            CommandError::PasswordIdentifier { .. } => ErrorInfoWord::new(ErrorInfoWord::OTHER),
            _ => ErrorInfoWord::new(ErrorInfoWord::PASSWORD_ERR),
        }
    }

    pub fn clear_error_word(&self) -> (r: ErrorInfoWord)
        ensures
            r.word() == self.clear_word(),
    {
        match self {
            CommandError::WrongPassword { .. } => ErrorInfoWord::new(ErrorInfoWord::PASSWORD_ERR),
            CommandError::AccessLevel { .. } => ErrorInfoWord::new(ErrorInfoWord::PASSWORD_ERR),
            _ => ErrorInfoWord::new(ErrorInfoWord::OTHER),
        }
    }
}

} // verus!

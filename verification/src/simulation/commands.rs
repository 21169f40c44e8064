//! Commands of a master that change the state of a meter.

use crate::bytes::to_vec;
use crate::protocol::format::{bcd_byte_value, digit_pair, is_bcd};
use crate::quantity::Quantity;
use crate::simulation::command_error::CommandError;
use crate::simulation::di_handler::encoding::{clock_bytes, encode_datetime};
use crate::simulation::di_handler::write::{write_error, written};
use crate::simulation::di_handler::DIHandler;
use crate::simulation::event::EventRecord;
use crate::simulation::freeze::FreezeTrigger;
use crate::simulation::history::{added_event, took_snapshot};
use crate::simulation::state::{
    demand_cleared, demand_key, settled_demands, EnergyType, MeterState,
};
use crate::time::{Calendar, DateTime};
use vstd::prelude::*;

verus! {

/// The access level that a password field names: its upper half byte.
pub open spec fn level_of(pa0: u8) -> u8 {
    pa0 / 16
}

/// An open record with the given data.
pub open spec fn recorded(
    record: EventRecord,
    event_type: u8,
    sub_type: u8,
    time: DateTime,
    data: Seq<u8>,
) -> bool {
    &&& record.event_type == event_type
    &&& record.sub_type == sub_type
    &&& record.start_time == time
    &&& record.end_time is None
    &&& record.data@ == data
}

/// A record of the given kind and data was added.
pub open spec fn logged(
    s0: MeterState,
    s1: MeterState,
    event_type: u8,
    sub_type: u8,
    time: DateTime,
    data: Seq<u8>,
) -> bool {
    exists|record: EventRecord| #[trigger]
        recorded(record, event_type, sub_type, time, data) && added_event(s0, s1, record)
}

/// Four bytes of a command.
fn four_bytes(data: &[u8], at: usize) -> (r: [u8; 4])
    requires
        at + 4 <= data@.len(),
    ensures
        r@ == data@.subrange(at as int, at + 4),
{
    let r: [u8; 4] = [data[at], data[at + 1], data[at + 2], data[at + 3]];
    assert(r@ =~= data@.subrange(at as int, at + 4));
    r
}

/// Three bytes of a command.
fn three_bytes(data: &[u8], at: usize) -> (r: [u8; 3])
    requires
        at + 3 <= data@.len(),
    ensures
        r@ == data@.subrange(at as int, at + 3),
{
    let r: [u8; 3] = [data[at], data[at + 1], data[at + 2]];
    assert(r@ =~= data@.subrange(at as int, at + 3));
    r
}

/// Whether the password at `at` opens an access level of at least `needed`.
pub open spec fn access_error(s: MeterState, data: Seq<u8>, at: int, needed: u8) -> Option<
    CommandError,
> {
    let level = level_of(data[at]);
    if !s.password_config.accepts(level, data.subrange(at + 1, at + 4)) {
        Some(CommandError::WrongPassword { level })
    } else if level > needed {
        Some(CommandError::AccessLevel { level, needed })
    } else {
        None
    }
}

/// Why a write command is refused. It holds identifier, password, operator code and data.
pub open spec fn write_command_error(s: MeterState, data: Seq<u8>) -> Option<CommandError> {
    if data.len() < 13 {
        Some(CommandError::TooShort { actual: data.len() as usize })
    } else if access_error(s, data, 4, 4) is Some {
        access_error(s, data, 4, 4)
    } else if data[3] != 0x04 {
        Some(
            CommandError::ReadOnlyItem { di3: data[3], di2: data[2], di1: data[1], di0: data[0] },
        )
    } else {
        write_error(data.take(4), data.skip(12), s)
    }
}

/// The kind of record that a write leaves: setting date or time is a clock setting (31-02),
/// everything else programming, of the tariff (30-0F) for the groups of slots, zones and
/// energy combinations, and otherwise of other parameters (30-10).
pub open spec fn write_record_kind(di: Seq<u8>) -> (u8, u8) {
    if di[2] == 0x00 && di[1] == 0x01 && (di[0] == 0x01 || di[0] == 0x02) {
        (0x31, 0x02)
    } else if di[1] == 0x02 || di[1] == 0x03 || di[1] == 0x06 {
        (0x30, 0x0F)
    } else {
        (0x30, 0x10)
    }
}

/// A write command was carried out: the parameter was written, and then a record with the
/// operator code was added, dated by the clock as it is after the write.
pub open spec fn write_carried_out(s0: MeterState, s1: MeterState, data: Seq<u8>) -> bool {
    exists|mid: MeterState| #[trigger]
        written(data.take(4), data.skip(12), s0, mid) && logged(
            mid,
            s1,
            write_record_kind(data.take(4)).0,
            write_record_kind(data.take(4)).1,
            mid.virtual_time,
            data.subrange(8, 12),
        )
}

/// Why a password change is refused. It holds identifier, old and new password.
pub open spec fn password_command_error(s: MeterState, data: Seq<u8>) -> Option<CommandError> {
    if data.len() != 12 {
        Some(CommandError::Length { expected: 12, actual: data.len() as usize })
    } else if data[3] != 0x04 || data[2] != 0x00 || data[1] != 0x02 {
        Some(
            CommandError::PasswordIdentifier {
                di3: data[3],
                di2: data[2],
                di1: data[1],
                di0: data[0],
            },
        )
    } else if data[0] < 0x01 || data[0] > 0x0A {
        Some(CommandError::NoSuchLevel { di0: data[0] })
    } else if !s.password_config.accepts(level_of(data[4]), data.subrange(5, 8)) {
        Some(CommandError::WrongPassword { level: level_of(data[4]) })
    } else if level_of(data[4]) > data[0] - 1 {
        Some(
            CommandError::LevelTooLow { level: level_of(data[4]), target: (data[0] - 1) as u8 },
        )
    } else if level_of(data[8]) != data[0] - 1 {
        Some(
            CommandError::LevelMismatch { level: level_of(data[8]), target: (data[0] - 1) as u8 },
        )
    } else {
        None
    }
}

/// A password change was carried out: the password of the level was set, and a record of it
/// was added.
pub open spec fn password_changed(s0: MeterState, s1: MeterState, data: Seq<u8>, now: DateTime) -> bool {
    let level = (data[0] - 1) as u8;
    exists|mid: MeterState|
        {
            &&& mid.password_config.passwords@ == s0.password_config.passwords@.update(
                level as int,
                mid.password_config.passwords@[level as int],
            )
            &&& mid.password_config.passwords@[level as int]@ == seq![level] + data.subrange(9, 12)
            &&& mid == (MeterState { password_config: mid.password_config, ..s0 })
            &&& #[trigger] logged(mid, s1, 0x30, 0x12, now, seq![level])
        }
}

/// Why a clearing is refused: `length` bytes with the password at `at`, and an access level
/// of at least `needed`.
pub open spec fn clear_command_error(
    s: MeterState,
    data: Seq<u8>,
    length: int,
    at: int,
    needed: u8,
) -> Option<CommandError> {
    if data.len() != length {
        Some(CommandError::Length { expected: length as usize, actual: data.len() as usize })
    } else {
        access_error(s, data, at, needed)
    }
}

/// The maximum demand was cleared, and a record of it was added.
pub open spec fn demand_clear_logged(
    s0: MeterState,
    s1: MeterState,
    operator: Seq<u8>,
    now: DateTime,
) -> bool {
    exists|mid: MeterState|
        demand_cleared(s0, mid, now) && #[trigger] logged(mid, s1, 0x30, 0x19, now, operator)
}

/// The meter was cleared: no energy register and no demand of the present period is left, and
/// a record of it was added.
pub open spec fn meter_cleared(s0: MeterState, s1: MeterState, operator: Seq<u8>, now: DateTime) -> bool {
    exists|mid: MeterState|
        {
            &&& mid.energy_registers@ == Map::<u32, Quantity>::empty()
            &&& mid.demand_registers@ == settled_demands(s0.demand_registers@)
            &&& mid == (MeterState {
                energy_registers: mid.energy_registers,
                demand_registers: mid.demand_registers,
                max_demand: 0,
                max_demand_time: now,
                ..s0
            })
            &&& #[trigger] logged(mid, s1, 0x32, 0x01, now, operator)
        }
}

/// The events were cleared, and a record of it is the only one left.
pub open spec fn events_cleared(s0: MeterState, s1: MeterState, operator: Seq<u8>, now: DateTime) -> bool {
    exists|mid: MeterState|
        {
            &&& mid.event_records@.dom() == Set::<u32>::empty()
            &&& mid.event_summary@.dom() == Set::<u32>::empty()
            &&& mid == (MeterState {
                event_records: mid.event_records,
                event_summary: mid.event_summary,
                ..s0
            })
            &&& #[trigger] logged(mid, s1, 0x30, 0x1B, now, operator)
        }
}

/// Why a freeze command is refused: it holds four pairs of digits.
pub open spec fn freeze_command_error(data: Seq<u8>) -> Option<CommandError> {
    if data.len() != 4 {
        Some(CommandError::Length { expected: 4, actual: data.len() as usize })
    } else if !is_bcd(data[0]) {
        Some(CommandError::Digits { byte: data[0] })
    } else if !is_bcd(data[1]) {
        Some(CommandError::Digits { byte: data[1] })
    } else if !is_bcd(data[2]) {
        Some(CommandError::Digits { byte: data[2] })
    } else if !is_bcd(data[3]) {
        Some(CommandError::Digits { byte: data[3] })
    } else {
        None
    }
}

/// What a freeze command does. Its bytes are minute, hour, day and month; 99 stands for
/// any. All 99 freezes at once; otherwise the number of 99s from the end selects an hourly,
/// daily or monthly freeze, or an appointed one.
pub open spec fn freeze_carried_out(s0: MeterState, s1: MeterState, data: Seq<u8>) -> bool {
    let (mm, hh, dd, month) = (data[0], data[1], data[2], data[3]);
    if month == 0x99 && dd == 0x99 && hh == 0x99 && mm == 0x99 {
        took_snapshot(s0, s1, FreezeTrigger::Instant)
    } else if month == 0x99 {
        s1 == (MeterState {
            freeze_config: crate::simulation::config::FreezeConfig {
                timed_freeze_mode: if dd != 0x99 {
                    1
                } else if hh != 0x99 {
                    2
                } else {
                    3
                },
                ..s0.freeze_config
            },
            ..s0
        })
    } else {
        s1 == (MeterState {
            freeze_config: crate::simulation::config::FreezeConfig {
                appointment_freeze_mode: 1,
                ..s0.freeze_config
            },
            ..s0
        })
    }
}

pub open spec fn is_baud_code(code: u8) -> bool {
    code == 0x01 || code == 0x02 || code == 0x04 || code == 0x08 || code == 0x10 || code == 0x20
}

/// Whether a byte is the code of a baud rate: 600, 1200, 2400, 4800, 9600 or 19200.
pub fn valid_baud_code(code: u8) -> (r: bool)
    ensures
        r == is_baud_code(code),
{
    code == 0x01 || code == 0x02 || code == 0x04 || code == 0x08 || code == 0x10 || code == 0x20
}

pub open spec fn baud_command_error(data: Seq<u8>) -> Option<CommandError> {
    if data.len() != 1 {
        Some(CommandError::Length { expected: 1, actual: data.len() as usize })
    } else if !is_baud_code(data[0]) {
        Some(CommandError::BaudCode { code: data[0] })
    } else {
        None
    }
}

/// The time that ss mm hh DD MM YY names.
pub open spec fn broadcast_fields(data: Seq<u8>) -> Calendar {
    Calendar {
        year: (2000 + bcd_byte_value(data[5])) as i32,
        month: bcd_byte_value(data[4]) as u32,
        day: bcd_byte_value(data[3]) as u32,
        hour: bcd_byte_value(data[2]) as u32,
        minute: bcd_byte_value(data[1]) as u32,
        second: bcd_byte_value(data[0]) as u32,
    }
}

/// A broadcast time is understood.
pub open spec fn broadcast_time_valid(data: Seq<u8>) -> bool {
    data.len() == 6 && is_bcd(data[0]) && is_bcd(data[1]) && is_bcd(data[2]) && is_bcd(data[3])
        && is_bcd(data[4]) && is_bcd(data[5]) && broadcast_fields(data).valid()
}

/// The clock was set by a broadcast: a record with the time before and after was added.
pub open spec fn clock_broadcast(s0: MeterState, s1: MeterState, data: Seq<u8>) -> bool {
    exists|mid: MeterState|
        {
            &&& #[trigger] logged(
                s0,
                mid,
                0x31,
                0x01,
                s0.virtual_time,
                clock_bytes(s0.virtual_time.cal()) + clock_bytes(broadcast_fields(data)),
            )
            &&& s1 == (MeterState { virtual_time: s1.virtual_time, ..mid })
            &&& s1.virtual_time.cal() == broadcast_fields(data)
            &&& s1.virtual_time.secs() == broadcast_fields(data).seconds()
            &&& s1.virtual_time.subsec_nanos() == 0
        }
}

impl MeterState {
    fn check_access(&self, data: &[u8], at: usize, needed: u8) -> (r: Result<(), CommandError>)
        requires
            at + 4 <= data@.len(),
        ensures
            r is Ok <==> access_error(*self, data@, at as int, needed) is None,
            r matches Err(e) ==> access_error(*self, data@, at as int, needed) == Some(e),
    {
        let level: u8 = data[at] / 16;
        let password: [u8; 3] = three_bytes(data, at + 1);
        if !self.password_config.verify(level, &password) {
            return Err(CommandError::WrongPassword { level });
        }
        if level > needed {
            return Err(CommandError::AccessLevel { level, needed });
        }
        Ok(())
    }

    fn log_event(&mut self, event_type: u8, sub_type: u8, time: DateTime, data: Vec<u8>)
        ensures
            logged(*old(self), *final(self), event_type, sub_type, time, data@),
    {
        self.add_event_record(event_type, sub_type, time, data);
        proof {
            let record = EventRecord { event_type, sub_type, start_time: time, end_time: None, data };
            assert(recorded(record, event_type, sub_type, time, data@));
        }
    }

    /// Carries out a write command. Returns the operator code.
    pub fn write_command(&mut self, data: &[u8]) -> (r: Result<[u8; 4], CommandError>)
        ensures
            r is Ok <==> write_command_error(*old(self), data@) is None,
            r matches Err(e) ==> write_command_error(*old(self), data@) == Some(e) && *final(self)
                == *old(self),
            r matches Ok(operator) ==> operator@ == data@.subrange(8, 12) && write_carried_out(
                *old(self),
                *final(self),
                data@,
            ),
    {
        if data.len() < 13 {
            return Err(CommandError::TooShort { actual: data.len() });
        }
        let di: [u8; 4] = four_bytes(data, 0);
        assert(di@ =~= data@.take(4));
        let operator: [u8; 4] = four_bytes(data, 8);
        let rest = vstd::slice::slice_subrange(data, 12, data.len());
        assert(rest@ =~= data@.skip(12));
        self.check_access(data, 4, 4)?;
        if di[3] != 0x04 {
            return Err(
                CommandError::ReadOnlyItem { di3: di[3], di2: di[2], di1: di[1], di0: di[0] },
            );
        }
        let handler = DIHandler::new();
        handler.handle_write(di, rest, self)?;
        let ghost mid = *self;
        let (event_type, sub_type): (u8, u8) = if di[2] == 0x00 && di[1] == 0x01 && (di[0] == 0x01
            || di[0] == 0x02) {
            (0x31, 0x02)
        } else if di[1] == 0x02 || di[1] == 0x03 || di[1] == 0x06 {
            (0x30, 0x0F)
        } else {
            (0x30, 0x10)
        };
        let now = self.virtual_time;
        self.log_event(event_type, sub_type, now, to_vec(operator.as_slice()));
        assert(written(data@.take(4), data@.skip(12), *old(self), mid));
        Ok(operator)
    }

    /// Carries out a freeze command.
    pub fn freeze_command(&mut self, data: &[u8]) -> (r: Result<(), CommandError>)
        ensures
            r is Ok <==> freeze_command_error(data@) is None,
            r matches Err(e) ==> freeze_command_error(data@) == Some(e) && *final(self) == *old(self),
            r is Ok ==> freeze_carried_out(*old(self), *final(self), data@),
    {
        if data.len() != 4 {
            return Err(CommandError::Length { expected: 4, actual: data.len() });
        }
        for i in 0..4usize
            invariant
                data@.len() == 4,
                forall|j: int| 0 <= j < i ==> is_bcd(#[trigger] data@[j]),
                *self == *old(self),
        {
            if digit_pair(data[i]).is_none() {
                proof {
                    assert(!is_bcd(data@[i as int]));
                    assert(i > 0 ==> is_bcd(data@[0]));
                    assert(i > 1 ==> is_bcd(data@[1]));
                    assert(i > 2 ==> is_bcd(data@[2]));
                }
                return Err(CommandError::Digits { byte: data[i] });
            }
        }
        assert(is_bcd(data@[0]) && is_bcd(data@[1]) && is_bcd(data@[2]) && is_bcd(data@[3]));
        let any: u8 = 0x99;
        if data[3] == any && data[2] == any && data[1] == any && data[0] == any {
            self.create_freeze_snapshot(FreezeTrigger::Instant);
        } else if data[3] == any && data[2] == any && data[1] == any {
            self.freeze_config.timed_freeze_mode = 3;
        } else if data[3] == any && data[2] == any {
            self.freeze_config.timed_freeze_mode = 2;
        } else if data[3] == any {
            self.freeze_config.timed_freeze_mode = 1;
        } else {
            self.freeze_config.appointment_freeze_mode = 1;
        }
        Ok(())
    }

    /// Carries out a change of the baud rate.
    pub fn change_baudrate_command(&mut self, data: &[u8]) -> (r: Result<(), CommandError>)
        ensures
            r is Ok <==> baud_command_error(data@) is None,
            r matches Err(e) ==> baud_command_error(data@) == Some(e) && *final(self) == *old(self),
            r is Ok ==> *final(self) == (MeterState { baudrate: data@[0], ..*old(self) }),
    {
        if data.len() != 1 {
            return Err(CommandError::Length { expected: 1, actual: data.len() });
        }
        let code: u8 = data[0];
        if !valid_baud_code(code) {
            return Err(CommandError::BaudCode { code });
        }
        self.baudrate = code;
        Ok(())
    }

    /// Carries out a password change at time `now`.
    pub fn change_password_command(&mut self, data: &[u8], now: DateTime) -> (r: Result<
        (),
        CommandError,
    >)
        ensures
            r is Ok <==> password_command_error(*old(self), data@) is None,
            r matches Err(e) ==> password_command_error(*old(self), data@) == Some(e) && *final(self) == *old(self),
            r is Ok ==> password_changed(*old(self), *final(self), data@, now),
    {
        if data.len() != 12 {
            return Err(CommandError::Length { expected: 12, actual: data.len() });
        }
        if data[3] != 0x04 || data[2] != 0x00 || data[1] != 0x02 {
            return Err(
                CommandError::PasswordIdentifier {
                    di3: data[3],
                    di2: data[2],
                    di1: data[1],
                    di0: data[0],
                },
            );
        }
        if data[0] < 0x01 || data[0] > 0x0A {
            return Err(CommandError::NoSuchLevel { di0: data[0] });
        }
        let target: u8 = data[0] - 1;
        let level: u8 = data[4] / 16;
        let password: [u8; 3] = three_bytes(data, 5);
        if !self.password_config.verify(level, &password) {
            return Err(CommandError::WrongPassword { level });
        }
        if level > target {
            return Err(CommandError::LevelTooLow { level, target });
        }
        let new_level: u8 = data[8] / 16;
        if new_level != target {
            return Err(CommandError::LevelMismatch { level: new_level, target });
        }
        let new_password: [u8; 3] = three_bytes(data, 9);
        self.password_config.set_password(target, &new_password);
        let ghost mid = *self;
        let note: Vec<u8> = vec![target];
        assert(note@ =~= seq![target]);
        self.log_event(0x30, 0x12, now, note);
        assert(logged(mid, *self, 0x30, 0x12, now, seq![target]));
        Ok(())
    }

    /// Carries out a clearing of the maximum demand at time `now`. Returns the operator code.
    pub fn demand_clear_command(&mut self, data: &[u8], now: DateTime) -> (r: Result<
        [u8; 4],
        CommandError,
    >)
        ensures
            r is Ok <==> clear_command_error(*old(self), data@, 12, 4, 4) is None,
            r matches Err(e) ==> clear_command_error(*old(self), data@, 12, 4, 4) == Some(e)
                && *final(self) == *old(self),
            r matches Ok(operator) ==> operator@ == data@.subrange(8, 12) && demand_clear_logged(
                *old(self),
                *final(self),
                operator@,
                now,
            ),
    {
        if data.len() != 12 {
            return Err(CommandError::Length { expected: 12, actual: data.len() });
        }
        let operator: [u8; 4] = four_bytes(data, 8);
        self.check_access(data, 4, 4)?;
        self.clear_demand(now);
        let ghost mid = *self;
        self.log_event(0x30, 0x19, now, to_vec(operator.as_slice()));
        assert(logged(mid, *self, 0x30, 0x19, now, operator@));
        Ok(operator)
    }

    /// Carries out a clearing of the meter at time `now`. Returns the operator code.
    pub fn meter_clear_command(&mut self, data: &[u8], now: DateTime) -> (r: Result<
        [u8; 4],
        CommandError,
    >)
        ensures
            r is Ok <==> clear_command_error(*old(self), data@, 8, 0, 2) is None,
            r matches Err(e) ==> clear_command_error(*old(self), data@, 8, 0, 2) == Some(e)
                && *final(self) == *old(self),
            r matches Ok(operator) ==> operator@ == data@.subrange(4, 8) && meter_cleared(
                *old(self),
                *final(self),
                operator@,
                now,
            ),
    {
        if data.len() != 8 {
            return Err(CommandError::Length { expected: 8, actual: data.len() });
        }
        let operator: [u8; 4] = four_bytes(data, 4);
        self.check_access(data, 0, 2)?;
        self.energy_registers.clear();
        self.clear_demand(now);
        let ghost mid = *self;
        self.log_event(0x32, 0x01, now, to_vec(operator.as_slice()));
        assert(logged(mid, *self, 0x32, 0x01, now, operator@));
        Ok(operator)
    }

    /// Carries out a clearing of the events at time `now`. Returns the operator code. The
    /// clearing itself is recorded.
    pub fn event_clear_command(&mut self, data: &[u8], now: DateTime) -> (r: Result<
        [u8; 4],
        CommandError,
    >)
        ensures
            r is Ok <==> clear_command_error(*old(self), data@, 8, 0, 2) is None,
            r matches Err(e) ==> clear_command_error(*old(self), data@, 8, 0, 2) == Some(e)
                && *final(self) == *old(self),
            r matches Ok(operator) ==> operator@ == data@.subrange(4, 8) && events_cleared(
                *old(self),
                *final(self),
                operator@,
                now,
            ),
    {
        if data.len() != 8 {
            return Err(CommandError::Length { expected: 8, actual: data.len() });
        }
        let operator: [u8; 4] = four_bytes(data, 4);
        self.check_access(data, 0, 2)?;
        self.clear_all_events();
        let ghost mid = *self;
        self.log_event(0x30, 0x1B, now, to_vec(operator.as_slice()));
        proof {
            assert(mid.event_records@.dom() =~= Set::<u32>::empty());
            assert(mid.event_summary@.dom() =~= Set::<u32>::empty());
            assert(logged(mid, *self, 0x30, 0x1B, now, operator@));
        }
        Ok(operator)
    }

    /// Sets the clock by a broadcast. Data that name no time change nothing. Returns whether
    /// the clock was set.
    pub fn broadcast_time_command(&mut self, data: &[u8]) -> (r: bool)
        ensures
            r == broadcast_time_valid(data@),
            r ==> clock_broadcast(*old(self), *final(self), data@),
            !r ==> *final(self) == *old(self),
    {
        if data.len() != 6 {
            return false;
        }
        match (
            digit_pair(data[0]),
            digit_pair(data[1]),
            digit_pair(data[2]),
            digit_pair(data[3]),
            digit_pair(data[4]),
            digit_pair(data[5]),
        ) {
            (Some(ss), Some(mm), Some(hh), Some(dd), Some(month), Some(yy)) => {
                match DateTime::with_ymd_and_hms(
                    2000 + yy as i32,
                    month as u32,
                    dd as u32,
                    hh as u32,
                    mm as u32,
                    ss as u32,
                ) {
                    Some(t) => {
                        let before = self.virtual_time;
                        let mut note = encode_datetime(&before);
                        let after = encode_datetime(&t);
                        crate::bytes::append(&mut note, after.as_slice());
                        self.log_event(0x31, 0x01, before, note);
                        let ghost mid = *self;
                        self.virtual_time = t;
                        assert(logged(
                            *old(self),
                            mid,
                            0x31,
                            0x01,
                            before,
                            clock_bytes(before.cal()) + clock_bytes(broadcast_fields(data@)),
                        ));
                        true
                    },
                    None => false,
                }
            },
            _ => false,
        }
    }
}

/// A cleared meter keeps its events (but for the new record), snapshots, passwords and
/// settlements, and reads neither energy nor demand for the present period.
pub proof fn law_meter_clear_keeps_history(
    s0: MeterState,
    s1: MeterState,
    operator: Seq<u8>,
    now: DateTime,
    settlement: u8,
    phase: u8,
    t: EnergyType,
    rate: u8,
    event_type: u8,
    sub_type: u8,
)
    requires
        meter_cleared(s0, s1, operator, now),
        (event_type, sub_type) != (0x32u8, 0x01u8),
    ensures
        s1.energy(t, rate) == 0,
        s1.max_demand == 0,
        s1.demand(0, phase, t, rate).value == 0,
        1 <= settlement && s0.demand_registers@.contains_key(
            demand_key(settlement, phase, t, rate),
        ) ==> s1.demand(settlement, phase, t, rate) == s0.demand(settlement, phase, t, rate),
        s1.events(event_type, sub_type) == s0.events(event_type, sub_type),
        s1.freeze_snapshots == s0.freeze_snapshots,
        s1.password_config == s0.password_config,
        s1.settlement_energies == s0.settlement_energies,
{
    assert(demand_key(0, phase, t, rate) < 0x100_0000);
    assert(settlement >= 1 ==> demand_key(settlement, phase, t, rate) >= 0x100_0000);
}

/// After the maximum demand is cleared, every demand of the present period reads zero; the
/// energies and the demands of the settlement slots read as before.
pub proof fn law_demand_clear_clears(
    s0: MeterState,
    s1: MeterState,
    operator: Seq<u8>,
    now: DateTime,
    settlement: u8,
    phase: u8,
    t: EnergyType,
    rate: u8,
)
    requires
        demand_clear_logged(s0, s1, operator, now),
    ensures
        s1.demand(0, phase, t, rate).value == 0,
        s1.max_demand == 0,
        s1.max_demand_time == now,
        1 <= settlement && s0.demand_registers@.contains_key(
            demand_key(settlement, phase, t, rate),
        ) ==> s1.demand(settlement, phase, t, rate) == s0.demand(settlement, phase, t, rate),
        s1.energy(t, rate) == s0.energy(t, rate),
{
    assert(demand_key(0, phase, t, rate) < 0x100_0000);
    assert(settlement >= 1 ==> demand_key(settlement, phase, t, rate) >= 0x100_0000);
}

/// After the events are cleared, the record of the clearing is the only event.
pub proof fn law_event_clear_leaves_its_record(
    s0: MeterState,
    s1: MeterState,
    operator: Seq<u8>,
    now: DateTime,
    event_type: u8,
    sub_type: u8,
)
    requires
        events_cleared(s0, s1, operator, now),
    ensures
        s1.events(0x30, 0x1B).len() == 1,
        s1.events(0x30, 0x1B)[0].data@ == operator,
        (event_type, sub_type) != (0x30u8, 0x1Bu8) ==> s1.events(event_type, sub_type).len() == 0,
{
    let mid = choose|mid: MeterState|
        {
            &&& mid.event_records@.dom() == Set::<u32>::empty()
            &&& mid.event_summary@.dom() == Set::<u32>::empty()
            &&& mid == (MeterState {
                event_records: mid.event_records,
                event_summary: mid.event_summary,
                ..s0
            })
            &&& #[trigger] logged(mid, s1, 0x30, 0x1B, now, operator)
        };
    assert(!mid.event_records@.contains_key(
        crate::simulation::state::event_key(0x30, 0x1B),
    ));
    assert(!mid.event_records@.contains_key(
        crate::simulation::state::event_key(event_type, sub_type),
    ));
}

} // verus!

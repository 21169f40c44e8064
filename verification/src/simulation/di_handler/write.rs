//! Writing parameters (04-00-xx-xx).

use crate::protocol::format::{
    all_bcd, bcd_byte_value, bcd_to_u64, bcd_value, digit_pair, is_bcd, law_bcd_read_write,
    lemma_bcd_value_bound, pow100,
};
use crate::simulation::command_error::CommandError;
use crate::simulation::di_handler::encoding::{
    bcd_of, bcd_to_decimal, decimal_of, year_byte,
};
use crate::simulation::di_handler::parameter::parameter_read;
use crate::simulation::di_handler::DIHandler;
use crate::simulation::state::MeterState;
use crate::time::{weekday_of, Calendar, DateTime};
use vstd::prelude::*;

verus! {

/// 04-00-01-xx
pub open spec fn clock_write_error(di0: u8, data: Seq<u8>, s: MeterState) -> Option<CommandError> {
    if di0 == 0x01 {
        if data.len() != 4 {
            Some(CommandError::Length { expected: 4, actual: data.len() as usize })
        } else if !is_bcd(data[0]) {
            Some(CommandError::Digits { byte: data[0] })
        } else if !is_bcd(data[1]) {
            Some(CommandError::Digits { byte: data[1] })
        } else if !is_bcd(data[2]) {
            Some(CommandError::Digits { byte: data[2] })
        } else {
            no_such_time(dated(data, s))
        }
    } else if di0 == 0x02 {
        if data.len() != 3 {
            Some(CommandError::Length { expected: 3, actual: data.len() as usize })
        } else if !is_bcd(data[0]) {
            Some(CommandError::Digits { byte: data[0] })
        } else if !is_bcd(data[1]) {
            Some(CommandError::Digits { byte: data[1] })
        } else if !is_bcd(data[2]) {
            Some(CommandError::Digits { byte: data[2] })
        } else {
            no_such_time(timed(data, s))
        }
    } else if di0 == 0x03 || di0 == 0x04 {
        if data.len() != 1 {
            Some(CommandError::Length { expected: 1, actual: data.len() as usize })
        } else if !is_bcd(data[0]) {
            Some(CommandError::Digits { byte: data[0] })
        } else {
            None
        }
    } else {
        Some(CommandError::Unsupported { di3: 0x04, di2: 0x00, di1: 0x01, di0 })
    }
}

pub open spec fn no_such_time(c: Calendar) -> Option<CommandError> {
    if c.valid() {
        None
    } else {
        Some(
            CommandError::NoSuchTime {
                year: c.year,
                month: c.month,
                day: c.day,
                hour: c.hour,
                minute: c.minute,
                second: c.second,
            },
        )
    }
}

/// The date YY MM DD of this century with the time of day of the clock.
pub open spec fn dated(data: Seq<u8>, s: MeterState) -> Calendar {
    Calendar {
        year: (2000 + bcd_byte_value(data[0])) as i32,
        month: bcd_byte_value(data[1]) as u32,
        day: bcd_byte_value(data[2]) as u32,
        ..s.virtual_time.cal()
    }
}

/// The time of day hh mm ss with the date of the clock.
pub open spec fn timed(data: Seq<u8>, s: MeterState) -> Calendar {
    Calendar {
        hour: bcd_byte_value(data[0]) as u32,
        minute: bcd_byte_value(data[1]) as u32,
        second: bcd_byte_value(data[2]) as u32,
        ..s.virtual_time.cal()
    }
}

/// 04-00-0B-xx
pub open spec fn settlement_write_error(di0: u8, data: Seq<u8>) -> Option<CommandError> {
    if !(0x01 <= di0 <= 0x03) {
        Some(CommandError::Unsupported { di3: 0x04, di2: 0x00, di1: 0x0B, di0 })
    } else if data.len() != 2 {
        Some(CommandError::Length { expected: 2, actual: data.len() as usize })
    } else if data[0] == 0x99 && data[1] == 0x99 {
        None
    } else if !(1 <= decimal_of(data[0]) <= 28) {
        Some(CommandError::SettlementDay { day: decimal_of(data[0]) })
    } else if decimal_of(data[1]) > 23 {
        Some(CommandError::SettlementHour { hour: decimal_of(data[1]) })
    } else {
        None
    }
}

pub open spec fn one_byte_error(data: Seq<u8>) -> Option<CommandError> {
    if data.len() != 1 {
        Some(CommandError::Length { expected: 1, actual: data.len() as usize })
    } else {
        None
    }
}

/// Why a write is refused; `None` where it is carried out.
pub open spec fn write_error(di: Seq<u8>, data: Seq<u8>, s: MeterState) -> Option<CommandError> {
    let (di3, di2, di1, di0) = (di[3], di[2], di[1], di[0]);
    let unsupported = CommandError::Unsupported { di3, di2, di1, di0 };
    if di3 != 0x04 {
        Some(CommandError::NotParameter { di3, di2, di1, di0 })
    } else if di2 != 0x00 {
        Some(unsupported)
    } else if di1 == 0x01 {
        clock_write_error(di0, data, s)
    } else if di1 == 0x04 && di0 == 0x01 {
        if data.len() != 6 {
            Some(CommandError::Length { expected: 6, actual: data.len() as usize })
        } else {
            None
        }
    } else if di1 == 0x04 && di0 == 0x09 {
        if data.len() != 3 {
            Some(CommandError::Length { expected: 3, actual: data.len() as usize })
        } else if !is_bcd(data[2]) {
            Some(CommandError::Digits { byte: data[2] })
        } else if !is_bcd(data[1]) {
            Some(CommandError::Digits { byte: data[1] })
        } else if !is_bcd(data[0]) {
            Some(CommandError::Digits { byte: data[0] })
        } else {
            None
        }
    } else if di1 == 0x06 {
        if data.len() != 1 {
            one_byte_error(data)
        } else if 0x01 <= di0 <= 0x03 {
            None
        } else {
            Some(unsupported)
        }
    } else if di1 == 0x07 {
        if 0x01 <= di0 <= 0x05 {
            one_byte_error(data)
        } else {
            Some(unsupported)
        }
    } else if di1 == 0x08 && di0 == 0x01 {
        one_byte_error(data)
    } else if di1 == 0x0B {
        settlement_write_error(di0, data)
    } else {
        Some(unsupported)
    }
}

/// What an accepted write changes; everything else stays as it was.
pub open spec fn written(di: Seq<u8>, data: Seq<u8>, s: MeterState, t: MeterState) -> bool {
    let (di1, di0) = (di[1], di[0]);
    if di1 == 0x01 && di0 == 0x01 {
        &&& t == (MeterState { virtual_time: t.virtual_time, ..s })
        &&& t.virtual_time.cal() == dated(data, s)
        &&& t.virtual_time.secs() == dated(data, s).seconds()
        &&& t.virtual_time.subsec_nanos() == 0
    } else if di1 == 0x01 && di0 == 0x02 {
        &&& t == (MeterState { virtual_time: t.virtual_time, ..s })
        &&& t.virtual_time.cal() == timed(data, s)
        &&& t.virtual_time.secs() == timed(data, s).seconds()
        &&& t.virtual_time.subsec_nanos() == 0
    } else if di1 == 0x01 && di0 == 0x03 {
        t == (MeterState { demand_period_minutes: bcd_byte_value(data[0]) as u16, ..s })
    } else if di1 == 0x01 {
        t == (MeterState { sliding_window_minutes: bcd_byte_value(data[0]) as u16, ..s })
    } else if di1 == 0x04 && di0 == 0x01 {
        &&& t == (MeterState { address: t.address, ..s })
        &&& t.address@ == data.reverse()
    } else if di1 == 0x04 {
        t == (MeterState { meter_constant: bcd_value(data) as u32, ..s })
    } else if di1 == 0x06 && di0 == 0x01 {
        t == (MeterState { active_combination_word: data[0], ..s })
    } else if di1 == 0x06 && di0 == 0x02 {
        t == (MeterState { reactive_combination_1: data[0], ..s })
    } else if di1 == 0x06 {
        t == (MeterState { reactive_combination_2: data[0], ..s })
    } else if di1 == 0x07 {
        // port 3 is the one whose rate the meter uses
        &&& t.comm_speed_feature@ == s.comm_speed_feature@.update(di0 - 1, data[0])
        &&& t == (MeterState {
            comm_speed_feature: t.comm_speed_feature,
            baudrate: if di0 == 0x03 {
                data[0]
            } else {
                s.baudrate
            },
            ..s
        })
    } else if di1 == 0x08 {
        t == (MeterState { weekly_rest_day_word: data[0], ..s })
    } else {
        let unset = data[0] == 0x99 && data[1] == 0x99;
        &&& t.settlement_days@ == s.settlement_days@.update(
            di0 - 1,
            if unset {
                0
            } else {
                decimal_of(data[0])
            },
        )
        &&& t.settlement_hours@ == s.settlement_hours@.update(
            di0 - 1,
            if unset {
                0
            } else {
                decimal_of(data[1])
            },
        )
        &&& t == (MeterState {
            settlement_days: t.settlement_days,
            settlement_hours: t.settlement_hours,
            ..s
        })
    }
}

fn check_length(data: &[u8], expected: usize) -> (r: Result<(), CommandError>)
    ensures
        r is Ok <==> data@.len() == expected,
        r matches Err(e) ==> e == (CommandError::Length {
            expected,
            actual: data@.len() as usize,
        }),
{
    if data.len() != expected {
        Err(CommandError::Length { expected, actual: data.len() })
    } else {
        Ok(())
    }
}

fn check_digits(byte: u8) -> (r: Result<u8, CommandError>)
    ensures
        r is Ok <==> is_bcd(byte),
        r matches Ok(v) ==> v == bcd_byte_value(byte) && v <= 99,
        r matches Err(e) ==> e == (CommandError::Digits { byte }),
{
    match digit_pair(byte) {
        Some(v) => Ok(v),
        None => Err(CommandError::Digits { byte }),
    }
}

impl DIHandler {
    fn write_clock(&self, di0: u8, data: &[u8], state: &mut MeterState) -> (r: Result<
        (),
        CommandError,
    >)
        ensures
            r is Ok <==> clock_write_error(di0, data@, *old(state)) is None,
            r matches Err(e) ==> clock_write_error(di0, data@, *old(state)) == Some(e)
                && *final(state) == *old(state),
            r is Ok ==> written(seq![di0, 0x01u8, 0x00, 0x04], data@, *old(state), *final(state)),
    {
        if di0 == 0x01 {
            check_length(data, 4)?;
            let yy: u8 = check_digits(data[0])?;
            let mm: u8 = check_digits(data[1])?;
            let dd: u8 = check_digits(data[2])?;
            let c = state.virtual_time.calendar();
            let year: i32 = 2000 + yy as i32;
            match DateTime::with_ymd_and_hms(
                year,
                mm as u32,
                dd as u32,
                c.hour,
                c.minute,
                c.second,
            ) {
                Some(t) => {
                    state.virtual_time = t;
                    Ok(())
                },
                None => Err(
                    CommandError::NoSuchTime {
                        year,
                        month: mm as u32,
                        day: dd as u32,
                        hour: c.hour,
                        minute: c.minute,
                        second: c.second,
                    },
                ),
            }
        } else if di0 == 0x02 {
            check_length(data, 3)?;
            let hh: u8 = check_digits(data[0])?;
            let mm: u8 = check_digits(data[1])?;
            let ss: u8 = check_digits(data[2])?;
            let c = state.virtual_time.calendar();
            match DateTime::with_ymd_and_hms(
                c.year,
                c.month,
                c.day,
                hh as u32,
                mm as u32,
                ss as u32,
            ) {
                Some(t) => {
                    state.virtual_time = t;
                    Ok(())
                },
                None => Err(
                    CommandError::NoSuchTime {
                        year: c.year,
                        month: c.month,
                        day: c.day,
                        hour: hh as u32,
                        minute: mm as u32,
                        second: ss as u32,
                    },
                ),
            }
        } else if di0 == 0x03 {
            check_length(data, 1)?;
            let period: u8 = check_digits(data[0])?;
            state.demand_period_minutes = period as u16;
            Ok(())
        } else if di0 == 0x04 {
            check_length(data, 1)?;
            let window: u8 = check_digits(data[0])?;
            state.sliding_window_minutes = window as u16;
            Ok(())
        } else {
            Err(CommandError::Unsupported { di3: 0x04, di2: 0x00, di1: 0x01, di0 })
        }
    }

    fn write_settlement(&self, di0: u8, data: &[u8], state: &mut MeterState) -> (r: Result<
        (),
        CommandError,
    >)
        ensures
            r is Ok <==> settlement_write_error(di0, data@) is None,
            r matches Err(e) ==> settlement_write_error(di0, data@) == Some(e) && *final(state)
                == *old(state),
            r is Ok ==> written(seq![di0, 0x0Bu8, 0x00, 0x04], data@, *old(state), *final(state)),
    {
        if !(0x01 <= di0 && di0 <= 0x03) {
            return Err(CommandError::Unsupported { di3: 0x04, di2: 0x00, di1: 0x0B, di0 });
        }
        check_length(data, 2)?;
        let i: usize = di0 as usize - 1;
        let (day, hour): (u8, u8) = if data[0] == 0x99 && data[1] == 0x99 {
            (0, 0)
        } else {
            let day: u8 = bcd_to_decimal(data[0]);
            let hour: u8 = bcd_to_decimal(data[1]);
            if day < 1 || day > 28 {
                return Err(CommandError::SettlementDay { day });
            }
            if hour > 23 {
                return Err(CommandError::SettlementHour { hour });
            }
            (day, hour)
        };
        let mut days: [u8; 3] = state.settlement_days;
        let mut hours: [u8; 3] = state.settlement_hours;
        days[i] = day;
        hours[i] = hour;
        assert(days@ =~= old(state).settlement_days@.update(di0 - 1, day));
        assert(hours@ =~= old(state).settlement_hours@.update(di0 - 1, hour));
        state.settlement_days = days;
        state.settlement_hours = hours;
        Ok(())
    }

    /// Writes a parameter. A refused write changes nothing.
    pub fn handle_write(&self, di: [u8; 4], data: &[u8], state: &mut MeterState) -> (r: Result<
        (),
        CommandError,
    >)
        ensures
            r is Ok <==> write_error(di@, data@, *old(state)) is None,
            r matches Err(e) ==> write_error(di@, data@, *old(state)) == Some(e) && *final(state)
                == *old(state),
            r is Ok ==> written(di@, data@, *old(state), *final(state)),
    {
        let (di3, di2, di1, di0): (u8, u8, u8, u8) = (di[3], di[2], di[1], di[0]);
        if di3 != 0x04 {
            return Err(CommandError::NotParameter { di3, di2, di1, di0 });
        }
        if di2 != 0x00 {
            return Err(CommandError::Unsupported { di3, di2, di1, di0 });
        }
        if di1 == 0x01 {
            self.write_clock(di0, data, state)
        } else if di1 == 0x04 && di0 == 0x01 {
            check_length(data, 6)?;
            let address: [u8; 6] = [data[5], data[4], data[3], data[2], data[1], data[0]];
            assert(address@ =~= data@.reverse());
            state.address = address;
            Ok(())
        } else if di1 == 0x04 && di0 == 0x09 {
            check_length(data, 3)?;
            check_digits(data[2])?;
            check_digits(data[1])?;
            check_digits(data[0])?;
            proof {
                assert(all_bcd(data@));
                lemma_bcd_value_bound(data@);
                assert(pow100(3) == 1_000_000) by {
                    reveal_with_fuel(pow100, 4);
                }
            }
            match bcd_to_u64(data) {
                Ok(constant) => {
                    state.meter_constant = constant as u32;
                    Ok(())
                },
                Err(_) => Err(CommandError::Digits { byte: data[0] }),
            }
        } else if di1 == 0x06 {
            check_length(data, 1)?;
            match di0 {
                0x01 => {
                    state.active_combination_word = data[0];
                    Ok(())
                },
                0x02 => {
                    state.reactive_combination_1 = data[0];
                    Ok(())
                },
                0x03 => {
                    state.reactive_combination_2 = data[0];
                    Ok(())
                },
                _ => Err(CommandError::Unsupported { di3, di2, di1, di0 }),
            }
        } else if di1 == 0x07 {
            if !(0x01 <= di0 && di0 <= 0x05) {
                return Err(CommandError::Unsupported { di3, di2, di1, di0 });
            }
            check_length(data, 1)?;
            let mut words: [u8; 5] = state.comm_speed_feature;
            words[di0 as usize - 1] = data[0];
            assert(words@ =~= old(state).comm_speed_feature@.update(di0 - 1, data@[0]));
            state.comm_speed_feature = words;
            if di0 == 0x03 {
                state.baudrate = data[0];
            }
            Ok(())
        } else if di1 == 0x08 && di0 == 0x01 {
            check_length(data, 1)?;
            state.weekly_rest_day_word = data[0];
            Ok(())
        } else if di1 == 0x0B {
            self.write_settlement(di0, data, state)
        } else {
            Err(CommandError::Unsupported { di3, di2, di1, di0 })
        }
    }
}

/// What a parameter reads after it was written with `data`. Clock and address come back
/// in the opposite byte order; a settlement day that was taken away reads as zero.
pub open spec fn read_back(di: Seq<u8>, data: Seq<u8>, t: MeterState) -> Seq<u8> {
    let (di1, di0) = (di[1], di[0]);
    if di1 == 0x01 && di0 == 0x01 {
        seq![bcd_of(weekday_of(t.virtual_time.secs()) as u8), data[2], data[1], data[0]]
    } else if (di1 == 0x01 && di0 == 0x02) || (di1 == 0x04 && di0 == 0x01) {
        data.reverse()
    } else if di1 == 0x0B && data[0] == 0x99 && data[1] == 0x99 {
        seq![0u8, 0]
    } else {
        data
    }
}

proof fn lemma_digits_survive(b: u8)
    requires
        is_bcd(b),
    ensures
        bcd_of(bcd_byte_value(b) as u8) == b,
        0 <= bcd_byte_value(b) <= 99,
{
    reveal(is_bcd);
    reveal(bcd_byte_value);
    reveal(bcd_of);
}

/// A parameter that was written is read back. Settlement days and hours are left out
/// where a half byte of the written data is above 9: such a byte counts for the number
/// that its halves add up to, and that number is read back in proper digits.
pub proof fn law_write_then_read(di: Seq<u8>, data: Seq<u8>, s: MeterState, t: MeterState)
    requires
        di.len() == 4,
        write_error(di, data, s) is None,
        written(di, data, s, t),
        s.virtual_time.valid(),
        di[1] == 0x0B ==> all_bcd(data),
    ensures
        parameter_read(di, t) == Some(read_back(di, data, t)),
{
    let (di1, di0) = (di[1], di[0]);
    if di1 == 0x01 && di0 == 0x01 {
        lemma_digits_survive(data[0]);
        lemma_digits_survive(data[1]);
        lemma_digits_survive(data[2]);
        reveal(year_byte);
        assert(parameter_read(di, t)->Some_0 =~= read_back(di, data, t));
    } else if di1 == 0x01 && di0 == 0x02 {
        lemma_digits_survive(data[0]);
        lemma_digits_survive(data[1]);
        lemma_digits_survive(data[2]);
        assert(parameter_read(di, t)->Some_0 =~= data.reverse());
    } else if di1 == 0x01 {
        lemma_digits_survive(data[0]);
        assert(parameter_read(di, t)->Some_0 =~= data);
    } else if di1 == 0x04 && di0 == 0x09 {
        assert(all_bcd(data));
        lemma_bcd_value_bound(data);
        assert(pow100(3) == 1_000_000) by {
            reveal_with_fuel(pow100, 4);
        }
        law_bcd_read_write(data);
    } else if di1 == 0x0B {
        if data[0] == 0x99 && data[1] == 0x99 {
            assert(bcd_of(0) == 0) by {
                reveal(bcd_of);
            }
            assert(parameter_read(di, t)->Some_0 =~= seq![0u8, 0]);
        } else {
            assert(is_bcd(data[0]) && is_bcd(data[1]));
            lemma_digits_survive(data[0]);
            lemma_digits_survive(data[1]);
            reveal(decimal_of);
            reveal(bcd_byte_value);
            assert(parameter_read(di, t)->Some_0 =~= data);
        }
    } else if di1 == 0x06 || di1 == 0x07 || di1 == 0x08 {
        assert(parameter_read(di, t)->Some_0 =~= data);
    }
}

} // verus!

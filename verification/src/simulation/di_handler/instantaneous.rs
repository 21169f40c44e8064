//! Instantaneous values (02-xx-xx-xx).

use crate::angle::arc_cosine;
use crate::bytes::append;
use crate::protocol::format::{bcd_digits, u64_to_bcd};
use crate::quantity::{magnitude, magnitude_of, Quantity};
use crate::simulation::di_handler::encoding::{
    bcd_to_decimal, current_bytes, decimal_of, digits, encode_bcd, encode_bcd_current,
    encode_bcd_power, encode_bcd_power_factor, encode_bcd_voltage, power_bytes,
    power_factor_bytes, voltage_bytes,
};
use crate::simulation::di_handler::read_error::{outcome, result_bytes, ReadError};
use crate::simulation::di_handler::DIHandler;
use crate::simulation::state::MeterState;
use vstd::prelude::*;

verus! {

/// One of three phases (01 to 03), or all of them one after the other (FF).
pub open spec fn of_phases(di1: u8, di0: u8, a: Seq<u8>, b: Seq<u8>, c: Seq<u8>) -> Option<
    Result<Seq<u8>, ReadError>,
> {
    if di0 != 0 {
        None
    } else if di1 == 0x01 {
        Some(Ok(a))
    } else if di1 == 0x02 {
        Some(Ok(b))
    } else if di1 == 0x03 {
        Some(Ok(c))
    } else if di1 == 0xFF {
        Some(Ok(a + b + c))
    } else {
        None
    }
}

/// The total (00), one of three phases (01 to 03), or all one after the other (FF).
pub open spec fn of_total_and_phases(
    di1: u8,
    di0: u8,
    total: Seq<u8>,
    a: Seq<u8>,
    b: Seq<u8>,
    c: Seq<u8>,
) -> Option<Result<Seq<u8>, ReadError>> {
    if di0 != 0 {
        None
    } else if di1 == 0x00 {
        Some(Ok(total))
    } else if di1 == 0x01 {
        Some(Ok(a))
    } else if di1 == 0x02 {
        Some(Ok(b))
    } else if di1 == 0x03 {
        Some(Ok(c))
    } else if di1 == 0xFF {
        Some(Ok(total + a + b + c))
    } else {
        None
    }
}

/// Harmonics 1 to `n`, two bytes each.
pub open spec fn harmonics_in_turn(orders: Seq<Quantity>, n: nat) -> Seq<u8>
    decreases n,
{
    if n == 0 {
        seq![]
    } else {
        harmonics_in_turn(orders, (n - 1) as nat) + digits(orders[n as int], 2, 2)
    }
}

/// One harmonic (1 to 21 in decimal digits), or all of them (FF).
pub open spec fn harmonic_item(orders: Seq<Quantity>, di0: u8) -> Result<Seq<u8>, ReadError> {
    if di0 == 0xFF {
        Ok(harmonics_in_turn(orders, 21))
    } else if 1 <= decimal_of(di0) <= 21 {
        Ok(digits(orders[decimal_of(di0) as int], 2, 2))
    } else {
        Err(ReadError::HarmonicOutOfRange { order: decimal_of(di0) })
    }
}

/// The remaining values (02-80-00-xx).
pub open spec fn other_item(s: MeterState, di0: u8) -> Option<Seq<u8>> {
    match di0 {
        // neutral current
        0x01u8 => Some(current_bytes(s.neutral_current)),
        // frequency
        0x02u8 => Some(digits(s.frequency, 2, 2)),
        // average active power of the last minute
        0x03u8 => Some(power_bytes(s.active_power_total)),
        // active demand
        0x04u8 => Some(power_bytes(s.max_demand)),
        // reactive demand, for which the active one stands
        0x05u8 => Some(power_bytes(s.max_demand)),
        // apparent power
        0x06u8 => Some(power_bytes(s.apparent_power_total)),
        // temperature
        0x07u8 => Some(digits(s.meter_temperature, 2, 1)),
        // clock battery
        0x08u8 => Some(digits(s.clock_battery_voltage, 2, 2)),
        // outage battery
        0x09u8 => Some(digits(s.outage_battery_voltage, 2, 2)),
        // minutes on battery
        0x0Au8 => Some(bcd_digits(s.battery_work_minutes as int, 4)),
        // step price
        0x0Bu8 => Some(digits(s.current_step_price, 2, 4)),
        _ => None,
    }
}

/// What an identifier of an instantaneous value reads.
pub open spec fn instantaneous_read(di: Seq<u8>, s: MeterState) -> Option<
    Result<Seq<u8>, ReadError>,
> {
    let (di2, di1, di0) = (di[2], di[1], di[0]);
    if di[3] != 0x02 {
        None
    } else if di2 == 0x01 {
        of_phases(
            di1,
            di0,
            voltage_bytes(s.voltage_a),
            voltage_bytes(s.voltage_b),
            voltage_bytes(s.voltage_c),
        )
    } else if di2 == 0x02 {
        of_phases(
            di1,
            di0,
            current_bytes(s.current_a),
            current_bytes(s.current_b),
            current_bytes(s.current_c),
        )
    } else if di2 == 0x03 {
        of_total_and_phases(
            di1,
            di0,
            power_bytes(s.active_power_total),
            power_bytes(s.active_power_a),
            power_bytes(s.active_power_b),
            power_bytes(s.active_power_c),
        )
    } else if di2 == 0x04 {
        of_total_and_phases(
            di1,
            di0,
            power_bytes(s.reactive_power_total),
            power_bytes(s.reactive_power_a),
            power_bytes(s.reactive_power_b),
            power_bytes(s.reactive_power_c),
        )
    } else if di2 == 0x05 {
        of_total_and_phases(
            di1,
            di0,
            power_bytes(s.apparent_power_total),
            power_bytes(magnitude_of(s.active_power_a, s.reactive_power_a)),
            power_bytes(magnitude_of(s.active_power_b, s.reactive_power_b)),
            power_bytes(magnitude_of(s.active_power_c, s.reactive_power_c)),
        )
    } else if di2 == 0x06 {
        // every phase has the power factor of the whole
        let pf = power_factor_bytes(s.power_factor);
        of_total_and_phases(di1, di0, pf, pf, pf, pf)
    } else if di2 == 0x07 {
        let angle = digits(arc_cosine(s.power_factor), 2, 1);
        if 1 <= di1 <= 3 && di0 <= 3 {
            Some(Ok(angle))
        } else if di1 == 0xFF && di0 == 0 {
            Some(Ok(angle + angle + angle + angle))
        } else {
            None
        }
    } else if di2 == 0x08 {
        of_phases(
            di1,
            di0,
            digits(s.voltage_thd@[0], 2, 2),
            digits(s.voltage_thd@[1], 2, 2),
            digits(s.voltage_thd@[2], 2, 2),
        )
    } else if di2 == 0x09 {
        of_phases(
            di1,
            di0,
            digits(s.current_thd@[0], 2, 2),
            digits(s.current_thd@[1], 2, 2),
            digits(s.current_thd@[2], 2, 2),
        )
    } else if di2 == 0x0A && 1 <= di1 <= 3 {
        Some(harmonic_item(s.voltage_harmonics@[di1 - 1]@, di0))
    } else if di2 == 0x0B && 1 <= di1 <= 3 {
        Some(harmonic_item(s.current_harmonics@[di1 - 1]@, di0))
    } else if di2 == 0x80 && di1 == 0x00 {
        match other_item(s, di0) {
            Some(bytes) => Some(Ok(bytes)),
            None => None,
        }
    } else {
        None
    }
}

fn pick_phase(di1: u8, di0: u8, a: Vec<u8>, b: Vec<u8>, c: Vec<u8>) -> (r: Option<
    Result<Vec<u8>, ReadError>,
>)
    ensures
        outcome(r) == of_phases(di1, di0, a@, b@, c@),
{
    if di0 != 0 {
        return None;
    }
    match di1 {
        0x01 => Some(Ok(a)),
        0x02 => Some(Ok(b)),
        0x03 => Some(Ok(c)),
        0xFF => {
            let mut data = a;
            append(&mut data, b.as_slice());
            append(&mut data, c.as_slice());
            Some(Ok(data))
        },
        _ => None,
    }
}

fn pick_total_or_phase(
    di1: u8,
    di0: u8,
    total: Vec<u8>,
    a: Vec<u8>,
    b: Vec<u8>,
    c: Vec<u8>,
) -> (r: Option<Result<Vec<u8>, ReadError>>)
    ensures
        outcome(r) == of_total_and_phases(di1, di0, total@, a@, b@, c@),
{
    if di0 != 0 {
        return None;
    }
    match di1 {
        0x00 => Some(Ok(total)),
        0x01 => Some(Ok(a)),
        0x02 => Some(Ok(b)),
        0x03 => Some(Ok(c)),
        0xFF => {
            let mut data = total;
            append(&mut data, a.as_slice());
            append(&mut data, b.as_slice());
            append(&mut data, c.as_slice());
            Some(Ok(data))
        },
        _ => None,
    }
}

impl DIHandler {
    /// Reads an instantaneous value; `None` if the identifier is not one.
    pub fn handle_instantaneous_read(&self, di: [u8; 4], state: &MeterState) -> (r: Option<
        Result<Vec<u8>, ReadError>,
    >)
        ensures
            outcome(r) == instantaneous_read(di@, *state),
    {
        let (di2, di1, di0): (u8, u8, u8) = (di[2], di[1], di[0]);
        if di[3] != 0x02 {
            return None;
        }
        match di2 {
            0x01 => pick_phase(
                di1,
                di0,
                encode_bcd_voltage(state.voltage_a),
                encode_bcd_voltage(state.voltage_b),
                encode_bcd_voltage(state.voltage_c),
            ),
            0x02 => pick_phase(
                di1,
                di0,
                encode_bcd_current(state.current_a),
                encode_bcd_current(state.current_b),
                encode_bcd_current(state.current_c),
            ),
            0x03 => pick_total_or_phase(
                di1,
                di0,
                encode_bcd_power(state.active_power_total),
                encode_bcd_power(state.active_power_a),
                encode_bcd_power(state.active_power_b),
                encode_bcd_power(state.active_power_c),
            ),
            0x04 => pick_total_or_phase(
                di1,
                di0,
                encode_bcd_power(state.reactive_power_total),
                encode_bcd_power(state.reactive_power_a),
                encode_bcd_power(state.reactive_power_b),
                encode_bcd_power(state.reactive_power_c),
            ),
            0x05 => pick_total_or_phase(
                di1,
                di0,
                encode_bcd_power(state.apparent_power_total),
                encode_bcd_power(magnitude(state.active_power_a, state.reactive_power_a)),
                encode_bcd_power(magnitude(state.active_power_b, state.reactive_power_b)),
                encode_bcd_power(magnitude(state.active_power_c, state.reactive_power_c)),
            ),
            0x06 => pick_total_or_phase(
                di1,
                di0,
                encode_bcd_power_factor(state.power_factor),
                encode_bcd_power_factor(state.power_factor),
                encode_bcd_power_factor(state.power_factor),
                encode_bcd_power_factor(state.power_factor),
            ),
            0x07 => {
                let angle = encode_bcd(state.phase_angle_degrees(), 2, 1);
                if 1 <= di1 && di1 <= 3 && di0 <= 3 {
                    Some(Ok(angle))
                } else if di1 == 0xFF && di0 == 0 {
                    let mut data = encode_bcd(state.phase_angle_degrees(), 2, 1);
                    append(&mut data, angle.as_slice());
                    append(&mut data, angle.as_slice());
                    append(&mut data, angle.as_slice());
                    Some(Ok(data))
                } else {
                    None
                }
            },
            0x08 => pick_phase(
                di1,
                di0,
                encode_bcd(state.voltage_thd[0], 2, 2),
                encode_bcd(state.voltage_thd[1], 2, 2),
                encode_bcd(state.voltage_thd[2], 2, 2),
            ),
            0x09 => pick_phase(
                di1,
                di0,
                encode_bcd(state.current_thd[0], 2, 2),
                encode_bcd(state.current_thd[1], 2, 2),
                encode_bcd(state.current_thd[2], 2, 2),
            ),
            0x0A => if 1 <= di1 && di1 <= 3 {
                let orders: [Quantity; 22] = state.voltage_harmonics[di1 as usize - 1];
                Some(Self::read_harmonic(&orders, di0))
            } else {
                None
            },
            0x0B => if 1 <= di1 && di1 <= 3 {
                let orders: [Quantity; 22] = state.current_harmonics[di1 as usize - 1];
                Some(Self::read_harmonic(&orders, di0))
            } else {
                None
            },
            0x80 => if di1 == 0x00 {
                match Self::read_other(di0, state) {
                    Some(data) => Some(Ok(data)),
                    None => None,
                }
            } else {
                None
            },
            _ => None,
        }
    }

    fn read_other(di0: u8, state: &MeterState) -> (r: Option<Vec<u8>>)
        ensures
            r is Some <==> other_item(*state, di0) is Some,
            r matches Some(v) ==> other_item(*state, di0) == Some(v@),
    {
        match di0 {
            0x01 => Some(encode_bcd_current(state.neutral_current)),
            0x02 => Some(encode_bcd(state.frequency, 2, 2)),
            0x03 => Some(encode_bcd_power(state.active_power_total)),
            0x04 => Some(encode_bcd_power(state.max_demand)),
            0x05 => Some(encode_bcd_power(state.max_demand)),
            0x06 => Some(encode_bcd_power(state.apparent_power_total)),
            0x07 => Some(encode_bcd(state.meter_temperature, 2, 1)),
            0x08 => Some(encode_bcd(state.clock_battery_voltage, 2, 2)),
            0x09 => Some(encode_bcd(state.outage_battery_voltage, 2, 2)),
            0x0A => Some(u64_to_bcd(state.battery_work_minutes as u64, 4)),
            0x0B => Some(encode_bcd(state.current_step_price, 2, 4)),
            _ => None,
        }
    }

    fn read_harmonic(orders: &[Quantity; 22], harmonic: u8) -> (r: Result<Vec<u8>, ReadError>)
        ensures
            result_bytes(r) == harmonic_item(orders@, harmonic),
    {
        if harmonic == 0xFF {
            let mut data: Vec<u8> = Vec::new();
            for i in 0..21usize
                invariant
                    data@ == harmonics_in_turn(orders@, i as nat),
            {
                let one = encode_bcd(orders[i + 1], 2, 2);
                append(&mut data, one.as_slice());
            }
            Ok(data)
        } else {
            let order: u8 = bcd_to_decimal(harmonic);
            if 1 <= order && order <= 21 {
                Ok(encode_bcd(orders[order as usize], 2, 2))
            } else {
                Err(ReadError::HarmonicOutOfRange { order })
            }
        }
    }
}

} // verus!

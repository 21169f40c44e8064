//! Energies (00-xx-xx-xx).

use crate::bytes::append;
use crate::simulation::di_handler::encoding::{
    bcd_to_decimal, decimal_of, encode_bcd_energy, energy_bytes,
};
use crate::simulation::di_handler::read_error::{outcome, result_bytes, ReadError};
use crate::simulation::di_handler::DIHandler;
use crate::simulation::state::{EnergyType, MeterState};
use vstd::prelude::*;

verus! {

/// The kind of energy of the third identifier byte.
pub open spec fn energy_group(di2: u8) -> Option<EnergyType> {
    match di2 {
        0x00u8 => Some(EnergyType::CombinedActive),
        0x01u8 => Some(EnergyType::ForwardActive),
        0x02u8 => Some(EnergyType::ReverseActive),
        0x03u8 => Some(EnergyType::ForwardReactive),
        0x04u8 => Some(EnergyType::ReverseReactive),
        0x05u8 => Some(EnergyType::Quadrant1Reactive),
        0x06u8 => Some(EnergyType::Quadrant2Reactive),
        0x07u8 => Some(EnergyType::Quadrant3Reactive),
        0x08u8 => Some(EnergyType::Quadrant4Reactive),
        0x09u8 => Some(EnergyType::ForwardApparent),
        0x0Au8 => Some(EnergyType::ReverseApparent),
        _ => None,
    }
}

/// The phase whose forward active energy the third identifier byte means.
pub open spec fn phase_group(di2: u8) -> Option<u8> {
    match di2 {
        0x15u8 => Some(0),
        0x29u8 => Some(1),
        0x3Du8 => Some(2),
        _ => None,
    }
}

/// The second identifier byte means the total (00), a rate (01 to 3F) or all (FF).
pub open spec fn rate_selector(di1: u8) -> bool {
    di1 <= 0x3F || di1 == 0xFF
}

/// The total and then rates 1 to `n`, four bytes each.
pub open spec fn total_and_rates(s: MeterState, t: EnergyType, settlement: u8, n: nat) -> Seq<u8>
    decreases n,
{
    if n == 0 {
        energy_bytes(s.settled_energy(settlement, t, 0))
    } else {
        total_and_rates(s, t, settlement, (n - 1) as nat) + energy_bytes(
            s.settled_energy(settlement, t, n as u8),
        )
    }
}

/// The total, one rate, or the total and all rates of a kind of energy.
pub open spec fn energy_item(s: MeterState, t: EnergyType, di1: u8, settlement: u8) -> Result<
    Seq<u8>,
    ReadError,
> {
    if di1 == 0x00 {
        Ok(energy_bytes(s.settled_energy(settlement, t, 0)))
    } else if di1 <= 0x3F {
        let rate = decimal_of(di1);
        if 1 <= rate <= s.num_rates {
            Ok(energy_bytes(s.settled_energy(settlement, t, rate)))
        } else {
            Err(ReadError::RateOutOfRange { rate, configured: s.num_rates })
        }
    } else {
        Ok(total_and_rates(s, t, settlement, s.num_rates as nat))
    }
}

/// An item for slots 0 to `n - 1`, one after the other.
pub open spec fn slots_in_turn(s: MeterState, t: EnergyType, di1: u8, n: nat) -> Seq<u8>
    decreases n,
{
    if n == 0 {
        seq![]
    } else {
        slots_in_turn(s, t, di1, (n - 1) as nat) + energy_item(s, t, di1, (n - 1) as u8)->Ok_0
    }
}

/// An item for one settlement slot, or for the present period and the twelve slots (FF).
pub open spec fn settled_item(s: MeterState, t: EnergyType, di1: u8, di0: u8) -> Result<
    Seq<u8>,
    ReadError,
> {
    if di0 != 0xFF {
        energy_item(s, t, di1, decimal_of(di0))
    } else {
        match energy_item(s, t, di1, 0) {
            Ok(_) => Ok(slots_in_turn(s, t, di1, 13)),
            Err(e) => Err(e),
        }
    }
}

/// What an energy identifier reads. The first byte is the settlement slot: 00 the present
/// period, 01 to 0C the last twelve, FF all of them one after the other.
pub open spec fn energy_read(di: Seq<u8>, s: MeterState) -> Option<Result<Seq<u8>, ReadError>> {
    let settlement = decimal_of(di[0]);
    if di[3] != 0x00 || (di[0] != 0xFF && settlement > 12) {
        None
    } else if di[1] == 0x00 && di[0] != 0xFF && phase_group(di[2]) is Some {
        Some(Ok(energy_bytes(s.phase_energy(settlement, phase_group(di[2])->Some_0))))
    } else if di[2] == 0x80 {
        if rate_selector(di[1]) {
            Some(settled_item(s, EnergyType::ForwardActive, di[1], di[0]))
        } else {
            None
        }
    } else if di[2] == 0x0B && settlement == 0 {
        if di[1] == 0x00 {
            Some(Ok(energy_bytes(s.settled_energy(0, EnergyType::CombinedActive, 0))))
        } else {
            None
        }
    } else if di[2] == 0x90 && settlement == 0 && di[1] == 0x01 {
        Some(Ok(energy_bytes(s.remaining_energy)))
    } else if di[2] == 0x90 && settlement == 0 && di[1] == 0x02 {
        Some(Ok(energy_bytes(s.remaining_amount)))
    } else {
        match energy_group(di[2]) {
            None => None,
            Some(t) => if rate_selector(di[1]) {
                Some(settled_item(s, t, di[1], di[0]))
            } else {
                None
            },
        }
    }
}

fn write_total_and_rates(state: &MeterState, t: EnergyType, settlement: u8) -> (r: Vec<u8>)
    ensures
        r@ == total_and_rates(*state, t, settlement, state.num_rates as nat),
{
    let mut data = encode_bcd_energy(state.get_settlement_energy(settlement, t, None));
    for i in 0..state.num_rates
        invariant
            data@ == total_and_rates(*state, t, settlement, i as nat),
    {
        let value = encode_bcd_energy(state.get_settlement_energy(settlement, t, Some(i + 1)));
        append(&mut data, value.as_slice());
    }
    data
}

impl DIHandler {
    /// Reads an energy; `None` if the identifier is not one of an energy.
    pub fn handle_energy_read(&self, di: [u8; 4], state: &MeterState) -> (r: Option<
        Result<Vec<u8>, ReadError>,
    >)
        ensures
            outcome(r) == energy_read(di@, *state),
    {
        if di[3] != 0x00 {
            return None;
        }
        let settlement: u8 = bcd_to_decimal(di[0]);
        if di[0] != 0xFF && settlement > 12 {
            return None;
        }
        if di[1] == 0x00 && di[0] != 0xFF {
            if let Some(phase) = Self::phase_for_di2(di[2]) {
                return Some(Ok(encode_bcd_energy(state.get_phase_energy(settlement, phase))));
            }
        }
        if di[2] == 0x80 {
            if di[1] <= 0x3F || di[1] == 0xFF {
                return Some(
                    Self::read_settled_item(EnergyType::ForwardActive, di[1], di[0], state),
                );
            }
            return None;
        }
        if di[2] == 0x0B && settlement == 0 {
            if di[1] == 0x00 {
                return Some(
                    Ok(
                        encode_bcd_energy(
                            state.get_settlement_energy(0, EnergyType::CombinedActive, None),
                        ),
                    ),
                );
            }
            return None;
        }
        if di[2] == 0x90 && settlement == 0 && di[1] == 0x01 {
            return Some(Ok(encode_bcd_energy(state.remaining_energy)));
        }
        if di[2] == 0x90 && settlement == 0 && di[1] == 0x02 {
            return Some(Ok(encode_bcd_energy(state.remaining_amount)));
        }
        match Self::energy_type_for_di2(di[2]) {
            None => None,
            Some(t) => if di[1] <= 0x3F || di[1] == 0xFF {
                Some(Self::read_settled_item(t, di[1], di[0], state))
            } else {
                None
            },
        }
    }

    /// The kind of energy of the third identifier byte.
    pub fn energy_type_for_di2(di2: u8) -> (r: Option<EnergyType>)
        ensures
            r == energy_group(di2),
    {
        match di2 {
            0x00 => Some(EnergyType::CombinedActive),
            0x01 => Some(EnergyType::ForwardActive),
            0x02 => Some(EnergyType::ReverseActive),
            0x03 => Some(EnergyType::ForwardReactive),
            0x04 => Some(EnergyType::ReverseReactive),
            0x05 => Some(EnergyType::Quadrant1Reactive),
            0x06 => Some(EnergyType::Quadrant2Reactive),
            0x07 => Some(EnergyType::Quadrant3Reactive),
            0x08 => Some(EnergyType::Quadrant4Reactive),
            0x09 => Some(EnergyType::ForwardApparent),
            0x0A => Some(EnergyType::ReverseApparent),
            _ => None,
        }
    }

    fn phase_for_di2(di2: u8) -> (r: Option<u8>)
        ensures
            r == phase_group(di2),
            r matches Some(p) ==> p < 3,
    {
        match di2 {
            0x15 => Some(0),
            0x29 => Some(1),
            0x3D => Some(2),
            _ => None,
        }
    }

    fn read_energy_item(t: EnergyType, di1: u8, settlement: u8, state: &MeterState) -> (r: Result<
        Vec<u8>,
        ReadError,
    >)
        ensures
            result_bytes(r) == energy_item(*state, t, di1, settlement),
    {
        if di1 == 0x00 {
            Ok(encode_bcd_energy(state.get_settlement_energy(settlement, t, None)))
        } else if di1 <= 0x3F {
            let rate: u8 = bcd_to_decimal(di1);
            if rate >= 1 && rate <= state.num_rates {
                Ok(encode_bcd_energy(state.get_settlement_energy(settlement, t, Some(rate))))
            } else {
                Err(ReadError::RateOutOfRange { rate, configured: state.num_rates })
            }
        } else {
            Ok(write_total_and_rates(state, t, settlement))
        }
    }

    fn read_settled_item(t: EnergyType, di1: u8, di0: u8, state: &MeterState) -> (r: Result<
        Vec<u8>,
        ReadError,
    >)
        ensures
            result_bytes(r) == settled_item(*state, t, di1, di0),
    {
        if di0 == 0xFF {
            Self::read_energy_span_block(t, di1, state)
        } else {
            Self::read_energy_item(t, di1, bcd_to_decimal(di0), state)
        }
    }

    fn read_energy_span_block(t: EnergyType, di1: u8, state: &MeterState) -> (r: Result<
        Vec<u8>,
        ReadError,
    >)
        ensures
            result_bytes(r) == settled_item(*state, t, di1, 0xFF),
    {
        let mut data: Vec<u8> = Vec::new();
        for settlement in 0..13u8
            invariant
                settlement > 0 ==> energy_item(*state, t, di1, 0) is Ok,
                data@ == slots_in_turn(*state, t, di1, settlement as nat),
        {
            let slot = Self::read_energy_item(t, di1, settlement, state)?;
            append(&mut data, slot.as_slice());
        }
        Ok(data)
    }
}

} // verus!

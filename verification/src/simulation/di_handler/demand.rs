//! Maximum demands and when they occurred (01-xx-xx-xx).

use crate::bytes::append;
use crate::simulation::di_handler::encoding::{
    bcd_to_decimal, decimal_of, encode_bcd_power, encode_datetime_minutes, minute_bytes,
    power_bytes,
};
use crate::simulation::di_handler::read_error::{outcome, ReadError};
use crate::simulation::di_handler::DIHandler;
use crate::simulation::state::{DemandValue, EnergyType, MeterState};
use vstd::prelude::*;

verus! {

/// The kind of energy of the third identifier byte.
pub open spec fn demand_group(di2: u8) -> Option<EnergyType> {
    match di2 {
        0x01u8 => Some(EnergyType::ForwardActive),
        0x02u8 => Some(EnergyType::ReverseActive),
        0x03u8 => Some(EnergyType::ForwardReactive),
        0x04u8 => Some(EnergyType::ReverseReactive),
        0x05u8 => Some(EnergyType::Quadrant1Reactive),
        0x06u8 => Some(EnergyType::Quadrant2Reactive),
        0x07u8 => Some(EnergyType::Quadrant3Reactive),
        0x08u8 => Some(EnergyType::Quadrant4Reactive),
        0x09u8 => Some(EnergyType::ForwardApparent),
        0x0Au8 => Some(EnergyType::ReverseApparent),
        _ => None,
    }
}

/// The phase whose demand the third identifier byte means, 1 to 3.
pub open spec fn demand_phase(di2: u8) -> Option<u8> {
    if 0x15 <= di2 <= 0x1E {
        Some(1)
    } else if 0x29 <= di2 <= 0x32 {
        Some(2)
    } else if 0x3D <= di2 <= 0x46 {
        Some(3)
    } else {
        None
    }
}

/// A demand with the minute in which it occurred: XX.XXXX kW, then mm hh DD MM YY.
pub open spec fn demand_bytes(d: DemandValue) -> Seq<u8> {
    power_bytes(d.value) + minute_bytes(d.time.cal())
}

/// The total demand and then that of rates 1 to `n`.
pub open spec fn demand_and_rates(s: MeterState, settlement: u8, t: EnergyType, n: nat) -> Seq<u8>
    decreases n,
{
    if n == 0 {
        demand_bytes(s.demand(settlement, 0, t, 0))
    } else {
        demand_and_rates(s, settlement, t, (n - 1) as nat) + demand_bytes(
            s.demand(settlement, 0, t, n as u8),
        )
    }
}

/// What a demand identifier reads. The first byte is the settlement slot, 00 to 0C.
pub open spec fn demand_read(di: Seq<u8>, s: MeterState) -> Option<Result<Seq<u8>, ReadError>> {
    if di[3] != 0x01 || di[0] > 0x0C {
        None
    } else {
        match (demand_phase(di[2]), demand_group(di[2])) {
            (Some(phase), _) => if di[1] == 0x00 {
                Some(Ok(demand_bytes(s.demand(di[0], phase, EnergyType::ForwardActive, 0))))
            } else {
                None
            },
            (None, None) => None,
            (None, Some(t)) => if di[1] == 0x00 {
                Some(Ok(demand_bytes(s.demand(di[0], 0, t, 0))))
            } else if di[1] <= 0x3F {
                let rate = decimal_of(di[1]);
                if 1 <= rate <= s.num_rates {
                    Some(Ok(demand_bytes(s.demand(di[0], 0, t, rate))))
                } else {
                    Some(Err(ReadError::RateOutOfRange { rate, configured: s.num_rates }))
                }
            } else if di[1] == 0xFF {
                Some(Ok(demand_and_rates(s, di[0], t, s.num_rates as nat)))
            } else {
                None
            },
        }
    }
}

fn write_demand(d: &DemandValue) -> (r: Vec<u8>)
    ensures
        r@ == demand_bytes(*d),
{
    let mut data = encode_bcd_power(d.value);
    let time = encode_datetime_minutes(&d.time);
    append(&mut data, time.as_slice());
    data
}

impl DIHandler {
    /// Reads a demand; `None` if the identifier is not one of a demand.
    pub fn handle_demand_read(&self, di: [u8; 4], state: &MeterState) -> (r: Option<
        Result<Vec<u8>, ReadError>,
    >)
        ensures
            outcome(r) == demand_read(di@, *state),
    {
        if di[3] != 0x01 {
            return None;
        }
        if di[0] > 0x0C {
            return None;
        }
        if let Some(phase) = Self::demand_phase_for_di2(di[2]) {
            if di[1] == 0x00 {
                let demand = state.get_demand(di[0], phase, EnergyType::ForwardActive, None);
                return Some(Ok(write_demand(&demand)));
            }
            return None;
        }
        let t = match Self::demand_type_for_di2(di[2]) {
            Some(t) => t,
            None => {
                return None;
            },
        };
        if di[1] == 0x00 {
            Some(Ok(write_demand(&state.get_demand(di[0], 0, t, None))))
        } else if di[1] <= 0x3F {
            let rate: u8 = bcd_to_decimal(di[1]);
            if rate >= 1 && rate <= state.num_rates {
                Some(Ok(write_demand(&state.get_demand(di[0], 0, t, Some(rate)))))
            } else {
                Some(Err(ReadError::RateOutOfRange { rate, configured: state.num_rates }))
            }
        } else if di[1] == 0xFF {
            let mut data = write_demand(&state.get_demand(di[0], 0, t, None));
            for i in 0..state.num_rates
                invariant
                    data@ == demand_and_rates(*state, di@[0], t, i as nat),
            {
                let one = write_demand(&state.get_demand(di[0], 0, t, Some(i + 1)));
                append(&mut data, one.as_slice());
            }
            Some(Ok(data))
        } else {
            None
        }
    }

    fn demand_phase_for_di2(di2: u8) -> (r: Option<u8>)
        ensures
            r == demand_phase(di2),
    {
        if 0x15 <= di2 && di2 <= 0x1E {
            Some(1)
        } else if 0x29 <= di2 && di2 <= 0x32 {
            Some(2)
        } else if 0x3D <= di2 && di2 <= 0x46 {
            Some(3)
        } else {
            None
        }
    }

    /// The kind of energy of the third identifier byte of a demand.
    pub fn demand_type_for_di2(di2: u8) -> (r: Option<EnergyType>)
        ensures
            r == demand_group(di2),
    {
        match di2 {
            0x01 => Some(EnergyType::ForwardActive),
            0x02 => Some(EnergyType::ReverseActive),
            0x03 => Some(EnergyType::ForwardReactive),
            0x04 => Some(EnergyType::ReverseReactive),
            0x05 => Some(EnergyType::Quadrant1Reactive),
            0x06 => Some(EnergyType::Quadrant2Reactive),
            0x07 => Some(EnergyType::Quadrant3Reactive),
            0x08 => Some(EnergyType::Quadrant4Reactive),
            0x09 => Some(EnergyType::ForwardApparent),
            0x0A => Some(EnergyType::ReverseApparent),
            _ => None,
        }
    }
}

} // verus!

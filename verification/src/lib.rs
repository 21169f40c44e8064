//! A simulated electricity meter that speaks DL/T 645-2007.

use crate::error::ParseFault;
use crate::protocol::format::{address_byte, address_digits_valid, parse_address};
use crate::simulation::defaults::new_meter;
use crate::simulation::load_model::LoadModelConfig;
use crate::simulation::state::MeterState;
use crate::simulation::virtual_meter::fresh_engine;
use vstd::prelude::*;
use vstd::utf8::encode_utf8;

pub mod actor;
pub mod angle;
pub mod bytes;
pub mod communication_log;
pub mod connection;
pub mod error;
pub mod field_value;
pub mod laws;
pub mod persistence;
pub mod protocol;
pub mod quantity;
pub mod router;
pub mod simulation;
pub mod sorting;
pub mod table;
pub mod text;
pub mod time;

pub use connection::{
    ConnectionCommand, ConnectionResult, ConnectionStatus, SerialDataBits, SerialParity,
    SerialSettings, SerialStopBits,
};
pub use error::MeterError;
pub use simulation::{
    EnergyType, FreezeType, LoadProfile, PhysicsConfig, PhysicsEngine, VirtualMeter,
    VirtualMeterConfig,
};

verus! {

/// A meter of the default configuration.
pub fn create_default_meter() -> (r: VirtualMeter)
    ensures
        r.wf(),
        !r@.persistent,
        r@.state.address@ == seq![0x12u8, 0x34, 0x56, 0x78, 0x90, 0x12],
        r@.engine == fresh_engine(r@.config.physics_config.load_model),
        r@.engine.load_model.is_default(),
        exists|fresh: MeterState| #[trigger]
            new_meter(fresh, fresh.virtual_time, fresh.max_demand_time) && r@.state == (
            MeterState { address: r@.config.address, ..fresh }),
{
    VirtualMeter::default()
}

/// A meter with the given address and load profile, otherwise of the default configuration.
/// The address is refused unless it is twelve hexadecimal digits.
pub fn create_meter(address: &str, load_profile: LoadProfile) -> (r: Result<
    VirtualMeter,
    MeterError,
>)
    ensures
        ({
            let text = encode_utf8(address@);
            &&& r is Ok <==> text.len() == 12 && address_digits_valid(text)
            &&& r matches Err(e) ==> e == (if text.len() != 12 {
                MeterError::ParseError(ParseFault::AddressLength { actual: text.len() as usize })
            } else {
                MeterError::ParseError(ParseFault::HexDigit)
            })
            &&& r matches Ok(meter) ==> {
                &&& meter.wf()
                &&& !meter@.persistent
                &&& forall|i: int|
                    0 <= i < 6 ==> address_byte(text, i) == Some(
                        (#[trigger] meter@.state.address@[i]) as int,
                    )
                &&& meter@.engine == fresh_engine(meter@.config.physics_config.load_model)
                &&& exists|d: LoadModelConfig| #[trigger]
                    d.is_default() && meter@.engine.load_model == (LoadModelConfig {
                        profile: load_profile,
                        ..d
                    })
                &&& exists|fresh: MeterState| #[trigger]
                    new_meter(fresh, fresh.virtual_time, fresh.max_demand_time)
                        && meter@.state == (MeterState { address: meter@.config.address, ..fresh })
            }
        }),
{
    let bytes: [u8; 6] = match parse_address(address) {
        Ok(bytes) => bytes,
        Err(e) => {
            return Err(e);
        },
    };
    let mut config = VirtualMeterConfig::default();
    assert(config.physics_config.load_model.is_default());
    config.address = bytes;
    config.physics_config.load_model.profile = load_profile;
    Ok(VirtualMeter::new(config))
}

} // verus!

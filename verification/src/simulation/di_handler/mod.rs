//! Data items: what each identifier reads and writes.

use crate::simulation::di_handler::demand::demand_read;
use crate::simulation::di_handler::energy::energy_read;
use crate::simulation::di_handler::event::event_read;
use crate::simulation::di_handler::instantaneous::instantaneous_read;
use crate::simulation::di_handler::parameter::parameter_read;
use crate::simulation::di_handler::read_error::{result_bytes, ReadError};
use crate::simulation::state::MeterState;
use vstd::prelude::*;

pub mod demand;
pub mod encoding;
pub mod energy;
pub mod event;
pub mod instantaneous;
pub mod load_profile;
pub mod parameter;
pub mod read_error;
pub mod write;

verus! {

/// Reads and writes the data items of a meter. It holds nothing itself.
#[derive(Debug, Clone, Copy)]
pub struct DIHandler;

/// What an identifier reads from memory. Frozen data and load curves are in the store.
pub open spec fn memory_read(di: Seq<u8>, s: MeterState) -> Result<Seq<u8>, ReadError> {
    match (energy_read(di, s), instantaneous_read(di, s), demand_read(di, s), parameter_read(
        di,
        s,
    )) {
        (Some(r), _, _, _) => r,
        (None, Some(r), _, _) => r,
        (None, None, Some(r), _) => r,
        (None, None, None, Some(bytes)) => Ok(bytes),
        _ => if di[3] == 0x03 {
            event_read(di, s)
        } else if di[3] == 0x05 || (di[3] == 0x06 && di[2] == 0x10) {
            Err(ReadError::NeedsStore)
        } else {
            Err(ReadError::Unsupported { di3: di[3], di2: di[2], di1: di[1], di0: di[0] })
        },
    }
}

impl DIHandler {
    pub fn new() -> (r: DIHandler)
        ensures
            r == DIHandler,
    {
        DIHandler
    }

    /// Reads a data item from memory.
    pub fn handle_read(&self, di: [u8; 4], state: &MeterState) -> (r: Result<Vec<u8>, ReadError>)
        ensures
            result_bytes(r) == memory_read(di@, *state),
    {
        self.handle_read_sync(di, state)
    }

    /// Reads a data item from memory.
    pub fn handle_read_sync(&self, di: [u8; 4], state: &MeterState) -> (r: Result<
        Vec<u8>,
        ReadError,
    >)
        ensures
            result_bytes(r) == memory_read(di@, *state),
    {
        if let Some(result) = self.handle_energy_read(di, state) {
            return result;
        }
        if let Some(result) = self.handle_instantaneous_read(di, state) {
            return result;
        }
        if let Some(result) = self.handle_demand_read(di, state) {
            return result;
        }
        if let Some(bytes) = self.handle_parameter_read(di, state) {
            return Ok(bytes);
        }
        if di[3] == 0x03 {
            self.handle_event_record_read(di, state)
        } else if di[3] == 0x05 || (di[3] == 0x06 && di[2] == 0x10) {
            Err(ReadError::NeedsStore)
        } else {
            Err(ReadError::Unsupported { di3: di[3], di2: di[2], di1: di[1], di0: di[0] })
        }
    }
}

} // verus!

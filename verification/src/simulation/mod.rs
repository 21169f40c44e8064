//! The simulated meter: its state, its physics and its data items.

pub mod command_error;
pub mod commands;
pub mod config;
pub mod defaults;
pub mod demand_window;
pub mod di_handler;
pub mod event;
pub mod faults;
pub mod freeze;
pub mod history;
pub mod load_model;
pub mod load_record;
pub mod measurement;
pub mod physics_engine;
pub mod schedule;
pub mod state;
pub mod tariff;
pub mod virtual_meter;

pub use di_handler::DIHandler;
pub use freeze::{FreezeTrigger, FreezeType};
pub use load_model::{LoadModelConfig, LoadProfile, PhysicsConfig, SimulationConfig};
pub use physics_engine::PhysicsEngine;
pub use state::{EnergyType, MeterState};
pub use tariff::{TimeSlot, TimeSlotTable, TouConfig};
pub use virtual_meter::{address_to_string, string_to_address, VirtualMeter, VirtualMeterConfig};

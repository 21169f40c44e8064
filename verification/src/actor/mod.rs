//! The commands that reach a meter, and what it answers.

pub mod admin;
pub mod continuation;
pub mod freeze_history;
pub mod messages;
pub mod meter_actor;

pub use messages::{AdminCommand, ProtocolCommand, RegistryMsg, TickMsg};
pub use meter_actor::{MeterActor, MeterActorConfig};

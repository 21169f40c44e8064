//! What holds of a meter as a whole: how measured values, reads, faults, freezes and commands
//! relate to each other and to the physics they stand for.

pub mod administration;
pub mod answers;
pub mod arithmetic;
pub mod clock;
pub mod commands;
pub mod demands;
pub mod digits;
pub mod energies;
pub mod faults;
pub mod frames;
pub mod freezes;
pub mod load_records;
pub mod new_meters;
pub mod parameters;
pub mod power;
pub mod readings;
pub mod steps;
pub mod storage;
pub mod texts;

//! What the meter stores and how stored settings are read back.

pub mod decimal;
pub mod json;
pub mod rows;
pub mod saves;
pub mod settings;
pub mod settings_tree;
pub mod types;

pub use rows::PersistenceConfig;
pub use types::{
    EnergyRegisterRow, EventRecordRow, FreezeSnapshotRow, LoadProfileSampleRow, LoadRecordRow,
    MaxDemandRow, PersistRequest, PersistedMeterSettings,
};

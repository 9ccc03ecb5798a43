pub mod address;
pub mod types;
pub mod metering;
pub mod model;
pub mod contract;
pub mod laws;

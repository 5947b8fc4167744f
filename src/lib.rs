//! Admission-controlled benchmark server and load generator: the logic that
//! decides, counts and aggregates, with its contracts.

pub mod stats;
pub mod admission;
pub mod client;
pub mod server;

//! The hardware telemetry snapshot: a point-in-time, unit-bearing view of
//! temperatures, fans, battery state and hardware access health.
pub mod adapters;
pub mod cadence;
pub mod contract;
pub mod snapshot;

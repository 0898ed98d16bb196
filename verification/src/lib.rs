//! Verified core of SuperFan: thermal policy, preferences, fan actuation
//! protocol and hardware telemetry contracts.
pub mod application_preferences;
pub mod commands;
pub mod fan_actuation;
pub mod hardware_telemetry;
pub mod smc;
pub mod text;
pub mod thermal_policy;

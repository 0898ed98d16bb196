//! Application preferences: display temperature unit, telemetry cadence and
//! launch at login, with one authoritative snapshot and one tagged change.
pub mod contract;
pub mod preferences;

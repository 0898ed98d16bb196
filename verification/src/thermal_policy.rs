//! Thermal policy: presets and custom rules that turn one hardware telemetry
//! snapshot into a fan plan.
pub mod contract;
pub mod evaluator;
pub mod laws;
pub mod runtime;
pub mod settings;
pub mod state;

//! Unit-bearing telemetry types.
//!
//! Temperatures are whole milli-degrees Celsius and battery power is whole
//! milliwatts, so that every reading is an exact integer.
use vstd::prelude::*;

verus! {

/// Whether a hardware group could be read.
#[derive(Debug, Clone, PartialEq, Eq)]
pub enum Availability<T> {
    Available { value: T },
    NotPresent,
    Unavailable { reason: String },
}

/// One named temperature sensor.
#[derive(Debug, Clone, PartialEq, Eq)]
pub struct TemperatureReading {
    pub key: String,
    pub label: String,
    pub millicelsius: i32,
}

/// The temperatures that a snapshot reports.
#[derive(Debug, Clone, PartialEq, Eq)]
pub struct TemperatureReadings {
    pub cpu_millicelsius: Option<i32>,
    pub gpu_millicelsius: Option<i32>,
    pub sensors: Vec<TemperatureReading>,
}

/// Who drives a fan.
#[derive(Debug, Clone, Copy, PartialEq, Eq, Structural)]
pub enum FanMode {
    SystemAuto,
    Manual,
}

/// One fan's measurements; unreadable measurements are absent.
#[derive(Debug, Clone, PartialEq, Eq)]
pub struct FanReading {
    pub id: usize,
    pub label: String,
    pub speed_rpm: i32,
    pub min_speed_rpm: Option<i32>,
    pub max_speed_rpm: Option<i32>,
    pub target_speed_rpm: Option<i32>,
    pub mode: Option<FanMode>,
}

/// Battery measurements; unreadable measurements are absent.
#[derive(Debug, Clone, Copy, PartialEq, Eq, Structural)]
pub struct BatteryReading {
    pub charge_percent: Option<i32>,
    pub temperature_millicelsius: Option<i32>,
    pub is_charging: Option<bool>,
    pub cycle_count: Option<i32>,
    pub power_milliwatts: Option<i64>,
}

/// Readiness of the privileged fan actuation helper.
#[derive(Debug, Clone, Copy, PartialEq, Eq, Structural)]
pub enum FanActuationStatus {
    NotRegistered,
    RequiresApproval,
    Ready,
    Unavailable,
}

/// A point-in-time normalized view of the hardware.
#[derive(Debug, Clone, PartialEq, Eq)]
pub struct HardwareTelemetrySnapshot {
    pub temperatures: Availability<TemperatureReadings>,
    pub fans: Availability<Vec<FanReading>>,
    pub battery: Availability<BatteryReading>,
    pub fan_actuation_status: FanActuationStatus,
    pub captured_at_unix_ms: u64,
}

} // verus!

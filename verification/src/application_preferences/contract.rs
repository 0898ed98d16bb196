//! The preferences snapshot and the changes that can be made to it.
use vstd::prelude::*;

verus! {

/// Whether a telemetry cadence is one of the supported intervals: 1000, 1500
/// or 2500 milliseconds.
pub open spec fn is_supported_interval(interval_ms: u64) -> bool {
    interval_ms == 1_000 || interval_ms == 1_500 || interval_ms == 2_500
}

/// The supported telemetry intervals, fastest first.
pub fn supported_telemetry_intervals_ms() -> (intervals: Vec<u64>)
    ensures
        intervals@ == seq![1_000u64, 1_500u64, 2_500u64],
{
    let mut intervals = Vec::new();
    intervals.push(1_000);
    intervals.push(1_500);
    intervals.push(2_500);
    proof {
        assert(intervals@ =~= seq![1_000u64, 1_500u64, 2_500u64]);
    }
    intervals
}

/// The unit in which temperatures are displayed.
#[derive(Clone, Copy, Debug, Eq, PartialEq, Structural)]
pub enum TemperatureUnit {
    Celsius,
    Fahrenheit,
}

impl Default for TemperatureUnit {
    fn default() -> (unit: Self)
        ensures
            unit == TemperatureUnit::Celsius,
    {
        TemperatureUnit::Celsius
    }
}

/// The authoritative preferences snapshot.
#[derive(Clone, Copy, Debug, Eq, PartialEq, Structural)]
pub struct ApplicationPreferences {
    pub temperature_unit: TemperatureUnit,
    pub telemetry_interval_ms: u64,
    pub launch_at_login: bool,
}

impl ApplicationPreferences {
    /// Celsius, a 1500 ms cadence, and no launch at login.
    pub open spec fn defaults() -> Self {
        ApplicationPreferences {
            temperature_unit: TemperatureUnit::Celsius,
            telemetry_interval_ms: 1_500,
            launch_at_login: false,
        }
    }
}

impl Default for ApplicationPreferences {
    fn default() -> (preferences: Self)
        ensures
            preferences == ApplicationPreferences::defaults(),
    {
        ApplicationPreferences {
            temperature_unit: TemperatureUnit::Celsius,
            telemetry_interval_ms: 1_500,
            launch_at_login: false,
        }
    }
}

/// One tagged change to the preferences.
#[derive(Clone, Copy, Debug, Eq, PartialEq, Structural)]
#[allow(inconsistent_fields)]
pub enum ApplicationPreferenceChange {
    SetTemperatureUnit { value: TemperatureUnit },
    SetTelemetryIntervalMs { value: u64 },
    SetLaunchAtLogin { value: bool },
}

} // verus!

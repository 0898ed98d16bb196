//! Normalization of the IOKit battery reading.
use crate::hardware_telemetry::contract::{Availability, BatteryReading};
use crate::smc::battery::RawBatteryReading;
use vstd::prelude::*;

verus! {

/// The battery group of a snapshot: not present without a battery reading,
/// and otherwise every trusted measurement as it was read.
pub open spec fn battery_group_of(reading: Option<RawBatteryReading>) -> Availability<BatteryReading> {
    match reading {
        Some(b) => Availability::Available {
            value: BatteryReading {
                charge_percent: b.charge_percent,
                temperature_millicelsius: b.temperature_millicelsius,
                is_charging: b.is_charging,
                cycle_count: b.cycle_count,
                power_milliwatts: b.power_milliwatts,
            },
        },
        None => Availability::NotPresent,
    }
}

/// Builds the battery group of a snapshot.
pub fn battery_from_reading(reading: Option<RawBatteryReading>) -> (battery: Availability<
    BatteryReading,
>)
    ensures
        battery == battery_group_of(reading),
{
    match reading {
        Some(b) => Availability::Available {
            value: BatteryReading {
                charge_percent: b.charge_percent,
                temperature_millicelsius: b.temperature_millicelsius,
                is_charging: b.is_charging,
                cycle_count: b.cycle_count,
                power_milliwatts: b.power_milliwatts,
            },
        },
        None => Availability::NotPresent,
    }
}

} // verus!

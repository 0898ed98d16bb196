//! Battery state reported by IOKit, with implausible values left out.
use super::temperature::to_tenth;
use vstd::prelude::*;

verus! {

/// What IOKit reports about the battery, in whole units.
#[derive(Debug, Clone, Copy, PartialEq, Eq, Structural)]
pub struct BatteryInfo {
    pub percentage: i32,
    pub is_charging: i32,
    pub cycle_count: i32,
    pub temperature_millicelsius: i32,
    pub power_milliwatts: i64,
}

/// The battery measurements that can be trusted.
#[derive(Debug, Clone, Copy, PartialEq, Eq, Structural)]
pub struct RawBatteryReading {
    pub charge_percent: Option<i32>,
    pub temperature_millicelsius: Option<i32>,
    pub is_charging: Option<bool>,
    pub cycle_count: Option<i32>,
    pub power_milliwatts: Option<i64>,
}

/// The trusted measurements: a charge of 0–100 %, a temperature above 10 °C
/// and at most 80 °C (to a tenth of a degree), a non-negative cycle count,
/// and a power draw of more than 0.1 W either way.
pub open spec fn battery_reading_of(has_battery: bool, info: BatteryInfo) -> Option<RawBatteryReading> {
    if has_battery {
        Some(
            RawBatteryReading {
                charge_percent: if 0 <= info.percentage <= 100 {
                    Some(info.percentage)
                } else {
                    None
                },
                temperature_millicelsius: if 10_000 < info.temperature_millicelsius <= 80_000 {
                    Some(to_tenth(info.temperature_millicelsius as int) as i32)
                } else {
                    None
                },
                is_charging: Some(info.is_charging != 0),
                cycle_count: if info.cycle_count >= 0 {
                    Some(info.cycle_count)
                } else {
                    None
                },
                power_milliwatts: if info.power_milliwatts > 100 || info.power_milliwatts < -100 {
                    Some(info.power_milliwatts)
                } else {
                    None
                },
            },
        )
    } else {
        None
    }
}

/// Keeps the trusted battery measurements, when a battery is present.
pub fn get_battery_reading(has_battery: bool, info: BatteryInfo) -> (reading: Option<RawBatteryReading>)
    ensures
        reading == battery_reading_of(has_battery, info),
{
    if !has_battery {
        return None;
    }
    let temperature_millicelsius = if 10_000 < info.temperature_millicelsius
        && info.temperature_millicelsius <= 80_000 {
        Some(((info.temperature_millicelsius + 50) / 100) * 100)
    } else {
        None
    };
    Some(
        RawBatteryReading {
            charge_percent: if 0 <= info.percentage && info.percentage <= 100 {
                Some(info.percentage)
            } else {
                None
            },
            temperature_millicelsius,
            is_charging: Some(info.is_charging != 0),
            cycle_count: if info.cycle_count >= 0 {
                Some(info.cycle_count)
            } else {
                None
            },
            power_milliwatts: if info.power_milliwatts > 100 || info.power_milliwatts < -100 {
                Some(info.power_milliwatts)
            } else {
                None
            },
        },
    )
}

/// With no battery there is no reading.  With a battery, every trusted
/// measurement is kept and every untrusted one is left out: the charge is
/// kept exactly when it is 0–100 % (a full battery included); the
/// temperature exactly when it is above 10 °C and at most 80 °C, and then to
/// the nearest tenth of a degree (a multiple of 100 m°C within half a tenth,
/// halves rounding up); charging is reported as any non-zero flag; the
/// cycle count exactly when it is not negative; and the power exactly when
/// it exceeds 0.1 W either way.
pub proof fn law_battery_keeps_exactly_the_trusted_measurements(has_battery: bool, info: BatteryInfo)
    ensures
        !has_battery ==> battery_reading_of(has_battery, info) is None,
        has_battery ==> (battery_reading_of(has_battery, info) matches Some(r) && {
            &&& (r.charge_percent == Some(info.percentage) <==> 0 <= info.percentage <= 100)
            &&& (r.charge_percent is None <==> !(0 <= info.percentage <= 100))
            &&& (r.temperature_millicelsius is Some <==> 10_000 < info.temperature_millicelsius
                <= 80_000)
            &&& (r.temperature_millicelsius matches Some(t) ==> {
                &&& t % 100 == 0
                &&& info.temperature_millicelsius - 50 < t <= info.temperature_millicelsius + 50
            })
            &&& r.is_charging == Some(info.is_charging != 0)
            &&& (r.cycle_count == Some(info.cycle_count) <==> info.cycle_count >= 0)
            &&& (r.cycle_count is None <==> info.cycle_count < 0)
            &&& (r.power_milliwatts == Some(info.power_milliwatts) <==> (info.power_milliwatts > 100
                || info.power_milliwatts < -100))
            &&& (r.power_milliwatts is None <==> -100 <= info.power_milliwatts <= 100)
        }),
{
    if has_battery && 10_000 < info.temperature_millicelsius <= 80_000 {
        let m = info.temperature_millicelsius as int;
        let t = to_tenth(m);
        assert(t == ((m + 50) / 100) * 100);
        assert(t % 100 == 0 && m - 50 < t <= m + 50) by (nonlinear_arith)
            requires
                t == ((m + 50) / 100) * 100,
                m > 0,
        ;
    }
}

} // verus!

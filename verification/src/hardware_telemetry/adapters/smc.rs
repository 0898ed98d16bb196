//! Normalization of SMC fan readings.
use crate::hardware_telemetry::contract::{
    Availability, FanMode, FanReading, TemperatureReading, TemperatureReadings,
};
use crate::smc::temperature::sensors_view;
use crate::smc::RawFanReading;
use crate::text::owned;
use vstd::prelude::*;

verus! {

/// The fan mode that a raw manual flag means.
pub open spec fn mode_of(is_manual: Option<bool>) -> Option<FanMode> {
    match is_manual {
        Some(true) => Some(FanMode::Manual),
        Some(false) => Some(FanMode::SystemAuto),
        None => None,
    }
}

/// A raw reading as a snapshot fan reading.
pub open spec fn normalized(raw: RawFanReading) -> FanReading {
    FanReading {
        id: raw.id,
        label: raw.label,
        speed_rpm: raw.speed_rpm,
        min_speed_rpm: raw.min_speed_rpm,
        max_speed_rpm: raw.max_speed_rpm,
        target_speed_rpm: raw.target_speed_rpm,
        mode: mode_of(raw.is_manual),
    }
}

/// The message when the SMC cannot be opened.
pub open spec fn smc_unavailable_message() -> Seq<char> {
    "SMC access is unavailable"@
}

/// The fan group of a snapshot: unavailable when the SMC cannot be opened,
/// not present when no fan answered, and otherwise every fan that answered,
/// in order.
pub fn fans_from_readings(smc_open: bool, raw: Vec<RawFanReading>) -> (fans: Availability<Vec<FanReading>>)
    ensures
        !smc_open ==> (fans matches Availability::Unavailable { reason } && reason@
            == smc_unavailable_message()),
        smc_open && raw@.len() == 0 ==> fans is NotPresent,
        smc_open && raw@.len() > 0 ==> (fans matches Availability::Available { value } && value@
            == raw@.map_values(|r: RawFanReading| normalized(r))),
{
    if !smc_open {
        return Availability::Unavailable { reason: owned("SMC access is unavailable") };
    }
    if raw.len() == 0 {
        return Availability::NotPresent;
    }
    let ghost source = raw@;
    let mut raw = raw;
    let mut fans: Vec<FanReading> = Vec::new();
    while raw.len() > 0
        invariant
            raw@.len() <= source.len(),
            raw@ == source.skip(source.len() - raw@.len()),
            fans@ == source.take(source.len() - raw@.len()).map_values(|r: RawFanReading| normalized(r)),
        decreases raw.len(),
    {
        let ghost done = source.len() - raw@.len();
        let r = raw.remove(0);
        let mode = match r.is_manual {
            Some(true) => Some(FanMode::Manual),
            Some(false) => Some(FanMode::SystemAuto),
            None => None,
        };
        fans.push(FanReading {
            id: r.id,
            label: r.label,
            speed_rpm: r.speed_rpm,
            min_speed_rpm: r.min_speed_rpm,
            max_speed_rpm: r.max_speed_rpm,
            target_speed_rpm: r.target_speed_rpm,
            mode,
        });
        proof {
            assert(raw@ =~= source.skip(done + 1));
            assert(source.take(done + 1).map_values(|r: RawFanReading| normalized(r)) =~= source.take(
                done,
            ).map_values(|r: RawFanReading| normalized(r)).push(normalized(source[done])));
        }
    }
    proof {
        assert(source.take(source.len() as int) =~= source);
    }
    Availability::Available { value: fans }
}

/// The temperature group of a snapshot: unavailable when the SMC cannot be
/// opened, and otherwise the CPU and GPU temperatures and every core sensor,
/// in order.
pub fn temperatures_from_readings(
    smc_open: bool,
    cpu_millicelsius: Option<i32>,
    gpu_millicelsius: Option<i32>,
    sensors: Vec<(String, String, i32)>,
) -> (temperatures: Availability<TemperatureReadings>)
    ensures
        !smc_open ==> (temperatures matches Availability::Unavailable { reason } && reason@
            == smc_unavailable_message()),
        smc_open ==> (temperatures matches Availability::Available { value } && {
            &&& value.cpu_millicelsius == cpu_millicelsius
            &&& value.gpu_millicelsius == gpu_millicelsius
            &&& value.sensors@.map_values(|s: TemperatureReading| (s.key@, s.label@, s.millicelsius))
                == sensors_view(sensors@)
        }),
{
    if !smc_open {
        return Availability::Unavailable { reason: owned("SMC access is unavailable") };
    }
    let ghost source = sensors@;
    let mut sensors = sensors;
    let mut readings: Vec<TemperatureReading> = Vec::new();
    while sensors.len() > 0
        invariant
            sensors@.len() <= source.len(),
            sensors@ == source.skip(source.len() - sensors@.len()),
            readings@.map_values(|s: TemperatureReading| (s.key@, s.label@, s.millicelsius))
                == sensors_view(source.take(source.len() - sensors@.len())),
        decreases sensors.len(),
    {
        let ghost done = source.len() - sensors@.len();
        let ghost prev = readings@;
        assert(sensors@[0] == source[done]);
        let (key, label, millicelsius) = sensors.remove(0);
        readings.push(TemperatureReading { key, label, millicelsius });
        proof {
            assert(sensors@ =~= source.skip(done + 1));
            assert(source.take(done + 1) =~= source.take(done).push(source[done]));
            assert(sensors_view(source.take(done).push(source[done])) =~= sensors_view(
                source.take(done),
            ).push((source[done].0@, source[done].1@, source[done].2)));
            assert(readings@.map_values(|s: TemperatureReading| (s.key@, s.label@, s.millicelsius))
                =~= prev.map_values(|s: TemperatureReading| (s.key@, s.label@, s.millicelsius)).push(
                (source[done].0@, source[done].1@, source[done].2),
            ));
            assert(readings@.map_values(|s: TemperatureReading| (s.key@, s.label@, s.millicelsius))
                =~= sensors_view(source.take(done + 1)));
        }
    }
    proof {
        assert(source.take(source.len() as int) =~= source);
    }
    Availability::Available {
        value: TemperatureReadings { cpu_millicelsius, gpu_millicelsius, sensors: readings },
    }
}

/// A normalized fan keeps every raw measurement, and its mode follows the
/// raw manual flag: a fan under manual control is Manual, a fan that is not
/// is System Auto, and an unread flag gives no mode; so the two flags never
/// give the same mode.
pub proof fn law_fan_mode_follows_the_manual_flag(raw: RawFanReading, other: RawFanReading)
    ensures
        normalized(raw).id == raw.id,
        normalized(raw).label == raw.label,
        normalized(raw).speed_rpm == raw.speed_rpm,
        normalized(raw).min_speed_rpm == raw.min_speed_rpm,
        normalized(raw).max_speed_rpm == raw.max_speed_rpm,
        normalized(raw).target_speed_rpm == raw.target_speed_rpm,
        normalized(raw).mode == Some(FanMode::Manual) <==> raw.is_manual == Some(true),
        normalized(raw).mode == Some(FanMode::SystemAuto) <==> raw.is_manual == Some(false),
        normalized(raw).mode is None <==> raw.is_manual is None,
        raw.is_manual is Some && other.is_manual is Some && raw.is_manual != other.is_manual
            ==> normalized(raw).mode != normalized(other).mode,
{
}

} // verus!

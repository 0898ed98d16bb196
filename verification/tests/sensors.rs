use superfan::hardware_telemetry::adapters::iokit::battery_from_reading;
use superfan::hardware_telemetry::adapters::smc::temperatures_from_readings;
use superfan::hardware_telemetry::contract::{Availability, BatteryReading};
use superfan::smc::battery::{get_battery_reading, BatteryInfo, RawBatteryReading};
use superfan::smc::temperature::{
    cpu_temperature, get_all_sensors, get_cpu_temperature, get_gpu_temperature, gpu_temperature,
    GpuTemperatureCache, GPU_CACHE_MS,
};

#[test]
fn cpu_temperature_averages_the_four_hottest_plausible_readings() {
    // 130 °C and 14 °C are not trusted; the four hottest of the rest average
    // to 61.25 °C, which rounds to 61.3 °C.
    let readings = vec![
        Some(130_000),
        Some(50_000),
        Some(60_000),
        None,
        Some(14_000),
        Some(70_000),
        Some(65_000),
        Some(40_000),
    ];
    assert_eq!(cpu_temperature(&readings), Some(61_300));
    assert_eq!(cpu_temperature(&vec![Some(42_040)]), Some(42_000));
    assert_eq!(cpu_temperature(&vec![Some(42_050)]), Some(42_100));
    assert_eq!(cpu_temperature(&vec![Some(15_000), Some(125_000), None]), None);
    assert_eq!(cpu_temperature(&vec![]), None);
}

#[test]
fn gpu_temperature_uses_the_hottest_reading_or_a_recent_cache() {
    let (t, cache) = gpu_temperature(&vec![Some(50_000), Some(55_460), None], None, 1_000);
    assert_eq!(t, Some(55_500));
    assert_eq!(
        cache,
        Some(GpuTemperatureCache {
            millicelsius: 55_500,
            read_at_ms: 1_000
        })
    );
    let (t, kept) = gpu_temperature(&vec![None, Some(200_000)], cache, 1_000 + GPU_CACHE_MS - 1);
    assert_eq!(t, Some(55_500));
    assert_eq!(kept, cache);
    let (t, kept) = gpu_temperature(&vec![None], cache, 1_000 + GPU_CACHE_MS);
    assert_eq!(t, None);
    assert_eq!(kept, cache);
    assert_eq!(gpu_temperature(&vec![None], None, 5), (None, None));
}

#[test]
fn sensor_keys_are_read_and_labeled_by_core_kind() {
    let sensors = get_all_sensors(|key: String| match key.as_str() {
        "Te05" => Some(41_234),
        "Tp01" => Some(55_000),
        "Tp05" => Some(10_000),
        "TC0P" => Some(60_049),
        _ => None,
    });
    assert_eq!(
        sensors,
        vec![
            ("Te05".to_string(), "E-Core 1".to_string(), 41_200),
            ("Tp01".to_string(), "P-Core 2".to_string(), 55_000),
            ("TC0P".to_string(), "CPU Core 3".to_string(), 60_000),
        ]
    );
    assert_eq!(
        get_cpu_temperature(|key: String| if key == "Tp0D" { Some(48_000) } else { None }),
        Some(48_000)
    );
    assert_eq!(
        get_gpu_temperature(
            |key: String| if key == "TG0P" { Some(47_000) } else { None },
            None,
            9
        ),
        (
            Some(47_000),
            Some(GpuTemperatureCache {
                millicelsius: 47_000,
                read_at_ms: 9
            })
        )
    );
}

#[test]
fn temperature_group_follows_the_smc() {
    assert_eq!(
        temperatures_from_readings(false, Some(50_000), None, vec![]),
        Availability::Unavailable {
            reason: "SMC access is unavailable".into()
        }
    );
    let Availability::Available { value } = temperatures_from_readings(
        true,
        Some(50_000),
        None,
        vec![("Tp01".into(), "P-Core 1".into(), 50_000)],
    ) else {
        panic!("temperatures should be available");
    };
    assert_eq!(value.cpu_millicelsius, Some(50_000));
    assert_eq!(value.gpu_millicelsius, None);
    assert_eq!(value.sensors.len(), 1);
    assert_eq!(value.sensors[0].key, "Tp01");
    assert_eq!(value.sensors[0].label, "P-Core 1");
}

#[test]
fn battery_measurements_outside_their_ranges_are_left_out() {
    let trusted = BatteryInfo {
        percentage: 78,
        is_charging: 0,
        cycle_count: 142,
        temperature_millicelsius: 31_240,
        power_milliwatts: -18_400,
    };
    assert_eq!(
        get_battery_reading(true, trusted),
        Some(RawBatteryReading {
            charge_percent: Some(78),
            temperature_millicelsius: Some(31_200),
            is_charging: Some(false),
            cycle_count: Some(142),
            power_milliwatts: Some(-18_400),
        })
    );
    let implausible = BatteryInfo {
        percentage: 101,
        is_charging: 1,
        cycle_count: -1,
        temperature_millicelsius: 10_000,
        power_milliwatts: 100,
    };
    assert_eq!(
        get_battery_reading(true, implausible),
        Some(RawBatteryReading {
            charge_percent: None,
            temperature_millicelsius: None,
            is_charging: Some(true),
            cycle_count: None,
            power_milliwatts: None,
        })
    );
    assert_eq!(get_battery_reading(false, trusted), None);
}

#[test]
fn battery_group_is_not_present_without_a_reading() {
    assert_eq!(battery_from_reading(None), Availability::NotPresent);
    let reading = RawBatteryReading {
        charge_percent: Some(80),
        temperature_millicelsius: None,
        is_charging: Some(true),
        cycle_count: None,
        power_milliwatts: None,
    };
    assert_eq!(
        battery_from_reading(Some(reading)),
        Availability::Available {
            value: BatteryReading {
                charge_percent: Some(80),
                temperature_millicelsius: None,
                is_charging: Some(true),
                cycle_count: None,
                power_milliwatts: None,
            }
        }
    );
}

//! Assembly of one snapshot from the hardware adapters.
use super::contract::{
    Availability, BatteryReading, FanActuationStatus, FanReading, HardwareTelemetrySnapshot,
    TemperatureReadings,
};
use vstd::prelude::*;

verus! {

/// The SMC: temperatures and fans.
pub trait SmcTelemetryAdapter {
    fn temperatures(&self) -> Availability<TemperatureReadings>;

    fn fans(&self) -> Availability<Vec<FanReading>>;
}

/// IOKit: the battery.
pub trait IokitTelemetryAdapter {
    fn battery(&self) -> Availability<BatteryReading>;
}

/// The adapters that one snapshot reads.
pub struct HardwareTelemetry<S, I> {
    smc: S,
    iokit: I,
}

impl<S: SmcTelemetryAdapter, I: IokitTelemetryAdapter> HardwareTelemetry<S, I> {
    /// The SMC adapter.
    pub closed spec fn smc_adapter(&self) -> S {
        self.smc
    }

    /// The IOKit adapter.
    pub closed spec fn iokit_adapter(&self) -> I {
        self.iokit
    }

    pub fn new(smc: S, iokit: I) -> (telemetry: Self)
        ensures
            telemetry.smc_adapter() == smc,
            telemetry.iokit_adapter() == iokit,
    {
        HardwareTelemetry { smc, iokit }
    }

    /// Captures one snapshot: each group is exactly what its adapter
    /// reported, with no fallback values, stamped with the given actuation
    /// status and capture time.
    pub fn capture(&self, fan_actuation_status: FanActuationStatus, captured_at_unix_ms: u64) -> (snapshot:
        HardwareTelemetrySnapshot)
        ensures
            call_ensures(S::temperatures, (&self.smc_adapter(),), snapshot.temperatures),
            call_ensures(S::fans, (&self.smc_adapter(),), snapshot.fans),
            call_ensures(I::battery, (&self.iokit_adapter(),), snapshot.battery),
            snapshot.fan_actuation_status == fan_actuation_status,
            snapshot.captured_at_unix_ms == captured_at_unix_ms,
    {
        // The adapters' methods are called as values, so that the contract
        // can name what each call returned (`call_ensures`).
        let read_temperatures = S::temperatures;
        let read_fans = S::fans;
        let read_battery = I::battery;
        HardwareTelemetrySnapshot {
            temperatures: read_temperatures(&self.smc),
            fans: read_fans(&self.smc),
            battery: read_battery(&self.iokit),
            fan_actuation_status,
            captured_at_unix_ms,
        }
    }
}

} // verus!

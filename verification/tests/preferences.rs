use std::cell::RefCell;
use std::rc::Rc;
use superfan::application_preferences::contract::{
    supported_telemetry_intervals_ms, ApplicationPreferenceChange, ApplicationPreferences,
    TemperatureUnit,
};
use superfan::application_preferences::preferences::{
    preferences_from_store, validate, ApplicationPreferencesModule, AutostartAdapter,
    PreferencesStore,
};

#[derive(Clone, Default)]
struct MemoryStore {
    value: Rc<RefCell<Option<ApplicationPreferences>>>,
    fail_save: bool,
}

impl PreferencesStore for MemoryStore {
    fn load(&self) -> Result<Option<ApplicationPreferences>, String> {
        Ok(*self.value.borrow())
    }

    fn save(&mut self, preferences: &ApplicationPreferences) -> Result<(), String> {
        if self.fail_save {
            return Err("save failed".into());
        }
        *self.value.borrow_mut() = Some(*preferences);
        Ok(())
    }
}

struct MemoryAutostart {
    enabled: bool,
    fail_set: bool,
}

impl AutostartAdapter for MemoryAutostart {
    fn is_enabled(&self) -> Result<bool, String> {
        Ok(self.enabled)
    }

    fn set_enabled(&mut self, enabled: bool) -> Result<(), String> {
        if self.fail_set {
            return Err("autostart failed".into());
        }
        self.enabled = enabled;
        Ok(())
    }
}

fn module(store: MemoryStore) -> ApplicationPreferencesModule<MemoryStore, MemoryAutostart> {
    ApplicationPreferencesModule::load(
        store,
        MemoryAutostart {
            enabled: false,
            fail_set: false,
        },
    )
    .unwrap()
}

#[test]
fn first_launch_uses_defaults_and_actual_autostart_state() {
    let loaded = ApplicationPreferencesModule::load(
        MemoryStore::default(),
        MemoryAutostart {
            enabled: true,
            fail_set: false,
        },
    )
    .unwrap();
    assert_eq!(loaded.current().telemetry_interval_ms, 1_500);
    assert!(loaded.current().launch_at_login);
}

#[test]
fn persisted_preferences_survive_reload() {
    let store = MemoryStore::default();
    let shared = store.clone();
    let mut preferences = module(store);
    preferences
        .update(ApplicationPreferenceChange::SetTemperatureUnit {
            value: TemperatureUnit::Fahrenheit,
        })
        .unwrap();
    assert_eq!(
        module(shared).current().temperature_unit,
        TemperatureUnit::Fahrenheit
    );
}

#[test]
fn invalid_cadence_is_rejected_without_mutation() {
    let mut preferences = module(MemoryStore::default());
    assert!(preferences
        .update(ApplicationPreferenceChange::SetTelemetryIntervalMs { value: 999 })
        .is_err());
    assert_eq!(preferences.current().telemetry_interval_ms, 1_500);
}

#[test]
fn persistence_failure_leaves_current_state_unchanged() {
    let mut preferences = module(MemoryStore {
        fail_save: true,
        ..Default::default()
    });
    assert!(preferences
        .update(ApplicationPreferenceChange::SetTemperatureUnit {
            value: TemperatureUnit::Fahrenheit,
        })
        .is_err());
    assert_eq!(
        preferences.current().temperature_unit,
        TemperatureUnit::Celsius
    );
}

#[test]
fn autostart_failure_reports_actual_state() {
    let mut preferences = ApplicationPreferencesModule::load(
        MemoryStore::default(),
        MemoryAutostart {
            enabled: false,
            fail_set: true,
        },
    )
    .unwrap();
    let error = preferences
        .update(ApplicationPreferenceChange::SetLaunchAtLogin { value: true })
        .unwrap_err();
    assert!(error.contains("remains false"));
    assert!(!preferences.current().launch_at_login);
}

#[test]
fn autostart_failure_message_names_the_error_and_the_actual_state() {
    let mut preferences = ApplicationPreferencesModule::load(
        MemoryStore::default(),
        MemoryAutostart {
            enabled: true,
            fail_set: true,
        },
    )
    .unwrap();
    let error = preferences
        .update(ApplicationPreferenceChange::SetLaunchAtLogin { value: false })
        .unwrap_err();
    assert_eq!(error, "autostart failed; launch at login remains true");
    assert!(preferences.current().launch_at_login);
}

#[test]
fn supported_cadences_are_accepted_and_persisted() {
    let store = MemoryStore::default();
    let shared = store.clone();
    let mut preferences = module(store);
    for interval in supported_telemetry_intervals_ms() {
        let updated = preferences
            .update(ApplicationPreferenceChange::SetTelemetryIntervalMs { value: interval })
            .unwrap();
        assert_eq!(updated.telemetry_interval_ms, interval);
        assert_eq!(shared.value.borrow().unwrap().telemetry_interval_ms, interval);
    }
}

#[test]
fn invalid_cadence_names_the_supported_values() {
    let preferences = ApplicationPreferences {
        telemetry_interval_ms: 2_000,
        ..ApplicationPreferences::default()
    };
    assert_eq!(
        validate(&preferences).unwrap_err(),
        "telemetry interval must be 1000, 1500, or 2500 milliseconds"
    );
    assert_eq!(supported_telemetry_intervals_ms(), vec![1_000, 1_500, 2_500]);
}

#[test]
fn launch_at_login_change_reads_back_the_system_state() {
    let mut preferences = module(MemoryStore::default());
    let updated = preferences
        .update(ApplicationPreferenceChange::SetLaunchAtLogin { value: true })
        .unwrap();
    assert!(updated.launch_at_login);
    assert_eq!(preferences.current(), updated);
}

#[test]
fn stored_preferences_with_unsupported_cadence_fail_to_load() {
    let stored = ApplicationPreferences {
        telemetry_interval_ms: 10,
        ..ApplicationPreferences::default()
    };
    assert!(preferences_from_store(Ok(Some(stored))).is_err());
    assert_eq!(
        preferences_from_store(Err("unreadable".into())).unwrap_err(),
        "unreadable"
    );
    assert_eq!(
        preferences_from_store(Ok(None)).unwrap(),
        ApplicationPreferences::default()
    );
}

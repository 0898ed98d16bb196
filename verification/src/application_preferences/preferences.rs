//! The preferences module: validation, persistence and launch-at-login
//! reconciliation behind one snapshot and one tagged update.
//!
//! Every call that the module makes to its store and to the autostart service
//! is recorded, with its arguments and outcome, in a ghost log (`effects`).
//! The module's invariant (`wf`) ties every entry to a real call
//! (`call_made`, stated with `call_ensures`): the store's or the autostart
//! service's method was called, on the component as the previous call left
//! it, with the logged arguments, and returned the logged outcome.
use super::contract::{
    is_supported_interval, ApplicationPreferenceChange, ApplicationPreferences,
};
use crate::text::{joined, owned};
use vstd::prelude::*;

verus! {

/// Where preferences persist.
pub trait PreferencesStore {
    fn load(&self) -> Result<Option<ApplicationPreferences>, String>;

    fn save(&mut self, preferences: &ApplicationPreferences) -> Result<(), String>;
}

/// The operating system's launch-at-login setting.
pub trait AutostartAdapter {
    fn is_enabled(&self) -> Result<bool, String>;

    fn set_enabled(&mut self, enabled: bool) -> Result<(), String>;
}

/// One call that the module made, with its outcome.
#[allow(inconsistent_fields)]
pub enum PreferenceEffect {
    Loaded { result: Result<Option<ApplicationPreferences>, Seq<char>> },
    Saved { preferences: ApplicationPreferences, failure: Option<Seq<char>> },
    QueriedAutostart { result: Result<bool, Seq<char>> },
    SetAutostart { enabled: bool, failure: Option<Seq<char>> },
}

/// The failure message of a call, `None` when it succeeded.
pub open spec fn effect_failure(effect: PreferenceEffect) -> Option<Seq<char>> {
    match effect {
        PreferenceEffect::Loaded { result } => match result {
            Ok(_) => None,
            Err(e) => Some(e),
        },
        PreferenceEffect::Saved { failure, .. } => failure,
        PreferenceEffect::QueriedAutostart { result } => match result {
            Ok(_) => None,
            Err(e) => Some(e),
        },
        PreferenceEffect::SetAutostart { failure, .. } => failure,
    }
}

/// The message for an unsupported cadence.
pub open spec fn unsupported_interval_message() -> Seq<char> {
    "telemetry interval must be 1000, 1500, or 2500 milliseconds"@
}

/// `true` or `false`, as text.
pub open spec fn bool_text(b: bool) -> Seq<char> {
    if b {
        "true"@
    } else {
        "false"@
    }
}

/// The message when the autostart service refused a change.
pub open spec fn autostart_failure_message(error: Seq<char>, actual: bool) -> Seq<char> {
    error + "; launch at login remains "@ + bool_text(actual)
}

/// The preferences that loading starts from, given what the store returned:
/// the stored preferences, or the defaults when there are none; an error
/// when the store failed or the cadence is unsupported.
pub open spec fn loaded_preferences(result: Result<Option<ApplicationPreferences>, Seq<char>>) -> Result<
    ApplicationPreferences,
    Seq<char>,
> {
    match result {
        Err(e) => Err(e),
        Ok(found) => {
            let p = match found {
                Some(p) => p,
                None => ApplicationPreferences::defaults(),
            };
            if is_supported_interval(p.telemetry_interval_ms) {
                Ok(p)
            } else {
                Err(unsupported_interval_message())
            }
        },
    }
}

/// A `Result<T, String>` with its error as text.
pub open spec fn string_result<T>(r: Result<T, String>) -> Result<T, Seq<char>> {
    match r {
        Ok(v) => Ok(v),
        Err(e) => Err(e@),
    }
}

/// The failure message of a call's result, `None` when it succeeded.
pub open spec fn failure_in(r: Result<(), String>) -> Option<Seq<char>> {
    match r {
        Ok(()) => None,
        Err(e) => Some(e@),
    }
}

/// Whether `load` was called on `store` and gave this result.
pub open spec fn store_read<S: PreferencesStore>(
    store: S,
    result: Result<Option<ApplicationPreferences>, Seq<char>>,
) -> bool {
    exists|loaded: Result<Option<ApplicationPreferences>, String>|
        #![trigger call_ensures(S::load, (&store,), loaded)]
        call_ensures(S::load, (&store,), loaded) && result == string_result(loaded)
}

/// Whether `save` was called on `store` with these preferences and gave this
/// outcome.
pub open spec fn store_written<S: PreferencesStore>(
    store: S,
    preferences: ApplicationPreferences,
    failure: Option<Seq<char>>,
) -> bool {
    exists|m: &mut S, r: Result<(), String>|
        #![trigger call_ensures(S::save, (m, &preferences), r)]
        *m == store && call_ensures(S::save, (m, &preferences), r) && failure == failure_in(r)
}

/// Whether `is_enabled` was called on `autostart` and gave this result.
pub open spec fn autostart_read<A: AutostartAdapter>(autostart: A, result: Result<bool, Seq<char>>) -> bool {
    exists|enabled: Result<bool, String>|
        #![trigger call_ensures(A::is_enabled, (&autostart,), enabled)]
        call_ensures(A::is_enabled, (&autostart,), enabled) && result == string_result(enabled)
}

/// Whether `set_enabled` was called on `autostart` with this value and gave
/// this outcome.
pub open spec fn autostart_written<A: AutostartAdapter>(
    autostart: A,
    enabled: bool,
    failure: Option<Seq<char>>,
) -> bool {
    exists|m: &mut A, r: Result<(), String>|
        #![trigger call_ensures(A::set_enabled, (m, enabled), r)]
        *m == autostart && call_ensures(A::set_enabled, (m, enabled), r) && failure == failure_in(r)
}

/// Whether a logged call was really made: the store's or the autostart
/// service's method was called on the component as it was (`before`), with
/// the logged arguments, and returned the logged outcome; a reading call and
/// the other component leave things as they were, and `after` is the
/// components afterwards.
pub open spec fn call_made<S: PreferencesStore, A: AutostartAdapter>(
    effect: PreferenceEffect,
    before: (S, A),
    after: (S, A),
) -> bool {
    match effect {
        PreferenceEffect::Loaded { result } => after == before && store_read(before.0, result),
        PreferenceEffect::Saved { preferences, failure } => after.1 == before.1 && store_written(
            before.0,
            preferences,
            failure,
        ),
        PreferenceEffect::QueriedAutostart { result } => after == before && autostart_read(
            before.1,
            result,
        ),
        PreferenceEffect::SetAutostart { enabled, failure } => after.0 == before.0
            && autostart_written(before.1, enabled, failure),
    }
}

/// Every logged call was made, each on the components as the previous call
/// left them, and the last call left them as `current`.
pub open spec fn log_tied<S: PreferencesStore, A: AutostartAdapter>(
    effects: Seq<PreferenceEffect>,
    states: Seq<((S, A), (S, A))>,
    current: (S, A),
) -> bool {
    let n = effects.len();
    &&& states.len() == n
    &&& forall|i: int| 0 <= i < n ==> call_made::<S, A>(#[trigger] effects[i], states[i].0, states[i].1)
    &&& forall|i: int, j: int|
        0 <= i && j == i + 1 && j < n ==> #[trigger] states[j].0 == #[trigger] states[i].1
    &&& n > 0 ==> states[n - 1].1 == current
}

/// Logging one more call that was made on the current components keeps the
/// log tied.
proof fn lemma_log_push<S: PreferencesStore, A: AutostartAdapter>(
    effects: Seq<PreferenceEffect>,
    states: Seq<((S, A), (S, A))>,
    current: (S, A),
    effect: PreferenceEffect,
    after: (S, A),
)
    requires
        log_tied::<S, A>(effects, states, current),
        effects.len() > 0,
        call_made::<S, A>(effect, current, after),
    ensures
        log_tied::<S, A>(effects.push(effect), states.push((current, after)), after),
{
    let es = effects.push(effect);
    let ss = states.push((current, after));
    assert forall|i: int| 0 <= i < es.len() implies call_made::<S, A>(#[trigger] es[i], ss[i].0, ss[i].1) by {
        if i < effects.len() {
            assert(es[i] == effects[i] && ss[i] == states[i]);
        }
    }
    assert forall|i: int, j: int| 0 <= i && j == i + 1 && j < es.len() implies #[trigger] ss[j].0
        == #[trigger] ss[i].1 by {
        if j < effects.len() {
            assert(ss[j] == states[j] && ss[i] == states[i]);
        } else {
            assert(ss[i] == states[effects.len() - 1]);
        }
    }
}

/// Accepts preferences whose cadence is supported.
pub fn validate(preferences: &ApplicationPreferences) -> (r: Result<(), String>)
    ensures
        match r {
            Ok(()) => is_supported_interval(preferences.telemetry_interval_ms),
            Err(e) => !is_supported_interval(preferences.telemetry_interval_ms) && e@
                == unsupported_interval_message(),
        },
{
    let interval = preferences.telemetry_interval_ms;
    if !(interval == 1_000 || interval == 1_500 || interval == 2_500) {
        return Err(owned("telemetry interval must be 1000, 1500, or 2500 milliseconds"));
    }
    Ok(())
}

/// Decides the starting preferences from what the store returned.
pub fn preferences_from_store(loaded: Result<Option<ApplicationPreferences>, String>) -> (r: Result<
    ApplicationPreferences,
    String,
>)
    ensures
        string_result(r) == loaded_preferences(string_result(loaded)),
{
    let current = match loaded {
        Ok(Some(p)) => p,
        Ok(None) => ApplicationPreferences::default(),
        Err(e) => {
            return Err(e);
        },
    };
    match validate(&current) {
        Ok(()) => Ok(current),
        Err(e) => Err(e),
    }
}

/// Preferences, their store, and the launch-at-login service.
pub struct ApplicationPreferencesModule<S, A> {
    store: S,
    autostart: A,
    current: ApplicationPreferences,
    effects: Ghost<Seq<PreferenceEffect>>,
    call_states: Ghost<Seq<((S, A), (S, A))>>,
}

impl<S: PreferencesStore, A: AutostartAdapter> ApplicationPreferencesModule<S, A> {
    /// The authoritative snapshot.
    pub closed spec fn preferences(&self) -> ApplicationPreferences {
        self.current
    }

    /// Every call made so far, in order.
    pub closed spec fn effects(&self) -> Seq<PreferenceEffect> {
        self.effects@
    }

    /// The preferences store.
    pub closed spec fn store(&self) -> S {
        self.store
    }

    /// The launch-at-login service.
    pub closed spec fn autostart(&self) -> A {
        self.autostart
    }

    /// The store and the autostart service before and after each logged
    /// call.
    pub closed spec fn call_states(&self) -> Seq<((S, A), (S, A))> {
        self.call_states@
    }

    /// Every logged call was made, on the components as the previous call
    /// left them, and the last call left them as they are now.
    pub open spec fn calls_tied(&self) -> bool {
        log_tied::<S, A>(self.effects(), self.call_states(), (self.store(), self.autostart()))
    }

    /// This module's log continues the log of `earlier`.
    pub open spec fn extends(&self, earlier: Self) -> bool {
        &&& earlier.effects().len() <= self.effects().len()
        &&& earlier.effects().len() <= self.call_states().len()
        &&& forall|i: int|
            #![trigger self.effects()[i]]
            #![trigger self.call_states()[i]]
            0 <= i < earlier.effects().len() ==> (self.effects()[i] == earlier.effects()[i]
                && self.call_states()[i] == earlier.call_states()[i])
    }

    /// The calls appended since `earlier`.
    pub open spec fn effects_since(&self, earlier: Seq<PreferenceEffect>) -> Seq<PreferenceEffect> {
        self.effects().skip(earlier.len() as int)
    }

    /// The module's invariant: the cadence is always supported, and the log
    /// records the calls really made.
    pub open spec fn wf(&self) -> bool {
        &&& is_supported_interval(self.preferences().telemetry_interval_ms)
        &&& self.calls_tied()
        &&& self.effects().len() > 0
    }

    /// Loads persisted preferences (defaults on first launch), rejects an
    /// unsupported cadence, and takes launch at login from the operating
    /// system (off when it cannot say).  Nothing is saved or changed.
    pub fn load(store: S, autostart: A) -> (r: Result<Self, String>)
        ensures
            exists|loaded: Result<Option<ApplicationPreferences>, String>|
                #![trigger call_ensures(S::load, (&store,), loaded)]
                call_ensures(S::load, (&store,), loaded) && match loaded_preferences(
                    string_result(loaded),
                ) {
                    Err(e) => r matches Err(message) && message@ == e,
                    Ok(p) => exists|enabled: Result<bool, String>|
                        #![trigger call_ensures(A::is_enabled, (&autostart,), enabled)]
                        call_ensures(A::is_enabled, (&autostart,), enabled) && (r matches Ok(module)
                            && {
                            &&& module.wf()
                            &&& module.store() == store
                            &&& module.autostart() == autostart
                            &&& module.effects() == seq![
                                PreferenceEffect::Loaded { result: string_result(loaded) },
                                PreferenceEffect::QueriedAutostart { result: string_result(enabled) },
                            ]
                            &&& module.preferences() == (ApplicationPreferences {
                                launch_at_login: match enabled {
                                    Ok(b) => b,
                                    Err(_) => false,
                                },
                                ..p
                            })
                        }),
                },
    {
        // The store and the autostart service are called through their
        // methods as values, so that the contract can name what each call
        // returned (`call_ensures`).
        let read_store = S::load;
        let loaded = read_store(&store);
        let ghost result = string_result(loaded);
        let ghost stored = loaded;
        let mut current = match preferences_from_store(loaded) {
            Ok(p) => p,
            Err(e) => {
                return Err(e);
            },
        };
        let query = A::is_enabled;
        let enabled = query(&autostart);
        let ghost queried = string_result(enabled);
        current.launch_at_login = match enabled {
            Ok(b) => b,
            Err(_) => false,
        };
        let ghost components = (store, autostart);
        let effects: Ghost<Seq<PreferenceEffect>> = Ghost(
            Seq::<PreferenceEffect>::empty().push(PreferenceEffect::Loaded { result }).push(
                PreferenceEffect::QueriedAutostart { result: queried },
            ),
        );
        let call_states: Ghost<Seq<((S, A), (S, A))>> = Ghost(
            Seq::<((S, A), (S, A))>::empty().push((components, components)).push(
                (components, components),
            ),
        );
        let module = ApplicationPreferencesModule { store, autostart, current, effects, call_states };
        proof {
            assert(module.effects() =~= seq![
                PreferenceEffect::Loaded { result: string_result(stored) },
                PreferenceEffect::QueriedAutostart { result: string_result(enabled) },
            ]);
            assert(store_read(module.store, result));
            assert(autostart_read(module.autostart, queried));
            assert(call_made::<S, A>(module.effects()[0], module.call_states()[0].0, module.call_states()[0].1));
            assert(call_made::<S, A>(module.effects()[1], module.call_states()[1].0, module.call_states()[1].1));
        }
        Ok(module)
    }

    /// A copy of the authoritative snapshot.
    pub fn current(&self) -> (preferences: ApplicationPreferences)
        ensures
            preferences == self.preferences(),
    {
        self.current
    }

    /// Applies one tagged change.  Display and cadence changes are validated
    /// and persisted before they take effect; launch at login is changed in
    /// the operating system and then read back from it.  Each call made is
    /// one logged entry, tied to the real call by `wf`; a display or cadence
    /// change leaves the autostart service untouched, a launch-at-login
    /// change leaves the store untouched, and a refused cadence touches
    /// neither.
    pub fn update(&mut self, change: ApplicationPreferenceChange) -> (r: Result<
        ApplicationPreferences,
        String,
    >)
        requires
            old(self).wf(),
        ensures
            final(self).wf(),
            final(self).extends(*old(self)),
            ({
                let before = old(self).preferences();
                let appended = final(self).effects_since(old(self).effects());
                &&& final(self).effects() == old(self).effects() + appended
                &&& match change {
                    ApplicationPreferenceChange::SetTemperatureUnit { value } => {
                        let updated = ApplicationPreferences { temperature_unit: value, ..before };
                        &&& final(self).autostart() == old(self).autostart()
                        &&& persisted_change(before, updated, appended, final(self).preferences(), r)
                    },
                    ApplicationPreferenceChange::SetTelemetryIntervalMs { value } => {
                        let updated = ApplicationPreferences { telemetry_interval_ms: value, ..before };
                        &&& final(self).autostart() == old(self).autostart()
                        &&& if is_supported_interval(value) {
                            persisted_change(before, updated, appended, final(self).preferences(), r)
                        } else {
                            &&& appended.len() == 0
                            &&& final(self).store() == old(self).store()
                            &&& final(self).preferences() == before
                            &&& string_result(r) == Err::<ApplicationPreferences, Seq<char>>(
                                unsupported_interval_message(),
                            )
                        }
                    },
                    ApplicationPreferenceChange::SetLaunchAtLogin { value } => {
                        &&& final(self).store() == old(self).store()
                        &&& appended.len() == 2
                        &&& appended[0] matches PreferenceEffect::SetAutostart { enabled, failure }
                        &&& enabled == value
                        &&& appended[1] matches PreferenceEffect::QueriedAutostart { result: actual }
                        &&& match failure {
                            Some(error) => {
                                let remains = match actual {
                                    Ok(b) => b,
                                    Err(_) => before.launch_at_login,
                                };
                                &&& final(self).preferences() == ApplicationPreferences {
                                    launch_at_login: remains,
                                    ..before
                                }
                                &&& string_result(r) == Err::<ApplicationPreferences, Seq<char>>(
                                    autostart_failure_message(error, remains),
                                )
                            },
                            None => match actual {
                                Ok(b) => {
                                    &&& final(self).preferences() == ApplicationPreferences {
                                        launch_at_login: b,
                                        ..before
                                    }
                                    &&& r == Ok::<ApplicationPreferences, String>(
                                        final(self).preferences(),
                                    )
                                },
                                Err(e) => {
                                    &&& final(self).preferences() == before
                                    &&& string_result(r) == Err::<ApplicationPreferences, Seq<char>>(e)
                                },
                            },
                        }
                    },
                }
            }),
    {
        let ghost e0 = self.effects@;
        let ghost prior = *self;
        let mut updated = self.current;
        match change {
            ApplicationPreferenceChange::SetTemperatureUnit { value } => {
                updated.temperature_unit = value;
                let saved = self.logged_save(&updated);
                proof {
                    assert(self.effects_since(e0) =~= seq![
                        PreferenceEffect::Saved { preferences: updated, failure: failure_in(saved) },
                    ]);
                    assert(self.effects@ =~= e0 + self.effects_since(e0));
                }
                if let Err(e) = saved {
                    return Err(e);
                }
            },
            ApplicationPreferenceChange::SetTelemetryIntervalMs { value } => {
                updated.telemetry_interval_ms = value;
                if let Err(e) = validate(&updated) {
                    proof {
                        assert(self.effects_since(e0) =~= Seq::<PreferenceEffect>::empty());
                        assert(self.effects@ =~= e0 + self.effects_since(e0));
                    }
                    return Err(e);
                }
                let saved = self.logged_save(&updated);
                proof {
                    assert(self.effects_since(e0) =~= seq![
                        PreferenceEffect::Saved { preferences: updated, failure: failure_in(saved) },
                    ]);
                    assert(self.effects@ =~= e0 + self.effects_since(e0));
                }
                if let Err(e) = saved {
                    return Err(e);
                }
            },
            ApplicationPreferenceChange::SetLaunchAtLogin { value } => {
                let set = self.logged_set_enabled(value);
                let ghost middle = *self;
                let actual = self.logged_is_enabled();
                proof {
                    Self::lemma_extends_trans(*self, middle, prior);
                    assert(self.effects_since(e0) =~= seq![
                        PreferenceEffect::SetAutostart { enabled: value, failure: failure_in(set) },
                        PreferenceEffect::QueriedAutostart { result: string_result(actual) },
                    ]);
                    assert(self.effects@ =~= e0 + self.effects_since(e0));
                }
                if let Err(error) = set {
                    updated.launch_at_login = match actual {
                        Ok(b) => b,
                        Err(_) => self.current.launch_at_login,
                    };
                    self.current = updated;
                    let state_text = if self.current.launch_at_login {
                        "true"
                    } else {
                        "false"
                    };
                    let mut message = joined(error.as_str(), "; launch at login remains ");
                    message.append(state_text);
                    proof {
                        assert(state_text@ == bool_text(self.current.launch_at_login));
                    }
                    return Err(message);
                }
                updated.launch_at_login = match actual {
                    Ok(b) => b,
                    Err(e) => {
                        return Err(e);
                    },
                };
            },
        }
        self.current = updated;
        Ok(updated)
    }

    /// Continuing a log is transitive.
    proof fn lemma_extends_trans(a: Self, b: Self, c: Self)
        requires
            a.extends(b),
            b.extends(c),
        ensures
            a.extends(c),
    {
        assert forall|i: int| 0 <= i < c.effects().len() implies (a.effects()[i] == c.effects()[i]
            && a.call_states()[i] == c.call_states()[i]) by {
            assert(a.effects()[i] == b.effects()[i]);
            assert(b.effects()[i] == c.effects()[i]);
            assert(a.call_states()[i] == b.call_states()[i]);
            assert(b.call_states()[i] == c.call_states()[i]);
        }
    }

    /// Calls `save` and logs the call.
    fn logged_save(&mut self, preferences: &ApplicationPreferences) -> (r: Result<(), String>)
        requires
            old(self).calls_tied(),
            old(self).effects().len() > 0,
        ensures
            final(self).calls_tied(),
            final(self).extends(*old(self)),
            final(self).effects() == old(self).effects().push(
                PreferenceEffect::Saved { preferences: *preferences, failure: failure_in(r) },
            ),
            final(self).preferences() == old(self).preferences(),
            final(self).autostart() == old(self).autostart(),
    {
        let ghost before = (self.store, self.autostart);
        let write = S::save;
        let r = write(&mut self.store, preferences);
        proof {
            let e = PreferenceEffect::Saved { preferences: *preferences, failure: failure_in(r) };
            let after = (self.store, self.autostart);
            assert(call_made::<S, A>(e, before, after));
            let effects0 = self.effects@;
            let states0 = self.call_states@;
            lemma_log_push::<S, A>(effects0, states0, before, e, after);
            self.effects@ = effects0.push(e);
            self.call_states@ = states0.push((before, after));
        }
        r
    }

    /// Calls `set_enabled` and logs the call.
    fn logged_set_enabled(&mut self, enabled: bool) -> (r: Result<(), String>)
        requires
            old(self).calls_tied(),
            old(self).effects().len() > 0,
        ensures
            final(self).calls_tied(),
            final(self).extends(*old(self)),
            final(self).effects() == old(self).effects().push(
                PreferenceEffect::SetAutostart { enabled, failure: failure_in(r) },
            ),
            final(self).preferences() == old(self).preferences(),
            final(self).store() == old(self).store(),
    {
        let ghost before = (self.store, self.autostart);
        let write = A::set_enabled;
        let r = write(&mut self.autostart, enabled);
        proof {
            let e = PreferenceEffect::SetAutostart { enabled, failure: failure_in(r) };
            let after = (self.store, self.autostart);
            assert(call_made::<S, A>(e, before, after));
            let effects0 = self.effects@;
            let states0 = self.call_states@;
            lemma_log_push::<S, A>(effects0, states0, before, e, after);
            self.effects@ = effects0.push(e);
            self.call_states@ = states0.push((before, after));
        }
        r
    }

    /// Calls `is_enabled` and logs the call.
    fn logged_is_enabled(&mut self) -> (r: Result<bool, String>)
        requires
            old(self).calls_tied(),
            old(self).effects().len() > 0,
        ensures
            final(self).calls_tied(),
            final(self).extends(*old(self)),
            final(self).effects() == old(self).effects().push(
                PreferenceEffect::QueriedAutostart { result: string_result(r) },
            ),
            final(self).preferences() == old(self).preferences(),
            final(self).store() == old(self).store(),
            final(self).autostart() == old(self).autostart(),
    {
        let ghost before = (self.store, self.autostart);
        let query = A::is_enabled;
        let r = query(&self.autostart);
        proof {
            let e = PreferenceEffect::QueriedAutostart { result: string_result(r) };
            assert(autostart_read(before.1, string_result(r)));
            assert(call_made::<S, A>(e, before, before));
            let effects0 = self.effects@;
            let states0 = self.call_states@;
            lemma_log_push::<S, A>(effects0, states0, before, e, before);
            self.effects@ = effects0.push(e);
            self.call_states@ = states0.push((before, before));
        }
        r
    }
}

/// A display or cadence change: one save of the updated preferences, which
/// take effect only when the save succeeds.
pub open spec fn persisted_change(
    before: ApplicationPreferences,
    updated: ApplicationPreferences,
    appended: Seq<PreferenceEffect>,
    after: ApplicationPreferences,
    r: Result<ApplicationPreferences, String>,
) -> bool {
    &&& appended.len() == 1
    &&& appended[0] matches PreferenceEffect::Saved { preferences, failure }
    &&& preferences == updated
    &&& match failure {
        Some(f) => after == before && string_result(r) == Err::<ApplicationPreferences, Seq<char>>(f),
        None => after == updated && r == Ok::<ApplicationPreferences, String>(updated),
    }
}

/// Preferences that an update committed come back unchanged when the store
/// that saved them is loaded again (launch at login is then read from the
/// operating system).
pub proof fn law_saved_preferences_survive_reload(p: ApplicationPreferences)
    requires
        is_supported_interval(p.telemetry_interval_ms),
    ensures
        loaded_preferences(Ok(Some(p))) == Ok::<ApplicationPreferences, Seq<char>>(p),
{
}

/// On first launch, with nothing stored, loading starts from the defaults.
pub proof fn law_first_launch_uses_defaults()
    ensures
        loaded_preferences(Ok(None)) == Ok::<ApplicationPreferences, Seq<char>>(
            ApplicationPreferences::defaults(),
        ),
{
}

/// Only the 1 s, 1.5 s and 2.5 s telemetry cadences are accepted: stored
/// preferences with any other cadence are refused on load, with the
/// unsupported-cadence message.
pub proof fn law_only_the_three_cadences_are_accepted(p: ApplicationPreferences)
    ensures
        loaded_preferences(Ok(Some(p))) is Ok <==> (p.telemetry_interval_ms == 1_000
            || p.telemetry_interval_ms == 1_500 || p.telemetry_interval_ms == 2_500),
        loaded_preferences(Ok(Some(p))) is Err ==> loaded_preferences(Ok(Some(p))) == Err::<
            ApplicationPreferences,
            Seq<char>,
        >(unsupported_interval_message()),
{
}

} // verus!

# superfan

The verified core of SuperFan, a macOS menu bar application that reads CPU,
GPU, per-core and battery telemetry and drives the fans through a privileged
daemon while keeping macOS ("System Auto") as the fail-safe authority.

## Layout

- `src/` — the library, verified with Verus.
  - `thermal_policy/` — settings validation, the evaluator that turns one
    telemetry snapshot into a fan plan (presets, custom rules, hysteresis and
    rate limiting), the stateful policy module that persists settings and
    applies plans, and `laws.rs` with the policy's proved properties.
  - `application_preferences/` — the preferences snapshot, its validation,
    persistence and launch-at-login reconciliation.
  - `fan_actuation/` — the daemon protocol and its command handling, the
    heartbeat lease, the daemon's per-request decisions, socket framing and
    peer authorization, installer and migration decisions, the client side.
  - `hardware_telemetry/` — the unit-bearing snapshot and the normalization
    of raw SMC and IOKit readings into its groups.
  - `smc/` — fan, temperature and battery readings from SMC keys and IOKit.
  - `commands.rs` — the decisions behind the user interface commands.
  - `text.rs` — text helpers shared by the messages.
- `tests/` — tests of the library.
- `app/` — the application around the library: Tauri commands and tray, the
  SMC/IOKit foreign interface, the socket and file system I/O, the daemon's
  main loop, and the serialized forms of the library's types.

Temperatures are whole milli-degrees Celsius and battery power whole
milliwatts inside the library; the serialized forms carry degrees Celsius and
watts.

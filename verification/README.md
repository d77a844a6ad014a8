# alert_timer

A verified library for a skill-recast reminder overlay: timers that key
presses reset, grouped into key cycles, that warn and expire, and an overlay
border that blinks in the colors of the alerting timers.

Layout:

- `src/timer_engine.rs`: the timer engine, its model (`press_clock`,
  `phase_at`, `frame_for`, ...) and the laws of key cycles, phases and the
  overlay.
- `src/models.rs`: the user's settings, their validation and conversion to
  engine profiles, and the views handed to the front end.
- `src/text.rs`: whitespace, trimming and key normalisation.
- `src/settings_store.rs`: reading which saved profiles predate the
  target-app filter (the JSON is read by `serde_json`).
- `src/key_listener.rs`, `src/diagnostics.rs`, `src/privilege.rs`: key names,
  key-press diagnostics, and the elevation decisions.
- `app/`: the Tauri shell (windows, commands, file I/O, the keyboard hook
  and the runtime loop); it is plain Rust around the library.
- `tests/`: behaviour tests of the library.

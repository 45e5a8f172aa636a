# sunrise_brightness

Adjusts display brightness over the day, following a curve from sunrise to sunset.

- `src/` is the verified library (Verus): brightness curves and their editing
  operations (`curve`), per-display settings and display-name cleaning (`monitor`),
  settings and shared state (`config`), times of day and day progress (`daylight`),
  the decisions of the scheduling loop (`schedule`), display targets and fades
  (`apply`), the settings window's state and edits (`editor`), and what is made of
  web answers (`remote`).
- `app/` is the unverified program around it: settings files, web lookups, sun
  computations, floating-point curve evaluation, the displays and the egui window.
- `tests/` exercises the library.

Curve coordinates are binary64 numbers held by their bit patterns in the library;
the program converts with `f64::to_bits` and `f64::from_bits`.

Settings hold no fixed latitude and longitude: the settings file format has no such
keys and nothing in the program sets them, so the location is always looked up.

The tray icon (`tray-icon`) and start-on-login (`auto-launch`) support in `app/ui.rs`
needs crates that are not listed in `Cargo.toml`: with them the dependency set grew
past what this build allows, and `tray-icon` needs the system GTK libraries, which are
not installed here. `app/` therefore does not build until they are added back.

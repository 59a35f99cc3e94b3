# Fang

Fang controls Razer Blade laptops on Linux: performance modes, CPU/GPU boost,
fan policies (EC automatic, manual RPM, custom curves) under a thermal guard,
the battery charge limiter, keyboard and logo lighting, GPU mode switching,
external-monitor color presets, refresh rate and panel brightness.

## Layout

- `src/` — the library, verified with Verus. Each function states what it
  does in `requires`/`ensures` over mathematical models (`Seq`, `Set`, `int`).
  - `packet`: the 91-byte HID feature reports of the embedded controller (EC),
    their checksum, and how replies are accepted.
  - `models`: the laptop table (fan limits, feature flags).
  - `api`, `state`: requests, commands, status, and the persisted desired state.
  - `fan`: RPM normalization, curve interpolation, the thermal guard.
  - `daemon`: the core that turns commands, power-source changes and sensor
    samples into hardware calls, keeping its safety invariant (targets within
    the model's limits, the maximum whenever the guard is engaged, a state the
    model can run).
  - `razer`: the command plans sent to the EC, recovery to EC automatic fan
    control, device selection, and reply classification.
  - `runner`: outside programs as the library sees them, with a record of
    every call; `gpu`, `ddc`, `color`, `display` drive `prime-select`/
    `envycontrol`, `ddcutil` (color presets and brightness), `colormgr`,
    `kscreen-doctor`/`xrandr` and parse their output; `display` also picks
    GNOME Mutter's target monitor, mode and layout.
  - `power`, `sensors`, `panel`: decisions on what sysfs reports.
  - `server`, `client`, `args`: request routing, reply bookkeeping, command line.
  - `socket`: the steps that claim the daemon's socket path without ever
    replacing a live daemon's socket.
  - `text`: verified string helpers (lines, words, trimming, number parsing and
    formatting).
- `tests/` — tests of the library.
- `app/` — the `fangd` daemon program: sockets, async tasks, JSON, HID access,
  sysfs reads, the hardware simulator, and the desktop-session backends.

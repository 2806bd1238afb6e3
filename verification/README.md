# tkbar

A small Wayland status bar (GTK4 and layer-shell) whose decisions are
verified with Verus.

- `src/` is the verified library: the configuration schema and its TOML
  reading, bar placement, the theme selection, the clock text, and the state
  of each widget (battery, backlight, volume, Wi-Fi, workspaces for niri,
  Hyprland and sway), together with the parsing of what sysfs, `wpctl` and
  the compositors report. Each public function states its result in its
  contract; the laws that relate several functions are public proof
  functions.
- `app/` is the program around it: the GTK widgets, the polling threads,
  file, process and IPC access, and the CI driver. It hands plain values to
  the library and acts on what comes back.
- `tests/` runs the library on concrete inputs.

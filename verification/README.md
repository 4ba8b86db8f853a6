# hypr_handled

A helper for the Hyprland compositor: it rings the terminal bell on the
compositor's `bell` event, sets the X font resolution from the focused
monitor's scale, and brings windows back from the special workspace
`minimized` when they become active or urgent (a `minimized` event toggles a
window in and out of that workspace).

- `src/` is the verified library (Verus): reading the event stream
  (`wheel`), the window decisions and the dispatch commands (`minimize`),
  the sound theme and the bell file search (`sound`), the font resolution
  line (`x11_dpi_set`), the text operations they rest on (`text`) and the
  properties proved of them (`laws`).
- `app/` is the program: it queries `hyprctl`, reads the event socket,
  runs commands, writes files, logs through log4rs and plays sound through
  rodio, doing what the library decides.
- `tests/` runs the library on concrete values.

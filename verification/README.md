# kactive_window_launcher

The core of a Windows launcher bar that follows the active window, with its
behaviour stated and proved in Verus.

- `src/` — the verified library:
  - `settings`: the 64-slot settings model, its normal form and the slot
    edits (swap, update, clear), with their laws;
  - `paths`: data-type detection and target existence, with the disk
    questions they need answered;
  - `launch`: the program and arguments that run a slot;
  - `backups`: backup file names, recognition, newest-first ordering and
    rotation to five generations;
  - `tracking`: the reference-window state machine (three-tick flicker
    suppression, locking, tray) and the bar geometry;
  - `shell`: tray menu, close handling and slot editor window decisions;
  - `text`: character-level string helpers.
- `app/` — the Tauri application around it: file system, Win32 calls,
  windows, events and JSON (serde copies of the settings types).
- `tests/` — tests of the library on concrete values.

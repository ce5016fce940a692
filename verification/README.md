# le_resampler

The logic of Le Resampler, a desktop manager for audio samples, as a Verus
library with proved contracts.

- `src/metadata.rs` — category, tempo and key inferred from paths and file
  names, and how they combine with the tags embedded in a file.
- `src/export.rs` — export path templates (`%category%/%filename%`, …), the
  outcome of each copy and the summary of an export.
- `src/scanner.rs` — audio-file recognition, scan options, key-detection
  decisions, progress reports and the scan tally.
- `src/db.rs` — the sample-listing query and the reading of tag lists.
- `src/audio.rs` — the preview player's command queue and the audio thread's
  reaction to each command.
- `src/text.rs`, `src/paths.rs` — character-level string helpers and path
  decomposition.

`app/` holds what touches the outside world: the SQLite database, tag
reading and writing, the folder walk, file copies, pitch detection and the
audio device. `tests/` exercises the library.

The desktop shell is not part of this crate: there is no Tauri dependency,
and `app/commands.rs` offers the interface's commands as plain functions.
Folder pickers, opening links, the settings window and the volume slider,
which only the shell provides, are therefore absent.

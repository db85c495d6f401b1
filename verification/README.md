# kiroku

Kiroku records what is on the screen during the working day, describes each screenshot
with a local vision-language model or Copilot, groups screenshots into work sessions,
summarises them hour by hour and half-day by half-day, and exports the result as CSV.

The repository has two parts:

- `src/` is the `kiroku` library, written in Verus. It holds the logic of the
  application with its contracts and proofs: screenshot hashing and deduplication,
  session assembly, key-frame choice and the collage of each session, the batch scheduler, the description batch as a
  state machine, the Copilot connection monitor, configuration migration, export
  masking and CSV rows, query building, and the prompts of the summaries. Calls into
  outside crates (chrono, regex, image, reqwest's URL parser, serde_json, base64) go
  through small wrappers whose contracts name what the crate computes.
- `app/` is the desktop application around the library: Tauri commands and the tray,
  the SQLite store, file and network I/O, screen capture, and the background loops that
  carry out what the library decides.

`tests/` exercises the library on concrete values.

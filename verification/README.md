# fabbit_file_agent

The logic of the Fabbit desktop file agent as a verified library: reading Inventor project
files (`.ipj`), scanning and classifying a workspace, preparing and uploading an import, the
local HTTP bridge's routing, sign-in and replies, the tray's texts and update badge, and the
folder watcher's bookkeeping and reminders of changed files left unuploaded.

- `src/` — the library, verified with Verus. Paths, XML and JSON are handled by
  `std::path`, `roxmltree` and `serde_json` behind small trusted wrappers (`paths.rs`,
  `xml.rs`, `server.rs`); everything else is proved against its contract.
- `tests/` — tests on concrete values.
- `app/` — the Tauri application around the library: windows, tray, commands, the HTTP
  server thread, file walks, uploads and registry access.

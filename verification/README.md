# clirelay_desktop_lib

The decision logic of CliRelay Desktop, a desktop companion that supervises a
local CliRelay sidecar, renders its runtime `config.yaml`, opens its bundled
management panel and checks for component updates. Every function under
`src/` is verified with Verus against a contract stated over mathematical
models (`Seq`, `Map`, `int`, views of the library's types).

## Layout

- `src/service/` – the service status machine (`state`), process ownership,
  health probes and HTTP response parsing (`health`), log redaction and
  rotation plans (`logs`), and the sidecar lifecycle bookkeeping (`manager`).
- `src/settings.rs` – desktop settings, runtime config rendering, and reading
  and writing the management secret in `remote-management:`.
- `src/update_check.rs`, `src/component_update.rs` – release selection,
  update-check results, digest checks, archive entry paths and component
  records.
- `src/commands.rs`, `src/tray.rs`, `src/windows/` – the rules behind the
  front-end commands, the tray menu and the windows.
- `src/platform.rs` – reading a process's start time from `ps` output.
- `src/text.rs`, `src/lines.rs`, `src/json.rs`, `src/time.rs`,
  `src/web_url.rs`, `src/version.rs`, `src/paths.rs` – text and line handling,
  JSON string literals, timestamps, URLs, semantic versions and paths.
- `tests/` – executable tests of the library.
- `app/` – the Tauri shell: windows, tray, file and network I/O, process
  control and serde types, calling into the library for every decision.

## Laws

Besides each function's contract, `src/` proves laws that span calls, among
them: a written management secret reads back from the config; a rendered
runtime config renders to itself (unless a line it keeps ended in
`\r\r\n`); redaction keeps nothing that follows a secret marker; the chosen
release is the latest one that offers an asset; an archive entry never lands
outside its root; the unhealthy event comes on exactly the third failure in a
row; tray entries follow the service status; a failed start always ends in
the error state.

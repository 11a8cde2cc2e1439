# cloudstream_win

The core of a desktop streaming client whose content comes from plugins:
script plugins run by a JavaScript engine, and CloudStream extensions run by a
long-running JVM bridge process. The library is written in Verus; its
functions carry contracts that Verus proves.

## Layout

- `src/` — the verified library.
  - `plugin_runtime.rs` — plugin metadata, the `@plugin-info` header, the
    registry of installed plugins and where a call of a plugin goes.
  - `js_host.rs` — the call script run in the engine, the reading of its
    outcome, and the `__http_fetch` function lent to plugins.
  - `sidecar.rs` — the line-delimited JSON protocol of the JVM bridge and the
    callers waiting on it.
  - `table.rs` — a string-keyed table that keeps insertion order.
  - `commands/` — what the frontend's commands compute: bookmarks, watch
    history, downloads (a transfer step by step), plugin installation,
    repository listings.
  - `db.rs`, `ids.rs`, `player.rs`, `example_plugin.rs`, `json.rs`, `text.rs`.
- `tests/` — tests on concrete values.
- `app/` — the Tauri program around the library: the database (sqlx), the
  Boa engine, the JVM process, the network (reqwest) and the frontend commands.

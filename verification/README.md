# codex_usage_monitor

Verified core of a desktop monitor for Codex usage.

- `src/` — the library, verified with Verus:
  - `json`: JSON values read through `serde_json`, modelled by the nodes their
    pointers reach; first-match readers over lists of pointers.
  - `session`: what each line of a session log does to a session.
  - `index`: the sessions of a log directory, kept in key order. They are held
    in a `Vec` sorted by key and searched by binary search rather than in a
    `BTreeMap<String, _>`: vstd specifies no `BTreeMap` with `String` keys, so
    the order and uniqueness of keys are kept as the index's invariant instead.
  - `usage`: the today / this-week / this-month buckets and recent sessions.
  - `official`: rate-limit windows, the `codex app-server` JSON-RPC exchange,
    and the latest rate limits recorded in the logs.
  - `thresholds`: notification thresholds and usage status.
  - `date`, `text`, `state`, `tray`: dates, keys, settings and snapshot state,
    tray actions.
- `app/` — the Tauri shell: commands, tray, the child process, file walking,
  float arithmetic and the JSON sent to the front end.
- `tests/` — tests of the library.

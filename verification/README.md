# sonify_health

Turns health checks into sound: each heartbeat runs a probe command, reads
its result as a metric, and plays notes whose patches the metric selects.

The decisions are verified with Verus; the program around them is ordinary
Rust.

## Layout

- `src/` — the verified library.
  - `severity`, `probe`, `check`: reading probe and check results.
  - `timing`, `play`, `poll`: when heartbeats play and what a poll records.
  - `supervision`: failure budgets, respawn decisions, backoff, ticks.
  - `sources`, `remote`: the source registry and the state machine of the
    connector that mirrors a remote instance.
  - `named_map`, `library`: the patch table and its editing operations
    (create, override, rename, parameter changes and their propagation,
    what a save writes).
  - `param_order`: the check that a patch's parameter orders run
    through `0..n` with none repeated.
  - `protocol`: the browser requests, export and import formats.
  - `config`, `oidc`: validation of Remote Sources and OIDC settings.
  - `nix`, `print_format`: Nix, TOML and command-line renderings.
  - `mixer`, `audio_device`: the mixer's slot table, stream-error
    throttling, and output-device selection.
  - `scale`, `heartbeat_config`, `web`, `lock_util`, `text`: smaller pieces.
- `tests/` — tests of the library on concrete values.
- `app/` — the command-line program: configuration files, probe processes,
  thread supervision, synthesis with `fundsp` and WAV rendering, and the
  line-based live-editing session.

# ladder-core

A session-level proxy manager around the Mihomo (clash-meta) core: multiple
subscriptions, shell environment integration, an interactive node picker and a
watchdog that stops the proxy when the parent shell exits.

The library under `src/` is written in Verus; each function carries a contract
and is verified. The program under `app/` is ordinary Rust: command-line
parsing, files, HTTP, processes, the terminal UI and the event loop.

## Layout

- `src/text.rs` – character-level string helpers (trim, ASCII case, decimal text, joins).
- `src/config.rs` – settings and the subscription list: lookup by name, add, remove, filter.
- `src/url.rs` – subscription URL checks and default subscription names.
- `src/env.rs` – shell `export`/`unset` statements and the runtime state record.
- `src/yaml.rs` – the `serde_yaml` operations the library uses, each with a named result.
- `src/mihomo.rs` – release targets and unpacking of a downloaded release, subscription
  format detection, generated and merged Mihomo configurations, start/update strategies
  and reports.
- `src/api.rs` – data read from the Mihomo API and the decisions made on it (best node,
  delays, the order of configuration reload attempts).
- `src/nodes.rs` – the node list built from `GET /proxies` and the main group choice.
- `src/tui.rs` – the node picker state machine: keys, tabs, cursor, background results.
- `src/watchdog.rs` – watchdog settings, its decision on each look at the shell, and the
  steps of stopping Mihomo (SIGTERM, probes, SIGKILL).
- `src/cli.rs` – commands and small command-line decisions.
- `tests/` – tests run against the compiled library.
- `app/` – the `ladder-core` program.

# aw-watcher-agent

Tracks the sessions of code agents in ActivityWatch. Agents report over HTTP
that a session starts, is active, has used so many tokens, or ends; the daemon
records two kinds of events:

- in `aw-watcher-agent-event_<hostname>`, heartbeats of live activity, merged
  from all sessions that are active at the same time;
- in `aw-watcher-agent-sum_<hostname>`, one summary of each session that was
  completed or abandoned.

`src/` is the library, verified with Verus: instants and durations, usage,
sessions, the merged heartbeat, the tracker of all sessions with its decisions,
and under `src/laws/` what holds of them together. `app/` is the daemon around
it: HTTP, the clock's ticks, the connection to aw-server, and what is computed
in floating point. `tests/` run the library.

What the library gets from `serde_json`, `chrono` and `std::path` goes through
the functions in `src/json.rs`, `src/time.rs` and `src/paths.rs` whose bodies are
not verified; their contracts say what is relied on.

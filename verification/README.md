# os_apps

A verified library of the decisions and text formats behind a set of agent
apps: session trajectories in the OTS format, the context an agent's model
call is prepared from, provider request and reply handling, scheduling,
reply routing, knowledge-bank imports and resource-link checks.

- `src/` is the library, written in Verus. Every function there is verified
  against its contract; calls into `serde_json` and a few std functions sit
  behind the trusted items in `json_text.rs`, `text.rs` and `transport.rs`.
- `tests/` runs the library on concrete values.
- `app/` moves `serde_json` values in and out of the library and hands a
  finished session to the trajectory builder.

Host input and output (HTTP calls, file reads, the clock) stays outside the
library: functions that depend on it take what the host returned as
arguments, and `transport::Host` is the boundary for the resource-link
checks.

# vireon

Client for the Vireon QUIC pub/sub runtime: a verified library with the protocol's logic, and a
command-line program around it.

## Layout

- `src/` is the library. Verus proves every function against its contract.
  - `wire`, `frame`: payload layouts, frames, batches and their sequence numbers.
  - `topic`, `routing`: topic patterns, and who gets an inbound message.
  - `reliable`, `task`: duplicate suppression, acknowledgements, and what inbound frames do.
  - `command`, `replay`: commands of client handles, heartbeats, and replay after a reconnect.
  - `run`: the connection task, the reconnect schedule and retried publishes as state machines.
  - `transport`: buffering of partial writes, and decisions about socket and QUIC outcomes.
  - `config`, `client`, `pool`, `message`, `stream`, `error`, `time`: what callers see.
  - `cli`, `parse`, `mux`, `output`: the logic of the command-line program.
  - `buf`, `channel`: what is trusted of the `bytes` and `tokio` crates. `text` trusts two
    functions of the standard library. Each such item says in its comment what is claimed.
  - `law_*` proof functions state what holds across functions.
- `app/` is the program: sockets, the QUIC connection, async plumbing, argument parsing, printing.
- `tests/` runs the library with the real outside crates.

## Limits

A dedicated stream lives as long as its connection. Closing, resetting, pausing or resuming a single
stream is not offered, and dropping its handle does not tell the server: the connection task has no
commands for these.

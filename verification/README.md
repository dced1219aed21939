# sapphire-agent

The decisions of a session server, written in Verus: which requests are
accepted, where a turn's messages go, which tools a model may see and run, what
an editor or a voice satellite is told, and when a turn is over. Each function
states in its contract what it returns on the inputs that it takes, and Verus
proves it. What comes from elsewhere, and what chance, time or the machine
decide, is believed or left open as `outside` says.

- `src/` is the library. Nothing in it waits for anything: what has to be
  awaited (a model, a tool, a human, a file) happens outside, and its result is
  an argument of the next step.
  - `turn_loop`, `turn`, `persistence`, `policy`, `message`, `host`: a turn,
    from the user's message to the last write.
  - `rpc`, `state`, `residency`, `title`: the JSON-RPC endpoint and what the
    server keeps in memory.
  - `voice`, `speech`, `audio`: spoken turns and what the server says on its own.
  - `acp`, `editor`, `frames`, `terminals`: editors.
  - `outside`: what is taken from other crates and from the standard library, and
    what is believed of it.
  - `json`, `table`, `text`: data types and text.
  - `scripted`, `rehearsal`: a bench on which a whole turn runs without a model or
    a disk, and what a turn on it comes to.
- `app/` is the server around it: sockets, streams, and the traits through which
  stores, models and tools are plugged in.
- `tests/` runs the library on given values.

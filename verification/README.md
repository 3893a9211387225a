# tcpserver

The core of a real-time game TCP server, written in Verus. Verus checks
every function in `src/`; each states in its contract what it returns or
changes, except `SimpleUtils::current_timestamp`, whose result is the
clock's reading. The small wrappers that call outside crates are trusted,
and their contracts state what those crates document.

- `src/` — the verified library: the text and binary message protocols and
  their framing, the batching and compression codecs, the I/O ring buffer and
  buffer pools, the connection registry, heartbeat timeouts, rooms, friends,
  admission of clients, the outgoing connection pool, broadcast planning,
  message routing, latency histograms, the call profiler, and the rooms,
  roles, catches and results of the police-and-thief game.
- `tests/` — tests of the library on concrete values.
- `app/` — the server program: sockets, the tokio event loops, JSON through
  serde, system sampling, the floating-point reports and the game field's
  geometry. It performs the steps the library decides and reports the
  outcomes back to it.

Times enter the library as integers supplied by the caller (seconds,
milliseconds or microseconds), so every decision that depends on time is a function of its
inputs.

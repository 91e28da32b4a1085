# tapiti

OBD-II monitor for the Subaru Impreza EJ205 (2007). It polls an ELM327
adapter through a Bluetooth-to-TCP proxy, stores the readings in SQLite and
serves a WebSocket dashboard on loopback.

## Layout

- `src/` — the library, verified with Verus:
  - `text.rs`: the string model shared by the parsers (lines, trimming,
    tokens, case mapping, UTF-8 lengths, decimal and hex formatting).
  - `obd/`: ELM327 answers and PID decoders; values are exact fractions.
  - `subaru/`: the EJ205 PID table, priorities and readings.
  - `scheduler/`: which PIDs are due at each tick and what each answer
    leads to (publish, skip, reconnect).
  - `dtc/`: trouble-code decoding (modes 03 and 04).
  - `server/`: request routing, HTTP responses, the WebSocket handshake
    (SHA-1, Base64) and framing.
  - `logger/`: CSV export of a session.
  - `transport/`: the adapter's command protocol.
  - `config.rs`: command-line arguments.
- `app/` — the program: sockets, SQLite, the timers of the polling loop and
  of the connection retries, and JSON. It asks the library which PIDs are
  due, what each answer leads to, how long to pause and whether to retry,
  and for the text of every request and response.
- `tests/` — tests of the library.

# camoufox

A verified core for driving Camoufox (Firefox) over the Juggler protocol,
with a CLI daemon that manages browser instances.

The library under `src/` is written in Verus; every function carries a
contract that Verus proves:

- `api::base64` — the standard base64 decoder for binary payloads, with the
  law that it undoes encoding.
- `api::main_frame` — the top-frame command set: each command as a
  `Request` (method and parameters), the readers of the answers, and the
  evaluation state machine that survives lost execution contexts.
- `protocol` — protocol errors and their rendering, and the event router,
  which calls every handler that an event reaches, in a fixed order.
- `cli` — the daemon's instance and page bookkeeping, the decisions taken on
  the events of a new page, the IPC values, and what a response prints.
- `json`, `registry`, `text` — JSON values with their model, a key-ordered
  map, and decimal / hexadecimal renderings with the string order.

`app/` holds what talks to the outside: the clap command line, the serde
wire format, printing, and the loops that wait on the browser and sleep.
`tests/` exercises the library on concrete values.

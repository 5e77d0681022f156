# rsless

A small function-as-a-service system. A client uploads a Rust function's
package together with the function's prototype; the server writes the
package to disk, registers the program under a fresh identifier, appends a
generated `main` driver and builds it with cargo. After the function is
published, an `INVOKE` message runs the program with the call's arguments and
answers with what the driver printed after `FaaSRESULT:`.

## Layout

- `src/` — the verified library (Verus):
  - `text.rs` — splitting, joining, replacing, trimming and decimal numerals
    on characters, with their specifications and the lemmas that relate them;
  - `templates.rs` — reading a prototype and generating the driver program;
  - `json.rs` — JSON values, parsed and written by serde_json, and how the
    server reads their members;
  - `request.rs` — the members of a client message that the server reads;
  - `effect.rs` — the outside work the server asks for, and a model of the
    key-value databases;
  - `manage.rs` — `create`, `delete` and `publish`;
  - `runtime.rs` — invoking a published function;
  - `server.rs` — handling one received text, step by step;
  - `client.rs` — the messages a client sends.
- `app/` — the programs around the library: the TCP server, the client
  command line, and the code that carries out each effect (files, redis,
  cargo, the function's process).
- `tests/` — tests of the library on concrete values.

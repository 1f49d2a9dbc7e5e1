# mcrs_protocol

The wire formats of the Minecraft Java protocol (1.18.2, protocol 758) as a
verified Verus library, and a minimal server around it.

## Layout

- `src/` — the library, every function with a contract proved by Verus:
  - `var_int`, `big_endian`, `codec`, `text`: VarInts, big-endian fields,
    string fields, UTF-8/UTF-16 text, each with a specification of the bytes
    and round-trip laws.
  - `reader`: `ByteReader`, an in-memory byte source. A read takes the
    bytes of the value; a failed read takes what it had read by then (all
    that is left when the input runs out), as reading from a byte slice does.
  - `packets`: packet framing (with and without zlib compression) and the
    handshake, status, ping, login and play payloads.
  - `legacy`: the pre-Netty server list ping and its answer.
  - `server`: what the server does with each packet it receives, as a step
    from connection state to new state and actions.
  - `events`: which listeners a received packet is dispatched to.
  - `compression`, `json`: the calls into `flate2` and `serde_json`; with
    two calls into `std` text decoding in `text`, these are the only
    functions whose contracts are assumed rather than proved.
- `tests/` — the protocol tests and tests of the laws on concrete values.
- `app/` — the server binary (sockets, threads, NBT data for joining a
  world) and the client/server frameworks with callbacks.

## Checking

Verus verifies `src/`; the tests run against the compiled library with the
real outside crates linked.

# clips

A small clipboard-sharing service: clients push selections (text or images)
to a server, which keeps the ten most recent, and fetch the newest one back.

- `src/` is the verified library (Verus):
  - `runtime.rs` – the `ClipMessage` model and the `Select` hook;
  - `storage.rs` – `Shared`, the bounded selection store, with its laws;
  - `servo.rs` – what the server answers each request, with its laws;
  - `framing.rs` – length-prefixed frames (big-endian length via `byteorder`);
  - `session.rs` – per-connection buffers: the read state machine, line
    splitting and write bookkeeping, with the read-back laws;
  - `buffers.rs` – the trusted interface to `bytes::BytesMut`;
  - `client.rs` – the requests the clients send and what they show.
- `app/` is the program around it: sockets (tokio), the protobuf wire
  encoding of `ClipMessage`, and the three entry points selected by the
  program name (`servo`, `fizz`, `clipc-push-png` / `clipc-push-txt`).
- `tests/` exercises the library on concrete values.

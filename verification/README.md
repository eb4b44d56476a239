# bus1553

A small MIL-STD-1553 style message bus, verified with Verus.

- `src/` is the verified library: the message model and its byte encoding
  (`message1553`), the big-endian byte layout (`wire`), the byte buffer it is
  written with (`spec_buffer`, over the `bytebuffer` crate declared in
  `byte_buffer`), the function table (`functions`), the receiving side
  (`handler`, `server`, `abonne`) and the equipment and command types.
- `app/` holds the programs: the TCP and tokio plumbing, the JSON function
  table, and `main` (run with `gerant` for the manager, otherwise the
  subscriber).
- `tests/` runs the library on concrete messages and buffers.

The central laws, proved in `src/message1553.rs`: decoding the encoding of a
well-formed message gives it back (`law_decode_after_encode`), and encoding a
decoded message gives back the bytes it was read from (`law_encode_after_decode`).

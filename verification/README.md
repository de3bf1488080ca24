# rustaria

The core logic of the Rustaria game, written in Verus and proved against its
contracts.

- `src/` — the verified library: identifiers and registries (`identifier`,
  `registry`, `order`), id recycling (`id_table`), block lookup (`world`,
  `block`), tile connections of render chunks (`mesher`, `variant`, `tile`),
  the client's handshake and packet filtering (`handshake`), the client's
  channel ends (`network`), sprite-atlas layout (`atlas`, calling
  `rectangle_pack`), OpenGL enum tables (`gl`, `buffer`, `texture`,
  `program`, `backend`, `uniform`), frame statistics (`perf`) and console
  commands (`cmd`).
- `tests/` — tests of the library on concrete values.
- `app/` — the server console program: command-line handling, the
  configuration file, standard input and the server thread.

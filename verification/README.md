# movie_rust

The catalogue logic of an Emby-compatible media server, written in Verus:
every function in `src/` carries a contract that Verus proves.

- `src/` — the verified library: library paths and options, list queries,
  filters and the row conditions every item list applies, identity keys
  and de-duplication, media sources and streams, play state and session
  commands, the scan operation registry, remote source settings,
  similarity ranking, and the views clients get.
- `app/` — the unverified glue: JSON conversion with serde, local file
  reads, the task loop that runs scan attempts, and the few computations
  that need floating point.
- `tests/` — ordinary Rust tests of the library on concrete values.

Calls into `uuid`, `url`, `regex` and `std` that the library
cannot prove are made through small wrappers whose contracts are trusted;
each says in its doc comment what it claims.

# boomerang

The Boomerang event store as a benchmark harness drives it. The library builds the requests that
are sent to the store, decodes what comes back, and decides how a store is started, stopped and
described. Verus proves it against its contracts.

- `src/event.rs`, `src/proto.rs`: the values of the harness and the messages of the store.
- `src/adapter.rs`, `src/append.rs`, `src/read.rs`: appends, reads and subscriptions.
- `src/query.rs`, `src/metadata.rs`, `src/json.rs`: queries, conditions and metadata as JSON, and
  what is trusted of `serde_json`.
- `src/image.rs`, `src/manager.rs`: the container image and the life of a store.
- `src/text.rs`, `src/number.rs`: ordered texts and numbers in decimal and two's complement.
- `src/laws.rs`: properties of the library as a whole.
- `app/`: containers, connections and calls around the library.
- `tests/`: the library on concrete values.

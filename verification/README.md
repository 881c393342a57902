# kaflow

The core of a desktop search engine for Kafka messages, written in Verus: the types a
caller and an engine exchange, the rules that bound the settings, and an engine that
answers every request from a fixture held in memory.

Everything under `src/` is verified. The contracts are stated over spec functions and
views; the laws the library keeps (clamping, profile resolution, sorting, grouping into
buckets, the registry list, word-split fields) are public proof functions named `law_*`.

- `src/settings.rs`, `src/limits.rs` — setting ranges and how an operator profile narrows them.
- `src/search.rs`, `src/export.rs`, `src/topic_meta.rs`, … — the request and response types.
- `src/engine.rs` — the engine's interface, one trait per area.
- `src/mock/` — the in-memory engine: the fixture model, matching, searching, bucketing,
  exporting, and the store of registries and word-split fields.
- `src/text.rs`, `src/order.rs` — text helpers and verified stable sorting.

`app/` is the program around the library: it reads the fixture file named by
`KAFLOW_MOCK_FIXTURES`, parses it with `serde_json`, builds the engine, and writes export
files. `tests/` exercises the library from outside.

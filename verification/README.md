# memos

A tiered memory-management library for AI applications, verified with Verus.

Memories (texts, code, files, composites) live in workspaces and move through
a lifecycle: Active, Cooling, Cold, Zombie. The library holds the logic of the
system and proves it against its contracts:

- `types`, `error`: the data model and the error types, with their texts.
- `query`, `tiers`: listing filters, newest-first ordering, paging, and how a
  listing, a batch or a transition is spread over the storage tiers.
- `hot`: the in-memory tier with least-recently-used eviction.
- `cold`, `zombie`: the statements and filters of the database tier, the
  columns a memory is written under and how a row is read back, and the
  index of the archive tier.
- `client`, `facade`: the in-process memory client and the quick-start client.
- `policy`, `lifecycle`, `scheduler`: when memories move on, which moves are
  allowed, and the scheduler's state machine.
- `metadata_index`, `vector_index`, `fulltext`: the bookkeeping of the three
  indexes.
- `train`, `model`: training-data preparation, request checks, model files'
  metadata and the model cache.

Scores, importances and embeddings are `f32` values carried as their bit
patterns; identifiers are UUIDs carried as `u128`; instants are microseconds
since the Unix epoch.

`app/` holds what runs around the library: asynchronous services, SQLite,
the archive files, the HNSW graph, the Tantivy index, the background
scheduler, floating-point scoring and the serialisable forms of the types.

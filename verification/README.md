# rusty_attachments

A job-attachment library: it scans directories into manifests, diffs them,
plans content-addressed uploads and downloads against an S3-style store,
groups asset paths by storage profile, and names manifests in the store.

Layout:

- `src/` is the verified library (Verus). Each public function carries a
  `requires`/`ensures` contract over spec models (`Seq`, `Map`, `int`);
  the public `lemma_*` proof functions state the laws that tie functions
  together (grouping is a partition, normalization is idempotent, chunks
  tile a file, metadata round-trips, a snapshot diffed against itself is
  unchanged, and so on).
- Calls into outside crates (xxhash, globset, serde_json, uuid, a few
  std file-system queries) stand behind small `external_body` wrappers,
  each documented with what its contract assumes of the outside code.
- `app/` holds the unverified shell: directory walking, file hashing,
  SQLite caches, the storage-client traits and the async upload and
  download orchestration, all calling into the library for their decisions.
- `tests/` exercises the library on concrete values.

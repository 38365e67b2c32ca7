# rspack_cacheable

Values written to bytes for a build cache and read back from them, verified
with Verus.

- `src/cacheable.rs`: the `Cacheable` contract (`to_bytes`, `from_bytes`,
  `try_from_bytes`); reading what was written gives the value back.
- `src/archive.rs`: the `rkyv` archive of a name and a payload, the one place
  where bytes are produced and read by an outside crate.
- `src/dyn_data.rs`, `src/registry.rs`: values behind a shared interface,
  written with their type name and read back through a registry.
- `src/raw_source.rs`: raw sources (a buffer or a string).
- `src/snapshot.rs`, `src/store.rs`: the file snapshot: what is recorded for
  each file and which recorded files changed.
- `src/items.rs`: what the `cacheable` and `cacheable_dyn` attributes decide
  from the item they are put on.
- `src/with/`: `with` wrappers (`AsCacheable`, `AsCustom`, `AsString`).
- `app/`: the `rkyv` trait impls, the `rspack_sources` conversion, the
  snapshot's clock and file-system checks, and the macros' token handling.

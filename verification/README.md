# ziofa

The logic of the ZIOFA daemon, which observes Android processes with eBPF,
written in Verus. The functions in `src/` carry contracts that Verus
proves, except a few small wrappers around calls into std and outside
crates (marked `#[verifier::external_body]`), whose contracts are trusted.

- `src/calls.rs`, `src/events.rs`, `src/items.rs`: the records that the eBPF programs write,
  read back from their bytes (the entries of the event ring buffer by their
  kind), and the events that clients receive.
- `src/time_series.rs`, `src/aggregator.rs`: per-process event counts and
  the fixed-length time series they feed.
- `src/config.rs`, `src/filters.rs`, `src/map_update.rs`,
  `src/keyed_map.rs`: configurations, the filter tables built from them, and
  the changes that bring a kernel table to its new content.
- `src/symbols/`, `src/odex_symbols.rs`, `src/oat_lookup.rs`: symbol files,
  their symbols, the symbol cache, and the camel-case splitting of the
  search index.
- `src/registry.rs`, `src/features.rs`, `src/counter.rs`,
  `src/supervision.rs`, `src/collector.rs`, `src/procfs_utils.rs`,
  `src/filesystem.rs`, `src/aya_wrapper.rs`: pin paths, single ownership of
  pinned objects, what features attach, and the decisions of the actors.
- `app/`: the daemon around the library: file, process and eBPF I/O (the
  features' probes, the ring buffers the records are read from, the packet
  counter), the search index, and the actors.
- `tests/`: tests of the library on concrete values.

# fs_mutator

Filesystem-delta mutators for coverage-guided fuzzing of programs that read a
whole directory tree, such as OCI container runtimes. An input is a delta: an
ordered list of filesystem operations applied on top of a baseline tree held
in an in-memory VFS and exposed to the target through FUSE.

The library in `src/` is verified with Verus:

- `delta`: operations and deltas, content-op deduplication, seed corpora
- `mutators`, `symlink_mutators`, `pool`: the mutators and their outcomes
- `symlink_utils`: the baseline index and symlink replacement plans
- `guidance`, `feedback`: access-log guidance and path-novelty feedback
- `seeds`, `baseline`, `harness`: campaign seeds and configs, baseline
  trees, command lines, crash calibration and benchmark statistics
- `ffi`, `glue`, `gen`, `text`, `rng`: control-plane checks and helpers

Every random mutator has a public `step` that takes the drawn values as
arguments and states exactly what each of them produces; its `mutate` only
draws those values from the fuzzer's random source and calls it.

`app/` holds the unverified glue: serde and LibAFL integration, the C control
plane bindings, the FUSE access-log observer, the live guidance slot, and
the OCI config files that are edited through serde_json.

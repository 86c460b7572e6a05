# anolisa

The verified core of the ANOLISA agent platform, written in Verus.

- `src/agentsight`: events of the kernel probes. Records are decoded, failed
  opens and retransmits are aggregated, DNS names are read, and events are
  turned into rows and queries of the `raw_events` table.
- `src/ws_ckpt`: workspace checkpoints. References to snapshots are resolved,
  checkpoints, rollbacks, deletions and cleanups are decided, and workspaces are
  taken under management step by step.
- `src/cli`: the `enable` and `osbase` commands. Arguments are checked, the
  execution policy is applied, failures are reported, and plans and outcomes are
  shown.
- `src/tokenizer.rs`: token estimates.
- `src/text.rs`, `src/textmap.rs`, `src/paths.rs`, `src/json.rs`: strings, maps
  from strings, paths and JSON.

Every function states what it returns or changes; what holds across functions is
stated as public proof functions beside them. What the contracts take on trust
of `serde_json`, `sha2`, `hex` and the standard library is said at the wrappers
that make the calls.

`app/` is ordinary Rust around the library: the kernel, SQLite, the file system,
the network and the terminal. `tests/` runs the library.

# hyperlight_sandbox

A capability-based filesystem for sandboxed guests, a small command executor on
top of it, and the builder that puts a sandbox together. The decisions are
written in Verus and proved against their contracts.

- `src/` is the library. It checks requests against capabilities, limits and
  per-run budgets, keeps the tables of descriptors and streams, parses scripts,
  and walks a directory tree to empty it. It never touches the host: an
  operation that needs the host is a sequence of calls, each of which says which
  host operation is due and takes what the host replied.
- `app/` performs the host operations with `cap-std`, holds the shared state of
  a running sandbox, and serializes results.
- `tests/` runs the library, both with made-up host replies and on real
  directories.

## Where to look

| Module | What it holds |
| --- | --- |
| `model` | what a filesystem state is, its invariant, and its transitions |
| `guest_path` | which paths a guest may use, and what they mean |
| `cap_fs` | the filesystem: mounts, opening, names, files, streams, listings, cleanup |
| `cap_fs::laws`, `cap_fs::emptying`, `cap_fs::round_trip` | what holds of the filesystem as a whole |
| `toolbox` | scripts: the grammar, the built-in commands, and their laws |
| `sandbox` | configuration, snapshots, and the plan that a builder makes |
| `random` | random numbers for guests |

A host directory is mounted with a lifetime. `/input` and `/work` keep their
contents from one run to the next; `/output` and `/tmp` are emptied before each
run. Host directories of different lifetimes must be neither the same nor inside
one another, so nothing that is kept is ever emptied. `CapFs::register_preopen`
mounts a directory whose place on the host is not known; whoever calls it keeps
it apart from the others.

# hotfnl

Hot function swapping for Rust binaries on Linux: the app is built as a dynamic library
as well, and the functions marked hot are called through a table that is patched with
the functions of each new build.

- `src/` is the core, verified with Verus: the layout of the generated hot project and
  the rewriting of its Cargo manifests (read and written through the `toml` crate), the
  table of hot functions and how a new library is patched into it, the lifecycle
  callbacks, the decisions of the wrapper process and of the reload task, and the keys
  and names that the attribute macros generate.
- `app/` is the runtime around it: the process-wide engine, loading libraries, watching
  files, running the wrapper and the build, scaffolding on disk, and the macros' token
  handling.
- `tests/` runs the core on concrete values.

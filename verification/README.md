# dart_dec

A headless decompiler for Dart AOT binaries (`libapp.so`, `App.framework`,
`.exe`), written in Verus: the library's functions carry `requires` /
`ensures` contracts that Verus proves.

## Layout

- `src/binary` — file bytes, format detection by magic, SHA-256, the ELF,
  Mach-O and PE front ends (through goblin), sections, and Dart VM version
  detection (version string, SDK hash, snapshot fingerprint).
- `src/snapshot.rs` — the snapshot's object model and the object pool.
- `src/disasm` — capstone decoders for ARM64, Thumb and x86, and the
  conversion of their output into instructions with operands.
- `src/lifter` — the IR and the lifters of the three instruction sets, with
  the object-pool and stub resolvers.
- `src/graph` — control-flow graphs, dominators and frontiers, SSA, loops,
  type propagation, structuring into a Dart syntax tree, and Dart code
  generation; `ast_view.rs` and `shape.rs` hold the models the contracts
  speak of.
- `src/deobf`, `src/patterns.rs` — control-flow and string deobfuscation,
  symbol suggestions, cascade recovery.
- `src/scan.rs` — secret rules over recovered strings and Android
  permissions.
- `src/output`, `src/cli.rs`, `src/context.rs` — output models (SARIF, Dart
  files), the decisions of the command line, and the library handle.
- `app/` — the command-line program, serde output writers, SQLite, and the
  C interface; it makes the I/O calls and leaves every decision to the
  library.
- `tests/` — the tests, run against the compiled library.

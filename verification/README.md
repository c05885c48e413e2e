# qubit-infra-style

Checks the fixed first-generation Rust style rules of Qubit projects and runs
rustfmt (`check` and `fix`). The rules, the exception file validation, the
project-relative paths, the formatter commands and the decisions around them
are verified with Verus.

Layout:

- `src/` — the verified library. A project is handed to it as a
  `ProjectSnapshot` of plain values (walked trees with the text of each Rust
  file, the parsed exception file, Cargo workspace metadata, environment
  switches). `check` reports exactly the diagnostics that `check_outcome`
  specifies; `check_project`, `fix` and `fix_project` take the outcomes of the
  formatter commands that `formatter_step` asked the caller to run.
  `src/laws/` states and proves properties of the library as a whole, such
  as that an exception suppresses only diagnostics of its own rule and path.
- `app/` — the command-line program: argument parsing, reading the project
  from disk, running `cargo fmt` and `cargo metadata`, and printing.
- `tests/` — tests of the library on snapshots.

# cargo-policy

Executable engineering policies for Rust workspaces: size and testing rules,
semantic dead-code and visibility findings, and Clippy and rustdoc run with a
policy's lint profile, reported for people or as versioned JSON.

- `src/` is the verified library: line indexing, configuration and its
  validation, lint profiles and tool commands, the reading of compiler and
  analyzer output, the planning and state of a check, and every report the
  check writes. Its contracts and laws are checked by Verus.
- `app/` is the command-line program around it: argument parsing, files,
  processes and threads, and the terminal.
- `tests/` exercises the library on concrete values.

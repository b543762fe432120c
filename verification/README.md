# qq_cli

One command for every project: `qq` detects the project type of the current
directory and runs the right command for `install`, `start`, `test`,
`deploy` and the rest.

The library (`src/`) is written in Verus and verified: detection, the
layered merge of built-in types with the global and per-project configs,
candidate gates, the trust gate for per-project configs, the command-line
surface (names, dispatch, help text, completion), and the hand-written
detection chain. What the directory holds reaches it as a `Probe` (the
relative paths that exist, the binaries that answer); `targets` says what
to probe and proves that probing those suffices.

The program (`app/`) reads the environment, the config files and the
approval store, parses TOML, probes the directory, prompts, prints and runs
the shell. It asks the library what to do at each step.

Verify with `verus src/lib.rs --crate-type lib`; the tests under `tests/`
exercise the library on concrete directories and configs.

# safe-cargo

A cargo wrapper that guards a Rust project against supply-chain attacks:
every dependency must have a signed analysis report that passes the
project's policy before it is added or built.

## Layout

- `src/` is the verified library (`safe_cargo`), written in Verus.  It holds
  the validation of names, versions, repositories and branches; the policy
  (durations, scores, verdicts); version resolution against the versions
  crates.io lists; signature checking; the document fetch as a state
  machine (cache, eviction, registry, signatures); the tallies behind
  `check` and `add`; the reading of `Cargo.lock` and `Cargo.toml`; the
  allow-list; and the URLs, paths and error messages of every request.
  Calls into `semver`, `minisign-verify` and `keyring` go through small
  trusted wrappers whose contracts are stated next to them.
- `app/` is the command-line program: argument parsing, prompts, file,
  network and process I/O, JSON and configuration deserialization, and
  output.  It
  performs what the library decides.
- `tests/` exercises the library on concrete values.

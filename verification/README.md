# deoxidizer_lib

The verified core of `deoxidizer` / `deox`, a command-line tool that frees
disk space taken by Rust and Tauri build artifacts (`target/` directories).

- `src/` is the library, written in Verus: every function carries a
  `requires`/`ensures` contract that Verus proves. It holds the
  configuration format and its rules, project discovery rules (manifest
  reading, scope, filters, ordering), target-directory accounting, the
  clean modes and the path checks that keep removal inside a validated
  `target/`, the text of the scan table, and the self-update decisions
  (allowlisted URLs, redirects, checksum manifests, signature status,
  archive entry checks), and the order of the steps that the `clean`
  command (configuration required, estimate, dry run, confirmation, exit
  status), scanning for projects (including which `target/` directory a project uses: its
  own, else its workspace's shared one), cleaning a project and installing
  an update go through: `app/` performs each step and hands back what it
  found.
- `app/` is the program around it: argument parsing (clap), filesystem
  walks and removal, prompts, HTTP, `gpg`, archive extraction and the
  binary replacement. It hands the library plain values and acts on what
  comes back.
- `tests/` exercises the library's public API.

Calls into outside crates that the library makes (`toml`, `serde_json`,
`semver`, `sha2`, `hex`, `humansize`, `dirs`, and `std::path`) go through
small trusted wrappers whose contracts are documented beside them.

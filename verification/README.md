# wapm_cli

The WebAssembly package manager's command line, with its logic verified by
Verus: contract grammars and the validation of modules against them, the
registry configuration, lockfiles and their migrations, the wax index, and
the decisions of the subcommands.

## Layout

- `src/`: the verified library.
  - `wasm_contract/`, `wapm_contract/`: contract grammars and validation of
    WebAssembly modules against contracts.
  - `config.rs`: registries, login tokens, configuration keys and folders.
  - `lockfile.rs`, `lockfile/migrate.rs`: lockfiles, lookups and format
    upgrades; `legacy_lockfile.rs`: the older lockfile records.
  - `execute.rs`: `wax`, as a state machine from the answers of the outside
    world to its next action.
  - `wax_index.rs`: the index of commands run with `wax`.
  - `run.rs`, `install.rs`, `publish.rs`, `commands.rs`, `bundle.rs`,
    `database.rs`: the decisions of the other subcommands.
  - `bonjour.rs`, `resolved.rs`, `package_order.rs`: bringing installed
    packages in line with the manifest and the lockfile, matching the
    registry's answers to the packages asked for, and the order of packages.
  - `text.rs`, `assoc.rs`: strings, paths and association lists.
- `tests/`: tests of the library.
- `app/`: the command-line front end: arguments, files, processes, and the
  outside work that the state machine of `wax` asks for.

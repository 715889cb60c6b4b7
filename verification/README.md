# darp

The core of a tool for local development domains, written in Rust and verified with Verus.

A configuration names *domains*, folders on disk that hold projects. A domain has groups, a
group has services, and environments stand beside them. The library says what a configuration
means, how it is edited, and what a deployment of it consists of: the reverse-proxy
configuration, the hosts files and the port map.

## Layout

- `src/text.rs`, `src/map.rs`, `src/sort.rs`: texts, ordered maps and sorting, each with its
  mathematical meaning.
- `src/json.rs`: JSON values and documents. `serde_json` reads and writes the documents.
- `src/alias.rs`: hostnames, and why an alias is rejected.
- `src/config/`: the configuration. `model.rs` holds the types and their models, `edit.rs` what
  every edit does, `laws.rs` what holds of edits in general, `resolve.rs` how settings cascade,
  `load.rs`, `merge.rs` and `migrate.rs` how documents become one configuration.
- `src/commands/`: the commands. `config_cmds.rs` edits a configuration; `discover.rs`,
  `plan.rs`, `aliases.rs`, `collisions.rs`, `artifacts.rs`, `portmap.rs` and `deploy.rs` make up
  a deployment; `show.rs` and `urls.rs` are listings.
- `tests/`: tests of the library.
- `app/`: the tool around the library: files, the environment, the terminal, and the programs
  that it drives.

## Contracts

Every public function states what it returns or changes over models: sequences of characters
for texts, maps for ordered maps, trees for JSON. Messages are part of the contracts, to the
letter. Public proof functions state what holds across functions; they stand under *Laws* at the
end of a file, or in a file of their own (`config/laws.rs`, `commands/collision_laws.rs`).

What is believed without proof stands behind small functions that call `std`, `serde_json` or
`dirs`, each with a comment that says what is claimed of the call.

# lifeblood_manager

Manages local installations of Lifeblood: the versions installed in a base
directory, the configurations of its components, the options that its
components are launched with, and a setup wizard that writes configurations
for Houdini, Blender and Redshift.

The library under `src/` is written in Verus. Its own functions carry
contracts that Verus proves; the few functions marked
`#[verifier::external_body]` call the `toml`, `semver` and `chrono` crates or a
std method that Verus has no specification for, and their contracts, which
state what those calls do, are trusted rather than proved. Paths are handled
as text by the rules `std::path` follows on Unix, and compared component by
component as `Path` compares them.

- `installation_data`, `version_metadata`, `install_support`: scanning a base
  directory, keeping versions ordered by date with a current one, the
  `meta.info` file, `setup.cfg`, launcher scripts.
- `config_data`, `config_data_collection`: configuration files and their
  schema check.
- `wizard`, `wizard_config`, `wizard_to_config`, `wizard_pages`,
  `config_roundtrip`: the wizard's pages, what it reads from and writes to the
  environment configuration, and the proof that it reads back what it writes
  (stated over the package tables: that the TOML text written for a table is
  parsed back into the same table rests on serde and the toml crate, and is
  not proved here).
- `launch_data`, `main_widget_config`, `cli`, `houdini_utils`, `paths`,
  `text`: launch options, the manager's settings, the command line, path and
  text helpers.

`app/` is the command-line program around the library: file system, network,
processes and serialisation.

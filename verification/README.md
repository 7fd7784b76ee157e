# comb

A small build tool for modules described by a `comb.toml` file, as a Verus
library with a thin program around it.

- `src/toml/value.rs`: TOML values as the library holds them, with their
  meaning (`TomlData`), tables kept in ascending key order, and copies.
- `src/toml/toml_completeness.rs`: completion of the `module` section: the
  missing attributes get their defaults, the types are checked, `authors` and
  `location` are settled. Its laws: completion does not depend on the order in
  which the attributes are taken, and it settles after two applications.
- `src/toml/raw.rs`: a value as the TOML reader hands it over, and the value
  it stands for.
- `src/toml/toml_parser.rs`: reading the text of a file as a TOML document,
  through the `toml` crate.
- `src/toml/toml_generator.rs`: the text of `comb.build.toml`, each section
  written through the `toml` crate.
- `src/toml/build_toml_generation.rs`: generating `comb.build.toml`, as a
  machine that asks the program for each piece of outside work (reading,
  creating, writing files) and decides what follows.
- `src/dependencies/toml_to_struct.rs`: the entries of the `dependencies`
  section as `Dependency` values, versions read from their text.
- `src/dependencies/get.rs`: fetching the dependencies into the build
  directory, again as a machine over outside work; a leading `~` of a path
  stands for the home directory that the program hands in.
- `app/`: `main`, and the file and directory work.

# Ricer

Ricer is an experimental dotfile manager that treats the home directory like
a Git repository. Configurations live in Git repositories whose working
directory can be the home directory, and user-defined command hooks can run
scripts before or after each Ricer command.

This crate is Ricer's core, written in Verus: every function in `src/` states
its behaviour in `requires` / `ensures` contracts that Verus proves.

## Layout

- `src/tree.rs`: the model of TOML items (`TomlNode`), their executable form
  (`TomlItem`), and facts about tables (lookup, insertion, removal).
- `src/edit.rs`: the trusted interface to `toml_edit`; each function there
  makes one `toml_edit` call and says in its doc comment what is assumed of
  it.
- `src/convert.rs`: copying `toml_edit` items into `TomlItem`s and back.
- `src/walk.rs`: walks that meet every key-value pair of an item in document
  order, for settings decoders.
- `src/config/`: the format preserving document store (`toml.rs`), the
  repository and command hook settings with their encoders, decoders and
  round-trip laws (`settings.rs`), the `repos`/`hooks` sections
  (`config.rs`), the configuration directory's subdirectories (`dir.rs`),
  and further entry types (`file/`, `hook.rs`).
- `src/cli.rs`, `src/context.rs`: command-line options and command contexts.
- `src/hook.rs`, `src/manager.rs`: which hook scripts a command runs, in
  which order, and whether the user is asked first.
- `src/locate.rs`: the XDG directory layout, and configuration paths derived
  from a directory layout.
- `app/`: the binary: argument parsing with clap, reading the XDG
  directories from the environment, reading
  and writing configuration files, paging hook scripts and running them.
- `tests/`: tests of the library on concrete values.

# mago_server

The editor-facing half of a PHP toolchain, with its behaviour stated in contracts
and proved by Verus.

- `src/` is the library. It holds token lookup, member resolution, hover,
  definitions, semantic highlighting, code actions, rename, the lint rule
  `prefer-casts-method`, and the state behind document synchronisation. Every
  function goes from plain values to plain values. `src/outside.rs` lists the calls
  into other crates, with what is relied on of each.
- `app/` connects the library to an editor: the protocol's types, the tasks that run
  the parser and the analyzer, and the settings as they stand in a configuration
  file.
- `tests/` runs the library on small sources.

Functions called `law_…` state what holds across several functions.

# plemeshko

The configuration and screen logic of Plemeshko, an economy game, written
in Verus: every function of the library states its behaviour in `requires`
and `ensures`, and Verus proves the code against it.

## Layout

- `src/json` — JSON values and reading Rust values out of them
  (`FromValue`), with the paths and errors that report where a read failed.
- `src/config` — a repository of configs by type and name: registering
  config types under tags, loading configs, looking them up; `laws.rs`
  states what these promise together.
- `src/env` — the game's configs by numeric id: the indexer that hands out
  one id per label, the repository and its builder (which prepares each
  loaded config once every label has its id), and the shared environment;
  `config/laws.rs` states what they promise together.
- `src/app` — what the game's screens decide: events raised during a frame,
  the state of windows, screens and tabs, the depot changes shown on the
  info tab, growing and shrinking productions, the production builder, the
  research tab's tooltip, the debug tab's spawning of resources, the menu,
  new-game and load screens.
- `src/log.rs` — where the log goes, as the `PLEMESHKO_LOG` variable names
  it.
- `app/` — the typed side: config types read by serde, loading from files
  and directories, and the errors as text.
- `tests/` — the library's tests.

# prefset

Synchronize macOS preferences with one config file.

This crate is the verified core of `prefset`: the configuration, the plan
of changes, what each command prints and decides, and the reading of what
`defaults export` prints are written in Verus with contracts, and proved.
Calls into `toml` (parsing `config.toml`, quoting strings), `plist`
(reading the export) and `std::path` (splitting and stripping paths) stand
behind small trusted wrappers whose contracts name their results; joining
paths is written out and proved.

- `src/` — the library.
  - `document.rs`, `number.rs` — a parsed TOML document as plain values;
    floating-point numbers are held by their IEEE-754 bits and their text.
  - `config.rs` — the top-level keys of `config.toml`, each handed to its
    integration.
  - `integrations/` — `defaults`, `appearance`, `filesystem` and `wallpaper`:
    parsing each part of the configuration, turning what was read from the
    system into a plan of changes, and presenting each change.
  - `commands/` — what `apply`, `check`, `init` and the bare command decide
    and print.
  - `util/` — text helpers: shell quoting (proved to read back as the quoted
    word), ANSI colors, trimming, decimal numbers, string order, and `~`
    expansion with the home directory handed in.
- `app/` — the program around it: command-line parsing, reading
  `config.toml` from disk, the environment (home directory, terminals), running
  `defaults(1)`, `osascript(1)` and `killall(1)`, file flags and AppKit, and
  the choice of which paths and screens to inspect for a plan. It
  builds on macOS only.
- `tests/` — tests of the library on concrete values.

# hyprland-autoname-workspaces

Names Hyprland workspaces after the windows they hold. Each window gets an
icon from rules (regular expressions) on its class and title, and each
workspace a label built from the icons of its windows, with optional
deduplication and superscript counters.

## Layout

- `src/` is the library, verified with Verus:
  - `rule.rs`: a compiled regular expression with its pattern; the calls
    into the `regex` crate.
  - `config.rs`: the raw configuration tables and their compilation into
    rules.
  - `renamer/icon.rs`: which rule gives a window its icon.
  - `renamer/formatter.rs`: placeholder substitution (through `strfmt`),
    counting duplicate windows, the text of each client and workspace.
  - `renamer/mod.rs`: the renamer's state (the known workspaces), filtering
    windows, and the renames to make on each event.
  - `text.rs`: string helpers (decimal notation, trimming, replacing,
    reading an integer).
- `app/` is the program around it: command line, the configuration file
  (TOML through serde), Hyprland's socket and events, signals and file
  watching. Every decision it acts on comes from the library.
- `tests/` runs the library on concrete windows and configurations.

# ccometixline

The verified core of `ccline`, a statusline for a coding assistant: segment
options and their editing from the command line and the TUI, normalisation of
token usage, the texts of the model, usage and credits segments, the decisions
of loading usage data, and the layout decisions of the TUI components.

Layout:

- `src/` — the library, verified with Verus.
  - `option_map.rs`: option values and the per-segment option table (a map with
    distinct keys kept in insertion order).
  - `options.rs`: the option registry, `--set` / `--unset` / `--options`, and
    TUI cycling, with their laws (a set option reads back, an unset one reads
    as its default, cycling twice or back and forth returns the start).
  - `types.rs`: configuration, statusline input and usage types; theme
    comparison; usage normalisation.
  - `usage.rs`, `credits.rs`, `model.rs`: segment texts and decisions.
  - `ui.rs`: quit-confirmation and settings-panel layout.
  - `text.rs`: string helpers with their specifications (trimming, decimal
    rendering, integer and float syntax, ordering).
  - `time.rs`: the calls into chrono, behind trusted wrappers.
- `tests/` — tests of the library.
- `app/` — the program's edges: clap, serde, files, the usage API (ureq),
  ratatui drawing, and floating-point amounts.

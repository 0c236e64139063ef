# tiandi

The verified core of a local LoRA training workbench ("the furnace"): it
manages projects, image datasets, training recipes and training runs, and
drives a Python training kernel (kohya sd-scripts or ai-toolkit).

## Layout

- `src/` — the library, written in Verus. Each public function carries a
  contract over a mathematical model of its values; laws that relate several
  functions are public proof functions (`lemma_*`).
  - `state`, `supervisor` — the run state machine, the shortest legal walk to
    a target state, and what a kernel event does to a run.
  - `hash`, `scan`, `dataset`, `mirror` — dHash near-duplicate grouping, scan
    summaries, dataset rules and the `N_name` training mirror.
  - `recipe/*`, `compat/*` — recipes, presets, validation, and the sd-scripts
    TOML / ai-toolkit YAML writers and kernel launch decisions.
  - `captions`, `naming`, `paths`, `text`, `number` — caption editing, file
    names, path text, decimal text and binary64 recipe numbers.
  - `api`, `queue`, `doctor`, `domain`, `engine`, `family` — request checks,
    queue rules, environment judgements and the domain entities.
- `tests/` — the test suite, run against the compiled library.
- `app/` — the program around the library: command line, SQLite store,
  HTTP server, kernel process handling and file I/O.

# llama_specs

Checks whether Ollama language models will run on this machine before they
are downloaded, and browses the model catalogue in a terminal interface.

The library under `src/` is verified with Verus:

- `models/compat.rs`: the memory estimate `(parameters × 4 bits / 8) × 1.25`
  and the four verdicts (Optimal, Hybrid, Slow, Incompatible), with proved
  laws (verdict table, memory breakdown, monotonicity in model size, RAM and
  VRAM).
- `models/ollama.rs`, `models/numeral.rs`: parameter counts from size tags
  ("8b", "0.5b", "270m"), named tags, resolution against the static database,
  model families, and catalogue entries from the public library page
  (`models/scrape.rs` holds the HTML queries).
- `hardware/`: RAM and NVIDIA GPU figures (through `sysinfo` and NVML) and the
  architecture.
- `app.rs`: the application state and its update function (navigation,
  fuzzy search, catalogue and daemon updates, key bindings), with its
  invariant and laws.
- `ui.rs`: placement of the header's hyperlink; `text.rs`: character-level
  string helpers.

Parameter counts are whole numbers of parameters (`u64`), not floating point.

`app/` is the terminal program around the library: the event loop, HTTP
requests to Ollama, the clipboard, the JSON database, translations and the
ratatui rendering. It reads the catalogue from `assets/models.json` at start.

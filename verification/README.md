# Project Commentator, verified core

A desktop app that watches the screen and roasts it: every minute or so it
captures the primary monitor, asks a local Gemma 4 vision model for a funny
paragraph about it, and appends the result to a one-way comment feed.

`src/` is the logic of the app, verified with Verus:

- `text` — character-level string work (search, ASCII lower-casing, trimming,
  marker removal) with its specifications.
- `thinking` — splitting thinking-mode output into answer and reasoning.
- `prompt` — the Gemma chat prompt, prompt selection, the context-window
  checks, cutting streamed output at turn markers, the sampler seed.
- `brains` — the brain catalog, cache paths and download URLs.
- `status` — the engine status and its transitions, and the worker's request
  dispatch.
- `capture` — blank-frame detection, RGB extraction and the thumbnail of a
  captured screen (through the `image` and `base64` crates).
- `driver` — settings, token budgets and feed entries.

`app/` is the shell around it: Tauri, the llama.cpp worker thread, downloads,
screen capture through `xcap`, and the Jinja rendering of the chat template.

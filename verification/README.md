# delphai

The verified core of a small village simulation driven by a language model.
Everything under `src/` is checked by Verus: each public function states in
its `ensures` what it returns or changes, and the `lemma_*` proof functions
state the properties that hold across calls.

## Layout

- `src/pathfinding.rs` — tile coordinates and the row-major walkable grid.
- `src/move_state.rs` — one-tile steps toward a target, plain and around
  obstacles (direct direction first, then 45°, 90° and 135° turns, never
  straight back, recently visited tiles last).
- `src/world.rs` — the tick loop: stepping, a bounded history of recent tiles
  per citizen, and a seeded random walk (through `rand`).
- `src/animal.rs` — deer that wander, flee from people, escape over the map
  edge and respawn.
- `src/tech.rs` — the research tree.
- `src/agent/` — the food behavior state machine, emotions, and the pairing
  of idle citizens into conversations.
- `src/llm/` — citizen memory with compression, prompt text, the inference
  queue, and the readers of JSON and YAML replies (through `serde_json` and
  `serde_yaml`).
- `src/decode.rs` — decoding of flat arrays handed over by a game engine.
- `src/text.rs` — string helpers with specifications (joining, trimming,
  decimal notation).
- `app/` — the unverified shell: floating-point needs, positions and
  awareness, serialisable records, and the HTTP provider.
- `tests/` — executable tests of the library.

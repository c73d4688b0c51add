# cardmaker

A card maker for a Chinese card game, as a library whose behaviour is stated
in Verus contracts and proved, and a small command-line program around it.

## Layout

- `src/` — the verified library.
  - `tags`, `base`, `duel/` — the tag catalogue and the duel simulator
    (state, effects, the executor, preset scenarios).
  - `parser/` — the card-text language: lexer, parser, validator, the card
    collection and its data checks.
  - `dz/` — the DZ card engine: the DZ source parser and checker, runtime
    card instances, zones, effect settlement and the effect stack, decks
    dealt from the distribution table, the asset cache, settings, the
    model-assisted card generation, and the unscaled parts of card faces.
  - `devtools` — check results, health reports and the error log's summary.
  - `text`, `json`, `assoc` — strings, JSON values and small maps.
- `tests/` — tests run against the compiled library.
- `app/` — the program: files, processes, HTTP requests, and the scaled
  (floating point) card renderer.

Run `verus` on `src/lib.rs` to check the proofs.

# ciri

Ciri answers "can this machine run that game?". It resolves a free-text game title against an
offline catalog, detects the machine's hardware, and gives a verdict (runs, runs with
compromises, doesn't run), FPS estimates per quality preset, and notes, as text or JSON.

The library under `src/` is written in Verus. Every function there has a contract, and Verus
proves that the code meets it:

- `catalog`: the game catalog, title normalization and fuzzy resolution, and the Steam,
  ProtonDB and catalog-update logic (`catalog/updater.rs` is a state machine; the network
  calls are made outside the library).
- `assess`: requirement checks, the verdict, confidence, bottleneck and FPS estimates.
- `binary32`: `f32` rounding (round to nearest, ties to even) stated and computed with
  integers, so that the `f32` arithmetic of the scores and estimates is exact in the proofs.
- `hardware`: CPU and GPU scoring and the parsers of the Linux, macOS and Windows system
  reports.
- `output`, `cli`, `diagnostics`, `analytics`, `config`, `telemetry`, `ml`: report
  rendering, command-line handling, system diagnostics and the smaller services.
- `text`: the string operations the rest is built on.

Properties that relate several functions stand as public proof functions named `law_*`.

`app/` holds the program around the library: argument and file handling, the HTTP requests,
the parts that compute in floating point, and the serde copies of library types. `tests/`
runs the library on concrete inputs.

# Chronicle core

Chronicle is a local-first computer memory engine: it records normalized
activity evidence (window focus, filesystem changes, input, UI Automation
metadata, transient screenshots) into SQLite before any optional local AI
analysis, and keeps capture working when the AI engine is slow or absent.

This crate is Chronicle's core, written in Verus and verified:

- `src/` — the library. Its functions state their behaviour in
  `requires`/`ensures` and are proved against it; where a result comes from
  the clock, the platform or a random source, the contract states what
  holds of every outcome and a verified function one call down takes that
  value and states exactly what follows. The provider traits, which a
  capture backend implements, declare no contract; this build's
  implementations state theirs. Covered: privacy exclusions and
  capture settings, event normalization, the filesystem change detector,
  mouse gesture recognition, the processing-queue policy (claims, retries,
  back-off), prompt and request construction for the local llama.cpp
  engine and the matching of its batched answers, PNG encoding with CRC-32
  and Adler-32, Base64, screenshot retention, and setup helpers. The few
  calls into `std`, `uuid`, `chrono` and `serde_json` sit behind small
  trusted wrappers whose contracts are documented where they are declared.
  Properties that span calls are stated as `law_*`/`lemma_*` proof
  functions next to the code they describe.
- `tests/` — tests of the library on concrete values.
- `app/` — ordinary Rust around the library: SQLite (`rusqlite`), the HTTP
  client (`ureq`), archive extraction (`zip`), process control, threads,
  the data-directory dialog, and floating-point ranking.

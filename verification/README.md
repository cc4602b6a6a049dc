# standards

Identifiers, a domain error and configuration defaults shared by services,
written in Verus with their behaviour stated in contracts and proved.

- `src/public_id.rs` — `PublicId<T>`: an 11-symbol Crockford Base32 code carrying
  55 bits. Minting, the canonical text, and parsing that is case-blind and folds
  the confusables `O`→`0`, `I`/`L`→`1`.
- `src/code_laws.rs` — the proofs about codes: parsing the canonical text gives
  the code back, any spelling of a code parses alike, a code keeps exactly 55
  bits, and codes sort as the values they carry.
- `src/id.rs` — `Id<T>`: a typed UUIDv7, with its hyphenated text and parsing
  through the `uuid` crate.
- `src/compare.rs` — equality, ordering and hashing of both identifier types.
- `src/error.rs` — the categorised domain error, its messages and HTTP statuses.
- `src/config.rs`, `src/telemetry.rs` — configuration defaults and the
  deployment-environment decision.
- `app/` — serde, `Display` and `thiserror` forms of the library's types,
  configuration loading and telemetry start-up.

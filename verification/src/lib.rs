//! Identifiers, errors and configuration defaults shared by services.
//!
//! - [`base32`]: the Crockford Base32 alphabet and the reading of one symbol.
//! - [`code_laws`]: proofs about public-id codes: encoding, parsing, spellings and order.
//! - [`public_id`]: `PublicId<T>`, an 11-symbol Crockford Base32 handle for an entity.
//! - [`id`]: `Id<T>`, a typed, time-ordered UUIDv7 identifier.
//! - [`compare`]: equality, ordering and hashing of both identifier types.
//! - [`error`]: the categorised domain error.
//! - [`text`]: decimal and character text as std's formatting writes it.
//! - [`config`]: the service configuration and its defaults.
//! - [`telemetry`]: decisions taken when telemetry starts.
pub mod base32;
pub mod code_laws;
pub mod compare;
pub mod config;
pub mod error;
pub mod id;
pub mod public_id;
pub mod telemetry;
pub mod text;

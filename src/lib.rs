//! Deterministic test vectors for binary-to-text encodings.
//!
//! `stream` makes reproducible filler bytes from a one-byte seed, `edges`
//! the three-byte inputs that probe partial bit groups, `records` the
//! records of one input under every encoding (through the encoders in
//! `oracles`), and `corpus` the whole ordered collection.
pub mod corpus;
pub mod edges;
pub mod oracles;
pub mod records;
pub mod stream;
pub mod utils;

//! Recovery/inspection library for a multi-column-family, document-oriented
//! store built on an ordered key-value engine.
//!
//! The library holds the verified core: the big-endian identifier codec and
//! its ordering guarantees, the column-family schema registry (including the
//! edge-index prefix extractor), and the seek-skip collection scan over the
//! ordered key space of the documents family. Opening the on-disk store and
//! driving its iterator are left to a thin unverified shell that feeds keys
//! to, and takes decisions from, the functions here.

pub mod codec;
pub mod lex;
pub mod scanner;
pub mod schema;

//! Ingestion and querying of the ATT&CK enterprise matrix.
//!
//! A bundle of objects is ingested into a snapshot: sorted sets of tactics, platforms
//! and datasources, one record for each technique under each of its tactics, and
//! counters. A free-text term is classified, and each category of term has its query
//! over a snapshot. Results come in the order of their keys, each value once.

pub mod bundle;
pub mod classifier;
pub mod enterprise;
pub mod gather;
pub mod ingest;
pub mod json;
pub mod keyed;
pub mod laws;
pub mod lex;
pub mod normalizer;
pub mod parser;
pub mod paths;
pub mod persisted;
pub mod picks;
pub mod scan;
pub mod searcher;
pub mod select;
pub mod stats;
pub mod text;

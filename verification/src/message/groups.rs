//! The groups that the library reads and writes.

pub mod controller_idx_sigs;
pub mod seal_source_triples;

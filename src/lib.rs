//! An overlap-count and coverage index of aligned sequencing reads.
//!
//! Alignment records are turned into stranded genomic intervals ("loci"),
//! optionally filtered and transformed, and stored in an interval index
//! that answers overlap-count and per-position coverage queries.

pub mod locus;
pub mod index;
pub mod scaffold;
pub mod convert;
pub mod hooks;
pub mod rqmap;
pub mod laws;

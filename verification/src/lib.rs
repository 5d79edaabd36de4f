//! A local directory-mirroring engine: it watches a source directory tree for
//! file creation and modification events and replicates changed regular files
//! into a target directory, flattening the directory structure.
//!
//! The verified core is the watch -> queue -> copy pipeline: the start/stop
//! lifecycle of a sync session, the replication worker's per-iteration
//! decisions, the flattened destination-path computation, and a model of the
//! target directory's contents under replication. The host application wires
//! these decisions to the OS facilities (filesystem notifications, threads,
//! file copies) that carry them out.

pub mod crypto;
pub mod errors;
pub mod paths;
pub mod sync;
pub mod worker;
pub mod mirror;
pub mod db;
pub mod media;
pub mod whisper;

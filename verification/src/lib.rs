//! Batch ingestion of typed tuples into a transactional, incremental
//! computation engine, and export of the change sets the engine reports.
//!
//! The library holds the rules: which relations exist, how a row of text
//! becomes a tuple, how updates are grouped into batches inside one
//! transaction, and how a committed change set becomes lines of a change log.
//! The engine itself, the files and the command line stay with the caller.

pub mod batch;
pub mod changelog;
pub mod error;
pub mod ingestion;
pub mod records;
pub mod relation;
pub mod runs;
pub mod tuple;
pub mod update;

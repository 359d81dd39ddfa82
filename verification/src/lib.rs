//! Batching and dispatch engine for mirroring very large directory trees.
//!
//! A scan of the source tree yields one [`batch::FileEntry`] per regular file.
//! The entries are gathered into size-bounded batches by a
//! [`batch::BatchAccumulator`]; every batch that closes is handed to an
//! external mirroring tool, whose retries are governed by the state machine in
//! [`rsync`].  Everything here works on plain values: reading the file system,
//! starting processes, sleeping and printing are left to the caller.
//!
//! - [`args`] and [`config`]: the arguments and settings of a run.
//! - [`batch`]: files, batches and the accumulator.
//! - [`plan`]: the grouping of files into batches as a mathematical function,
//!   with the proofs of what holds of it.
//! - [`file_processing`]: one file, or a whole list of files, through a run.
//! - [`progress`]: when a status line is due.
//! - [`rsync`]: retries and the command line of the mirroring tool.
//! - [`decimal`]: numbers written as text.

pub mod args;
pub mod batch;
pub mod config;
pub mod decimal;
pub mod file_processing;
pub mod plan;
pub mod progress;
pub mod rsync;

//! The arguments of a run, and the checks made on them before it starts.
//!
//! The caller takes the command line apart and looks at the file system;
//! this module turns the pieces into [`Args`] and decides whether the
//! run may start.

use crate::decimal::{parse_u64, parse_u64_spec};
use vstd::prelude::*;

verus! {

/// Size limit of a batch, in megabytes, where the command line gives none.
pub const DEFAULT_RUN_SIZE_MB: u64 = 256;

/// Bytes in one megabyte.
pub const BYTES_PER_MB: u64 = 1024 * 1024;

/// Exit status of a run that does not start because a directory is missing.
pub const EXIT_INVALID_DIRECTORY: i32 = 2;

/// The arguments of a run.
#[derive(Debug, Clone, PartialEq, Eq)]
pub struct Args {
    /// Further options for the mirroring tool, in one string.
    pub rsync_options: String,
    /// Root of the tree to mirror.
    pub src_dir: String,
    /// Root of the mirror.
    pub target_dir: String,
    /// Size, in bytes, at which a batch closes: the megabytes asked for times
    /// [`BYTES_PER_MB`].
    pub run_size_mb: u64,
    /// Whether the files are to go through the accumulator from several
    /// threads.
    pub enable_parallel: bool,
}

/// Why a command line is refused.
#[derive(Debug, Clone, Copy, PartialEq, Eq, Structural)]
pub enum ArgsError {
    /// The run size is not an unsigned decimal number of 64 bits.
    InvalidRunSize,
    /// The run size, in bytes, does not fit in 64 bits.
    RunSizeTooLarge,
}

/// Why a run does not start.
#[derive(Debug, Clone, Copy, PartialEq, Eq, Structural)]
pub enum StartupError {
    /// The source path does not lead to a directory.
    SourceNotDirectory,
    /// The target path does not lead to a directory.
    TargetNotDirectory,
}

/// The batch size in bytes that a run-size argument asks for.  The argument
/// counts megabytes; without it the default holds.
pub open spec fn run_size_bytes(run_size_mb: Option<Seq<char>>) -> Result<u64, ArgsError> {
    match run_size_mb {
        None => Ok((DEFAULT_RUN_SIZE_MB * BYTES_PER_MB) as u64),
        Some(text) => match parse_u64_spec(text) {
            None => Err(ArgsError::InvalidRunSize),
            Some(megabytes) => if megabytes * BYTES_PER_MB <= u64::MAX {
                Ok((megabytes * BYTES_PER_MB) as u64)
            } else {
                Err(ArgsError::RunSizeTooLarge)
            },
        },
    }
}

/// The text of an argument, if the argument is there.
pub open spec fn argument_text(argument: Option<&str>) -> Option<Seq<char>> {
    match argument {
        Some(text) => Some(text@),
        None => None,
    }
}

impl Args {
    /// Builds the arguments of a run from the pieces of the command line:
    /// the three positional strings, the run size in megabytes if it was
    /// given, and whether the flag for parallel processing was set.
    pub fn parse(
        rsync_options: String,
        src_dir: String,
        target_dir: String,
        run_size_mb: Option<&str>,
        enable_parallel: bool,
    ) -> (result: Result<Args, ArgsError>)
        ensures
            match result {
                Ok(args) => {
                    &&& run_size_bytes(argument_text(run_size_mb)) == Ok::<u64, ArgsError>(
                        args.run_size_mb,
                    )
                    &&& args.rsync_options == rsync_options
                    &&& args.src_dir == src_dir
                    &&& args.target_dir == target_dir
                    &&& args.enable_parallel == enable_parallel
                },
                Err(error) => run_size_bytes(argument_text(run_size_mb)) == Err::<u64, ArgsError>(
                    error,
                ),
            },
    {
        let megabytes = match run_size_mb {
            None => DEFAULT_RUN_SIZE_MB,
            Some(text) => match parse_u64(text) {
                Some(value) => value,
                None => {
                    return Err(ArgsError::InvalidRunSize);
                },
            },
        };
        match megabytes.checked_mul(BYTES_PER_MB) {
            Some(bytes) => Ok(
                Args { rsync_options, src_dir, target_dir, run_size_mb: bytes, enable_parallel },
            ),
            None => Err(ArgsError::RunSizeTooLarge),
        }
    }
}

/// Decides whether the run may start: both the source and the target must be
/// directories.  The source is looked at first.
pub fn check_directories(src_is_dir: bool, target_is_dir: bool) -> (result: Result<
    (),
    StartupError,
>)
    ensures
        result == if !src_is_dir {
            Err::<(), StartupError>(StartupError::SourceNotDirectory)
        } else if !target_is_dir {
            Err::<(), StartupError>(StartupError::TargetNotDirectory)
        } else {
            Ok::<(), StartupError>(())
        },
{
    if !src_is_dir {
        Err(StartupError::SourceNotDirectory)
    } else if !target_is_dir {
        Err(StartupError::TargetNotDirectory)
    } else {
        Ok(())
    }
}

} // verus!

//! Settings that a run takes from its environment.
//!
//! The caller looks the variables up; this module turns what was found into
//! a [`Config`].  A variable that is not set, or whose value is not a number,
//! gives the default.

use crate::decimal::{parse_u64, parse_u64_spec, parse_usize, parse_usize_spec};
use vstd::prelude::*;

verus! {

/// Variable that holds the number of worker threads.
pub const NUM_THREADS_VAR: &'static str = "RAYON_NUM_THREADS";

/// Variable that holds the count cadence of the status lines.
pub const FILE_FEEDBACK_COUNT_VAR: &'static str = "FILE_FEEDBACK_COUNT";

/// Variable that holds the time cadence of the status lines.
pub const TIME_FEEDBACK_INTERVAL_VAR: &'static str = "TIME_FEEDBACK_INTERVAL";

/// Worker threads unless configured otherwise: zero, which stands for as many
/// as the machine offers.
pub const DEFAULT_NUM_THREADS: usize = 0;

/// Files between two status lines unless configured otherwise.
pub const DEFAULT_FILE_FEEDBACK_COUNT: u64 = 1_000_000;

/// Seconds after which status lines are due unless configured otherwise.
pub const DEFAULT_TIME_FEEDBACK_INTERVAL: u64 = 120;

/// The settings of a run.
#[derive(Debug, Clone, Copy, PartialEq, Eq, Structural)]
pub struct Config {
    /// Size of the worker pool; zero stands for all that the machine offers.
    pub num_threads: usize,
    /// A status line is due whenever the number of files processed is a
    /// multiple of this.
    pub file_feedback_count: u64,
    /// Status lines are due once the run has lasted this many seconds.
    pub time_feedback_interval: u64,
}

/// The text of a setting, if the setting is there.
pub open spec fn text_of(setting: Option<&str>) -> Option<Seq<char>> {
    match setting {
        Some(text) => Some(text@),
        None => None,
    }
}

/// The value of a 64-bit setting: the number that its text writes, or the
/// default if it is not set or not such a number.
pub open spec fn setting_u64(setting: Option<Seq<char>>, default: u64) -> u64 {
    match setting {
        Some(text) => match parse_u64_spec(text) {
            Some(value) => value,
            None => default,
        },
        None => default,
    }
}

/// The value of a `usize` setting: the number that its text writes, or the
/// default if it is not set or not such a number.
pub open spec fn setting_usize(setting: Option<Seq<char>>, default: usize) -> usize {
    match setting {
        Some(text) => match parse_usize_spec(text) {
            Some(value) => value,
            None => default,
        },
        None => default,
    }
}

impl Config {
    /// Builds the settings from the values of the three variables, each
    /// `None` if the variable is not set.
    pub fn new(
        num_threads: Option<&str>,
        file_feedback_count: Option<&str>,
        time_feedback_interval: Option<&str>,
    ) -> (config: Config)
        ensures
            config.num_threads == setting_usize(text_of(num_threads), DEFAULT_NUM_THREADS),
            config.file_feedback_count == setting_u64(
                text_of(file_feedback_count),
                DEFAULT_FILE_FEEDBACK_COUNT,
            ),
            config.time_feedback_interval == setting_u64(
                text_of(time_feedback_interval),
                DEFAULT_TIME_FEEDBACK_INTERVAL,
            ),
    {
        let threads = match num_threads {
            Some(text) => match parse_usize(text) {
                Some(value) => value,
                None => DEFAULT_NUM_THREADS,
            },
            None => DEFAULT_NUM_THREADS,
        };
        let count = match file_feedback_count {
            Some(text) => match parse_u64(text) {
                Some(value) => value,
                None => DEFAULT_FILE_FEEDBACK_COUNT,
            },
            None => DEFAULT_FILE_FEEDBACK_COUNT,
        };
        let interval = match time_feedback_interval {
            Some(text) => match parse_u64(text) {
                Some(value) => value,
                None => DEFAULT_TIME_FEEDBACK_INTERVAL,
            },
            None => DEFAULT_TIME_FEEDBACK_INTERVAL,
        };
        Config {
            num_threads: threads,
            file_feedback_count: count,
            time_feedback_interval: interval,
        }
    }

    /// The size to give the worker pool: `None` where the pool is left at
    /// what the machine offers.
    pub fn worker_threads(&self) -> (threads: Option<usize>)
        ensures
            threads == if self.num_threads == 0 {
                None
            } else {
                Some(self.num_threads)
            },
    {
        if self.num_threads == 0 {
            None
        } else {
            Some(self.num_threads)
        }
    }
}

impl Default for Config {
    fn default() -> (config: Config)
        ensures
            config.num_threads == DEFAULT_NUM_THREADS,
            config.file_feedback_count == DEFAULT_FILE_FEEDBACK_COUNT,
            config.time_feedback_interval == DEFAULT_TIME_FEEDBACK_INTERVAL,
    {
        Config {
            num_threads: DEFAULT_NUM_THREADS,
            file_feedback_count: DEFAULT_FILE_FEEDBACK_COUNT,
            time_feedback_interval: DEFAULT_TIME_FEEDBACK_INTERVAL,
        }
    }
}

} // verus!

//! Dispatch of one batch to the external mirroring tool: the retry state
//! machine and the command line.
//!
//! The caller starts the tool and sleeps; this module decides.  A dispatch
//! begins in [`initial_state`].  In each state [`action_for`] says what the
//! caller has to do, and [`next_state`] takes what happened to the next state:
//!
//! ```text
//! Attempting --exit 0--------------------------> Succeeded
//! Attempting --other exit, attempts left-------> Waiting --backoff--> Attempting
//! Attempting --other exit, none left-----------> FatallyFailed
//! ```

use vstd::prelude::*;

verus! {

/// How often the tool is tried for one batch, and how long to wait between
/// two tries.  The delay is fixed: it does not grow from try to try.
#[derive(Debug, Clone, Copy, PartialEq, Eq, Structural)]
pub struct RetryPolicy {
    /// Largest number of invocations for one batch.
    pub max_attempts: u32,
    /// Seconds to wait after a failed invocation before the next one.
    pub backoff_delay_secs: u64,
}

/// Number of invocations allowed for one batch unless configured otherwise.
pub const DEFAULT_MAX_ATTEMPTS: u32 = 5;

/// Seconds between two invocations unless configured otherwise.
pub const DEFAULT_BACKOFF_DELAY_SECS: u64 = 90;

impl Default for RetryPolicy {
    fn default() -> (policy: RetryPolicy)
        ensures
            policy.max_attempts == DEFAULT_MAX_ATTEMPTS,
            policy.backoff_delay_secs == DEFAULT_BACKOFF_DELAY_SECS,
    {
        RetryPolicy {
            max_attempts: DEFAULT_MAX_ATTEMPTS,
            backoff_delay_secs: DEFAULT_BACKOFF_DELAY_SECS,
        }
    }
}

/// Where the dispatch of one batch stands.
#[derive(Debug, Clone, Copy, PartialEq, Eq, Structural)]
pub enum DispatchState {
    /// The tool is to be invoked for the `attempt`-th time, counted from one.
    Attempting { attempt: u32 },
    /// `failed` invocations have failed; the next follows after the backoff.
    Waiting { failed: u32 },
    /// The invocation number `attempts` succeeded.
    Succeeded { attempts: u32 },
    /// All `attempts` allowed invocations failed.
    FatallyFailed { attempts: u32 },
}

/// What the caller reports back.
#[derive(Debug, Clone, Copy, PartialEq, Eq, Structural)]
pub enum DispatchEvent {
    /// The tool ran and ended with this exit code; `None` if it ended without
    /// one, as a process does that a signal killed.
    Exited { code: Option<i32> },
    /// The backoff delay has passed.
    BackoffElapsed,
}

/// What the caller has to do next.
#[derive(Debug, Clone, Copy, PartialEq, Eq, Structural)]
pub enum DispatchAction {
    /// Invoke the tool on the batch and report its exit.
    Invoke,
    /// Warn that the invocation failed, wait `secs` seconds, and report.
    Wait { secs: u64 },
    /// The batch is mirrored: go on with the run.
    Finish,
    /// The batch cannot be mirrored: end the run.
    Abort,
}

/// The unrecoverable failure of a dispatch: every allowed invocation failed.
#[derive(Debug, Clone, Copy, PartialEq, Eq, Structural)]
pub struct FatalError {
    /// Number of invocations that were made.
    pub attempts: u32,
}

/// Whether an exit of the tool counts as success: exit code zero, and nothing
/// else.
pub open spec fn exit_success(code: Option<i32>) -> bool {
    code == Some(0i32)
}

/// The state in which a dispatch begins.  A policy that allows no invocation
/// fails at once: nothing can be mirrored under it.
pub open spec fn initial_state(policy: RetryPolicy) -> DispatchState {
    if policy.max_attempts == 0 {
        DispatchState::FatallyFailed { attempts: 0 }
    } else {
        DispatchState::Attempting { attempt: 1 }
    }
}

/// The state that follows `state` on `event`.  An event that the state does
/// not wait for leaves it as it is.
pub open spec fn next_state(
    policy: RetryPolicy,
    state: DispatchState,
    event: DispatchEvent,
) -> DispatchState {
    match (state, event) {
        (DispatchState::Attempting { attempt }, DispatchEvent::Exited { code }) => {
            if exit_success(code) {
                DispatchState::Succeeded { attempts: attempt }
            } else if attempt >= policy.max_attempts {
                DispatchState::FatallyFailed { attempts: attempt }
            } else {
                DispatchState::Waiting { failed: attempt }
            }
        },
        (DispatchState::Waiting { failed }, DispatchEvent::BackoffElapsed) => {
            if failed >= policy.max_attempts {
                DispatchState::FatallyFailed { attempts: failed }
            } else {
                DispatchState::Attempting { attempt: (failed + 1) as u32 }
            }
        },
        _ => state,
    }
}

/// What the caller has to do in `state`.
pub open spec fn action_for(policy: RetryPolicy, state: DispatchState) -> DispatchAction {
    match state {
        DispatchState::Attempting { .. } => DispatchAction::Invoke,
        DispatchState::Waiting { .. } => DispatchAction::Wait { secs: policy.backoff_delay_secs },
        DispatchState::Succeeded { .. } => DispatchAction::Finish,
        DispatchState::FatallyFailed { .. } => DispatchAction::Abort,
    }
}

/// The result of the dispatch, once it has one.
pub open spec fn outcome_of(state: DispatchState) -> Option<Result<(), FatalError>> {
    match state {
        DispatchState::Succeeded { .. } => Some(Ok(())),
        DispatchState::FatallyFailed { attempts } => Some(Err(FatalError { attempts })),
        _ => None,
    }
}

/// Tests [`exit_success`].
pub fn succeeded(code: Option<i32>) -> (ok: bool)
    ensures
        ok == exit_success(code),
{
    match code {
        Some(value) => value == 0,
        None => false,
    }
}

impl DispatchState {
    /// Begins the dispatch of a batch.
    pub fn start(policy: &RetryPolicy) -> (state: DispatchState)
        ensures
            state == initial_state(*policy),
    {
        if policy.max_attempts == 0 {
            DispatchState::FatallyFailed { attempts: 0 }
        } else {
            DispatchState::Attempting { attempt: 1 }
        }
    }

    /// What the caller has to do now.
    pub fn action(&self, policy: &RetryPolicy) -> (action: DispatchAction)
        ensures
            action == action_for(*policy, *self),
    {
        match self {
            DispatchState::Attempting { .. } => DispatchAction::Invoke,
            DispatchState::Waiting { .. } => DispatchAction::Wait {
                secs: policy.backoff_delay_secs,
            },
            DispatchState::Succeeded { .. } => DispatchAction::Finish,
            DispatchState::FatallyFailed { .. } => DispatchAction::Abort,
        }
    }

    /// Takes what happened to the next state.
    pub fn advance(self, policy: &RetryPolicy, event: DispatchEvent) -> (next: DispatchState)
        ensures
            next == next_state(*policy, self, event),
    {
        match self {
            DispatchState::Attempting { attempt } => match event {
                DispatchEvent::Exited { code } => {
                    if succeeded(code) {
                        DispatchState::Succeeded { attempts: attempt }
                    } else if attempt >= policy.max_attempts {
                        DispatchState::FatallyFailed { attempts: attempt }
                    } else {
                        DispatchState::Waiting { failed: attempt }
                    }
                },
                DispatchEvent::BackoffElapsed => self,
            },
            DispatchState::Waiting { failed } => match event {
                DispatchEvent::BackoffElapsed => {
                    if failed >= policy.max_attempts {
                        DispatchState::FatallyFailed { attempts: failed }
                    } else {
                        DispatchState::Attempting { attempt: failed + 1 }
                    }
                },
                DispatchEvent::Exited { .. } => self,
            },
            DispatchState::Succeeded { .. } => self,
            DispatchState::FatallyFailed { .. } => self,
        }
    }

    /// The result of the dispatch: `None` while it is under way.
    pub fn outcome(&self) -> (result: Option<Result<(), FatalError>>)
        ensures
            result == outcome_of(*self),
    {
        match self {
            DispatchState::Succeeded { .. } => Some(Ok(())),
            DispatchState::FatallyFailed { attempts } => Some(
                Err(FatalError { attempts: *attempts }),
            ),
            _ => None,
        }
    }
}

/// What a dispatch came to against a given run of exits of the tool.
#[derive(Debug, Clone, PartialEq, Eq)]
pub struct DispatchReport {
    /// The state in which the dispatch ended, or stands while it waits for an
    /// exit that the run of exits does not hold.
    pub state: DispatchState,
    /// Number of times that the tool was invoked.
    pub invocations: usize,
    /// The delays that were waited out between the invocations, in seconds.
    pub delays: Vec<u64>,
}

/// Mathematical value of a [`DispatchReport`].
pub struct DispatchReportView {
    pub state: DispatchState,
    pub invocations: nat,
    pub delays: Seq<u64>,
}

impl View for DispatchReport {
    type V = DispatchReportView;

    open spec fn view(&self) -> DispatchReportView {
        DispatchReportView {
            state: self.state,
            invocations: self.invocations as nat,
            delays: self.delays@,
        }
    }
}

/// Number of failed exits before the first successful one, or before the end.
pub open spec fn leading_failures(exit_codes: Seq<Option<i32>>) -> nat
    decreases exit_codes.len(),
{
    if exit_codes.len() == 0 || exit_success(exit_codes.first()) {
        0
    } else {
        1 + leading_failures(exit_codes.drop_first())
    }
}

/// What a dispatch comes to when the successive invocations of the tool end
/// with the given exit codes.
///
/// As many failures in a row as the policy allows invocations are fatal: the
/// tool was invoked as often as allowed, with the delay waited out between
/// two invocations.  A success before that ends the dispatch at once.  If the
/// exit codes run out first, the dispatch stands before its next invocation,
/// the delay after the last failure waited out.
pub open spec fn dispatch_against(policy: RetryPolicy, exit_codes: Seq<Option<i32>>) -> DispatchReportView {
    let failures = leading_failures(exit_codes);
    let delay = policy.backoff_delay_secs;
    if failures >= policy.max_attempts {
        DispatchReportView {
            state: DispatchState::FatallyFailed { attempts: policy.max_attempts },
            invocations: policy.max_attempts as nat,
            delays: Seq::new(
                if policy.max_attempts > 0 {
                    (policy.max_attempts - 1) as nat
                } else {
                    0
                },
                |i: int| delay,
            ),
        }
    } else if failures < exit_codes.len() {
        DispatchReportView {
            state: DispatchState::Succeeded { attempts: (failures + 1) as u32 },
            invocations: failures + 1,
            delays: Seq::new(failures, |i: int| delay),
        }
    } else {
        DispatchReportView {
            state: DispatchState::Attempting { attempt: (failures + 1) as u32 },
            invocations: failures,
            delays: Seq::new(failures, |i: int| delay),
        }
    }
}

/// Counting the failures at the head of a run of exits.
pub proof fn lemma_leading_failures(exit_codes: Seq<Option<i32>>, n: int)
    requires
        0 <= n <= exit_codes.len(),
        forall|i: int| 0 <= i < n ==> !exit_success(#[trigger] exit_codes[i]),
    ensures
        leading_failures(exit_codes) >= n,
        n == exit_codes.len() || exit_success(exit_codes[n]) ==> leading_failures(exit_codes) == n,
    decreases n,
{
    if n > 0 {
        let rest = exit_codes.drop_first();
        assert forall|i: int| 0 <= i < n - 1 implies !exit_success(#[trigger] rest[i]) by {
            assert(rest[i] == exit_codes[i + 1]);
        }
        lemma_leading_failures(rest, n - 1);
        assert(!exit_success(exit_codes[0]));
        if n < exit_codes.len() {
            assert(rest[n - 1] == exit_codes[n]);
        }
    }
}

/// Runs the retry state machine against a given run of exits: the first
/// invocation of the tool ends with `exit_codes[0]`, the next with
/// `exit_codes[1]`, and so on.  The machine is driven as a caller drives it,
/// one action at a time, until the dispatch has its result or the next
/// invocation would have no exit code left.
pub fn run_rsync(policy: &RetryPolicy, exit_codes: &Vec<Option<i32>>) -> (report: DispatchReport)
    ensures
        report@ == dispatch_against(*policy, exit_codes@),
{
    let mut state = DispatchState::start(policy);
    let mut invocations: usize = 0;
    let mut delays: Vec<u64> = Vec::new();
    loop
        invariant_except_break
            invocations <= exit_codes.len(),
            forall|i: int| 0 <= i < invocations ==> !exit_success(#[trigger] exit_codes@[i]),
            forall|i: int| 0 <= i < delays.len() ==> delays@[i] == policy.backoff_delay_secs,
            match state {
                DispatchState::Attempting { attempt } => attempt == invocations + 1 && attempt
                    <= policy.max_attempts && delays.len() == invocations,
                DispatchState::Waiting { failed } => failed == invocations && failed
                    < policy.max_attempts && delays.len() == invocations - 1,
                DispatchState::Succeeded { .. } => false,
                DispatchState::FatallyFailed { .. } => policy.max_attempts == 0 && state
                    == initial_state(*policy) && invocations == 0 && delays.len() == 0,
            },
        ensures
            report_view(state, invocations, delays@) == dispatch_against(*policy, exit_codes@),
        decreases
            2 * (exit_codes.len() - invocations) + if state is Waiting { 1int } else { 0int },
    {
        match state.action(policy) {
            DispatchAction::Invoke => {
                if invocations == exit_codes.len() {
                    proof {
                        lemma_leading_failures(exit_codes@, invocations as int);
                        assert(delays@ =~= Seq::new(
                            invocations as nat,
                            |i: int| policy.backoff_delay_secs,
                        ));
                    }
                    break ;
                }
                let code = exit_codes[invocations];
                state = state.advance(policy, DispatchEvent::Exited { code });
                invocations = invocations + 1;
                match state {
                    DispatchState::Succeeded { .. } => {
                        proof {
                            lemma_leading_failures(exit_codes@, invocations - 1);
                            assert(delays@ =~= Seq::new(
                                (invocations - 1) as nat,
                                |i: int| policy.backoff_delay_secs,
                            ));
                        }
                        break ;
                    },
                    DispatchState::FatallyFailed { .. } => {
                        proof {
                            lemma_leading_failures(exit_codes@, invocations as int);
                            assert(delays@ =~= Seq::new(
                                (policy.max_attempts - 1) as nat,
                                |i: int| policy.backoff_delay_secs,
                            ));
                        }
                        break ;
                    },
                    _ => {},
                }
            },
            DispatchAction::Wait { secs } => {
                delays.push(secs);
                state = state.advance(policy, DispatchEvent::BackoffElapsed);
            },
            _ => {
                proof {
                    lemma_leading_failures(exit_codes@, 0);
                    assert(delays@ =~= Seq::new(0nat, |i: int| policy.backoff_delay_secs));
                }
                break ;
            },
        }
    }
    DispatchReport { state, invocations, delays }
}

/// The value of a report with these parts.
pub open spec fn report_view(
    state: DispatchState,
    invocations: usize,
    delays: Seq<u64>,
) -> DispatchReportView {
    DispatchReportView { state, invocations: invocations as nat, delays }
}

/// Transient failures are ridden out.  If the tool fails `k` times and then
/// succeeds, with `k` below the number of invocations allowed, the dispatch
/// succeeds: the tool was invoked exactly `k + 1` times, and the configured
/// delay was waited out after each of the `k` failures.
pub proof fn lemma_retries_until_success(
    policy: RetryPolicy,
    exit_codes: Seq<Option<i32>>,
    k: nat,
)
    requires
        k < policy.max_attempts,
        k < exit_codes.len(),
        forall|i: int| 0 <= i < k ==> !exit_success(#[trigger] exit_codes[i]),
        exit_success(exit_codes[k as int]),
    ensures
        dispatch_against(policy, exit_codes) == (DispatchReportView {
            state: DispatchState::Succeeded { attempts: (k + 1) as u32 },
            invocations: k + 1,
            delays: Seq::new(k, |i: int| policy.backoff_delay_secs),
        }),
        outcome_of(dispatch_against(policy, exit_codes).state) == Some(
            Ok::<(), FatalError>(()),
        ),
{
    lemma_leading_failures(exit_codes, k as int);
}

/// Retries are bounded.  If the tool fails every time, the dispatch fails
/// for good after exactly as many invocations as the policy allows, and has
/// no successful outcome.
pub proof fn lemma_retries_exhausted(policy: RetryPolicy, exit_codes: Seq<Option<i32>>)
    requires
        exit_codes.len() >= policy.max_attempts,
        forall|i: int| 0 <= i < exit_codes.len() ==> !exit_success(#[trigger] exit_codes[i]),
    ensures
        dispatch_against(policy, exit_codes).state == (DispatchState::FatallyFailed {
            attempts: policy.max_attempts,
        }),
        dispatch_against(policy, exit_codes).invocations == policy.max_attempts,
        outcome_of(dispatch_against(policy, exit_codes).state) == Some(
            Err::<(), FatalError>(FatalError { attempts: policy.max_attempts }),
        ),
{
    lemma_leading_failures(exit_codes, exit_codes.len() as int);
}

/// Name of the tool that mirrors a batch.
pub const PROGRAM: &'static str = "rsync";

/// The pieces of `text` that `str::split_whitespace` yields, in order.
pub uninterp spec fn whitespace_separated(text: Seq<char>) -> Seq<Seq<char>>;

/// Splits `text` at its white space with `str::split_whitespace` of the
/// standard library and copies the pieces.  Believed, not proved: the pieces
/// depend on `text` alone.
#[verifier::external_body]
fn split_whitespace(text: &str) -> (pieces: Vec<String>)
    ensures
        pieces.deep_view() == whitespace_separated(text@),
{
    let mut pieces: Vec<String> = Vec::new();
    for piece in text.split_whitespace() {
        pieces.push(piece.to_string());
    }
    pieces
}

/// The arguments of one invocation of the tool: the flags that keep links,
/// permissions, modification times, group, owner and special files; the flag
/// that keeps the tool from creating the parent directories of a listed path by
/// itself; the file that lists the relative paths of the batch; the source and
/// the destination root; then the caller's own options, as they are.
pub open spec fn command_line(
    files_from: Seq<char>,
    src_dir: Seq<char>,
    dest_dir: Seq<char>,
    extra_options: Seq<Seq<char>>,
) -> Seq<Seq<char>> {
    seq!["-lptgoD"@, "--no-implied-dirs"@, "--files-from"@, files_from, src_dir, dest_dir]
        + extra_options
}

/// Builds the arguments of one invocation from options that are already
/// split.  `files_from` is the path of the file that holds the listing of the
/// batch.
pub fn rsync_command(
    files_from: &str,
    src_dir: &str,
    dest_dir: &str,
    extra_options: Vec<String>,
) -> (args: Vec<String>)
    ensures
        args.deep_view() == command_line(
            files_from@,
            src_dir@,
            dest_dir@,
            extra_options.deep_view(),
        ),
{
    let mut args: Vec<String> = Vec::new();
    args.push(String::from_str("-lptgoD"));
    args.push(String::from_str("--no-implied-dirs"));
    args.push(String::from_str("--files-from"));
    args.push(String::from_str(files_from));
    args.push(String::from_str(src_dir));
    args.push(String::from_str(dest_dir));
    let mut extra = extra_options;
    args.append(&mut extra);
    assert(args.deep_view() =~= command_line(
        files_from@,
        src_dir@,
        dest_dir@,
        extra_options.deep_view(),
    ));
    args
}

/// Builds the arguments of one invocation.  `rsync_options` is the caller's
/// string of further options; it is split at white space and each piece is
/// passed on as one argument, unchanged.
pub fn rsync_args(files_from: &str, src_dir: &str, dest_dir: &str, rsync_options: &str) -> (args:
    Vec<String>)
    ensures
        args.deep_view() == command_line(
            files_from@,
            src_dir@,
            dest_dir@,
            whitespace_separated(rsync_options@),
        ),
{
    rsync_command(files_from, src_dir, dest_dir, split_whitespace(rsync_options))
}

} // verus!

use vstd::prelude::*;
use vstd::slice::slice_to_vec;
use vstd::string::StringExecFns;
use vstd::utf8::encode_utf8;

verus! {

/// The signal sent to a process group whose time limit has run out.
pub const TERMINATION_SIGNAL: i32 = 15;

/// How a supervised child process came to an end.
#[derive(Clone, Copy, Debug, PartialEq, Eq, Structural)]
pub enum ChildOutcome {
    /// The process exited on its own with this status code.
    Exited(i32),
    /// The process was terminated by this signal number.
    Signaled(i32),
    /// The deadline passed before the process finished; its group was terminated.
    TimedOut,
}

/// A signal number is positive.
pub open spec fn outcome_valid(outcome: ChildOutcome) -> bool {
    match outcome {
        ChildOutcome::Signaled(signal) => signal > 0,
        _ => true,
    }
}

/// The exit code reported for an outcome: a signal `n` is encoded as `-n`.
pub open spec fn exit_code_of(outcome: ChildOutcome) -> int {
    match outcome {
        ChildOutcome::Exited(code) => code as int,
        ChildOutcome::Signaled(signal) => -(signal as int),
        ChildOutcome::TimedOut => -(TERMINATION_SIGNAL as int),
    }
}

/// The exit code to report for how the child ended.
pub fn exit_code(outcome: ChildOutcome) -> (r: i32)
    requires
        outcome_valid(outcome),
    ensures
        r as int == exit_code_of(outcome),
{
    match outcome {
        ChildOutcome::Exited(code) => code,
        ChildOutcome::Signaled(signal) => -signal,
        ChildOutcome::TimedOut => -TERMINATION_SIGNAL,
    }
}

/// The text that replaces standard output when a process ran out of time.
pub open spec fn timeout_message_of(description: Seq<char>) -> Seq<char> {
    "Exceeded timeout when executing local process: "@ + description
}

/// Builds the diagnostic for a process that exceeded its time limit.
pub fn timeout_message(description: &str) -> (r: String)
    ensures
        r@ == timeout_message_of(description@),
{
    let mut message = String::from_str("Exceeded timeout when executing local process: ");
    message.append(description);
    message
}

/// The bytes recorded as standard output: what the process wrote, unless it
/// timed out, in which case the diagnostic takes its place.
pub open spec fn recorded_stdout_of(
    outcome: ChildOutcome,
    captured: Seq<u8>,
    description: Seq<char>,
) -> Seq<u8> {
    match outcome {
        ChildOutcome::TimedOut => encode_utf8(timeout_message_of(description)),
        _ => captured,
    }
}

/// Chooses the standard output to record for how the child ended.
pub fn recorded_stdout(outcome: ChildOutcome, captured: Vec<u8>, description: &str) -> (r: Vec<u8>)
    ensures
        r@ == recorded_stdout_of(outcome, captured@, description@),
{
    match outcome {
        ChildOutcome::TimedOut => {
            let message = timeout_message(description);
            slice_to_vec(message.as_str().as_bytes())
        },
        _ => captured,
    }
}

/// A process that ran out of time is reported with the negated termination
/// signal as its exit code, and its recorded output names the timeout and the
/// process's description.
pub proof fn lemma_timeout_reported(description: Seq<char>, captured: Seq<u8>)
    ensures
        exit_code_of(ChildOutcome::TimedOut) == -15,
        timeout_message_of(description).subrange(0, 16) == "Exceeded timeout"@,
        timeout_message_of(description).subrange(
            timeout_message_of(description).len() - description.len(),
            timeout_message_of(description).len() as int,
        ) == description,
        recorded_stdout_of(ChildOutcome::TimedOut, captured, description) == encode_utf8(
            timeout_message_of(description),
        ),
{
    reveal_strlit("Exceeded timeout when executing local process: ");
    reveal_strlit("Exceeded timeout");
    let m = timeout_message_of(description);
    assert(m.subrange(0, 16) =~= "Exceeded timeout"@);
    assert(m.subrange(m.len() - description.len(), m.len() as int) =~= description);
}

/// A process that ended by delivering signal `n` to itself reports `-n`, and
/// what it wrote is recorded unchanged.
pub proof fn lemma_signal_reported(signal: i32, captured: Seq<u8>, description: Seq<char>)
    requires
        signal > 0,
    ensures
        exit_code_of(ChildOutcome::Signaled(signal)) == -(signal as int),
        recorded_stdout_of(ChildOutcome::Signaled(signal), captured, description) == captured,
{
}

/// What a poll of the child showed.
#[derive(Clone, Copy, Debug, PartialEq, Eq, Structural)]
pub enum WaitStatus {
    /// Still running.
    Running,
    /// Exited with this status code.
    Exited(i32),
    /// Terminated by this signal number.
    Signaled(i32),
}

/// What the supervisor does next.
#[derive(Clone, Copy, Debug, PartialEq, Eq, Structural)]
pub enum SupervisorAction {
    /// The child has ended this way; stop supervising.
    Finish(ChildOutcome),
    /// The deadline has passed: terminate the child's whole process group,
    /// then report a timeout.
    TerminateGroup,
    /// Poll again later.
    KeepWaiting,
}

/// The decision after one poll, `elapsed_millis` after the child started.
pub open spec fn next_action_of(
    status: WaitStatus,
    elapsed_millis: u64,
    timeout_millis: Option<u64>,
) -> SupervisorAction {
    match status {
        WaitStatus::Exited(code) => SupervisorAction::Finish(ChildOutcome::Exited(code)),
        WaitStatus::Signaled(signal) => SupervisorAction::Finish(ChildOutcome::Signaled(signal)),
        WaitStatus::Running => match timeout_millis {
            Some(limit) => if elapsed_millis >= limit {
                SupervisorAction::TerminateGroup
            } else {
                SupervisorAction::KeepWaiting
            },
            None => SupervisorAction::KeepWaiting,
        },
    }
}

/// Decides, after one poll of the child, whether it has finished, must be
/// terminated for exceeding its time limit, or is left to run.
pub fn next_action(status: WaitStatus, elapsed_millis: u64, timeout_millis: Option<u64>) -> (r:
    SupervisorAction)
    ensures
        r == next_action_of(status, elapsed_millis, timeout_millis),
{
    match status {
        WaitStatus::Exited(code) => SupervisorAction::Finish(ChildOutcome::Exited(code)),
        WaitStatus::Signaled(signal) => SupervisorAction::Finish(ChildOutcome::Signaled(signal)),
        WaitStatus::Running => match timeout_millis {
            Some(limit) => if elapsed_millis >= limit {
                SupervisorAction::TerminateGroup
            } else {
                SupervisorAction::KeepWaiting
            },
            None => SupervisorAction::KeepWaiting,
        },
    }
}

/// A child that is still running when its limit has passed is terminated,
/// and is then reported with exit code -15; without a limit it is never
/// terminated.
pub proof fn lemma_deadline_terminates(elapsed: u64, limit: u64)
    ensures
        elapsed >= limit ==> next_action_of(WaitStatus::Running, elapsed, Some(limit))
            == SupervisorAction::TerminateGroup,
        elapsed < limit ==> next_action_of(WaitStatus::Running, elapsed, Some(limit))
            == SupervisorAction::KeepWaiting,
        next_action_of(WaitStatus::Running, elapsed, None) == SupervisorAction::KeepWaiting,
        exit_code_of(ChildOutcome::TimedOut) == -15,
{
}

} // verus!

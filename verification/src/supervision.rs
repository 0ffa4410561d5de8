//! Classifying how a long-running task ended, for the shell's exit report.

use vstd::prelude::*;

verus! {

/// How a finished task is reported: it ran to completion, it returned its
/// own error, or the runtime lost it before it could complete.
#[derive(Clone, Copy, PartialEq, Eq, Structural, Debug)]
pub enum ExitKind {
    Exited,
    Failed,
    FailedToComplete,
}

/// Classifies a task's outcome — the inner result is the task's own, the
/// outer one is the runtime's — into the report to log.
pub fn report_exit(outcome: &Result<Result<(), String>, String>) -> (r: ExitKind)
    ensures
        match *outcome {
            Ok(Ok(_)) => r == ExitKind::Exited,
            Ok(Err(_)) => r == ExitKind::Failed,
            Err(_) => r == ExitKind::FailedToComplete,
        },
{
    match outcome {
        Ok(Ok(())) => ExitKind::Exited,
        Ok(Err(_)) => ExitKind::Failed,
        Err(_) => ExitKind::FailedToComplete,
    }
}

} // verus!

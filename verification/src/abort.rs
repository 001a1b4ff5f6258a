//! Stopping a session: what an abort reports, and whether it interrupts the
//! run and tells the task ledger.

use vstd::prelude::*;

verus! {

/// What stopping a session found and did: whether a scheduler or prompt run
/// was going, how many queued prompts were dropped, whether a goal
/// continuation was cancelled, and how many pending permissions and
/// questions were cancelled.
#[derive(Debug, Clone, Copy, PartialEq, Eq)]
pub struct AbortFindings {
    pub scheduler_running: bool,
    pub prompt_running: bool,
    pub dropped_queued_prompts: usize,
    pub cancelled_auto_continuation: bool,
    pub cancelled_permissions: usize,
    pub cancelled_questions: usize,
}

/// The answer to an abort: whether anything was stopped, the target (`run`
/// where something was), and the counts found.
#[derive(Debug, Clone, PartialEq, Eq)]
pub struct AbortReport {
    pub aborted: bool,
    pub target: Option<String>,
    pub dropped_queued_prompts: usize,
    pub cancelled_task_ledger_auto_continuation: bool,
    pub cancelled_pending_permissions: usize,
    pub cancelled_pending_questions: usize,
    pub interrupt_run: bool,
}

/// Whether an abort stopped anything: a running scheduler or prompt, a
/// dropped prompt, a cancelled continuation, permission or question.
pub open spec fn aborted_spec(f: AbortFindings) -> bool {
    f.scheduler_running || f.prompt_running || f.dropped_queued_prompts > 0 || f.cancelled_auto_continuation
        || f.cancelled_permissions > 0 || f.cancelled_questions > 0
}

/// The answer to an abort: the counts found; aborted as `aborted_spec`
/// says, with target `run` then and none otherwise (an abort that stopped
/// anything is reported to the task ledger as an interruption); and the run
/// is interrupted exactly where a scheduler or prompt was running.
pub fn abort_report(f: AbortFindings) -> (r: AbortReport)
    ensures
        r.aborted == aborted_spec(f),
        match r.target {
            Some(t) => r.aborted && t@ == "run"@,
            None => !r.aborted,
        },
        r.dropped_queued_prompts == f.dropped_queued_prompts,
        r.cancelled_task_ledger_auto_continuation == f.cancelled_auto_continuation,
        r.cancelled_pending_permissions == f.cancelled_permissions,
        r.cancelled_pending_questions == f.cancelled_questions,
        r.interrupt_run == (f.scheduler_running || f.prompt_running),
{
    let aborted = f.scheduler_running || f.prompt_running || f.dropped_queued_prompts > 0
        || f.cancelled_auto_continuation || f.cancelled_permissions > 0 || f.cancelled_questions > 0;
    let target = if aborted {
        Some(String::from_str("run"))
    } else {
        None
    };
    proof {
        reveal_strlit("run");
    }
    AbortReport {
        aborted,
        target,
        dropped_queued_prompts: f.dropped_queued_prompts,
        cancelled_task_ledger_auto_continuation: f.cancelled_auto_continuation,
        cancelled_pending_permissions: f.cancelled_permissions,
        cancelled_pending_questions: f.cancelled_questions,
        interrupt_run: f.scheduler_running || f.prompt_running,
    }
}

} // verus!

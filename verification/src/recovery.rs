//! Run-level recovery: which recovery actions a session offers, and the
//! prompts that retry or resume an interrupted run.

use vstd::prelude::*;
use crate::text::opt_view;
use crate::api_error::ApiError;
use crate::text::{cat, decimal, decimal_string, join, join_spec, owned, trim, trim_str};

verus! {

/// The recovery state of a session.
#[derive(Debug, Clone, Copy, PartialEq, Eq, Structural)]
pub enum RecoveryProtocolStatus {
    Running,
    AwaitingUser,
    Recoverable,
    Idle,
}

/// A recovery action.
#[derive(Debug, Clone, Copy, PartialEq, Eq, Structural)]
pub enum RecoveryActionKind {
    AbortRun,
    Retry,
    Resume,
}

/// A recovery action offered to the user, with its label and description.
#[derive(Debug, Clone)]
pub struct RecoveryActionInfo {
    pub kind: RecoveryActionKind,
    pub label: String,
    pub description: String,
}

/// The recovery state of a session and the actions it offers.
#[derive(Debug)]
pub struct SessionRecoveryProtocol {
    pub session_id: String,
    pub status: RecoveryProtocolStatus,
    pub active_execution_count: usize,
    pub pending_question_count: usize,
    pub summary: Option<String>,
    pub last_user_prompt: Option<String>,
    pub actions: Vec<RecoveryActionInfo>,
}

/// A request to perform a recovery action.
#[derive(Debug, Clone, Copy)]
pub struct ExecuteRecoveryRequest {
    pub action: RecoveryActionKind,
}

/// Whether the protocol offers `action`.
pub fn protocol_allows_recovery_action(protocol: &SessionRecoveryProtocol, action: &RecoveryActionKind) -> (r:
    bool)
    ensures
        r == exists|i: int| 0 <= i < protocol.actions@.len() && #[trigger] protocol.actions@[i].kind == *action,
{
    let mut i: usize = 0;
    while i < protocol.actions.len()
        invariant
            i <= protocol.actions@.len(),
            forall|j: int| 0 <= j < i ==> protocol.actions@[j].kind != *action,
        decreases protocol.actions@.len() - i,
    {
        if protocol.actions[i].kind == *action {
            return true;
        }
        i = i + 1;
    }
    false
}

/// The role of a message in a session.
#[derive(Debug, Clone, Copy, PartialEq, Eq, Structural)]
pub enum MessageRole {
    User,
    Assistant,
    System,
    Tool,
}

/// What the recovery logic reads of a session message.
#[derive(Debug, Clone)]
pub struct PromptMessage {
    pub role: MessageRole,
    /// The message was imported with the history of a forked session.
    pub imported_fork_history: bool,
    /// The `message_source.origin` metadata, where it is a string.
    pub source_origin: Option<String>,
    /// The `resolved_user_prompt` metadata, where it is a string.
    pub resolved_user_prompt: Option<String>,
    /// The text of the message.
    pub text: String,
}


/// A message that the user wrote: a user message that is neither imported
/// fork history nor injected by the system, the scheduler or the runtime.
pub open spec fn is_user_authored(m: PromptMessage) -> bool {
    &&& m.role == MessageRole::User
    &&& !m.imported_fork_history
    &&& !(opt_view(m.source_origin) == Some("system"@) || opt_view(m.source_origin) == Some(
        "scheduler"@,
    ) || opt_view(m.source_origin) == Some("runtime"@))
}

/// The prompt of a user-authored message: its resolved prompt, trimmed, when
/// not blank, else its trimmed text when not blank.
pub open spec fn message_prompt(m: PromptMessage) -> Option<Seq<char>> {
    match opt_view(m.resolved_user_prompt) {
        Some(r) if trim(r).len() > 0 => Some(trim(r)),
        _ => if trim(m.text@).len() > 0 {
            Some(trim(m.text@))
        } else {
            None
        },
    }
}

/// The prompt of the last user-authored message among the first `j`.
pub open spec fn latest_prompt_spec(ms: Seq<PromptMessage>, j: int) -> Option<Seq<char>>
    decreases j,
{
    if j <= 0 {
        None
    } else if is_user_authored(ms[j - 1]) {
        message_prompt(ms[j - 1])
    } else {
        latest_prompt_spec(ms, j - 1)
    }
}

fn is_user_authored_exec(m: &PromptMessage) -> (b: bool)
    ensures
        b == is_user_authored(*m),
{
    if m.role != MessageRole::User || m.imported_fork_history {
        return false;
    }
    match &m.source_origin {
        Some(o) => !(crate::text::str_eq(o.as_str(), "system") || crate::text::str_eq(o.as_str(), "scheduler")
            || crate::text::str_eq(o.as_str(), "runtime")),
        None => true,
    }
}

fn message_prompt_exec(m: &PromptMessage) -> (r: Option<String>)
    ensures
        opt_view(r) == message_prompt(*m),
{
    match &m.resolved_user_prompt {
        Some(r) => {
            let t = trim_str(r.as_str());
            if t.as_str().unicode_len() > 0 {
                return Some(t);
            }
        },
        None => {},
    }
    let t = trim_str(m.text.as_str());
    if t.as_str().unicode_len() > 0 {
        Some(t)
    } else {
        None
    }
}

/// The prompt of the last message that the user wrote, if it has one.
pub fn latest_user_prompt(messages: &[PromptMessage]) -> (r: Option<String>)
    ensures
        opt_view(r) == latest_prompt_spec(messages@, messages@.len() as int),
{
    let mut j: usize = messages.len();
    while j > 0
        invariant
            j <= messages@.len(),
            latest_prompt_spec(messages@, messages@.len() as int) == latest_prompt_spec(
                messages@,
                j as int,
            ),
        decreases j,
    {
        if is_user_authored_exec(&messages[j - 1]) {
            return message_prompt_exec(&messages[j - 1]);
        }
        j = j - 1;
    }
    None
}

/// The label of a recovery action.
pub open spec fn action_label(k: RecoveryActionKind) -> Seq<char> {
    match k {
        RecoveryActionKind::AbortRun => "Abort run"@,
        RecoveryActionKind::Retry => "Retry last run"@,
        RecoveryActionKind::Resume => "Resume"@,
    }
}

/// The description of a recovery action.
pub open spec fn action_description(k: RecoveryActionKind) -> Seq<char> {
    match k {
        RecoveryActionKind::AbortRun => "Stop the current run and return control to recovery mode."@,
        RecoveryActionKind::Retry => "Re-run the last request with the same scheduler selection."@,
        RecoveryActionKind::Resume => "Continue the request while preserving verified prior work."@,
    }
}

fn action_info(k: RecoveryActionKind) -> (r: RecoveryActionInfo)
    ensures
        r.kind == k,
        r.label@ == action_label(k),
        r.description@ == action_description(k),
{
    match k {
        RecoveryActionKind::AbortRun => RecoveryActionInfo {
            kind: k,
            label: owned("Abort run"),
            description: owned("Stop the current run and return control to recovery mode."),
        },
        RecoveryActionKind::Retry => RecoveryActionInfo {
            kind: k,
            label: owned("Retry last run"),
            description: owned("Re-run the last request with the same scheduler selection."),
        },
        RecoveryActionKind::Resume => RecoveryActionInfo {
            kind: k,
            label: owned("Resume"),
            description: owned("Continue the request while preserving verified prior work."),
        },
    }
}

/// The actions offered: abort while the session runs or awaits answers;
/// otherwise retry when the last run ended in error or was cancelled, and
/// resume, both only when there is a user prompt to re-run.
pub open spec fn recovery_actions_spec(
    has_prompt: bool,
    finish: Option<Seq<char>>,
    active_count: usize,
    pending: usize,
) -> Seq<RecoveryActionKind> {
    if active_count > 0 || pending > 0 {
        seq![RecoveryActionKind::AbortRun]
    } else {
        let failed = finish == Some("error"@) || finish == Some("cancelled"@);
        let retry = if has_prompt && failed {
            seq![RecoveryActionKind::Retry]
        } else {
            Seq::empty()
        };
        if has_prompt {
            retry.push(RecoveryActionKind::Resume)
        } else {
            retry
        }
    }
}

/// The status of a session: running while executions are active, awaiting
/// the user while questions are pending, idle when no action is offered, and
/// recoverable otherwise.
pub open spec fn recovery_status_spec(active_count: usize, pending: usize, n_actions: nat) -> RecoveryProtocolStatus {
    if active_count > 0 {
        RecoveryProtocolStatus::Running
    } else if pending > 0 {
        RecoveryProtocolStatus::AwaitingUser
    } else if n_actions == 0 {
        RecoveryProtocolStatus::Idle
    } else {
        RecoveryProtocolStatus::Recoverable
    }
}

/// The summary line of each status.
pub open spec fn recovery_summary_spec(status: RecoveryProtocolStatus, active_count: usize, pending: usize) -> Seq<char> {
    match status {
        RecoveryProtocolStatus::Running => decimal(active_count as nat)
            + " active execution(s) are still running."@,
        RecoveryProtocolStatus::AwaitingUser => decimal(pending as nat)
            + " pending question(s) need answers before recovery can continue."@,
        RecoveryProtocolStatus::Idle => "No recovery action is available for this session."@,
        RecoveryProtocolStatus::Recoverable => "Run-level recovery actions are available."@,
    }
}

/// The recovery protocol of a session, from its messages, how its last
/// assistant message finished, and its active executions and pending questions.
pub fn build_session_recovery_protocol(
    session_id: &str,
    messages: &[PromptMessage],
    latest_assistant_finish: Option<&str>,
    active_count: usize,
    pending_question_count: usize,
) -> (r: SessionRecoveryProtocol)
    ensures
        r.session_id@ == session_id@,
        opt_view(r.last_user_prompt) == latest_prompt_spec(messages@, messages@.len() as int),
        r.active_execution_count == active_count,
        r.pending_question_count == pending_question_count,
        r.actions@.map_values(|a: RecoveryActionInfo| a.kind) == recovery_actions_spec(
            r.last_user_prompt is Some,
            match latest_assistant_finish {
                Some(f) => Some(f@),
                None => None,
            },
            active_count,
            pending_question_count,
        ),
        forall|i: int|
            0 <= i < r.actions@.len() ==> (#[trigger] r.actions@[i]).label@ == action_label(
                r.actions@[i].kind,
            ) && r.actions@[i].description@ == action_description(r.actions@[i].kind),
        r.status == recovery_status_spec(active_count, pending_question_count, r.actions@.len()),
        opt_view(r.summary) == Some(
            recovery_summary_spec(r.status, active_count, pending_question_count),
        ),
{
    let last_user_prompt = latest_user_prompt(messages);
    let mut actions: Vec<RecoveryActionInfo> = Vec::new();
    let ghost fin = match latest_assistant_finish {
        Some(f) => Some(f@),
        None => None::<Seq<char>>,
    };
    if active_count > 0 || pending_question_count > 0 {
        actions.push(action_info(RecoveryActionKind::AbortRun));
        proof {
            assert(actions@.map_values(|a: RecoveryActionInfo| a.kind) =~= seq![
                RecoveryActionKind::AbortRun,
            ]);
        }
    } else {
        let failed = match latest_assistant_finish {
            Some(f) => crate::text::str_eq(f, "error") || crate::text::str_eq(f, "cancelled"),
            None => false,
        };
        if last_user_prompt.is_some() && failed {
            actions.push(action_info(RecoveryActionKind::Retry));
        }
        let ghost before = actions@;
        if last_user_prompt.is_some() {
            actions.push(action_info(RecoveryActionKind::Resume));
        }
        proof {
            let retry = if last_user_prompt is Some && (fin == Some("error"@) || fin == Some(
                "cancelled"@,
            )) {
                seq![RecoveryActionKind::Retry]
            } else {
                Seq::empty()
            };
            assert(before.map_values(|a: RecoveryActionInfo| a.kind) =~= retry);
            if last_user_prompt is Some {
                assert(actions@.map_values(|a: RecoveryActionInfo| a.kind) =~= retry.push(
                    RecoveryActionKind::Resume,
                ));
            }
        }
    }
    let (status, summary) = if active_count > 0 {
        (
            RecoveryProtocolStatus::Running,
            cat(decimal_string(active_count as u64).as_str(), " active execution(s) are still running."),
        )
    } else if pending_question_count > 0 {
        (
            RecoveryProtocolStatus::AwaitingUser,
            cat(
                decimal_string(pending_question_count as u64).as_str(),
                " pending question(s) need answers before recovery can continue.",
            ),
        )
    } else if actions.len() == 0 {
        (RecoveryProtocolStatus::Idle, owned("No recovery action is available for this session."))
    } else {
        (RecoveryProtocolStatus::Recoverable, owned("Run-level recovery actions are available."))
    };
    SessionRecoveryProtocol {
        session_id: owned(session_id),
        status,
        active_execution_count: active_count,
        pending_question_count,
        summary: Some(summary),
        last_user_prompt,
        actions,
    }
}

/// A session offers no recovery action exactly when it is idle; it offers to
/// abort exactly while it runs or awaits answers; it offers a retry only
/// together with a resume.
pub proof fn lemma_recovery_actions_match_status(
    has_prompt: bool,
    finish: Option<Seq<char>>,
    active_count: usize,
    pending: usize,
)
    ensures
        ({
            let acts = recovery_actions_spec(has_prompt, finish, active_count, pending);
            &&& (acts.len() == 0) == (recovery_status_spec(active_count, pending, acts.len())
                == RecoveryProtocolStatus::Idle)
            &&& acts.contains(RecoveryActionKind::AbortRun) == (active_count > 0 || pending > 0)
            &&& acts.contains(RecoveryActionKind::Retry) ==> acts.contains(RecoveryActionKind::Resume)
        }),
{
    let acts = recovery_actions_spec(has_prompt, finish, active_count, pending);
    if active_count > 0 || pending > 0 {
        assert(acts[0] == RecoveryActionKind::AbortRun);
    } else {
        if acts.contains(RecoveryActionKind::AbortRun) {
            let i = choose|i: int| 0 <= i < acts.len() && acts[i] == RecoveryActionKind::AbortRun;
            assert(false);
        }
        if has_prompt {
            assert(acts[acts.len() - 1] == RecoveryActionKind::Resume);
        }
    }
}


/// The prompt that retries a run: the recovery instruction, then the original
/// request.
pub open spec fn retry_prompt_spec(base: Seq<char>) -> Seq<char> {
    "Recovery protocol: retry the previous request with the same scheduler selection and constraints. Preserve valid prior work, but re-run failed or incomplete work.\n\nOriginal request:\n"@
        + base
}

/// The prompt that retries a run.
pub fn compose_retry_prompt(base_prompt: &str) -> (r: String)
    ensures
        r@ == retry_prompt_spec(base_prompt@),
{
    cat(
        "Recovery protocol: retry the previous request with the same scheduler selection and constraints. Preserve valid prior work, but re-run failed or incomplete work.\n\nOriginal request:\n",
        base_prompt,
    )
}

/// What a run being recovered carries of the task ledger it resumes.
#[derive(Debug)]
pub struct RecoveryExecutionContext {
    pub action: Option<RecoveryActionKind>,
    pub ledger_revision: Option<u64>,
    pub checkpoint_ids: Vec<String>,
    pub open_ids: Vec<String>,
    pub next_statement: Option<String>,
}

/// The status of a task ledger.
#[derive(Debug, Clone, Copy, PartialEq, Eq, Structural)]
pub enum TaskLedgerStatus {
    Active,
    Completed,
    AwaitingUser,
    Blocked,
    Interrupted,
}

/// What recovery and goal continuation read of a session's task ledger.
#[derive(Debug)]
pub struct TaskLedgerSummary {
    pub revision: u64,
    pub goal_generation: u64,
    pub status: TaskLedgerStatus,
    /// The goal statement, where a goal is set.
    pub goal: Option<String>,
    /// The statement of the next action, where one is set.
    pub next: Option<String>,
    pub blocked_reason: Option<String>,
    /// The ids of the open questions.
    pub open_question_ids: Vec<String>,
    /// The ids of the current checkpoints.
    pub checkpoint_ids: Vec<String>,
}

/// Whether `r` is the recovery context of `ledger` for `action`: the
/// revision, checkpoints, open questions and next action, only for a ledger
/// that governs a goal (a set goal at a revision above zero).
pub open spec fn is_context_of(r: RecoveryExecutionContext, action: RecoveryActionKind, ledger: TaskLedgerSummary) -> bool {
    let governed = ledger.revision > 0 && ledger.goal is Some;
    &&& r.action == Some(action)
    &&& r.ledger_revision == if governed {
        Some(ledger.revision)
    } else {
        None
    }
    &&& r.checkpoint_ids.deep_view() == if governed {
        ledger.checkpoint_ids.deep_view()
    } else {
        Seq::empty()
    }
    &&& r.open_ids.deep_view() == if governed {
        ledger.open_question_ids.deep_view()
    } else {
        Seq::empty()
    }
    &&& opt_view(r.next_statement) == if governed {
        opt_view(ledger.next)
    } else {
        None
    }
}

impl RecoveryExecutionContext {
    /// The recovery context of a ledger, as `is_context_of` says.
    pub fn from_ledger(action: RecoveryActionKind, ledger: &TaskLedgerSummary) -> (r: Self)
        ensures
            is_context_of(r, action, *ledger),
    {
        let governed = ledger.revision > 0 && ledger.goal.is_some();
        if governed {
            RecoveryExecutionContext {
                action: Some(action),
                ledger_revision: Some(ledger.revision),
                checkpoint_ids: crate::command_args::clone_strings(&ledger.checkpoint_ids),
                open_ids: crate::command_args::clone_strings(&ledger.open_question_ids),
                next_statement: crate::provider::clone_opt(&ledger.next),
            }
        } else {
            let r = RecoveryExecutionContext {
                action: Some(action),
                ledger_revision: None,
                checkpoint_ids: Vec::new(),
                open_ids: Vec::new(),
                next_statement: None,
            };
            assert(r.checkpoint_ids.deep_view() =~= Seq::<Seq<char>>::empty());
            assert(r.open_ids.deep_view() =~= Seq::<Seq<char>>::empty());
            r
        }
    }
}

/// A list of ids as written in a recovery anchor: joined by `, `, or `none`.
pub open spec fn id_list_spec(ids: Seq<Seq<char>>) -> Seq<char> {
    if ids.len() == 0 {
        "none"@
    } else {
        join_spec(ids, ", "@)
    }
}

fn id_list(ids: &Vec<String>) -> (r: String)
    ensures
        r@ == id_list_spec(ids.deep_view()),
{
    if ids.len() == 0 {
        owned("none")
    } else {
        join(ids, ", ")
    }
}

/// The recovery anchor line: the ledger revision with its checkpoints, open
/// questions and next action, or a note that there is no ledger anchor.
pub open spec fn resume_anchor_spec(
    revision: Option<u64>,
    checkpoints: Seq<Seq<char>>,
    opens: Seq<Seq<char>>,
    next: Option<Seq<char>>,
) -> Seq<char> {
    match revision {
        Some(rev) => "Authoritative recovery anchor: task-ledger revision "@ + decimal(rev as nat)
            + "; current checkpoint ids: "@ + id_list_spec(checkpoints) + "; open ids: "@ + id_list_spec(
            opens,
        ) + "; Next: "@ + (match next {
            Some(n) => n,
            None => "not set"@,
        })
            + ". Continue from this Next, preserve checkpointed evidence, and resolve Open items. The separately injected <task-ledger> block is authoritative; this line only names the recovery boundary."@,
        None => "No typed task-ledger recovery anchor is available; use live session history and workspace state."@,
    }
}

/// The prompt that resumes a run: the recovery instruction with its anchor,
/// then the original request as background.
pub open spec fn resume_prompt_spec(base: Seq<char>, anchor: Seq<char>) -> Seq<char> {
    "Recovery protocol: resume without restarting discovery. "@ + anchor
        + "\n\nOriginal request (background only, not the recovery authority):\n"@ + base
}

/// The prompt that resumes a run from its recovery context.
pub fn compose_resume_prompt(base_prompt: &str, recovery: &RecoveryExecutionContext) -> (r: String)
    ensures
        r@ == resume_prompt_spec(
            base_prompt@,
            resume_anchor_spec(
                recovery.ledger_revision,
                recovery.checkpoint_ids.deep_view(),
                recovery.open_ids.deep_view(),
                opt_view(recovery.next_statement),
            ),
        ),
{
    let anchor = match recovery.ledger_revision {
        Some(revision) => {
            let mut a = owned("Authoritative recovery anchor: task-ledger revision ");
            a.append(decimal_string(revision).as_str());
            a.append("; current checkpoint ids: ");
            a.append(id_list(&recovery.checkpoint_ids).as_str());
            a.append("; open ids: ");
            a.append(id_list(&recovery.open_ids).as_str());
            a.append("; Next: ");
            match &recovery.next_statement {
                Some(n) => a.append(n.as_str()),
                None => a.append("not set"),
            }
            a.append(
                ". Continue from this Next, preserve checkpointed evidence, and resolve Open items. The separately injected <task-ledger> block is authoritative; this line only names the recovery boundary.",
            );
            a
        },
        None => owned(
            "No typed task-ledger recovery anchor is available; use live session history and workspace state.",
        ),
    };
    let mut r = owned("Recovery protocol: resume without restarting discovery. ");
    r.append(anchor.as_str());
    r.append("\n\nOriginal request (background only, not the recovery authority):\n");
    r.append(base_prompt);
    r
}


/// A recovery prompt always ends with the original request, untouched.
pub proof fn lemma_recovery_prompts_keep_request(base: Seq<char>, anchor: Seq<char>)
    ensures
        crate::text::has_suffix(retry_prompt_spec(base), base),
        crate::text::has_suffix(resume_prompt_spec(base, anchor), base),
{
    let r = retry_prompt_spec(base);
    assert(r.subrange(r.len() - base.len(), r.len() as int) =~= base);
    let s = resume_prompt_spec(base, anchor);
    assert(s.subrange(s.len() - base.len(), s.len() as int) =~= base);
}


/// The name of a recovery action as messages write it.
pub open spec fn action_name(k: RecoveryActionKind) -> Seq<char> {
    match k {
        RecoveryActionKind::AbortRun => "AbortRun"@,
        RecoveryActionKind::Retry => "Retry"@,
        RecoveryActionKind::Resume => "Resume"@,
    }
}

/// The message answered to an action the session does not offer.
pub open spec fn unavailable_action_message(k: RecoveryActionKind) -> Seq<char> {
    "Recovery action `"@ + action_name(k) + "` is not available for the current session state"@
}

fn unavailable_action_text(k: RecoveryActionKind) -> (r: String)
    ensures
        r@ == unavailable_action_message(k),
{
    let name = match k {
        RecoveryActionKind::AbortRun => "AbortRun",
        RecoveryActionKind::Retry => "Retry",
        RecoveryActionKind::Resume => "Resume",
    };
    let mut r = owned("Recovery action `");
    r.append(name);
    r.append("` is not available for the current session state");
    r
}

/// What performing a recovery action comes to.
#[derive(Debug)]
pub enum RecoveryPlan {
    /// Abort the running execution.
    Abort,
    /// Submit `message` as a system prompt of the session, recovering the
    /// run named by `target_label` with `context`.
    Prompt { message: String, target_label: String, context: RecoveryExecutionContext },
}

/// The message refusing recovery while the session runs or waits on the user.
pub open spec fn not_ready_message(summary: Option<String>) -> Seq<char> {
    match summary {
        Some(s) => s@,
        None => "Session is not ready for recovery execution"@,
    }
}

/// Decides what a recovery request comes to. An action the protocol does not
/// offer is refused; an abort is performed as such; otherwise a session that
/// runs or waits on the user is refused with the protocol's summary, one
/// with no prior user prompt is refused, and retry or resume compose the
/// prompt that recovers the last run or the latest boundary.
pub fn plan_session_recovery(
    protocol: &SessionRecoveryProtocol,
    action: RecoveryActionKind,
    ledger: &TaskLedgerSummary,
) -> (r: Result<RecoveryPlan, ApiError>)
    ensures
        ({
            let offered = exists|i: int|
                0 <= i < protocol.actions@.len() && #[trigger] protocol.actions@[i].kind == action;
            let busy = protocol.status == RecoveryProtocolStatus::Running || protocol.status
                == RecoveryProtocolStatus::AwaitingUser;
            &&& !offered ==> (r matches Err(e) && e.is_bad_request(unavailable_action_message(action)))
            &&& offered && action == RecoveryActionKind::AbortRun ==> (r matches Ok(RecoveryPlan::Abort))
            &&& offered && action != RecoveryActionKind::AbortRun && busy ==> (r matches Err(e)
                && e.is_bad_request(not_ready_message(protocol.summary)))
            &&& offered && action != RecoveryActionKind::AbortRun && !busy && protocol.last_user_prompt is None
                ==> (r matches Err(e) && e.is_bad_request("No prior user prompt is available for recovery"@))
            &&& offered && action == RecoveryActionKind::Retry && !busy && protocol.last_user_prompt is Some
                ==> (r matches Ok(RecoveryPlan::Prompt { message, target_label, context })
                && message@ == retry_prompt_spec(protocol.last_user_prompt->0@)
                && target_label@ == "last run"@
                && is_context_of(context, action, *ledger))
            &&& offered && action == RecoveryActionKind::Resume && !busy && protocol.last_user_prompt is Some
                ==> (r matches Ok(RecoveryPlan::Prompt { message, target_label, context })
                && message@ == resume_prompt_spec(
                    protocol.last_user_prompt->0@,
                    resume_anchor_spec(
                        context.ledger_revision,
                        context.checkpoint_ids.deep_view(),
                        context.open_ids.deep_view(),
                        opt_view(context.next_statement),
                    ),
                )
                && target_label@ == "latest boundary"@
                && is_context_of(context, action, *ledger))
        }),
{
    if !protocol_allows_recovery_action(protocol, &action) {
        return Err(ApiError::BadRequest(unavailable_action_text(action)));
    }
    if action == RecoveryActionKind::AbortRun {
        return Ok(RecoveryPlan::Abort);
    }
    if protocol.status == RecoveryProtocolStatus::Running || protocol.status == RecoveryProtocolStatus::AwaitingUser {
        let m = match &protocol.summary {
            Some(s) => owned(s.as_str()),
            None => owned("Session is not ready for recovery execution"),
        };
        return Err(ApiError::BadRequest(m));
    }
    let base = match &protocol.last_user_prompt {
        Some(p) => p.as_str(),
        None => {
            return Err(ApiError::BadRequest(owned("No prior user prompt is available for recovery")));
        },
    };
    let context = RecoveryExecutionContext::from_ledger(action, ledger);
    if action == RecoveryActionKind::Retry {
        let message = compose_retry_prompt(base);
        Ok(RecoveryPlan::Prompt { message, target_label: owned("last run"), context })
    } else {
        let message = compose_resume_prompt(base, &context);
        Ok(RecoveryPlan::Prompt { message, target_label: owned("latest boundary"), context })
    }
}

} // verus!

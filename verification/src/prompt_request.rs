//! The prompt requests the server builds itself: the one a web command
//! sends, the one a verified external ingress runs, and the one that
//! continues a goal autonomously.

use vstd::prelude::*;
use crate::text::{opt_view, owned, cat3};
use crate::scheduler::SchedulerChoice;
use crate::recovery::{RecoveryActionKind, RecoveryExecutionContext, TaskLedgerSummary, is_context_of};
use crate::continuation::{resume_message_spec, task_ledger_auto_resume_message};

verus! {

/// Who a message comes from.
#[derive(Debug, Clone, Copy, PartialEq, Eq, Structural)]
pub enum MessageSourceOrigin {
    Operator,
    Scheduler,
}

/// The surface a message arrived through.
#[derive(Debug, Clone, Copy, PartialEq, Eq, Structural)]
pub enum MessageSourceSurface {
    Web,
    Direct,
}

/// A prompt request to a session, with its parts of type `P`.
#[derive(Debug)]
pub struct SessionPromptRequest<P> {
    pub message: Option<String>,
    pub parts: Option<Vec<P>>,
    pub idempotency_key: Option<String>,
    pub ingress_source: Option<String>,
    pub source_origin: Option<MessageSourceOrigin>,
    pub source_surface: Option<MessageSourceSurface>,
    pub model: Option<String>,
    pub variant: Option<String>,
    pub reasoning_effort: Option<String>,
    pub agent: Option<String>,
    pub scheduler: Option<SchedulerChoice>,
    pub command: Option<String>,
    pub arguments: Option<String>,
    pub recovery: Option<RecoveryExecutionContext>,
    pub auto_continuation_goal_generation: Option<u64>,
}

impl<P> SessionPromptRequest<P> {
    /// The request a web command sends: the command with its arguments and
    /// selections, from the operator through the web, with no message,
    /// parts, idempotency key or recovery.
    pub fn from_command(
        command: String,
        arguments: Option<String>,
        model: Option<String>,
        variant: Option<String>,
        reasoning_effort: Option<String>,
        agent: Option<String>,
        scheduler: Option<SchedulerChoice>,
    ) -> (r: Self)
        ensures
            r.message is None,
            r.parts is None,
            r.idempotency_key is None,
            opt_view(r.ingress_source) == Some("web-command"@),
            r.source_origin == Some(MessageSourceOrigin::Operator),
            r.source_surface == Some(MessageSourceSurface::Web),
            r.model == model,
            r.variant == variant,
            r.reasoning_effort == reasoning_effort,
            r.agent == agent,
            r.scheduler == scheduler,
            r.command == Some(command),
            r.arguments == arguments,
            r.recovery is None,
            r.auto_continuation_goal_generation is None,
    {
        SessionPromptRequest {
            message: None,
            parts: None,
            idempotency_key: None,
            ingress_source: Some(owned("web-command")),
            source_origin: Some(MessageSourceOrigin::Operator),
            source_surface: Some(MessageSourceSurface::Web),
            model,
            variant,
            reasoning_effort,
            agent,
            scheduler,
            command: Some(command),
            arguments,
            recovery: None,
            auto_continuation_goal_generation: None,
        }
    }

    /// The request a verified ingress runs: its intent text as the message
    /// and its idempotency key, and nothing else.
    pub fn from_verified_ingress(user_intent_text: &str, idempotency_key: Option<&str>) -> (r: Self)
        ensures
            opt_view(r.message) == Some(user_intent_text@),
            opt_view(r.idempotency_key) == match idempotency_key {
                Some(k) => Some(k@),
                None => None,
            },
            r.parts is None,
            r.ingress_source is None,
            r.source_origin is None,
            r.source_surface is None,
            r.model is None,
            r.variant is None,
            r.reasoning_effort is None,
            r.agent is None,
            r.scheduler is None,
            r.command is None,
            r.arguments is None,
            r.recovery is None,
            r.auto_continuation_goal_generation is None,
    {
        SessionPromptRequest {
            message: Some(owned(user_intent_text)),
            parts: None,
            idempotency_key: match idempotency_key {
                Some(k) => Some(owned(k)),
                None => None,
            },
            ingress_source: None,
            source_origin: None,
            source_surface: None,
            model: None,
            variant: None,
            reasoning_effort: None,
            agent: None,
            scheduler: None,
            command: None,
            arguments: None,
            recovery: None,
            auto_continuation_goal_generation: None,
        }
    }

    /// Whether the request continues a goal autonomously.
    pub fn is_task_ledger_auto_continuation(&self) -> (r: bool)
        ensures
            r == self.auto_continuation_goal_generation is Some,
    {
        self.auto_continuation_goal_generation.is_some()
    }
}

/// The request that continues a goal autonomously: the resume message for
/// the ledger, from the scheduler, directly, on `provider/model` with the
/// variant given, under automatic scheduler choice with no agent (so that
/// the verifier needed to complete the goal is not skipped), carrying the
/// ledger's resume context and marked with its goal generation.
pub fn task_ledger_auto_resume_request<P>(
    provider: &str,
    model: &str,
    variant: Option<String>,
    ledger: &TaskLedgerSummary,
) -> (r: SessionPromptRequest<P>)
    ensures
        opt_view(r.message) == Some(resume_message_spec(opt_view(ledger.goal), opt_view(ledger.next))),
        r.parts is None,
        r.idempotency_key is None,
        opt_view(r.ingress_source) == Some("task-ledger-auto-continuation"@),
        r.source_origin == Some(MessageSourceOrigin::Scheduler),
        r.source_surface == Some(MessageSourceSurface::Direct),
        opt_view(r.model) == Some(provider@ + "/"@ + model@),
        r.variant == variant,
        r.reasoning_effort is None,
        r.agent is None,
        r.scheduler == Some(SchedulerChoice::Auto),
        r.command is None,
        r.arguments is None,
        r.recovery matches Some(c) && is_context_of(c, RecoveryActionKind::Resume, *ledger),
        r.auto_continuation_goal_generation == Some(ledger.goal_generation),
{
    SessionPromptRequest {
        message: Some(task_ledger_auto_resume_message(ledger)),
        parts: None,
        idempotency_key: None,
        ingress_source: Some(owned("task-ledger-auto-continuation")),
        source_origin: Some(MessageSourceOrigin::Scheduler),
        source_surface: Some(MessageSourceSurface::Direct),
        model: Some(cat3(provider, "/", model)),
        variant,
        reasoning_effort: None,
        agent: None,
        scheduler: Some(SchedulerChoice::Auto),
        command: None,
        arguments: None,
        recovery: Some(RecoveryExecutionContext::from_ledger(RecoveryActionKind::Resume, ledger)),
        auto_continuation_goal_generation: Some(ledger.goal_generation),
    }
}

} // verus!

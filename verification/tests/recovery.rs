use agendao_server::recovery::{
    compose_resume_prompt, compose_retry_prompt, RecoveryActionKind, RecoveryExecutionContext,
};

#[test]
fn recovery_prompt_composition_preserves_original_request() {
    assert!(compose_retry_prompt("fix it").contains("fix it"));
    let recovery = RecoveryExecutionContext {
        action: Some(RecoveryActionKind::Resume),
        ledger_revision: Some(7),
        checkpoint_ids: vec!["chk-03".to_string()],
        open_ids: vec!["open-02".to_string()],
        next_statement: Some("run the remaining test".to_string()),
    };
    let prompt = compose_resume_prompt("fix it", &recovery);
    assert!(prompt.contains("fix it"));
    assert!(prompt.contains("revision 7"));
    assert!(prompt.contains("chk-03"));
    assert!(prompt.contains("open-02"));
    assert!(prompt.contains("run the remaining test"));
    assert!(prompt.contains("background only"));
}

use agendao_server::recovery::{
    build_session_recovery_protocol, latest_user_prompt, plan_session_recovery, MessageRole, PromptMessage,
    RecoveryPlan, RecoveryProtocolStatus, TaskLedgerStatus, TaskLedgerSummary,
};
use agendao_server::api_error::ApiError;

fn user(text: &str, origin: Option<&str>) -> PromptMessage {
    PromptMessage {
        role: MessageRole::User,
        imported_fork_history: false,
        source_origin: origin.map(str::to_string),
        resolved_user_prompt: None,
        text: text.to_string(),
    }
}

fn ledger(revision: u64, goal: bool) -> TaskLedgerSummary {
    TaskLedgerSummary {
        revision,
        goal_generation: 1,
        status: TaskLedgerStatus::Active,
        goal: if goal { Some("finish".to_string()) } else { None },
        next: Some("run the remaining test".to_string()),
        blocked_reason: None,
        open_question_ids: vec!["open-02".to_string()],
        checkpoint_ids: vec!["chk-03".to_string()],
    }
}

#[test]
fn recovery_prompt_ignores_system_steering() {
    let messages = vec![user("original task", None), user("system steering", Some("system"))];
    assert_eq!(latest_user_prompt(&messages).as_deref(), Some("original task"));
}

#[test]
fn recovery_protocol_offers_retry_after_error() {
    let messages = vec![user("fix it", None)];
    let p = build_session_recovery_protocol("s1", &messages, Some("error"), 0, 0);
    assert_eq!(p.status, RecoveryProtocolStatus::Recoverable);
    let kinds: Vec<_> = p.actions.iter().map(|a| a.kind).collect();
    assert_eq!(kinds, vec![RecoveryActionKind::Retry, RecoveryActionKind::Resume]);
    let running = build_session_recovery_protocol("s1", &messages, None, 2, 0);
    assert_eq!(running.status, RecoveryProtocolStatus::Running);
    assert_eq!(running.summary.as_deref(), Some("2 active execution(s) are still running."));
}

#[test]
fn recovery_plan_retries_with_original_request() {
    let messages = vec![user("fix it", None)];
    let p = build_session_recovery_protocol("s1", &messages, Some("error"), 0, 0);
    match plan_session_recovery(&p, RecoveryActionKind::Retry, &ledger(7, true)).unwrap() {
        RecoveryPlan::Prompt { message, target_label, context } => {
            assert!(message.ends_with("fix it"));
            assert_eq!(target_label, "last run");
            assert_eq!(context.ledger_revision, Some(7));
        }
        RecoveryPlan::Abort => panic!("expected a prompt"),
    }
    match plan_session_recovery(&p, RecoveryActionKind::Resume, &ledger(0, true)).unwrap() {
        RecoveryPlan::Prompt { message, target_label, context } => {
            assert!(message.contains("No typed task-ledger recovery anchor"));
            assert_eq!(target_label, "latest boundary");
            assert_eq!(context.ledger_revision, None);
            assert!(context.checkpoint_ids.is_empty());
        }
        RecoveryPlan::Abort => panic!("expected a prompt"),
    }
}

#[test]
fn recovery_plan_refuses_unavailable_and_busy_sessions() {
    let messages = vec![user("fix it", None)];
    let idle = build_session_recovery_protocol("s1", &messages, Some("stop"), 0, 0);
    assert_eq!(
        plan_session_recovery(&idle, RecoveryActionKind::Retry, &ledger(1, true)).unwrap_err(),
        ApiError::BadRequest("Recovery action `Retry` is not available for the current session state".to_string())
    );
    let running = build_session_recovery_protocol("s1", &messages, None, 1, 0);
    assert!(matches!(
        plan_session_recovery(&running, RecoveryActionKind::AbortRun, &ledger(1, true)),
        Ok(RecoveryPlan::Abort)
    ));
    let none: Vec<PromptMessage> = Vec::new();
    let empty = build_session_recovery_protocol("s1", &none, Some("error"), 0, 0);
    assert!(plan_session_recovery(&empty, RecoveryActionKind::Resume, &ledger(1, true)).is_err());
}

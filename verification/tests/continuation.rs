use agendao_server::continuation::{
    continuation_record_change, plan_task_ledger_auto_continuation, task_ledger_auto_resume_message,
    task_ledger_continuation_fingerprint, AutoContinuationPlan, AutoContinuationStop, ContinuationRecordChange,
    TaskLedgerAutoContinuationState,
};
use agendao_server::prompt_request::{
    task_ledger_auto_resume_request, MessageSourceOrigin, MessageSourceSurface, SessionPromptRequest,
};
use agendao_server::recovery::{RecoveryActionKind, TaskLedgerStatus, TaskLedgerSummary};
use agendao_server::scheduler::SchedulerChoice;

fn test_auto_ledger(status: TaskLedgerStatus) -> TaskLedgerSummary {
    TaskLedgerSummary {
        revision: 1,
        goal_generation: 1,
        status,
        goal: Some("finish the task".to_string()),
        next: Some("do the next thing".to_string()),
        blocked_reason: None,
        open_question_ids: Vec::new(),
        checkpoint_ids: Vec::new(),
    }
}

#[test]
fn task_ledger_auto_continuation_stops_for_terminal_or_user_states() {
    assert!(matches!(
        plan_task_ledger_auto_continuation(None, &test_auto_ledger(TaskLedgerStatus::Completed), false),
        AutoContinuationPlan::Stop(AutoContinuationStop::Completed)
    ));
    assert!(matches!(
        plan_task_ledger_auto_continuation(None, &test_auto_ledger(TaskLedgerStatus::AwaitingUser), false),
        AutoContinuationPlan::Stop(AutoContinuationStop::AwaitingUser)
    ));
    assert!(matches!(
        plan_task_ledger_auto_continuation(None, &test_auto_ledger(TaskLedgerStatus::Blocked), false),
        AutoContinuationPlan::Stop(AutoContinuationStop::Blocked)
    ));
    assert!(matches!(
        plan_task_ledger_auto_continuation(None, &test_auto_ledger(TaskLedgerStatus::Active), true),
        AutoContinuationPlan::Stop(AutoContinuationStop::Cancelled)
    ));
}

#[test]
fn task_ledger_auto_continuation_restarts_on_progress_and_blocks_on_stagnation() {
    let ledger = test_auto_ledger(TaskLedgerStatus::Active);
    let state = match plan_task_ledger_auto_continuation(None, &ledger, false) {
        AutoContinuationPlan::Continue(state) => state,
        other => panic!("expected continuation, got {other:?}"),
    };
    let state = match plan_task_ledger_auto_continuation(Some(state), &ledger, false) {
        AutoContinuationPlan::Continue(state) => state,
        other => panic!("expected second continuation, got {other:?}"),
    };
    let state = match plan_task_ledger_auto_continuation(Some(state), &ledger, false) {
        AutoContinuationPlan::Continue(state) => state,
        other => panic!("expected third continuation, got {other:?}"),
    };
    let blocked = plan_task_ledger_auto_continuation(Some(state), &ledger, false);
    assert!(matches!(blocked, AutoContinuationPlan::Block { .. }));

    let mut progressed = test_auto_ledger(TaskLedgerStatus::Active);
    progressed.next = Some("a genuinely new next action".to_string());
    assert!(matches!(
        plan_task_ledger_auto_continuation(
            match blocked {
                AutoContinuationPlan::Block { state, .. } => Some(state),
                _ => None,
            },
            &progressed,
            false,
        ),
        AutoContinuationPlan::Continue(_)
    ));
}

#[test]
fn blocked_continuation_names_rounds_and_next_action() {
    let ledger = test_auto_ledger(TaskLedgerStatus::Active);
    let mut plan = plan_task_ledger_auto_continuation(None, &ledger, false);
    for _ in 0..3 {
        let state = match plan {
            AutoContinuationPlan::Continue(state) => state,
            other => panic!("expected continuation, got {other:?}"),
        };
        plan = plan_task_ledger_auto_continuation(Some(state), &ledger, false);
    }
    match plan {
        AutoContinuationPlan::Block { state, reason } => {
            assert_eq!(state.stagnant_rounds, 3);
            assert_eq!(state.rounds, 4);
            assert_eq!(
                reason,
                "automatic continuation made no authoritative TaskLedger progress for 3 consecutive rounds; next action was `do the next thing`"
            );
        }
        other => panic!("expected block, got {other:?}"),
    }
}

#[test]
fn continuation_without_goal_or_next_stops() {
    let mut no_goal = test_auto_ledger(TaskLedgerStatus::Active);
    no_goal.goal = None;
    assert!(matches!(
        plan_task_ledger_auto_continuation(None, &no_goal, false),
        AutoContinuationPlan::Stop(AutoContinuationStop::NoGoal)
    ));
    let mut blank_next = test_auto_ledger(TaskLedgerStatus::Active);
    blank_next.next = Some("   ".to_string());
    assert!(matches!(
        plan_task_ledger_auto_continuation(None, &blank_next, false),
        AutoContinuationPlan::Stop(AutoContinuationStop::NoNext)
    ));
}

#[test]
fn fingerprint_is_json_of_progress_fields() {
    let ledger = test_auto_ledger(TaskLedgerStatus::Active);
    assert_eq!(
        task_ledger_continuation_fingerprint(&ledger),
        "[1,\"active\",null,\"do the next thing\",[],[]]"
    );
}

#[test]
fn resume_message_names_goal_and_next() {
    let message = task_ledger_auto_resume_message(&test_auto_ledger(TaskLedgerStatus::Active));
    assert!(message.contains("Goal: finish the task"));
    assert!(message.contains("Next: do the next thing"));
}

#[test]
fn continuation_plans_store_clear_or_keep_the_record() {
    let state = TaskLedgerAutoContinuationState { goal_generation: 2, rounds: 1, last_fingerprint: "fp".to_string(), stagnant_rounds: 0 };
    match continuation_record_change(&AutoContinuationPlan::Continue(state)) {
        ContinuationRecordChange::Store(s) => {
            assert_eq!(s.goal_generation, 2);
            assert_eq!(s.last_fingerprint, "fp");
        }
        _ => panic!("a continuing plan stores its record"),
    }
    for reason in [AutoContinuationStop::AwaitingUser, AutoContinuationStop::NoNext] {
        assert!(matches!(continuation_record_change(&AutoContinuationPlan::Stop(reason)), ContinuationRecordChange::Keep));
    }
    for reason in [
        AutoContinuationStop::Cancelled,
        AutoContinuationStop::Completed,
        AutoContinuationStop::Blocked,
        AutoContinuationStop::NoGoal,
    ] {
        assert!(matches!(continuation_record_change(&AutoContinuationPlan::Stop(reason)), ContinuationRecordChange::Clear));
    }
    let blocked = AutoContinuationPlan::Block {
        state: TaskLedgerAutoContinuationState { goal_generation: 2, rounds: 3, last_fingerprint: "fp".to_string(), stagnant_rounds: 3 },
        reason: "stuck".to_string(),
    };
    assert!(matches!(continuation_record_change(&blocked), ContinuationRecordChange::Clear));
}

#[test]
fn task_ledger_auto_request_is_scheduler_resume_with_generation_guard() {
    let ledger = test_auto_ledger(TaskLedgerStatus::Active);
    let request: SessionPromptRequest<()> = task_ledger_auto_resume_request("openai", "gpt", None, &ledger);
    assert_eq!(request.source_origin, Some(MessageSourceOrigin::Scheduler));
    assert_eq!(request.source_surface, Some(MessageSourceSurface::Direct));
    assert_eq!(request.scheduler, Some(SchedulerChoice::Auto));
    assert_eq!(request.auto_continuation_goal_generation, Some(1));
    assert!(request.is_task_ledger_auto_continuation());
    assert_eq!(request.model.as_deref(), Some("openai/gpt"));
    assert_eq!(request.recovery.as_ref().and_then(|r| r.action), Some(RecoveryActionKind::Resume));
    assert_eq!(request.recovery.as_ref().and_then(|r| r.ledger_revision), Some(1));
    assert!(request.message.unwrap().contains("do the next thing"));
}

#[test]
fn command_and_ingress_requests_carry_no_continuation_mark() {
    let command: SessionPromptRequest<()> =
        SessionPromptRequest::from_command("review".to_string(), Some("--deep".to_string()), None, None, None, None, None);
    assert_eq!(command.ingress_source.as_deref(), Some("web-command"));
    assert_eq!(command.source_origin, Some(MessageSourceOrigin::Operator));
    assert_eq!(command.command.as_deref(), Some("review"));
    assert!(!command.is_task_ledger_auto_continuation());
    let ingress: SessionPromptRequest<()> = SessionPromptRequest::from_verified_ingress("hello from webhook", Some("idem_1"));
    assert_eq!(ingress.message.as_deref(), Some("hello from webhook"));
    assert_eq!(ingress.idempotency_key.as_deref(), Some("idem_1"));
    assert!(ingress.ingress_source.is_none());
    assert!(!ingress.is_task_ledger_auto_continuation());
}

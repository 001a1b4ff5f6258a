use agendao_server::abort::{abort_report, AbortFindings};
use agendao_server::continuity::{
    continuity_packet_header, plan_scheduler_working_ledger, ContinuityTurn, LedgerEntryKind, SessionDiffSummary,
    collect_scheduler_recent_tail, continuity_counts, count_scheduler_context_messages, has_continuity,
    latest_compaction_summary, scheduler_context_text_for_message, CompactionSummary, ContextMessage,
};
use agendao_server::executions::{
    collect_active_tool_execution_records, execution_parent_rank, select_preferred_execution_parent_id,
    ExecutionKind, ExecutionStatus, RegisteredExecution, ToolCallPart, ToolCallStatus,
};
use agendao_server::openapi::{code_sample, group_operations, openapi_operations};
use agendao_server::recovery::MessageRole;
use agendao_server::skill_proposal::{default_status, ListQuery};
use agendao_server::task_ledger_api::{check_checkpoint_claim, non_empty};

fn msg(id: &str, role: MessageRole, text: &str) -> ContextMessage {
    ContextMessage {
        id: id.to_string(),
        role,
        text: text.to_string(),
        projection_summary: None,
        metadata_compaction: None,
        compaction_parts: Vec::new(),
        marked_summary: false,
    }
}

#[test]
fn scheduler_session_context_reports_recent_tail_coverage() {
    let messages: Vec<ContextMessage> = (0..8)
        .map(|i| msg(&format!("m{i}"), if i % 2 == 0 { MessageRole::User } else { MessageRole::Assistant }, &format!("turn {i}")))
        .collect();
    let tail = collect_scheduler_recent_tail(&messages);
    assert_eq!(tail.len(), 6);
    assert_eq!(tail[0].text, "turn 2");
    assert_eq!(tail[5].text, "turn 7");
    let eligible = count_scheduler_context_messages(&messages);
    assert_eq!(eligible, 8);
    let counts = continuity_counts(eligible, tail.len());
    assert_eq!(counts.omitted_older_turns, 2);
    assert!(has_continuity(tail.len(), 0, 0, false, false));
    assert!(!has_continuity(0, 0, 0, false, false));
}

#[test]
fn projected_assistant_turns_point_to_hydration() {
    let mut m = msg("a1", MessageRole::Assistant, "full report body");
    m.projection_summary = Some("AlphaFold3 methodology survey summary".to_string());
    let (text, projected) = scheduler_context_text_for_message(&m);
    assert!(projected);
    assert!(text.starts_with("Projected assistant output for model context."));
    assert!(text.contains("message id `a1`"));
    assert!(text.ends_with("AlphaFold3 methodology survey summary"));
    assert!(!text.contains("full report body"));
    let tail = collect_scheduler_recent_tail(&vec![m, msg("s", MessageRole::System, "ignored")]);
    assert_eq!(tail.len(), 1);
    assert_eq!(tail[0].role, "assistant");
}

#[test]
fn latest_compaction_summary_prefers_the_newest_message() {
    let mut old = msg("c1", MessageRole::Assistant, "");
    old.compaction_parts = vec!["older".to_string()];
    let mut newer = msg("c2", MessageRole::Assistant, " Compacted research findings ");
    newer.marked_summary = true;
    let mut packet = msg("c3", MessageRole::User, "");
    packet.metadata_compaction = Some(CompactionSummary { message_id: "x".to_string(), summary: "y".to_string() });
    let found = latest_compaction_summary(&vec![old, newer, packet]).expect("summary");
    assert_eq!(found.message_id, "c2");
    assert_eq!(found.summary, "Compacted research findings");
    assert!(latest_compaction_summary(&vec![msg("u", MessageRole::User, "hi")]).is_none());
}

fn registered(id: &str, kind: ExecutionKind, updated: i64, stage: Option<&str>) -> RegisteredExecution {
    RegisteredExecution { id: id.to_string(), kind, stage_id: stage.map(str::to_string), started_at: 0, updated_at: updated }
}

#[test]
fn active_tool_calls_attach_to_the_preferred_parent() {
    let existing = vec![
        registered("prompt", ExecutionKind::PromptRun, 50, None),
        registered("node", ExecutionKind::SchedulerNode, 10, Some("stage_a")),
        registered("tool_call:t0", ExecutionKind::ToolCall, 99, None),
    ];
    assert_eq!(select_preferred_execution_parent_id(&existing).as_deref(), Some("node"));
    assert_eq!(execution_parent_rank(ExecutionKind::SchedulerRun), 1);
    let parts = vec![
        ("m1".to_string(), ToolCallPart { id: "t0".to_string(), name: "bash".to_string(), input: 0u8, status: ToolCallStatus::Running, created_at_ms: 5 }),
        ("m1".to_string(), ToolCallPart { id: "t1".to_string(), name: "read".to_string(), input: 1u8, status: ToolCallStatus::Pending, created_at_ms: 6 }),
        ("m2".to_string(), ToolCallPart { id: "t2".to_string(), name: "edit".to_string(), input: 2u8, status: ToolCallStatus::Completed, created_at_ms: 7 }),
        ("m2".to_string(), ToolCallPart { id: "t3".to_string(), name: "grep".to_string(), input: 3u8, status: ToolCallStatus::Running, created_at_ms: 8 }),
    ];
    let records = collect_active_tool_execution_records("s", parts, &existing);
    assert_eq!(records.len(), 2);
    assert_eq!(records[0].id, "tool_call:t1");
    assert_eq!(records[0].status, ExecutionStatus::Waiting);
    assert_eq!(records[0].waiting_on, "dispatch");
    assert_eq!(records[0].recent_event, "read queued");
    assert_eq!(records[0].label, "Tool: read");
    assert_eq!(records[0].parent_id.as_deref(), Some("node"));
    assert_eq!(records[0].stage_id.as_deref(), Some("stage_a"));
    assert_eq!(records[1].input, 3u8);
    assert_eq!(records[1].status_name, "running");
    assert_eq!(records[1].message_id, "m2");
}

#[test]
fn active_tool_execution_records_attach_to_active_scheduler_node() {
    let existing = vec![
        RegisteredExecution { id: "prompt:ses_tools".to_string(), kind: ExecutionKind::PromptRun, stage_id: None, started_at: 1, updated_at: 1 },
        RegisteredExecution { id: "scheduler:ses_tools".to_string(), kind: ExecutionKind::SchedulerRun, stage_id: None, started_at: 2, updated_at: 2 },
        RegisteredExecution {
            id: "scheduler_node:test:root/plan".to_string(),
            kind: ExecutionKind::SchedulerNode,
            stage_id: None,
            started_at: 3,
            updated_at: 3,
        },
    ];
    let parts = vec![(
        "msg_assistant".to_string(),
        ToolCallPart { id: "call_1".to_string(), name: "bash".to_string(), input: "echo hi", status: ToolCallStatus::Pending, created_at_ms: 4 },
    )];
    let tool_records = collect_active_tool_execution_records("ses_tools", parts, &existing);
    assert_eq!(tool_records.len(), 1);
    let tool = &tool_records[0];
    assert!(matches!(tool.kind, ExecutionKind::ToolCall));
    assert_eq!(tool.parent_id.as_deref(), Some("scheduler_node:test:root/plan"));
    assert_eq!(tool.label, "Tool: bash");
}

#[test]
fn later_parent_wins_ties() {
    let existing = vec![
        registered("a", ExecutionKind::SchedulerRun, 10, None),
        registered("b", ExecutionKind::SchedulerRun, 10, None),
        registered("q", ExecutionKind::Question, 100, None),
    ];
    assert_eq!(select_preferred_execution_parent_id(&existing).as_deref(), Some("b"));
    assert_eq!(select_preferred_execution_parent_id(&[]), None);
}

#[test]
fn openapi_groups_methods_under_each_path() {
    let ops = openapi_operations();
    assert_eq!(ops.len(), 85);
    let grouped = group_operations(&ops);
    let session = grouped.iter().find(|p| p.path == "/session/{id}").expect("session path");
    let methods: Vec<_> = session.operations.iter().map(|(m, o)| (m.as_str(), o.as_str())).collect();
    assert_eq!(methods, vec![("get", "sessionGet"), ("patch", "sessionUpdate"), ("delete", "sessionDelete")]);
    assert_eq!(grouped[0].path, "/health");
    let mut paths: Vec<_> = grouped.iter().map(|p| p.path.clone()).collect();
    let total = paths.len();
    paths.sort();
    paths.dedup();
    assert_eq!(paths.len(), total);
}

#[test]
fn openapi_code_sample_calls_the_operation() {
    assert_eq!(
        code_sample("health"),
        "import { createOpencodeClient } from \"@opencode-ai/sdk\"\n\nconst client = createOpencodeClient()\nawait client.health({\n  ...\n})"
    );
}

#[test]
fn checkpoint_claims_must_not_be_blank() {
    assert!(non_empty(" x "));
    assert!(!non_empty(" \t"));
    assert!(check_checkpoint_claim("claim").is_ok());
    assert_eq!(
        check_checkpoint_claim("  "),
        Err(agendao_server::api_error::ApiError::BadRequest("checkpoint claim must not be empty".to_string()))
    );
}

#[test]
fn proposal_listing_defaults_to_drafts() {
    assert_eq!(default_status(), "draft");
    assert_eq!(ListQuery::from_status(None).status, "draft");
    assert_eq!(ListQuery::from_status(Some("active".to_string())).status, "active");
}

#[test]
fn aborting_reports_what_was_stopped() {
    let idle = AbortFindings {
        scheduler_running: false,
        prompt_running: false,
        dropped_queued_prompts: 0,
        cancelled_auto_continuation: false,
        cancelled_permissions: 0,
        cancelled_questions: 0,
    };
    let report = abort_report(idle);
    assert!(!report.aborted);
    assert_eq!(report.target, None);
    assert!(!report.interrupt_run);

    let queued = abort_report(AbortFindings { dropped_queued_prompts: 2, ..idle });
    assert!(queued.aborted);
    assert_eq!(queued.target.as_deref(), Some("run"));
    assert_eq!(queued.dropped_queued_prompts, 2);
    assert!(!queued.interrupt_run);

    let running = abort_report(AbortFindings { prompt_running: true, cancelled_questions: 1, ..idle });
    assert!(running.aborted && running.interrupt_run);
    assert_eq!(running.cancelled_pending_questions, 1);
}

#[test]
fn scheduler_session_context_anchors_compaction_summary() {
    let request = msg("msg_request", MessageRole::User, "earlier research request");
    let mut summary = msg("msg_summary", MessageRole::Assistant, "Compacted research findings about Martini3 antibodies.");
    summary.marked_summary = true;
    let found = latest_compaction_summary(&vec![request, summary]).expect("a compaction summary is anchored");
    assert_eq!(found.message_id, "msg_summary");
    assert_eq!(found.summary, "Compacted research findings about Martini3 antibodies.");
}

fn turn(id: &str, role: &str, text: &str) -> ContinuityTurn {
    ContinuityTurn { message_id: id.to_string(), role: role.to_string(), text: text.to_string(), projected: false }
}

#[test]
fn working_ledger_names_title_diff_and_latest_turns() {
    let tail = vec![
        turn("u1", "user", "first question"),
        turn("a1", "assistant", "Found papers A, B, and C"),
        turn("u2", "user", "follow-up question"),
    ];
    let diff = SessionDiffSummary { files: 2, additions: 10, deletions: 3 };
    let ledger = plan_scheduler_working_ledger(" Martini3 antibody formulation research ", false, Some(diff), &tail);
    let kinds: Vec<LedgerEntryKind> = ledger.iter().map(|e| e.kind).collect();
    assert_eq!(
        kinds,
        vec![
            LedgerEntryKind::SessionTitle,
            LedgerEntryKind::SessionDiff,
            LedgerEntryKind::LatestUserTurn,
            LedgerEntryKind::LatestAssistantOutcome,
            LedgerEntryKind::SourcePolicy,
        ]
    );
    assert_eq!(ledger[0].prefix, "session_title: ");
    assert_eq!(ledger[0].cut.as_ref().map(|c| (c.text.as_str(), c.limit, c.single_line)), Some(("Martini3 antibody formulation research", 160, false)));
    assert_eq!(ledger[1].prefix, "session_diff: files=2 additions=10 deletions=3");
    assert_eq!(ledger[2].prefix, "latest_user_turn `u2`: ");
    assert_eq!(ledger[2].source_id.as_deref(), Some("u2"));
    assert_eq!(ledger[2].cut.as_ref().map(|c| (c.text.as_str(), c.limit)), Some(("follow-up question", 240)));
    assert_eq!(ledger[3].prefix, "latest_assistant_outcome `a1`: ");
    assert_eq!(ledger[3].cut.as_ref().map(|c| c.limit), Some(360));
    assert!(ledger[4].prefix.starts_with("source_policy: use Exact Recent Tail"));
}

#[test]
fn an_empty_working_ledger_has_no_policy() {
    assert!(plan_scheduler_working_ledger("  ", false, None, &Vec::new()).is_empty());
    assert!(plan_scheduler_working_ledger("New session", true, None, &Vec::new()).is_empty());
}

#[test]
fn continuity_header_names_the_hydration_policy() {
    let header = continuity_packet_header(1, 1, 0, 0, false, false).expect("one recent turn is enough continuity");
    assert!(header.recall_policy.contains("use_scheduler_context_hydrate"));
    assert_eq!(header.counts.omitted_older_turns, 0);
    assert_eq!(header.limits.recent_tail_messages, 6);
    assert_eq!(header.limits.context_text_chars, 4000);
    assert_eq!(header.limits.turn_text_chars, 1200);
    assert!(continuity_packet_header(3, 0, 0, 0, false, false).is_none());
    assert_eq!(continuity_packet_header(8, 6, 0, 0, false, false).map(|h| h.counts.omitted_older_turns), Some(2));
}

#[test]
fn openapi_document_header_names_version_and_title() {
    let info = agendao_server::openapi::openapi_info("1.2.3");
    assert_eq!(info.openapi, "3.1.0");
    assert_eq!(info.title, "AGENDAO API");
    assert_eq!(info.version, "1.2.3");
}

#[test]
fn openapi_operations_answer_ok_with_a_js_sample() {
    let op = agendao_server::openapi::operation_object("health");
    assert_eq!(op.operation_id, "health");
    assert_eq!(op.response_status, "200");
    assert_eq!(op.response_description, "OK");
    assert_eq!(op.sample_lang, "js");
    assert!(op.sample_source.ends_with("await client.health({\n  ...\n})"));
}

#[test]
fn queued_steering_is_echoed_as_two_preview_lines() {
    let (notice, preview) = agendao_server::steering::steering_echo_messages("s", "go left", 2, &None, 1_000);
    assert_eq!(notice.text, "Steering: will be applied at next tool boundary (pending: 2)");
    assert_eq!(preview.text, "go left");
    for line in [&notice, &preview] {
        assert_eq!(line.runtime_hint, "steering_preview");
        assert_eq!(line.steering_mode, "next_tool_boundary");
        assert_eq!(line.steering_status, "pending");
        assert_eq!(line.enqueued_at_ms, 1_000);
        assert_eq!(line.owner_session_id, "s");
        assert!(line.source_session_id.is_none());
    }
}

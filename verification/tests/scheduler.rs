use agendao_server::api_error::ApiError;
use agendao_server::recovery::MessageRole;
use agendao_server::scheduler::{agent_model_name, check_requested_agent, selected_agent_name};
use agendao_server::scheduler::{
    available_tool_ids, clears_blueprint_lock, plan_scheduler_context_hydration,
    recovery_selection_overrides, render_scheduler_context_hydrated_message,
    render_scheduler_memory_hydrated_record, resolve_effective_scheduler_choice,
    scheduler_context_hydrate_message_ids, scheduler_context_hydrate_message_limit,
    scheduler_memory_hydrate_include_evidence, scheduler_memory_hydrate_record_ids,
    scheduler_memory_hydrate_record_limit, AgentToolAllowance, HydratableMessage,
    MemoryEvidenceRef, MemoryRecordView, SchedulerChoice, TemplateId,
};

fn ids(values: &[&str]) -> Option<Vec<Option<String>>> {
    Some(values.iter().map(|v| Some(v.to_string())).collect())
}

#[test]
fn scheduler_context_hydrate_arguments_validate_and_dedupe_ids() {
    let parsed = scheduler_context_hydrate_message_ids(&ids(&["msg_1", "msg_1", "msg_2"]))
        .expect("valid message ids should parse");
    assert_eq!(parsed, vec!["msg_1".to_string(), "msg_2".to_string()]);
    assert!(scheduler_context_hydrate_message_ids(&ids(&[])).is_err());
    assert_eq!(scheduler_context_hydrate_message_limit(Some(99_999)), 8000);
}

#[test]
fn scheduler_memory_hydrate_arguments_validate_and_dedupe_ids() {
    let parsed = scheduler_memory_hydrate_record_ids(&ids(&["mem_1", "mem_1", "mem_2"]))
        .expect("valid record ids should parse");
    assert_eq!(parsed, vec!["mem_1".to_string(), "mem_2".to_string()]);
    assert!(scheduler_memory_hydrate_record_ids(&ids(&[])).is_err());
    assert_eq!(scheduler_memory_hydrate_record_limit(Some(99_999)), 12000);
    assert!(scheduler_memory_hydrate_include_evidence(Some(true)));
}

#[test]
fn hydrate_limits_default_and_floor() {
    assert_eq!(scheduler_context_hydrate_message_limit(None), 2000);
    assert_eq!(scheduler_context_hydrate_message_limit(Some(0)), 1);
    assert_eq!(scheduler_memory_hydrate_record_limit(None), 4000);
    assert!(!scheduler_memory_hydrate_include_evidence(None));
    assert!(!scheduler_memory_hydrate_include_evidence(Some(false)));
}

#[test]
fn hydrate_ids_reject_blank_entries_and_missing_arrays() {
    assert!(scheduler_context_hydrate_message_ids(&None).is_err());
    assert!(scheduler_context_hydrate_message_ids(&Some(vec![Some("  ".to_string())])).is_err());
    assert!(scheduler_context_hydrate_message_ids(&Some(vec![None])).is_err());
    let trimmed = scheduler_context_hydrate_message_ids(&ids(&[" msg_1 "])).unwrap();
    assert_eq!(trimmed, vec!["msg_1".to_string()]);
}

#[test]
fn scheduler_context_hydrate_renders_text_and_compaction_parts() {
    let message = HydratableMessage {
        id: "msg_compaction".to_string(),
        role: MessageRole::Assistant,
        text: "visible text".to_string(),
        packet_summary: None,
        compaction_summaries: vec!["older findings".to_string()],
    };
    let rendered = render_scheduler_context_hydrated_message(&message, 4_000).expect("message should hydrate");
    assert!(rendered.contains("assistant `msg_compaction`"));
    assert!(rendered.contains("visible text"));
    assert!(rendered.contains("[continuity compaction summary]"));
    assert!(rendered.contains("older findings"));
}

#[test]
fn scheduler_context_hydrate_prefers_packet_summary_text() {
    let message = HydratableMessage {
        id: "msg_compaction_packet".to_string(),
        role: MessageRole::Assistant,
        text: String::new(),
        packet_summary: Some("packet owned continuity summary".to_string()),
        compaction_summaries: vec!["older raw summary".to_string()],
    };
    let rendered = render_scheduler_context_hydrated_message(&message, 4_000).expect("message should hydrate");
    assert!(rendered.contains("[continuity compaction summary]"));
    assert!(rendered.contains("packet owned continuity summary"));
    assert!(!rendered.contains("older raw summary"));
}

#[test]
fn hydrated_message_without_text_is_skipped() {
    let message = HydratableMessage {
        id: "msg_empty".to_string(),
        role: MessageRole::User,
        text: "   ".to_string(),
        packet_summary: None,
        compaction_summaries: vec![" ".to_string()],
    };
    assert!(render_scheduler_context_hydrated_message(&message, 100).is_none());
}

#[test]
fn scheduler_memory_hydrate_renders_detail_and_optional_evidence() {
    let detail = MemoryRecordView {
        id: "mem_123".to_string(),
        kind_label: "lesson".to_string(),
        scope_label: "workspace_shared".to_string(),
        status_label: "validated".to_string(),
        validation_label: "passed".to_string(),
        title: "Audit hydration boundary".to_string(),
        summary: "Use anchor-gated hydration for scheduler memory recall.".to_string(),
        confidence_text: Some("0.90".to_string()),
        source_session_id: Some("session".to_string()),
        workspace_identity: Some("workspace:test".to_string()),
        trigger_conditions: vec!["scheduler continuity".to_string()],
        normalized_facts: vec!["hydration_scope=memory_anchor".to_string()],
        boundaries: vec!["Do not hydrate ids outside packet anchors.".to_string()],
        evidence_refs: vec![MemoryEvidenceRef {
            session_id: Some("session".to_string()),
            message_id: Some("msg_a".to_string()),
            tool_call_id: Some("tool_a".to_string()),
            stage_id: Some("stage_a".to_string()),
            note: Some("test evidence".to_string()),
        }],
        derived_skill_name: None,
        linked_skill_name: None,
    };

    let without_evidence = render_scheduler_memory_hydrated_record(&detail, false, 4_000);
    assert!(without_evidence.contains("memory `mem_123`"));
    assert!(without_evidence.contains("lesson / workspace_shared / validated"));
    assert!(without_evidence.contains("hydration_scope=memory_anchor"));
    assert!(!without_evidence.contains("evidence_refs"));

    let with_evidence = render_scheduler_memory_hydrated_record(&detail, true, 4_000);
    assert!(with_evidence.contains("evidence_refs"));
    assert!(with_evidence.contains("message_id=`msg_a`"));
}

#[test]
fn hydration_plan_only_serves_authorized_anchors() {
    let requested = vec!["msg_user".to_string(), "msg_other".to_string()];
    let allowed = vec!["msg_assistant".to_string(), "msg_user".to_string()];
    let plan = plan_scheduler_context_hydration(&requested, &allowed).expect("anchors exist");
    assert_eq!(plan.0, vec!["msg_user".to_string()]);
    assert_eq!(plan.1, vec!["msg_other".to_string()]);
    assert!(plan_scheduler_context_hydration(&requested, &Vec::new()).is_err());
}

#[test]
fn scheduler_choice_defaults_to_auto_without_an_explicit_agent() {
    assert_eq!(resolve_effective_scheduler_choice(None, None, false), SchedulerChoice::Auto);
}

#[test]
fn explicit_agent_uses_direct_scheduler_and_explicit_scheduler_is_preserved() {
    assert_eq!(
        resolve_effective_scheduler_choice(None, None, true),
        SchedulerChoice::Template { template: TemplateId::Direct }
    );
    let explicit = SchedulerChoice::Template { template: TemplateId::Verify };
    assert_eq!(resolve_effective_scheduler_choice(None, Some(explicit.clone()), false), explicit);
}

#[test]
fn recovery_prefers_non_direct_scheduler_over_runtime_agent_hint() {
    let (agent, scheduler) = recovery_selection_overrides(Some("build".to_string()), Some(SchedulerChoice::Auto));
    assert!(agent.is_none());
    assert_eq!(scheduler, Some(SchedulerChoice::Auto));
}

#[test]
fn recovery_preserves_explicit_agent_for_direct_scheduler() {
    let (agent, scheduler) = recovery_selection_overrides(
        Some("build".to_string()),
        Some(SchedulerChoice::Template { template: TemplateId::Direct }),
    );
    assert_eq!(agent.as_deref(), Some("build"));
    assert!(scheduler.is_none());
}

#[test]
fn auto_request_preserves_the_previous_blueprint_lock() {
    assert!(!clears_blueprint_lock(&SchedulerChoice::Auto));
}

#[test]
fn explicit_request_clears_the_previous_blueprint_lock() {
    assert!(clears_blueprint_lock(&SchedulerChoice::Template { template: TemplateId::Direct }));
}

#[test]
fn available_tool_ids_are_sorted_and_unique() {
    let allowances = vec![
        AgentToolAllowance { agent: "plan".to_string(), tools: vec!["read".to_string()] },
        AgentToolAllowance {
            agent: "build".to_string(),
            tools: vec!["write".to_string(), "bash".to_string(), "write".to_string(), "read".to_string()],
        },
    ];
    assert_eq!(
        available_tool_ids(&allowances, "build"),
        vec!["bash".to_string(), "read".to_string(), "write".to_string()]
    );
    assert!(available_tool_ids(&allowances, "unknown").is_empty());
}

#[test]
fn requested_agents_must_be_registered() {
    assert_eq!(selected_agent_name(Some("plan"), Some("review")), "plan");
    assert_eq!(selected_agent_name(None, Some(" review ")), "review");
    assert_eq!(selected_agent_name(None, None), "build");
    assert_eq!(check_requested_agent(Some("ghost"), false), Err(ApiError::BadRequest("unknown agent 'ghost'".to_string())));
    assert_eq!(check_requested_agent(Some("plan"), true), Ok(()));
    assert_eq!(check_requested_agent(None, false), Ok(()));
    assert_eq!(agent_model_name("anthropic", "sonnet-4"), "anthropic/sonnet-4");
}

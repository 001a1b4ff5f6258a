use agendao_server::api_error::ApiError;
use agendao_server::command_args::{CommandArgumentField, CommandArgumentKind, CommandArgumentOption};
use agendao_server::prompt_flow::{
    auto_continuation_matches, check_prompt_selection, command_fields_to_ask, command_goal_statement,
    command_question_for_field, dispatch_prompt, display_prompt_text, needs_run_reservation,
    parse_request_reasoning_effort, reasoning_effort_metadata, require_goal_statement, variant_metadata,
    IngressStage, InteractivePolicy, MetadataChange, PromptDispatch, QuestionTemplate, ReasoningEffort,
};
use agendao_server::prompt_flow::{command_scheduler_choice, nonblank_raw_arguments};
use agendao_server::recovery::{TaskLedgerStatus, TaskLedgerSummary};
use agendao_server::scheduler::{SchedulerChoice, TemplateId};

fn field(key: &str, label: &str, required: bool, kind: CommandArgumentKind) -> CommandArgumentField {
    CommandArgumentField {
        key: key.to_string(),
        label: label.to_string(),
        required,
        kind,
        repeatable: false,
        options: Vec::new(),
    }
}

#[test]
fn agent_and_scheduler_are_mutually_exclusive() {
    assert_eq!(
        check_prompt_selection(true, true, true, true),
        Err(ApiError::BadRequest("`agent` and `scheduler` are mutually exclusive".to_string()))
    );
    assert_eq!(
        check_prompt_selection(true, false, true, true),
        Err(ApiError::BadRequest("`command` and `parts` are mutually exclusive".to_string()))
    );
    assert_eq!(check_prompt_selection(true, false, true, false), Ok(()));
}

#[test]
fn display_text_prefers_parts_then_message_then_command() {
    assert_eq!(display_prompt_text(Some("parts"), Some("msg"), None, None), Ok("parts".to_string()));
    assert_eq!(display_prompt_text(None, Some("msg"), Some("c"), None), Ok("msg".to_string()));
    assert_eq!(display_prompt_text(None, None, Some("review"), Some("src")), Ok("/review src".to_string()));
    assert_eq!(display_prompt_text(None, None, Some("review"), None), Ok("/review".to_string()));
    assert_eq!(
        display_prompt_text(None, None, None, Some("x")),
        Err(ApiError::BadRequest("Either `message`, `parts`, or `command` must be provided".to_string()))
    );
}

#[test]
fn goal_command_resolves_plain_text_statement() {
    let schema = vec![field("goal", "Goal", true, CommandArgumentKind::LongText)];
    assert_eq!(
        command_goal_statement(Some("goal"), Some(&schema), Some("finish the parser and run all tests")).as_deref(),
        Some("finish the parser and run all tests")
    );
    assert_eq!(command_goal_statement(Some("review"), Some(&schema), Some("x")), None);
    assert_eq!(
        require_goal_statement(Some("goal"), Some(&schema), Some("   ")),
        Err(ApiError::BadRequest("Usage: /goal <goal description>".to_string()))
    );
    assert_eq!(require_goal_statement(Some("review"), Some(&schema), None), Ok(None));
}

#[test]
fn command_asks_for_missing_fields_by_policy() {
    let schema = vec![
        field("goal", "Goal", true, CommandArgumentKind::LongText),
        field("verify", "Verify", true, CommandArgumentKind::CommandLine),
        field("guard", "Guard", true, CommandArgumentKind::CommandLine),
    ];
    let all = command_fields_to_ask(InteractivePolicy::AskAll, &schema, Some("--goal improve-docs"));
    assert_eq!(all.iter().map(|f| f.key.as_str()).collect::<Vec<_>>(), vec!["verify", "guard"]);
    let step = command_fields_to_ask(InteractivePolicy::AskPerStep, &schema, Some("--goal improve-docs"));
    assert_eq!(step.iter().map(|f| f.key.as_str()).collect::<Vec<_>>(), vec!["verify"]);
    assert!(command_fields_to_ask(InteractivePolicy::Off, &schema, None).is_empty());
}

#[test]
fn reasoning_effort_parses_known_levels() {
    assert_eq!(parse_request_reasoning_effort(None), Ok(None));
    assert_eq!(parse_request_reasoning_effort(Some("  ")), Ok(None));
    assert_eq!(parse_request_reasoning_effort(Some("AUTO")), Ok(None));
    assert_eq!(parse_request_reasoning_effort(Some("inherit")), Ok(None));
    assert_eq!(parse_request_reasoning_effort(Some(" High ")), Ok(Some(ReasoningEffort::High)));
    assert_eq!(parse_request_reasoning_effort(Some("none")), Ok(Some(ReasoningEffort::Off)));
    assert_eq!(
        parse_request_reasoning_effort(Some(" turbo ")),
        Err(ApiError::BadRequest(
            "invalid reasoning_effort `turbo` (expected none/minimal/low/medium/high/xhigh/max/ultra)".to_string()
        ))
    );
}

#[test]
fn dispatch_batches_followers_and_queues_behind_running_sessions() {
    assert_eq!(dispatch_prompt(IngressStage::Follower, true, false), PromptDispatch::Batched);
    assert_eq!(dispatch_prompt(IngressStage::Bypass, true, false), PromptDispatch::Queued);
    assert_eq!(dispatch_prompt(IngressStage::Bypass, true, true), PromptDispatch::Run);
    assert_eq!(dispatch_prompt(IngressStage::Leader, true, false), PromptDispatch::Run);
    assert!(needs_run_reservation(IngressStage::Bypass, true, false));
    assert!(!needs_run_reservation(IngressStage::Bypass, true, true));
    assert!(!needs_run_reservation(IngressStage::Leader, true, false));
}

#[test]
fn run_metadata_changes_follow_the_request() {
    assert_eq!(variant_metadata(Some("fast")), MetadataChange::Write("fast".to_string()));
    assert_eq!(variant_metadata(None), MetadataChange::Remove);
    assert_eq!(reasoning_effort_metadata(None), MetadataChange::Keep);
    assert_eq!(reasoning_effort_metadata(Some("  ")), MetadataChange::Remove);
    assert_eq!(reasoning_effort_metadata(Some(" high ")), MetadataChange::Write("high".to_string()));
}

#[test]
fn auto_continuation_must_match_the_armed_active_goal() {
    let ledger = TaskLedgerSummary {
        revision: 2,
        goal_generation: 4,
        status: TaskLedgerStatus::Active,
        goal: Some("g".to_string()),
        next: Some("n".to_string()),
        blocked_reason: None,
        open_question_ids: Vec::new(),
        checkpoint_ids: Vec::new(),
    };
    assert!(auto_continuation_matches(4, &ledger, true));
    assert!(!auto_continuation_matches(3, &ledger, true));
    assert!(!auto_continuation_matches(4, &ledger, false));
}

#[test]
fn command_question_uses_template_or_field() {
    let mut f = field("goal", "Goal", true, CommandArgumentKind::GlobList);
    f.options = vec![CommandArgumentOption { label: "a".to_string(), description: None }];
    let q = command_question_for_field("autoresearch", &[], &f);
    assert_eq!(q.question, "Provide `Goal` for `/autoresearch`.");
    assert_eq!(q.header.as_deref(), Some("Goal"));
    assert_eq!(q.options, vec![("a".to_string(), None)]);
    assert!(q.multiple);

    let templates = vec![QuestionTemplate {
        field_key: "--Goal".to_string(),
        prompt: "What is the goal?".to_string(),
        header: "Goal?".to_string(),
        options: Vec::new(),
    }];
    let q = command_question_for_field("autoresearch", &templates, &f);
    assert_eq!(q.question, "What is the goal?");
    assert_eq!(q.header.as_deref(), Some("Goal?"));
    assert!(q.options.is_empty());
}

#[test]
fn scheduler_commands_pin_their_template_except_goal() {
    assert_eq!(
        command_scheduler_choice("autoresearch", true),
        Some(SchedulerChoice::Template { template: TemplateId::Autoresearch })
    );
    assert_eq!(
        command_scheduler_choice("autoresearch-deep", true),
        Some(SchedulerChoice::Template { template: TemplateId::Autoresearch })
    );
    assert_eq!(command_scheduler_choice("review", true), Some(SchedulerChoice::Template { template: TemplateId::Direct }));
    assert_eq!(command_scheduler_choice("goal", true), None);
    assert_eq!(command_scheduler_choice("autoresearch", false), None);
    assert_eq!(nonblank_raw_arguments("  "), None);
    assert_eq!(nonblank_raw_arguments(" --goal x "), Some(" --goal x ".to_string()));
}

#[test]
fn goal_command_resolves_plain_text_without_pinning_scheduler() {
    let schema = vec![field("goal", "Goal", true, CommandArgumentKind::LongText)];
    assert_eq!(
        command_goal_statement(Some("goal"), Some(&schema), Some("finish the parser and run all tests")).as_deref(),
        Some("finish the parser and run all tests")
    );
    assert!(command_scheduler_choice("goal", true).is_none());
}

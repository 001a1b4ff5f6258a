use agendao_server::api_error::ApiError;
use agendao_server::command_args::{hydrate, shell_quote, tokenize, CommandArgumentField, CommandArgumentKind};
use agendao_server::live_ingress::{
    check_verified_ingress_session, complete_ingress_command, ingress_idempotency_key, ingress_turn_id, IngressInfo,
};
use agendao_server::live_snapshot::{merge_snapshot_text, suffix_prefix_overlap};
use agendao_server::mcp::{mcp_error_to_api_error, parse_runtime_from_request, McpConfigInput, McpOAuthError, McpRuntimeConfig};
use agendao_server::orchestration_adapter::{
    SessionMessageView, find_session_detail, list_session_summaries, OrchestratorError, ServerStateOrchestrationAdapter, SessionView,
};
use agendao_server::provider::{
    require_provider_id, set_provider_disabled, synthetic_variant_names, validate_connect_request,
    ConnectProviderRequest,
};
use agendao_server::steering::{
    plan_submit_input, prepare_session_steering, SubmissionMode, SubmissionRejectionReason, SubmitInputCommand,
    SubmitInputPlan, SubmitSteeringRequest,
};
use std::sync::Arc;

fn field(key: &str, kind: CommandArgumentKind, required: bool) -> CommandArgumentField {
    CommandArgumentField { key: key.to_string(), label: key.to_string(), required, kind, repeatable: false, options: Vec::new() }
}

fn autoresearch_fields() -> Vec<CommandArgumentField> {
    vec![
        field("goal", CommandArgumentKind::LongText, true),
        field("verify", CommandArgumentKind::CommandLine, true),
        field("guard", CommandArgumentKind::CommandLine, false),
        field("iterations", CommandArgumentKind::Text, false),
    ]
}

#[test]
fn hydrate_scheduler_command_arguments_does_not_inject_hidden_defaults() {
    let (arguments, raw) = hydrate("", &autoresearch_fields());
    assert_eq!(arguments.len(), 0);
    assert!(raw.is_empty());
}

#[test]
fn hydrate_scheduler_command_arguments_preserves_explicit_user_values() {
    let (arguments, raw) = hydrate("--goal \"teacher demo goal\" --verify ./custom-validate.sh", &autoresearch_fields());
    assert_eq!(arguments.get("goal"), Some(vec!["teacher demo goal".to_string()]));
    assert_eq!(arguments.get("verify"), Some(vec!["./custom-validate.sh".to_string()]));
    assert!(raw.contains("--goal \"teacher demo goal\""));
    assert!(raw.contains("--verify ./custom-validate.sh"));
    assert!(!raw.contains("--guard"));
    assert!(!raw.contains("--iterations"));
}

#[test]
fn shell_quoted_values_tokenize_back() {
    for value in ["plain", "two words", "quote \" inside", "back\\slash"] {
        let quoted = shell_quote(value);
        assert_eq!(tokenize(&quoted), vec![value.to_string()], "value {value:?} quoted as {quoted:?}");
    }
}

#[test]
fn an_empty_value_quotes_to_no_token() {
    assert_eq!(shell_quote(""), "\"\"");
    assert!(tokenize(&shell_quote("")).is_empty());
}

#[test]
fn snapshots_merge_without_repeating_overlap() {
    assert_eq!(merge_snapshot_text(None, "Hello"), "Hello");
    assert_eq!(merge_snapshot_text(Some("Hello"), "Hello world"), "Hello world");
    assert_eq!(merge_snapshot_text(Some("Hello world"), "Hello"), "Hello world");
}

#[test]
fn set_provider_disabled_roundtrip() {
    let mut disabled = vec!["openai".to_string()];
    set_provider_disabled(&mut disabled, "deepseek", true);
    assert!(disabled.iter().any(|p| p == "deepseek"));
    set_provider_disabled(&mut disabled, "deepseek", true);
    assert_eq!(disabled.iter().filter(|p| *p == "deepseek").count(), 1);
    set_provider_disabled(&mut disabled, "deepseek", false);
    assert!(!disabled.iter().any(|p| p == "deepseek"));
    assert_eq!(disabled, vec!["openai".to_string()]);
}

#[test]
fn connect_requests_are_checked_in_order() {
    let req = |id: &str, key: &str, base: Option<&str>, protocol: Option<&str>| ConnectProviderRequest {
        provider_id: id.to_string(),
        api_key: key.to_string(),
        base_url: base.map(str::to_string),
        protocol: protocol.map(str::to_string),
    };
    assert_eq!(
        validate_connect_request(&req(" ", "k", None, None)).unwrap_err(),
        ApiError::BadRequest("provider_id is required".to_string())
    );
    assert_eq!(
        validate_connect_request(&req("p", " ", None, None)).unwrap_err(),
        ApiError::BadRequest("api_key is required".to_string())
    );
    assert_eq!(
        validate_connect_request(&req("p", "k", Some("https://x"), None)).unwrap_err(),
        ApiError::BadRequest("base_url and protocol must be provided together".to_string())
    );
    assert_eq!(
        validate_connect_request(&req("p", "k", Some("https://x"), Some("grpc"))).unwrap_err(),
        ApiError::BadRequest("Invalid protocol: grpc".to_string())
    );
    let plan = validate_connect_request(&req(" p ", " k ", Some("https://x"), Some("anthropic"))).unwrap();
    assert_eq!(plan.provider_id, "p");
    assert_eq!(plan.api_key, "k");
    assert_eq!(plan.endpoint.as_ref().map(|(b, _)| b.as_str()), Some("https://x"));
    assert!(require_provider_id("  ").is_err());
    assert_eq!(require_provider_id(" id ").unwrap(), "id");
}

#[test]
fn reasoning_models_get_synthetic_variants() {
    assert!(synthetic_variant_names("openai", "gpt-5", false).is_empty());
    assert!(!synthetic_variant_names("openai", "gpt-5", true).is_empty());
}

fn submit(content: &str, mode: SubmissionMode) -> SubmitInputCommand {
    SubmitInputCommand { session_id: "s1".to_string(), client_request_id: "r1".to_string(), content: content.to_string(), mode }
}

#[test]
fn submissions_start_queue_or_steer() {
    assert!(matches!(plan_submit_input("s1", true, false, &submit("hi", SubmissionMode::Auto)), SubmitInputPlan::StartTurn { .. }));
    match plan_submit_input("s1", true, true, &submit("hi", SubmissionMode::Auto)) {
        SubmitInputPlan::QueueBehindTurn { item_id, position, .. } => {
            assert_eq!(item_id, "queue_r1");
            assert_eq!(position, 0);
        }
        _ => panic!("expected queueing"),
    }
    match plan_submit_input("s1", true, true, &submit("hi", SubmissionMode::StartTurn)) {
        SubmitInputPlan::Reject { reason, message } => {
            assert_eq!(reason, SubmissionRejectionReason::TurnConflict { active_turn_id: "active_turn".to_string() });
            assert_eq!(message, "Session is currently busy with an active turn");
        }
        _ => panic!("expected a conflict"),
    }
    match plan_submit_input("s1", true, false, &submit("  ", SubmissionMode::Auto)) {
        SubmitInputPlan::Reject { reason, message } => {
            assert_eq!(reason, SubmissionRejectionReason::EmptyContent);
            assert_eq!(message, "Content cannot be empty");
        }
        _ => panic!("expected a refusal"),
    }
    match plan_submit_input("s2", false, false, &submit("hi", SubmissionMode::Auto)) {
        SubmitInputPlan::Reject { message, .. } => assert_eq!(message, "Session 's2' not found"),
        _ => panic!("expected a refusal"),
    }
    match plan_submit_input("s1", true, true, &submit(" go ", SubmissionMode::Steer { expected_turn_id: None })) {
        SubmitInputPlan::EnqueueSteering { steering_id, text, .. } => {
            assert_eq!(steering_id, "steer_r1");
            assert_eq!(text, "go");
        }
        _ => panic!("expected steering"),
    }
}

#[test]
fn steering_requires_session_mode_and_text() {
    let body = |text: &str, mode: &str| SubmitSteeringRequest { text: text.to_string(), mode: mode.to_string() };
    assert_eq!(prepare_session_steering(true, "s", &body(" go ", "next_tool_boundary")), Ok("go".to_string()));
    assert_eq!(prepare_session_steering(false, "s", &body("go", "next_tool_boundary")), Err(ApiError::SessionNotFound("s".to_string())));
    assert_eq!(
        prepare_session_steering(true, "s", &body("  ", "next_tool_boundary")),
        Err(ApiError::BadRequest("steering text cannot be empty".to_string()))
    );
    assert!(prepare_session_steering(true, "s", &body("go", "immediate")).is_err());
}

#[test]
fn mcp_errors_map_to_answers() {
    assert_eq!(
        mcp_error_to_api_error(McpOAuthError::ServerNotFound("x".to_string())),
        ApiError::NotFound("MCP server not found: x".to_string())
    );
    assert_eq!(
        mcp_error_to_api_error(McpOAuthError::OAuthInProgress),
        ApiError::BadRequest("OAuth already in progress".to_string())
    );
}

fn mcp_input() -> McpConfigInput {
    McpConfigInput { server_type: None, command: None, environment: None, url: None, enabled: None, timeout: None, oauth: None }
}

#[test]
fn mcp_configs_need_url_or_command() {
    assert_eq!(
        parse_runtime_from_request(McpConfigInput { server_type: Some("remote".to_string()), ..mcp_input() }).unwrap_err(),
        ApiError::BadRequest("MCP remote config requires `url`".to_string())
    );
    assert_eq!(
        parse_runtime_from_request(mcp_input()).unwrap_err(),
        ApiError::BadRequest("MCP local config requires non-empty `command`".to_string())
    );
    match parse_runtime_from_request(McpConfigInput {
        command: Some(vec!["npx".to_string(), "server".to_string()]),
        enabled: Some(false),
        ..mcp_input()
    }) {
        Ok((McpRuntimeConfig::Local { command, args, .. }, enabled)) => {
            assert_eq!(command, "npx");
            assert_eq!(args, vec!["server".to_string()]);
            assert!(!enabled);
        }
        _ => panic!("expected a local config"),
    }
    match parse_runtime_from_request(McpConfigInput { url: Some("https://mcp".to_string()), ..mcp_input() }) {
        Ok((McpRuntimeConfig::Remote { url, oauth_enabled, .. }, enabled)) => {
            assert_eq!(url, "https://mcp");
            assert!(oauth_enabled);
            assert!(enabled);
        }
        _ => panic!("expected a remote config"),
    }
}

#[test]
fn adapter_prompt_execution_is_not_available_yet() {
    let adapter = ServerStateOrchestrationAdapter::new(Arc::new(()));
    match adapter.execute_prompt("default", "hello") {
        Err(OrchestratorError::Other(message)) => assert!(message.contains("not yet implemented")),
        _ => panic!("expected the not-implemented error"),
    }
}

fn info() -> IngressInfo {
    IngressInfo {
        session_id: "s".to_string(),
        source: "api".to_string(),
        context_key: None,
        command: None,
        turn_id: "t".to_string(),
        received_at_ms: 0,
        idempotency_key: None,
    }
}

#[test]
fn ingress_ids_and_commands() {
    assert_eq!(ingress_turn_id(Some(" key-1 "), "fresh"), "ingress_key-1");
    assert_eq!(ingress_turn_id(Some("  "), "fresh"), "ingress_fresh");
    assert_eq!(ingress_turn_id(None, "fresh"), "ingress_fresh");
    assert_eq!(ingress_idempotency_key(Some(" k ".to_string())), Some(" k ".to_string()));
    assert_eq!(ingress_idempotency_key(Some(" ".to_string())), None);
    assert!(check_verified_ingress_session("s", "s").is_ok());
    assert_eq!(
        check_verified_ingress_session("a", "b").unwrap_err(),
        ApiError::BadRequest("verified ingress session_id `a` does not match route session `b`".to_string())
    );
    let mut i = info();
    complete_ingress_command(&mut i, None, Some("review"));
    assert_eq!(i.command.as_deref(), Some("review"));
    complete_ingress_command(&mut i, Some("goal"), None);
    assert_eq!(i.command.as_deref(), Some("review"));
}

#[test]
fn task_ingress_for_prompt_rejects_verified_ingress_for_other_session() {
    let error = check_verified_ingress_session("ses_other", "ses_1").unwrap_err();
    assert!(matches!(error, ApiError::BadRequest(_)));
}

#[test]
fn test_adapter_interface_signature() {
    let adapter = ServerStateOrchestrationAdapter::new(Arc::new(()));
    let result = adapter.execute_prompt("", "hello");
    assert!(result.is_err());
    assert!(result.unwrap_err().to_text().contains("not yet implemented"));
}

#[test]
fn test_adapter_list_sessions() {
    let sessions: Vec<SessionView> = Vec::new();
    assert_eq!(list_session_summaries(&sessions).len(), 0);
}

#[test]
fn test_adapter_get_session_not_found() {
    let sessions: Vec<SessionView> = Vec::new();
    let result = find_session_detail(&sessions, "nonexistent");
    assert!(result.is_err());
    match result {
        Err(error) => assert!(error.to_text().contains("not found")),
        Ok(_) => panic!("expected a missing session"),
    }
}

#[test]
fn overlaps_are_counted_in_bytes() {
    assert_eq!(suffix_prefix_overlap("abcab", "abx"), 2);
    assert_eq!(suffix_prefix_overlap("aaa", "aaaa"), 3);
    assert_eq!(suffix_prefix_overlap("abc", "xyz"), 0);
    assert_eq!(suffix_prefix_overlap("\u{e9}", "\u{e9}"), 2);
    assert_eq!(suffix_prefix_overlap("caf\u{e9}", "\u{e9}t\u{e9}"), 2);
}

#[test]
fn a_found_session_is_shown_with_its_messages() {
    let sessions = vec![
        SessionView { id: "s0".to_string(), title: "Other".to_string(), created_at: "t0".to_string(), updated_at: "t0".to_string(), messages: Vec::new() },
        SessionView {
            id: "s1".to_string(),
            title: "Research".to_string(),
            created_at: "t1".to_string(),
            updated_at: "t2".to_string(),
            messages: vec![SessionMessageView {
                id: "m1".to_string(),
                role: agendao_server::recovery::MessageRole::User,
                texts: vec!["hello ".to_string(), "world".to_string()],
                created_at: "t1".to_string(),
            }],
        },
    ];
    let detail = find_session_detail(&sessions, "s1").ok().expect("the session exists");
    assert_eq!(detail.id, "s1");
    assert_eq!(detail.title.as_deref(), Some("Research"));
    assert_eq!(detail.messages.len(), 1);
    assert_eq!(detail.messages[0].content, "hello world");
    assert_eq!(detail.messages[0].role, "User");
}

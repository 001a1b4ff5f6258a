use agendao_server::followup::{take_followup_prompt, FollowupQueues, QueuedFollowup};
use agendao_server::prompt_request::{task_ledger_auto_resume_request, SessionPromptRequest};
use agendao_server::recovery::{TaskLedgerStatus, TaskLedgerSummary};
use agendao_server::known_providers::known_provider_entries;
use agendao_server::provider_catalog::{CatalogProvider, ConfiguredProvider};

fn human(text: &'static str) -> QueuedFollowup<&'static str> {
    QueuedFollowup { request: text, apply_plugin_config_hooks: true, auto_continuation_goal_generation: None }
}

fn auto(text: &'static str, generation: u64) -> QueuedFollowup<&'static str> {
    QueuedFollowup { request: text, apply_plugin_config_hooks: false, auto_continuation_goal_generation: Some(generation) }
}

#[test]
fn queued_followups_are_adopted_in_order() {
    let mut q = FollowupQueues::new();
    assert_eq!(q.enqueue("s", human("first")), 1);
    assert_eq!(q.enqueue("s", human("second")), 2);
    assert_eq!(q.enqueue("other", human("elsewhere")), 1);
    assert_eq!(q.take("s").map(|f| f.request), Some("first"));
    assert_eq!(q.take("s").map(|f| f.request), Some("second"));
    assert!(q.take("s").is_none());
    assert_eq!(q.take("other").map(|f| f.request), Some("elsewhere"));
}

#[test]
fn followup_queue_preserves_fifo_order_and_tracks_runtime_count() {
    let mut q = FollowupQueues::new();
    for (index, message) in ["first", "second", "third"].into_iter().enumerate() {
        assert_eq!(q.enqueue("s", human(message)), index + 1);
    }
    assert_eq!(q.take("s").map(|f| f.request), Some("first"));
    assert_eq!(q.take("s").map(|f| f.request), Some("second"));
    assert_eq!(q.drain("s"), 1);
    assert!(q.take("s").is_none());
}

#[test]
fn human_followup_is_adopted_before_queued_auto_continuation() {
    let ledger = TaskLedgerSummary {
        revision: 1,
        goal_generation: 1,
        status: TaskLedgerStatus::Active,
        goal: Some("finish the task".to_string()),
        next: Some("do the next thing".to_string()),
        blocked_reason: None,
        open_question_ids: Vec::new(),
        checkpoint_ids: Vec::new(),
    };
    let mut auto_request: SessionPromptRequest<()> = task_ledger_auto_resume_request("openai", "gpt", None, &ledger);
    auto_request.auto_continuation_goal_generation = None;
    let human_request: SessionPromptRequest<()> = SessionPromptRequest::from_verified_ingress("human correction", None);
    let mut q = FollowupQueues::new();
    q.enqueue(
        "s",
        QueuedFollowup { request: auto_request, apply_plugin_config_hooks: false, auto_continuation_goal_generation: Some(1) },
    );
    q.enqueue("s", QueuedFollowup { request: human_request, apply_plugin_config_hooks: true, auto_continuation_goal_generation: None });

    let adopted = take_followup_prompt(&mut q, "s").expect("one prompt should be adopted");
    assert_eq!(adopted.request.message.as_deref(), Some("human correction"));
    assert!(!adopted.request.is_task_ledger_auto_continuation());

    let remaining = take_followup_prompt(&mut q, "s").expect("auto continuation should remain queued");
    assert!(remaining.request.is_task_ledger_auto_continuation());
    assert_eq!(remaining.request.auto_continuation_goal_generation, Some(1));
    assert!(take_followup_prompt(&mut q, "s").is_none());
    assert!(take_followup_prompt(&mut q, "missing").is_none());
}

#[test]
fn aborting_a_session_drops_queued_followups() {
    let mut q = FollowupQueues::new();
    q.enqueue("s", human("a"));
    q.enqueue("s", auto("b", 1));
    assert_eq!(q.drain("s"), 2);
    assert_eq!(q.drain("s"), 0);
    assert!(q.take("s").is_none());
}

fn catalog(id: &str, name: &str, npm: Option<&str>) -> CatalogProvider<u32> {
    CatalogProvider {
        id: id.to_string(),
        name: name.to_string(),
        api: Some(format!("https://{id}.example/v1")),
        npm: npm.map(str::to_string),
        env: vec![format!("{}_KEY", id.to_uppercase())],
        models: Vec::new(),
    }
}

#[test]
fn known_providers_need_a_wire_protocol_and_follow_configuration() {
    let cat = vec![
        catalog("zhipu", "zhipu", Some("@ai-sdk/openai-compatible")),
        catalog("perplexity", "Perplexity", Some("@ai-sdk/perplexity")),
        catalog("acme", "anthropic", Some("@ai-sdk/anthropic")),
        catalog("custom", "Custom", None),
    ];
    let configured = vec![(
        "custom".to_string(),
        ConfiguredProvider {
            name: None,
            npm: None,
            base_url: Some("https://mine.example".to_string()),
            wire_protocol: Some("openai-responses".to_string()),
            models: Vec::new(),
        },
    )];
    let entries = known_provider_entries(&cat, &configured, &vec!["zhipu".to_string()]);
    let ids: Vec<_> = entries.iter().map(|e| e.id.as_str()).collect();
    assert_eq!(ids, vec!["acme", "custom", "zhipu"]);
    assert_eq!(entries[0].name, "Anthropic");
    assert_eq!(entries[0].protocol.as_deref(), Some("anthropic"));
    assert_eq!(entries[1].base_url.as_deref(), Some("https://mine.example"));
    assert_eq!(entries[1].protocol.as_deref(), Some("openai-responses"));
    assert!(entries[2].connected);
    assert_eq!(entries[2].protocol.as_deref(), Some("openai-chat"));
    assert_eq!(entries[2].env, vec!["ZHIPU_KEY".to_string()]);
}

#[test]
fn known_providers_order_names_by_unicode_lower_case() {
    let cat = vec![
        catalog("p1", "Éb", Some("@ai-sdk/openai")),
        catalog("p2", "éa", Some("@ai-sdk/openai")),
    ];
    let entries = known_provider_entries(&cat, &Vec::new(), &Vec::new());
    let names: Vec<_> = entries.iter().map(|e| e.name.as_str()).collect();
    assert_eq!(names, vec!["éa", "Éb"]);
}

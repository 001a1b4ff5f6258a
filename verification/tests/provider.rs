use agendao_server::provider::{
    connect_draft_from_custom_query, connect_draft_from_known_provider, connect_protocol_options,
    connect_protocol_profile, npm_to_protocol, resolve_known_provider_matches, KnownProviderEntry,
    ProviderConnectDraftMode,
};

fn provider(
    id: &str,
    name: &str,
    env: &[&str],
    base_url: Option<&str>,
    protocol: Option<&str>,
) -> KnownProviderEntry {
    KnownProviderEntry {
        id: id.to_string(),
        name: name.to_string(),
        env: env.iter().map(|value| (*value).to_string()).collect(),
        model_count: 0,
        connected: false,
        base_url: base_url.map(str::to_string),
        protocol: protocol.map(str::to_string),
        npm: None,
        supports_api_key_connect: true,
    }
}

#[test]
fn connect_schema_lists_exactly_three_wire_protocols() {
    assert_eq!(
        connect_protocol_options()
            .iter()
            .map(|option| option.id.as_str())
            .collect::<Vec<_>>(),
        vec!["openai-responses", "openai-chat", "anthropic"]
    );
}

#[test]
fn protocol_mapping_accepts_only_supported_protocols_and_sdk_shapes() {
    assert!(connect_protocol_profile("openrouter").is_none());
    assert!(connect_protocol_profile("openai").is_none());
    assert_eq!(
        connect_protocol_profile("openai-responses").map(|profile| profile.npm),
        Some("@ai-sdk/openai")
    );
    assert_eq!(npm_to_protocol("@ai-sdk/openai-compatible"), Some("openai-chat"));
    assert_eq!(npm_to_protocol("@openrouter/ai-sdk-provider"), None);
    assert_eq!(npm_to_protocol("@ai-sdk/perplexity"), None);
}

#[test]
fn resolve_matches_prioritize_exact_then_prefix_then_contains_then_env() {
    let providers = vec![
        provider("openrouter", "OpenRouter", &["OPENROUTER_API_KEY"], None, None),
        provider("openai", "OpenAI", &["OPENAI_API_KEY"], None, None),
        provider("routerstack", "Router Stack", &["ROUTERSTACK_KEY"], None, None),
        provider("anthropic", "Anthropic", &["OPENROUTER_TOKEN"], None, None),
    ];

    let matches = resolve_known_provider_matches(&providers, "openrouter");
    assert_eq!(
        matches.iter().map(|provider| provider.id.as_str()).collect::<Vec<_>>(),
        vec!["openrouter", "anthropic"]
    );

    let matches = resolve_known_provider_matches(&providers, "open");
    assert_eq!(
        matches.iter().map(|provider| provider.id.as_str()).collect::<Vec<_>>(),
        vec!["openai", "openrouter", "anthropic"]
    );

    let matches = resolve_known_provider_matches(&providers, "router");
    assert_eq!(
        matches.iter().map(|provider| provider.id.as_str()).collect::<Vec<_>>(),
        vec!["routerstack", "openrouter", "anthropic"]
    );
}

#[test]
fn custom_query_draft_defaults_to_openai_chat_protocol() {
    let draft = connect_draft_from_custom_query("  my-provider  ");
    assert_eq!(draft.mode, ProviderConnectDraftMode::Custom);
    assert_eq!(draft.provider_id, "my-provider");
    assert_eq!(draft.protocol.as_deref(), Some("openai-chat"));
    assert!(draft.base_url.is_none());
    assert!(draft.known_provider_id.is_none());
}

#[test]
fn known_provider_draft_preserves_overlay_fields() {
    let provider = provider(
        "openrouter",
        "OpenRouter",
        &["OPENROUTER_API_KEY"],
        Some("https://openrouter.ai/api/v1"),
        Some("openai-chat"),
    );

    let draft = connect_draft_from_known_provider(&provider);
    assert_eq!(draft.mode, ProviderConnectDraftMode::Known);
    assert_eq!(draft.provider_id, "openrouter");
    assert_eq!(draft.known_provider_id.as_deref(), Some("openrouter"));
    assert_eq!(draft.base_url.as_deref(), Some("https://openrouter.ai/api/v1"));
    assert_eq!(draft.protocol.as_deref(), Some("openai-chat"));
    assert_eq!(draft.env, vec!["OPENROUTER_API_KEY".to_string()]);
}

#[test]
fn protocol_packages_map_back_to_their_protocols() {
    for protocol in ["openai-responses", "openai-chat", "anthropic"] {
        let profile = connect_protocol_profile(protocol).expect("a supported protocol");
        assert_eq!(npm_to_protocol(profile.npm), Some(protocol));
    }
    assert!(connect_protocol_profile("grpc").is_none());
    assert_eq!(npm_to_protocol(" @AI-SDK/Anthropic "), Some("anthropic"));
}

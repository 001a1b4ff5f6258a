use agendao_server::config::resolve_scheduler_write_target;
use agendao_server::config::{merge_model_config, ModelConfig};

fn empty() -> ModelConfig<serde_json::Value> {
    ModelConfig {
        name: None,
        model: None,
        api_key: None,
        base_url: None,
        variants: None,
        tool_call: None,
        modalities: None,
        reasoning: None,
        attachment: None,
        temperature: None,
        interleaved: None,
        options: None,
        cost: None,
        limit: None,
        headers: None,
        family: None,
        status: None,
        release_date: None,
        experimental: None,
        provider: None,
    }
}

fn header<'a>(config: &'a ModelConfig<serde_json::Value>, key: &str) -> Option<&'a str> {
    config.headers.as_ref().and_then(|h| h.iter().find(|(k, _)| k == key).map(|(_, v)| v.as_str()))
}

#[test]
fn merge_model_config_preserves_unedited_fields() {
    let mut existing = ModelConfig {
        name: Some("Existing Name".to_string()),
        model: Some("existing-id".to_string()),
        base_url: Some("https://example.invalid".to_string()),
        headers: Some(vec![("Authorization".to_string(), "Bearer secret".to_string())]),
        options: Some(serde_json::Value::Object(serde_json::Map::from_iter([("tier".to_string(), serde_json::Value::String("premium".to_string()))]))),
        ..empty()
    };
    let patch = ModelConfig { name: Some("Updated Name".to_string()), reasoning: Some(true), ..empty() };

    merge_model_config(&mut existing, patch);

    assert_eq!(existing.name.as_deref(), Some("Updated Name"));
    assert_eq!(existing.model.as_deref(), Some("existing-id"));
    assert_eq!(existing.base_url.as_deref(), Some("https://example.invalid"));
    assert_eq!(header(&existing, "Authorization"), Some("Bearer secret"));
    assert_eq!(existing.options.as_ref().and_then(|o| o.get("tier")), Some(&serde_json::Value::String("premium".to_string())));
    assert_eq!(existing.reasoning, Some(true));
}

#[test]
fn merge_model_config_replaces_explicit_fields() {
    let mut existing = ModelConfig {
        reasoning: Some(true),
        headers: Some(vec![("X-Old".to_string(), "1".to_string())]),
        ..empty()
    };
    let patch = ModelConfig {
        reasoning: Some(false),
        headers: Some(vec![("X-New".to_string(), "2".to_string())]),
        ..empty()
    };

    merge_model_config(&mut existing, patch);

    assert_eq!(existing.reasoning, Some(false));
    assert_eq!(header(&existing, "X-New"), Some("2"));
    assert!(header(&existing, "X-Old").is_none());
}

#[test]
fn merging_the_same_patch_twice_changes_nothing_more() {
    let mut once = ModelConfig { name: Some("A".to_string()), ..empty() };
    let mut twice = ModelConfig { name: Some("A".to_string()), ..empty() };
    merge_model_config(&mut once, ModelConfig { family: Some("f".to_string()), ..empty() });
    merge_model_config(&mut twice, ModelConfig { family: Some("f".to_string()), ..empty() });
    merge_model_config(&mut twice, ModelConfig { family: Some("f".to_string()), ..empty() });
    assert_eq!(once.family, twice.family);
    assert_eq!(once.name, twice.name);
}

#[test]
fn scheduler_config_paths_resolve_under_the_project() {
    assert_eq!(
        resolve_scheduler_write_target(None, None, Some("/work/project".to_string())),
        Ok((".agendao/scheduler.jsonc".to_string(), "/work/project/.agendao/scheduler.jsonc".to_string()))
    );
    assert_eq!(
        resolve_scheduler_write_target(Some(" custom.jsonc ".to_string()), Some("ignored.jsonc".to_string()), Some("/p".to_string())),
        Ok(("custom.jsonc".to_string(), "/p/custom.jsonc".to_string()))
    );
    assert_eq!(
        resolve_scheduler_write_target(Some("/etc/scheduler.jsonc".to_string()), None, None),
        Ok(("/etc/scheduler.jsonc".to_string(), "/etc/scheduler.jsonc".to_string()))
    );
    assert!(resolve_scheduler_write_target(None, Some("  ".to_string()), None).is_err());
}

use agendao_server::config_listing::get_config_providers;
use agendao_server::managed_provider::{list_managed_providers, managed_provider_name, sort_managed_providers};
use agendao_server::provider::{AuthKind, CatalogModelCapabilities, ConfiguredModelCapabilities};
use agendao_server::provider_catalog::{
    list_providers, upsert_model_info, CatalogModel, CatalogProvider, ConfiguredModel, ConfiguredProvider,
    ModelInfo, ModelSource, RuntimeModel, VariantLookup,
};

fn model(id: &str, available: bool) -> ModelInfo<u32> {
    ModelInfo {
        id: id.to_string(),
        name: id.to_string(),
        provider: "deepseek".to_string(),
        available,
        variants: Vec::new(),
        context_window: None,
        max_output_tokens: None,
        cost_per_million_input: None,
        cost_per_million_output: None,
        capabilities: None,
    }
}

fn runtime(provider: &str, id: &str) -> RuntimeModel<u32> {
    RuntimeModel {
        id: id.to_string(),
        name: id.to_string(),
        provider: provider.to_string(),
        context_window: 1000,
        max_output_tokens: 100,
        cost_input: 1,
        cost_output: 2,
        supports_tools: true,
        supports_vision: false,
    }
}

fn no_caps() -> ConfiguredModelCapabilities {
    ConfiguredModelCapabilities {
        attachment: None,
        tool_call: None,
        reasoning: None,
        temperature: None,
        input_modalities: None,
        output_modalities: None,
    }
}

fn configured_model(model: Option<&str>, variants: &[&str]) -> ConfiguredModel<u32> {
    ConfiguredModel {
        name: None,
        model: model.map(str::to_string),
        declared_variants: variants.iter().map(|v| v.to_string()).collect(),
        context: None,
        output: None,
        cost_input: None,
        cost_output: None,
        capabilities: no_caps(),
    }
}

fn lookup() -> VariantLookup {
    VariantLookup {
        providers: vec![(
            "deepseek".to_string(),
            vec![("deepseek-v4-pro".to_string(), vec!["high".to_string(), "low".to_string()])],
        )],
    }
}

#[test]
fn runtime_model_merge_marks_only_the_exact_model_available() {
    let mut models = vec![model("deepseek-v4-flash", false), model("deepseek-v4-pro", false)];
    upsert_model_info(&mut models, model("deepseek-v4-flash", true), ModelSource::Runtime);
    assert!(models[0].available);
    assert!(!models[1].available);
    assert_eq!(models.len(), 2);
}

#[test]
fn list_providers_fills_base_url_from_catalog_with_config_override() {
    let catalog: Vec<CatalogProvider<u32>> = vec![
        CatalogProvider {
            id: "acme-cat".to_string(),
            name: "Acme Catalog".to_string(),
            api: Some("https://api.acme.dev/v1".to_string()),
            npm: Some("@ai-sdk/openai-compatible".to_string()),
            env: Vec::new(),
            models: vec![CatalogModel::<u32> {
                id: "m1".to_string(),
                name: "M1".to_string(),
                context: 10,
                output: 5,
                cost_input: None,
                cost_output: None,
                capabilities: CatalogModelCapabilities {
                    attachment: false,
                    tool_call: true,
                    reasoning: false,
                    temperature: true,
                    modalities: None,
                },
            }],
        },
        CatalogProvider {
            id: "zhipuai-coding-plan".to_string(),
            name: "Zhipu AI Coding Plan".to_string(),
            api: Some("https://open.bigmodel.cn/api/coding/paas/v4".to_string()),
            npm: Some("@ai-sdk/openai-compatible".to_string()),
            env: Vec::new(),
            models: Vec::new(),
        },
    ];
    let configured = vec![(
        "zhipuai-coding-plan".to_string(),
        ConfiguredProvider {
            name: None,
            npm: None,
            base_url: Some("https://config-override.example/v1".to_string()),
            wire_protocol: None,
            models: Vec::new(),
        },
    )];
    let resp = list_providers(&catalog, &configured, &Vec::new(), &lookup(), &Vec::new(), &Vec::new());
    let find = |id: &str| resp.all.iter().find(|p| p.id == id).unwrap_or_else(|| panic!("provider {id} missing"));
    assert_eq!(find("acme-cat").base_url.as_deref(), Some("https://api.acme.dev/v1"));
    assert_eq!(find("zhipuai-coding-plan").base_url.as_deref(), Some("https://config-override.example/v1"));
}

#[test]
fn config_listing_puts_runtime_first_and_keeps_declared_variants() {
    let configured = vec![(
        "deepseek".to_string(),
        ConfiguredProvider {
            name: Some("DeepSeek".to_string()),
            npm: None,
            base_url: None,
            wire_protocol: None,
            models: vec![
                ("pro".to_string(), configured_model(Some("deepseek-v4-pro"), &[])),
                ("a-custom".to_string(), configured_model(None, &["z", "a"])),
            ],
        },
    )];
    let resp = get_config_providers(&vec![runtime("deepseek", "deepseek-v4-pro")], &configured, &lookup());
    assert_eq!(resp.providers.len(), 1);
    let p = &resp.providers[0];
    assert_eq!(p.name, "deepseek");
    let ids: Vec<_> = p.models.iter().map(|m| m.id.as_str()).collect();
    assert_eq!(ids, vec!["a-custom", "deepseek-v4-pro"]);
    assert_eq!(p.models[0].variants, vec!["z".to_string(), "a".to_string()]);
    assert_eq!(p.models[1].variants, vec!["high".to_string(), "low".to_string()]);
    assert!(p.models[1].available);
    assert_eq!(resp.default_model, vec![("deepseek".to_string(), "a-custom".to_string())]);
}

#[test]
fn managed_names_prefer_configured_then_catalog_then_id() {
    assert_eq!(managed_provider_name("x", Some("  "), Some("Known")), "Known");
    assert_eq!(managed_provider_name("x", Some("Mine"), Some("Known")), "Mine");
    assert_eq!(managed_provider_name("x", None, None), "x");
}

#[test]
fn managed_listing_orders_connected_then_credentials_then_name() {
    let configured = vec![
        (
            "zeta".to_string(),
            ConfiguredProvider { name: Some("Zeta".to_string()), npm: None, base_url: None, wire_protocol: None, models: Vec::new() },
        ),
        (
            "beta".to_string(),
            ConfiguredProvider {
                name: None,
                npm: None,
                base_url: Some("https://b".to_string()),
                wire_protocol: Some("openai-chat".to_string()),
                models: vec![("pro".to_string(), configured_model(Some("deepseek-v4-pro"), &[]))],
            },
        ),
    ];
    let auths = vec![("alpha".to_string(), AuthKind::Api), ("beta".to_string(), AuthKind::OAuth)];
    let runtime_models = vec![runtime("zeta", "z1")];
    let listed = list_managed_providers(
        &Vec::new(),
        &configured,
        &auths,
        &runtime_models,
        &vec!["zeta".to_string()],
        &vec!["beta".to_string()],
        &lookup(),
    );
    let ids: Vec<_> = listed.iter().map(|p| p.id.as_str()).collect();
    assert_eq!(ids, vec!["zeta", "alpha", "beta"]);
    assert_eq!(listed[0].status, "connected");
    assert_eq!(listed[0].models.len(), 1);
    assert_eq!(listed[1].status, "saved");
    assert_eq!(listed[1].auth_type.as_deref(), Some("api"));
    assert!(!listed[1].configured);
    assert_eq!(listed[2].status, "saved");
    assert!(listed[2].disabled);
    assert_eq!(listed[2].protocol.as_deref(), Some("openai-chat"));
    assert_eq!(listed[2].models[0].id, "deepseek-v4-pro");
    assert!(!listed[2].models[0].available);

    let resorted = sort_managed_providers(listed);
    assert_eq!(resorted.iter().map(|p| p.id.as_str()).collect::<Vec<_>>(), vec!["zeta", "alpha", "beta"]);
}

use agendao_server::effective_policy::{
    build_external_adapter_policy, build_scheduler_policy_from_metadata, provider_policy_warnings,
    resolved_model_name, resolved_scheduler_policy, SchedulerMetadata,
};
use agendao_server::scheduler::{SchedulerChoice, TemplateId};

fn no_metadata() -> SchedulerMetadata {
    SchedulerMetadata { blueprint_present: false, blueprint_name: None, blueprint_fingerprint: None, selection_source: None }
}

#[test]
fn effective_policy_reports_a_requested_template_scheduler() {
    let requested = SchedulerChoice::Template { template: TemplateId::Verify };
    let policy = build_scheduler_policy_from_metadata(&no_metadata(), Some(&requested), Some("build".to_string()));
    assert_eq!(policy.requested_kind.as_deref(), Some("template"));
    assert_eq!(policy.blueprint_name, None);
    assert_eq!(policy.blueprint_fingerprint, None);
    assert_eq!(policy.source, "session");
    assert!(policy.applied);
    assert_eq!(policy.resolved_agent.as_deref(), Some("build"));

    let idle = build_scheduler_policy_from_metadata(&no_metadata(), None, None);
    assert_eq!(idle.source, "none");
    assert!(!idle.applied);
}

#[test]
fn stored_blueprint_and_selection_source_are_reported() {
    let metadata = SchedulerMetadata {
        blueprint_present: true,
        blueprint_name: Some("plan".to_string()),
        blueprint_fingerprint: Some("  fp_1 ".to_string()),
        selection_source: Some("   ".to_string()),
    };
    let policy = build_scheduler_policy_from_metadata(&metadata, None, None);
    assert_eq!(policy.blueprint_name.as_deref(), Some("plan"));
    assert_eq!(policy.blueprint_fingerprint.as_deref(), Some("fp_1"));
    assert_eq!(policy.source, "none");
    assert!(policy.applied);
}

#[test]
fn unresolved_inputs_leave_a_warning() {
    let mut warnings = Vec::new();
    let policy = resolved_scheduler_policy(&no_metadata(), None, Err("no model".to_string()), &mut warnings);
    assert_eq!(policy.resolved_agent, None);
    assert_eq!(warnings, vec!["effective policy could not fully resolve current request inputs: no model".to_string()]);
    let policy = resolved_scheduler_policy(&no_metadata(), None, Ok(Some("build".to_string())), &mut warnings);
    assert_eq!(policy.resolved_agent.as_deref(), Some("build"));
    assert_eq!(warnings.len(), 1);
}

#[test]
fn external_adapter_policy_needs_an_external_source_or_policy() {
    let policy = build_external_adapter_policy(
        &Some("external:generic-webhook:generic".to_string()),
        &Some("external_adapter_metadata_only".to_string()),
        Some(1),
    )
    .expect("external adapter policy");
    assert_eq!(policy.last_ingress_source, "external:generic-webhook:generic");
    assert_eq!(policy.last_ingress_policy.as_deref(), Some("external_adapter_metadata_only"));
    assert_eq!(policy.last_ingress_batch_count, Some(1));

    assert!(build_external_adapter_policy(&Some("web".to_string()), &None, None).is_none());
    assert!(build_external_adapter_policy(&None, &Some("external_adapter_metadata_only".to_string()), None).is_none());
    assert!(build_external_adapter_policy(&Some("web".to_string()), &Some(" external_adapter_metadata_only ".to_string()), None)
        .is_some());
}

#[test]
fn provider_policy_names_the_model_and_warns() {
    assert_eq!(resolved_model_name("openai", "gpt-4o"), "openai/gpt-4o");
    let mut warnings = Vec::new();
    provider_policy_warnings("openai", &None, true, &mut warnings);
    assert!(warnings.is_empty());
    provider_policy_warnings("openai", &Some("bad profile".to_string()), false, &mut warnings);
    assert_eq!(
        warnings,
        vec![
            "provider descriptor projection failed for `openai`: bad profile".to_string(),
            "provider `openai` did not expose a runtime profile fingerprint".to_string(),
        ]
    );
}

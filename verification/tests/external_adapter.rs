use agendao_server::api_error::ApiError;
use agendao_server::external_adapter::{
    check_generic_webhook_source, generic_webhook_parse_inspection, ExternalAdapterSource, ResolvedBinding,
};
use agendao_server::prompt_request::SessionPromptRequest;
use agendao_server::external_adapter::{
    collect_external_adapter_config_validation, enforce_session_run_allowed, generic_webhook_payload,
    generic_webhook_signature, normalize_signature, replay_retention_cutoff, signature_hash,
    verify_replay_signature, ExternalAdapterConfig, ExternalAdapterEntry, GenericWebhookReplayGuardRef,
};

fn entry() -> ExternalAdapterEntry {
    ExternalAdapterEntry {
        enabled: None,
        source: None,
        secret_ref: None,
        default_workspace: None,
        route_policy_id: None,
        allow_session_run: None,
        allowed_workspaces: Vec::new(),
    }
}

#[test]
fn session_run_gate_is_fail_closed() {
    let adapter = ExternalAdapterEntry { allow_session_run: None, ..entry() };
    let error = enforce_session_run_allowed(&adapter, "generic").unwrap_err();
    assert!(matches!(error, ApiError::BadRequest(_)));

    let adapter = ExternalAdapterEntry { allow_session_run: Some(true), ..entry() };
    assert!(enforce_session_run_allowed(&adapter, "generic").is_ok());
}

#[test]
fn external_adapter_validation_reports_missing_default_workspace_for_session_run() {
    let reports = collect_external_adapter_config_validation(&Some(ExternalAdapterConfig {
        adapters: vec![(
            "generic".to_string(),
            ExternalAdapterEntry {
                enabled: Some(true),
                source: Some("generic-webhook".to_string()),
                secret_ref: Some("external-adapter:generic".to_string()),
                allow_session_run: Some(true),
                ..entry()
            },
        )],
    }));

    let item = reports
        .iter()
        .find(|item| item.code == "external_adapter_missing_default_workspace")
        .expect("missing default workspace item");
    assert_eq!(item.path, "external_adapter.adapters.generic.default_workspace");
}

#[test]
fn webhook_payload_joins_signed_material_with_dots() {
    assert_eq!(
        generic_webhook_payload(1_700_000_000_000, " nonce_1 ", "{}", "{\"a\":1}"),
        "1700000000000.nonce_1.{}.{\"a\":1}"
    );
    assert_eq!(generic_webhook_payload(-5, "n", "e", "b"), "-5.n.e.b");
}

#[test]
fn webhook_signature_is_hex_hmac_sha256_of_payload() {
    let sig = generic_webhook_signature("s3cret", 1_700_000_000_000, " nonce_1 ", "{}", "{\"a\":1}").unwrap();
    assert_eq!(sig, "0836afcd90a194be9b3a2b6b861fa1df3d61683e5369cc12709b34973ff3e979");
    let sig = generic_webhook_signature("s3cret", -5, "n", "e", "b").unwrap();
    assert_eq!(sig, "5e48452e912a922068465a2734a06cac196301ee9fc4fc131f9d523c410f893d");
}

#[test]
fn signature_hash_is_prefixed_sha256_of_trimmed_signature() {
    assert_eq!(
        signature_hash("  abc "),
        "sha256:ba7816bf8f01cfea414140de5dae2223b00361a396177a9cb410ff61f20015ad"
    );
}

#[test]
fn normalize_signature_strips_prefix_and_case() {
    assert_eq!(normalize_signature("  sha256=ABCdef  "), "abcdef");
    assert_eq!(normalize_signature("ABC"), "abc");
}

fn guard(ts: i64, signature: &str) -> GenericWebhookReplayGuardRef {
    GenericWebhookReplayGuardRef { timestamp_ms: ts, nonce: "nonce_1".to_string(), signature: signature.to_string() }
}

#[test]
fn signed_delivery_within_window_is_accepted() {
    let sig = generic_webhook_signature("s3cret", 1_000_000, "nonce_1", "{}", "{}").unwrap();
    let g = guard(1_000_000, &sig);
    assert!(verify_replay_signature(&g, "s3cret", "{}", "{}", Some(60), 1_030_000).is_ok());
    let prefixed = guard(1_000_000, &format!("sha256={}", sig.to_uppercase()));
    assert!(verify_replay_signature(&prefixed, "s3cret", "{}", "{}", None, 9_999_999).is_ok());
}

#[test]
fn verify_generic_webhook_rejects_invalid_signature() {
    let g = guard(1_000_000, "sha256:not-the-signature");
    let err = verify_replay_signature(&g, "s3cret", "{}", "{}", None, 1_000_000).unwrap_err();
    assert_eq!(err, ApiError::BadRequest("invalid external adapter webhook signature".to_string()));
}

#[test]
fn verify_generic_webhook_rejects_timestamp_outside_nonce_window() {
    let sig = generic_webhook_signature("s3cret", 1_000_000, "nonce_1", "{}", "{}").unwrap();
    let g = guard(1_000_000, &sig);
    let err = verify_replay_signature(&g, "s3cret", "{}", "{}", Some(60), 1_060_001).unwrap_err();
    assert_eq!(
        err,
        ApiError::BadRequest("external adapter webhook timestamp is outside the configured replay window".to_string())
    );
    assert!(verify_replay_signature(&g, "s3cret", "{}", "{}", Some(60), 1_060_000).is_ok());
    assert!(verify_replay_signature(&g, "s3cret", "{}", "{}", Some(0), 99_000_000).is_ok());
}

#[test]
fn replay_guard_material_is_checked_first() {
    let err = verify_replay_signature(&guard(0, "x"), "s", "{}", "{}", None, 1).unwrap_err();
    assert!(matches!(err, ApiError::BadRequest(_)));
    let blank_nonce = GenericWebhookReplayGuardRef { timestamp_ms: 5, nonce: "  ".to_string(), signature: "x".to_string() };
    assert!(verify_replay_signature(&blank_nonce, "s", "{}", "{}", None, 1).is_err());
}

#[test]
fn replay_retention_cutoff_subtracts_retention() {
    assert_eq!(replay_retention_cutoff(Some(60), 120_000), Some(60_000));
    assert_eq!(replay_retention_cutoff(None, 120_000), None);
}

fn sample_binding() -> ResolvedBinding {
    ResolvedBinding {
        session_id: "ses_1".to_string(),
        actor_id: "actor_1".to_string(),
        workspace_id: "ws_1".to_string(),
        route_policy_id: Some("default".to_string()),
    }
}

fn sample_guard() -> GenericWebhookReplayGuardRef {
    GenericWebhookReplayGuardRef { timestamp_ms: 1_714_000_000_000, nonce: "nonce_1".to_string(), signature: "sig_1".to_string() }
}

#[test]
fn parse_generic_webhook_is_dry_run_only() {
    let response = generic_webhook_parse_inspection("generic", &sample_binding(), &sample_guard(), true)
        .ok()
        .expect("a well-formed delivery parses");
    assert!(response.dry_run);
    assert!(!response.would_enqueue);
    assert_eq!(response.binding.session_id, "ses_1");
    assert_eq!(response.replay_guard.status, "parse_only_not_verified");
    assert_eq!(response.authority.replay_store, "agendao-storage.external_adapter_replay");
}

#[test]
fn parse_generic_webhook_requires_generic_webhook_source() {
    let error = check_generic_webhook_source(ExternalAdapterSource::Other).unwrap_err();
    assert!(matches!(error, ApiError::BadRequest(_)));
    assert!(check_generic_webhook_source(ExternalAdapterSource::GenericWebhook).is_ok());
}

#[test]
fn parse_generic_webhook_requires_replay_guard_signature_material() {
    let mut guard = sample_guard();
    guard.signature = " ".to_string();
    let error = generic_webhook_parse_inspection("generic", &sample_binding(), &guard, true).err().expect("refused");
    assert!(matches!(error, ApiError::BadRequest(_)));
}

#[test]
fn parse_reports_an_unavailable_replay_store() {
    let response = generic_webhook_parse_inspection("generic", &sample_binding(), &sample_guard(), false)
        .ok()
        .expect("a well-formed delivery parses");
    assert_eq!(response.authority.replay_store, "unavailable: storage repository not configured");
}

#[test]
fn run_prompt_request_is_derived_from_verified_ingress_only() {
    let prompt_request: SessionPromptRequest<()> =
        SessionPromptRequest::from_verified_ingress("hello", Some("external:generic:generic-webhook:evt_1"));
    assert_eq!(prompt_request.message.as_deref(), Some("hello"));
    assert_eq!(prompt_request.idempotency_key.as_deref(), Some("external:generic:generic-webhook:evt_1"));
    assert!(prompt_request.parts.is_none());
    assert!(prompt_request.ingress_source.is_none());
    assert!(prompt_request.scheduler.is_none());
    assert!(prompt_request.agent.is_none());
}

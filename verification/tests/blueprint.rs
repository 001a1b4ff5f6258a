use agendao_server::api_error::ApiError;
use agendao_server::blueprint::{lock_user_blueprint, reject_planned_blueprint, session_blueprint_view, BlueprintRecord};

fn empty() -> BlueprintRecord<&'static str> {
    BlueprintRecord { blueprint: None, fingerprint: None, selection_source: None, rejected: Vec::new() }
}

#[test]
fn rejecting_planner_blueprint_clears_lock_and_records_fingerprint() {
    let mut record = BlueprintRecord {
        blueprint: Some("{\"schema\":\"v1\"}"),
        fingerprint: Some("fingerprint-1".to_string()),
        selection_source: Some("planner".to_string()),
        rejected: Vec::new(),
    };
    assert_eq!(reject_planned_blueprint(&mut record), Ok("fingerprint-1".to_string()));
    assert!(record.blueprint.is_none());
    assert!(record.fingerprint.is_none());
    assert!(record.selection_source.is_none());
    assert_eq!(record.rejected, vec!["fingerprint-1".to_string()]);
}

#[test]
fn rejected_fingerprints_stay_sorted_and_unique() {
    let mut record = BlueprintRecord {
        blueprint: Some("b"),
        fingerprint: Some("fp-b".to_string()),
        selection_source: Some("planner".to_string()),
        rejected: vec!["fp-c".to_string(), "fp-a".to_string(), "fp-b".to_string()],
    };
    reject_planned_blueprint(&mut record).unwrap();
    assert_eq!(record.rejected, vec!["fp-a".to_string(), "fp-b".to_string(), "fp-c".to_string()]);
}

#[test]
fn only_planned_blueprints_can_be_rejected() {
    let mut record = empty();
    lock_user_blueprint(&mut record, "user blueprint", "fp-user".to_string());
    assert_eq!(
        reject_planned_blueprint(&mut record),
        Err(ApiError::BadRequest("only an AI-planned Blueprint can be rejected".to_string()))
    );
    assert_eq!(record.blueprint, Some("user blueprint"));
    let mut broken = BlueprintRecord { selection_source: Some("planner".to_string()), ..empty() };
    assert_eq!(
        reject_planned_blueprint(&mut broken),
        Err(ApiError::InternalError("Blueprint fingerprint is missing".to_string()))
    );
}

#[test]
fn locked_user_blueprint_is_shown_as_saved() {
    assert_eq!(
        session_blueprint_view(empty()).err(),
        Some(ApiError::NotFound("session has no effective Blueprint".to_string()))
    );
    let mut record = empty();
    lock_user_blueprint(&mut record, "user blueprint", "fp-user".to_string());
    let view = session_blueprint_view(record).ok().expect("a locked blueprint");
    assert_eq!(view.blueprint, "user blueprint");
    assert_eq!(view.fingerprint, "fp-user");
    assert_eq!(view.selection_source, "user");
    let missing_source = BlueprintRecord { blueprint: Some("b"), fingerprint: Some("f".to_string()), ..empty() };
    assert_eq!(
        session_blueprint_view(missing_source).err(),
        Some(ApiError::InternalError("Blueprint selection source is missing".to_string()))
    );
}

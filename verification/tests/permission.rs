use agendao_server::api_error::ApiError;
use agendao_server::permission::{
    parse_permission_reply, permission_grant_target_summary, permission_matcher_label, permission_scope_label,
    PermissionMatcherKind, PermissionResponse,
};

#[test]
fn structured_family_labels_name_the_command_family() {
    assert_eq!(
        permission_matcher_label(Some(PermissionMatcherKind::StructuredFamily), Some("cmd:cargo *")).as_deref(),
        Some("Command family: cargo *")
    );
    assert_eq!(permission_matcher_label(Some(PermissionMatcherKind::ScopeOnly), Some("x")), None);
    assert_eq!(permission_matcher_label(Some(PermissionMatcherKind::ExactInput), Some("   ")), None);
}

#[test]
fn scope_only_grants_name_the_task_flow_step() {
    assert_eq!(permission_scope_label(Some("task_flow:create")).as_deref(), Some("Task flow: create task"));
    assert_eq!(
        permission_grant_target_summary(Some("task_flow:create"), Some(PermissionMatcherKind::ScopeOnly), None)
            .as_deref(),
        Some("Task flow: create task")
    );
}

#[test]
fn permission_reply_words() {
    assert_eq!(parse_permission_reply("once"), Ok(PermissionResponse::Once));
    assert_eq!(parse_permission_reply("session"), Ok(PermissionResponse::Always));
    assert_eq!(parse_permission_reply("always"), Ok(PermissionResponse::Always));
    assert_eq!(parse_permission_reply("reject"), Ok(PermissionResponse::Reject));
    assert_eq!(
        parse_permission_reply("maybe"),
        Err(ApiError::BadRequest("Invalid reply; expected `once`, `turn`, `session`, or `reject`".to_string()))
    );
}

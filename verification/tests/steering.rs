use agendao_server::steering::{validate_submit_steering_request, SubmitSteeringRequest};

#[test]
fn rejects_non_next_tool_boundary_mode() {
    let body = SubmitSteeringRequest { text: "valid text".into(), mode: "immediate".into() };
    assert!(validate_submit_steering_request(&body).is_err());
}

#[test]
fn accepts_next_tool_boundary_mode() {
    let body = SubmitSteeringRequest { text: "valid text".into(), mode: "next_tool_boundary".into() };
    assert!(validate_submit_steering_request(&body).is_ok());
}

//! Steering and submission decisions: what a steering request, a unified
//! input submission, an interrupt or a queue mutation is answered, given the
//! session state that the caller looked up.

use vstd::prelude::*;
use crate::api_error::ApiError;
use crate::text::opt_view;
use crate::text::{trim, owned, trim_str, str_eq, cat, cat3, decimal, decimal_string};

verus! {

/// The only steering mode that is accepted.
pub open spec fn boundary_mode() -> Seq<char> {
    "next_tool_boundary"@
}

/// A request to steer a running session.
pub struct SubmitSteeringRequest {
    pub text: String,
    pub mode: String,
}

/// The steering mode used when a request names none.
pub fn default_steering_mode() -> (r: String)
    ensures
        r@ == boundary_mode(),
{
    owned("next_tool_boundary")
}

/// The refusal of a steering mode other than the tool-boundary one.
pub open spec fn unsupported_mode_message(mode: Seq<char>) -> Seq<char> {
    "unsupported steering mode '"@ + mode + "'; P0 only supports 'next_tool_boundary'"@
}

/// Checks a steering request: the mode must be the tool-boundary mode, and
/// the text must hold more than white space. The mode is checked first.
pub fn validate_submit_steering_request(body: &SubmitSteeringRequest) -> (r: Result<(), ApiError>)
    ensures
        body.mode@ != boundary_mode() ==> (r matches Err(e) && e.is_bad_request(
            unsupported_mode_message(body.mode@),
        )),
        body.mode@ == boundary_mode() && trim(body.text@).len() == 0 ==> (r matches Err(e)
            && e.is_bad_request("steering text cannot be empty"@)),
        r is Ok <==> (body.mode@ == boundary_mode() && trim(body.text@).len() > 0),
{
    if !str_eq(body.mode.as_str(), "next_tool_boundary") {
        let m = cat3("unsupported steering mode '", body.mode.as_str(), "'; P0 only supports 'next_tool_boundary'");
        return Err(ApiError::BadRequest(m));
    }
    let t = trim_str(body.text.as_str());
    if t.as_str().unicode_len() == 0 {
        return Err(ApiError::BadRequest(owned("steering text cannot be empty")));
    }
    Ok(())
}

/// Admits a steering request for a session: refused with `SessionNotFound`
/// when the session does not exist, then as `validate_submit_steering_request`
/// says; otherwise the text to enqueue, trimmed.
pub fn prepare_session_steering(
    session_exists: bool,
    session_id: &str,
    body: &SubmitSteeringRequest,
) -> (r: Result<String, ApiError>)
    ensures
        !session_exists ==> (r matches Err(e) && e is SessionNotFound
            && e.message() == session_id@),
        session_exists && body.mode@ != boundary_mode() ==> (r matches Err(e) && e.is_bad_request(
            unsupported_mode_message(body.mode@),
        )),
        session_exists && body.mode@ == boundary_mode() && trim(body.text@).len() == 0 ==> (r matches Err(
            e,
        ) && e.is_bad_request("steering text cannot be empty"@)),
        r is Ok <==> (session_exists && body.mode@ == boundary_mode() && trim(body.text@).len() > 0),
        r matches Ok(t) ==> t@ == trim(body.text@),
{
    if !session_exists {
        return Err(ApiError::SessionNotFound(owned(session_id)));
    }
    match validate_submit_steering_request(body) {
        Err(e) => Err(e),
        Ok(()) => Ok(trim_str(body.text.as_str())),
    }
}

/// The notice echoed into the transcript when steering is queued.
pub open spec fn steering_notice_spec(pending: nat) -> Seq<char> {
    "Steering: will be applied at next tool boundary (pending: "@ + decimal(pending) + ")"@
}

/// The transcript notice for a queued steering message, with the number of
/// messages pending.
pub fn steering_notice_text(pending: u64) -> (r: String)
    ensures
        r@ == steering_notice_spec(pending as nat),
{
    let n = decimal_string(pending);
    cat3("Steering: will be applied at next tool boundary (pending: ", n.as_str(), ")")
}

/// A transcript line echoed when steering is queued: its text and the
/// metadata that keeps it out of the model's replay (the runtime hint
/// `steering_preview`, the mode, the status `pending`, when it was queued,
/// the owning session and, where there is one, the source session).
#[derive(Debug)]
pub struct SteeringEcho {
    pub text: String,
    pub runtime_hint: String,
    pub steering_mode: String,
    pub steering_status: String,
    pub enqueued_at_ms: i64,
    pub owner_session_id: String,
    pub source_session_id: Option<String>,
}

/// Whether `e` is an echo line with text `text` for steering queued at
/// `now_ms` in `owner`, from `source`.
pub open spec fn echo_holds(e: SteeringEcho, text: Seq<char>, owner: Seq<char>, source: Option<Seq<char>>, now_ms: i64) -> bool {
    &&& e.text@ == text
    &&& e.runtime_hint@ == "steering_preview"@
    &&& e.steering_mode@ == boundary_mode()
    &&& e.steering_status@ == "pending"@
    &&& e.enqueued_at_ms == now_ms
    &&& e.owner_session_id@ == owner
    &&& opt_view(e.source_session_id) == source
}

fn echo_line(text: String, owner: &str, source: &Option<String>, now_ms: i64) -> (r: SteeringEcho)
    ensures
        echo_holds(r, text@, owner@, opt_view(*source), now_ms),
{
    SteeringEcho {
        text,
        runtime_hint: owned("steering_preview"),
        steering_mode: owned("next_tool_boundary"),
        steering_status: owned("pending"),
        enqueued_at_ms: now_ms,
        owner_session_id: owned(owner),
        source_session_id: copy_opt(source),
    }
}

/// The two lines echoed into the owner's transcript when steering is
/// queued: first the notice of when it applies, with the number pending,
/// then the steering text itself, both marked as previews.
pub fn steering_echo_messages(
    owner_session_id: &str,
    text: &str,
    pending: u64,
    source_session_id: &Option<String>,
    now_ms: i64,
) -> (r: (SteeringEcho, SteeringEcho))
    ensures
        echo_holds(r.0, steering_notice_spec(pending as nat), owner_session_id@, opt_view(*source_session_id), now_ms),
        echo_holds(r.1, text@, owner_session_id@, opt_view(*source_session_id), now_ms),
{
    let notice = echo_line(steering_notice_text(pending), owner_session_id, source_session_id, now_ms);
    let preview = echo_line(owned(text), owner_session_id, source_session_id, now_ms);
    (notice, preview)
}

/// What is answered to a steering request that was queued.
pub struct SubmitSteeringResponse {
    pub id: String,
    pub owner_session_id: String,
    pub pending_count: usize,
}

/// How a unified input submission asks to be handled.
pub enum SubmissionMode {
    Auto,
    StartTurn,
    Queue,
    Steer { expected_turn_id: Option<String> },
}

/// A unified input submission.
pub struct SubmitInputCommand {
    pub session_id: String,
    pub client_request_id: String,
    pub content: String,
    pub mode: SubmissionMode,
}

/// Why a submission or a queue mutation is refused.
#[derive(Debug, Clone, PartialEq, Eq)]
pub enum SubmissionRejectionReason {
    SessionNotFound { session_id: String },
    EmptyContent,
    TurnConflict { active_turn_id: String },
    QueueItemNotFound { session_id: String, item_id: String },
}

/// What the server does with a submission: the outside work (starting a
/// turn, the idempotent enqueue, the steering store) follows from it.
pub enum SubmitInputPlan {
    /// Refuse with this reason and message.
    Reject { reason: SubmissionRejectionReason, message: String },
    /// Start a new turn for the session.
    StartTurn { session_id: String },
    /// Queue the prompt behind the running turn at the head of the queue.
    QueueBehindTurn { item_id: String, session_id: String, position: u64, queue_revision: u64 },
    /// Enqueue through the idempotent submission queue.
    EnqueuePrompt { session_id: String, client_request_id: String, content: String },
    /// Enqueue a steering message, delivered at the next tool boundary.
    EnqueueSteering {
        steering_id: String,
        session_id: String,
        text: String,
        target_turn_id: Option<String>,
    },
}

/// The refusal message of a submission to a session that does not exist.
pub open spec fn missing_session_message(id: Seq<char>) -> Seq<char> {
    "Session '"@ + id + "' not found"@
}

/// `a` and `b` hold the same optional text.
pub open spec fn same_opt(a: Option<String>, b: Option<String>) -> bool {
    match (a, b) {
        (Some(x), Some(y)) => x@ == y@,
        (None, None) => true,
        _ => false,
    }
}

/// Copies optional text.
pub fn copy_opt(a: &Option<String>) -> (r: Option<String>)
    ensures
        same_opt(r, *a),
{
    match a {
        Some(s) => Some(owned(s.as_str())),
        None => None,
    }
}

/// Decides a unified input submission to `route_session_id`, given whether
/// that session exists and whether a turn is running in it.
pub fn plan_submit_input(
    route_session_id: &str,
    session_exists: bool,
    is_busy: bool,
    cmd: &SubmitInputCommand,
) -> (r: SubmitInputPlan)
    ensures
        !session_exists ==> (r matches SubmitInputPlan::Reject { reason, message }
            && reason matches SubmissionRejectionReason::SessionNotFound { session_id }
            && session_id@ == route_session_id@
            && message@ == missing_session_message(route_session_id@)),
        session_exists && trim(cmd.content@).len() == 0 ==> (r matches SubmitInputPlan::Reject {
            reason,
            message,
        } && reason is EmptyContent && message@ == "Content cannot be empty"@),
        session_exists && trim(cmd.content@).len() > 0 ==> match cmd.mode {
            SubmissionMode::Auto => if is_busy {
                r matches SubmitInputPlan::QueueBehindTurn { item_id, session_id, position, queue_revision }
                    && item_id@ == "queue_"@ + cmd.client_request_id@
                    && session_id@ == route_session_id@ && position == 0 && queue_revision == 1
            } else {
                r matches SubmitInputPlan::StartTurn { session_id } && session_id@ == route_session_id@
            },
            SubmissionMode::StartTurn => if is_busy {
                r matches SubmitInputPlan::Reject { reason, message }
                    && reason matches SubmissionRejectionReason::TurnConflict { active_turn_id }
                    && active_turn_id@ == "active_turn"@
                    && message@ == "Session is currently busy with an active turn"@
            } else {
                r matches SubmitInputPlan::StartTurn { session_id } && session_id@ == route_session_id@
            },
            SubmissionMode::Queue => if cmd.session_id@ != route_session_id@ {
                r matches SubmitInputPlan::Reject { reason, message }
                    && reason matches SubmissionRejectionReason::SessionNotFound { session_id }
                    && session_id@ == cmd.session_id@
                    && message@ == "Command session_id does not match route session"@
            } else {
                r matches SubmitInputPlan::EnqueuePrompt { session_id, client_request_id, content }
                    && session_id@ == route_session_id@
                    && client_request_id@ == cmd.client_request_id@ && content@ == cmd.content@
            },
            SubmissionMode::Steer { expected_turn_id } => (r matches SubmitInputPlan::EnqueueSteering {
                steering_id,
                session_id,
                text,
                target_turn_id,
            } && steering_id@ == "steer_"@ + cmd.client_request_id@ && session_id@ == route_session_id@
                && text@ == trim(cmd.content@) && same_opt(target_turn_id, expected_turn_id)),
        },
{
    if !session_exists {
        return SubmitInputPlan::Reject {
            reason: SubmissionRejectionReason::SessionNotFound { session_id: owned(route_session_id) },
            message: cat3("Session '", route_session_id, "' not found"),
        };
    }
    let t = trim_str(cmd.content.as_str());
    if t.as_str().unicode_len() == 0 {
        return SubmitInputPlan::Reject {
            reason: SubmissionRejectionReason::EmptyContent,
            message: owned("Content cannot be empty"),
        };
    }
    match &cmd.mode {
        SubmissionMode::Auto => {
            if is_busy {
                SubmitInputPlan::QueueBehindTurn {
                    item_id: cat("queue_", cmd.client_request_id.as_str()),
                    session_id: owned(route_session_id),
                    position: 0,
                    queue_revision: 1,
                }
            } else {
                SubmitInputPlan::StartTurn { session_id: owned(route_session_id) }
            }
        },
        SubmissionMode::StartTurn => {
            if is_busy {
                SubmitInputPlan::Reject {
                    reason: SubmissionRejectionReason::TurnConflict {
                        active_turn_id: owned("active_turn"),
                    },
                    message: owned("Session is currently busy with an active turn"),
                }
            } else {
                SubmitInputPlan::StartTurn { session_id: owned(route_session_id) }
            }
        },
        SubmissionMode::Queue => {
            if !str_eq(cmd.session_id.as_str(), route_session_id) {
                SubmitInputPlan::Reject {
                    reason: SubmissionRejectionReason::SessionNotFound {
                        session_id: owned(cmd.session_id.as_str()),
                    },
                    message: owned("Command session_id does not match route session"),
                }
            } else {
                SubmitInputPlan::EnqueuePrompt {
                    session_id: owned(route_session_id),
                    client_request_id: owned(cmd.client_request_id.as_str()),
                    content: owned(cmd.content.as_str()),
                }
            }
        },
        SubmissionMode::Steer { expected_turn_id } => {
            SubmitInputPlan::EnqueueSteering {
                steering_id: cat("steer_", cmd.client_request_id.as_str()),
                session_id: owned(route_session_id),
                text: t,
                target_turn_id: copy_opt(expected_turn_id),
            }
        },
    }
}

/// What an interrupt request is answered.
pub enum InterruptDisposition {
    Interrupted { turn_id: Option<String>, session_id: String },
    Rejected { reason: String, session_id: String },
}

/// Decides an interrupt of `session_id`: refused when the session does not
/// exist; otherwise the running execution is to be aborted and the turn
/// reported interrupted.
pub fn plan_interrupt(
    session_exists: bool,
    session_id: &str,
    expected_turn_id: &Option<String>,
) -> (r: InterruptDisposition)
    ensures
        !session_exists ==> (r matches InterruptDisposition::Rejected { reason, session_id: s }
            && reason@ == missing_session_message(session_id@) && s@ == session_id@),
        session_exists ==> (r matches InterruptDisposition::Interrupted { turn_id, session_id: s }
            && same_opt(turn_id, *expected_turn_id) && s@ == session_id@),
{
    if !session_exists {
        InterruptDisposition::Rejected {
            reason: cat3("Session '", session_id, "' not found"),
            session_id: owned(session_id),
        }
    } else {
        InterruptDisposition::Interrupted {
            turn_id: copy_opt(expected_turn_id),
            session_id: owned(session_id),
        }
    }
}

/// Refuses a queue mutation whose body names another session than its path.
pub fn validate_queue_session(path_session_id: &str, body_session_id: &str) -> (r: Option<
    SubmissionRejectionReason,
>)
    ensures
        path_session_id@ == body_session_id@ <==> r is None,
        r matches Some(reason) ==> reason matches SubmissionRejectionReason::SessionNotFound {
            session_id,
        } && session_id@ == body_session_id@,
{
    if !str_eq(path_session_id, body_session_id) {
        Some(SubmissionRejectionReason::SessionNotFound { session_id: owned(body_session_id) })
    } else {
        None
    }
}

/// The checks made before a queued item is deleted, edited or moved, in
/// their order: the body's session against the path's, the session's
/// existence, the body's item against the path's. `None` lets the mutation go
/// to the submission queue.
pub fn check_queue_mutation(
    path_session_id: &str,
    path_item_id: &str,
    body_session_id: &str,
    body_item_id: &str,
    session_exists: bool,
) -> (r: Option<SubmissionRejectionReason>)
    ensures
        path_session_id@ != body_session_id@ ==> (r matches Some(
            SubmissionRejectionReason::SessionNotFound { session_id },
        ) && session_id@ == body_session_id@),
        path_session_id@ == body_session_id@ && !session_exists ==> (r matches Some(
            SubmissionRejectionReason::SessionNotFound { session_id },
        ) && session_id@ == path_session_id@),
        path_session_id@ == body_session_id@ && session_exists && body_item_id@ != path_item_id@
            ==> (r matches Some(SubmissionRejectionReason::QueueItemNotFound { session_id, item_id })
            && session_id@ == path_session_id@ && item_id@ == path_item_id@),
        r is None <==> (path_session_id@ == body_session_id@ && session_exists && body_item_id@
            == path_item_id@),
{
    match validate_queue_session(path_session_id, body_session_id) {
        Some(reason) => return Some(reason),
        None => {},
    }
    if !session_exists {
        return Some(SubmissionRejectionReason::SessionNotFound { session_id: owned(path_session_id) });
    }
    if !str_eq(body_item_id, path_item_id) {
        return Some(
            SubmissionRejectionReason::QueueItemNotFound {
                session_id: owned(path_session_id),
                item_id: owned(path_item_id),
            },
        );
    }
    None
}

} // verus!

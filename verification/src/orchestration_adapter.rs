//! The adapter that presents the server's session state through the
//! orchestration core's interface: session summaries and details, and the
//! prompt execution that is not offered yet.

use vstd::prelude::*;
use crate::text::opt_view;
use std::sync::Arc;
use crate::text::{owned, str_eq, cat, join, join_spec};
use crate::recovery::MessageRole;

verus! {

/// Wraps the server state for the orchestration core's interface.
pub struct ServerStateOrchestrationAdapter<S> {
    state: Arc<S>,
}

impl<S> ServerStateOrchestrationAdapter<S> {
    /// The wrapped state.
    pub closed spec fn state(&self) -> Arc<S> {
        self.state
    }

    /// An adapter over `state`.
    pub fn new(state: Arc<S>) -> (r: Self)
        ensures
            r.state() == state,
    {
        ServerStateOrchestrationAdapter { state }
    }

    /// The state the adapter wraps.
    pub fn server_state(&self) -> (r: &Arc<S>)
        ensures
            *r == self.state(),
    {
        &self.state
    }

    /// Prompt execution through the adapter, which is not offered yet: it
    /// always fails, saying so.
    pub fn execute_prompt(&self, session_id: &str, text: &str) -> (r: Result<(), OrchestratorError>)
        ensures
            r matches Err(OrchestratorError::Other(m)) && m@
                == "ServerStateOrchestrationAdapter::execute_prompt not yet implemented (Phase 4)"@,
    {
        Err(
            OrchestratorError::Other(
                owned("ServerStateOrchestrationAdapter::execute_prompt not yet implemented (Phase 4)"),
            ),
        )
    }
}

/// An error of the orchestration core.
pub enum OrchestratorError {
    Other(String),
}

impl OrchestratorError {
    /// The error's text.
    pub fn to_text(&self) -> (r: String)
        ensures
            r@ == match self {
                OrchestratorError::Other(m) => m@,
            },
    {
        match self {
            OrchestratorError::Other(m) => owned(m.as_str()),
        }
    }
}

/// What the adapter reads of a session message: its id, role, the texts of
/// its text parts and its creation time (RFC 3339).
pub struct SessionMessageView {
    pub id: String,
    pub role: MessageRole,
    pub texts: Vec<String>,
    pub created_at: String,
}

/// What the adapter reads of a session: its id and title, its creation and
/// last update times (RFC 3339), and its messages.
pub struct SessionView {
    pub id: String,
    pub title: String,
    pub created_at: String,
    pub updated_at: String,
    pub messages: Vec<SessionMessageView>,
}

/// A session as the orchestration core lists it.
pub struct SessionSummary {
    pub id: String,
    pub title: Option<String>,
    pub created_at: String,
    pub last_message_at: Option<String>,
}

/// A message as the orchestration core shows it.
pub struct MessageSummary {
    pub id: String,
    pub role: String,
    pub content: String,
    pub created_at: String,
}

/// A session with its messages, as the orchestration core shows it.
pub struct SessionDetail {
    pub id: String,
    pub title: Option<String>,
    pub messages: Vec<MessageSummary>,
}

/// A title, none when empty.
pub open spec fn title_spec(title: Seq<char>) -> Option<Seq<char>> {
    if title.len() == 0 {
        None
    } else {
        Some(title)
    }
}


fn title_of(title: &String) -> (r: Option<String>)
    ensures
        opt_view(r) == title_spec(title@),
{
    if title.as_str().unicode_len() == 0 {
        None
    } else {
        Some(owned(title.as_str()))
    }
}

/// Lists a session: its id, its title when not empty, its creation time, and
/// its last update as the last message time.
pub fn session_summary(session: &SessionView) -> (r: SessionSummary)
    ensures
        r.id@ == session.id@,
        opt_view(r.title) == title_spec(session.title@),
        r.created_at@ == session.created_at@,
        opt_view(r.last_message_at) == Some(session.updated_at@),
{
    SessionSummary {
        id: owned(session.id.as_str()),
        title: title_of(&session.title),
        created_at: owned(session.created_at.as_str()),
        last_message_at: Some(owned(session.updated_at.as_str())),
    }
}

/// Lists the sessions, in order, as `session_summary` shows each.
pub fn list_session_summaries(sessions: &Vec<SessionView>) -> (r: Vec<SessionSummary>)
    ensures
        r@.len() == sessions@.len(),
        forall|i: int|
            0 <= i < r@.len() ==> (#[trigger] r@[i]).id@ == sessions@[i].id@ && opt_view(r@[i].title)
                == title_spec(sessions@[i].title@) && r@[i].created_at@ == sessions@[i].created_at@
                && opt_view(r@[i].last_message_at) == Some(sessions@[i].updated_at@),
{
    let mut out: Vec<SessionSummary> = Vec::new();
    let mut i: usize = 0;
    while i < sessions.len()
        invariant
            i <= sessions@.len(),
            out@.len() == i,
            forall|k: int|
                0 <= k < i ==> (#[trigger] out@[k]).id@ == sessions@[k].id@ && opt_view(out@[k].title)
                    == title_spec(sessions@[k].title@) && out@[k].created_at@ == sessions@[k].created_at@
                    && opt_view(out@[k].last_message_at) == Some(sessions@[k].updated_at@),
        decreases sessions.len() - i,
    {
        out.push(session_summary(&sessions[i]));
        i = i + 1;
    }
    out
}

/// The name of a message role, as its debug form spells it.
pub open spec fn role_name_spec(role: MessageRole) -> Seq<char> {
    match role {
        MessageRole::User => "User"@,
        MessageRole::Assistant => "Assistant"@,
        MessageRole::System => "System"@,
        MessageRole::Tool => "Tool"@,
    }
}

fn role_name(role: &MessageRole) -> (r: String)
    ensures
        r@ == role_name_spec(*role),
{
    match role {
        MessageRole::User => owned("User"),
        MessageRole::Assistant => owned("Assistant"),
        MessageRole::System => owned("System"),
        MessageRole::Tool => owned("Tool"),
    }
}

/// Shows a message: its id, role name, creation time, and its text parts
/// joined together.
pub fn message_summary(message: &SessionMessageView) -> (r: MessageSummary)
    ensures
        r.id@ == message.id@,
        r.role@ == role_name_spec(message.role),
        r.content@ == join_spec(message.texts.deep_view(), ""@),
        r.created_at@ == message.created_at@,
{
    MessageSummary {
        id: owned(message.id.as_str()),
        role: role_name(&message.role),
        content: join(&message.texts, ""),
        created_at: owned(message.created_at.as_str()),
    }
}

/// Whether `d` shows `session`: its id, its title when not empty, and each of
/// its messages in order, as `message_summary` shows them.
pub open spec fn shows_session(d: SessionDetail, session: SessionView) -> bool {
    &&& d.id@ == session.id@
    &&& opt_view(d.title) == title_spec(session.title@)
    &&& d.messages@.len() == session.messages@.len()
    &&& forall|i: int|
        0 <= i < d.messages@.len() ==> (#[trigger] d.messages@[i]).id@ == session.messages@[i].id@
            && d.messages@[i].role@ == role_name_spec(session.messages@[i].role)
            && d.messages@[i].content@ == join_spec(session.messages@[i].texts.deep_view(), ""@)
            && d.messages@[i].created_at@ == session.messages@[i].created_at@
}

/// Shows a session with all its messages, in order.
pub fn session_detail(session: &SessionView) -> (r: SessionDetail)
    ensures
        shows_session(r, *session),
{
    let mut messages: Vec<MessageSummary> = Vec::new();
    let mut i: usize = 0;
    while i < session.messages.len()
        invariant
            i <= session.messages@.len(),
            messages@.len() == i,
            forall|k: int|
                0 <= k < i ==> (#[trigger] messages@[k]).id@ == session.messages@[k].id@
                    && messages@[k].role@ == role_name_spec(session.messages@[k].role)
                    && messages@[k].content@ == join_spec(session.messages@[k].texts.deep_view(), ""@)
                    && messages@[k].created_at@ == session.messages@[k].created_at@,
        decreases session.messages.len() - i,
    {
        messages.push(message_summary(&session.messages[i]));
        i = i + 1;
    }
    SessionDetail { id: owned(session.id.as_str()), title: title_of(&session.title), messages }
}

/// Finds a session by id and shows it; refused when there is none.
pub fn find_session_detail(sessions: &Vec<SessionView>, session_id: &str) -> (r: Result<
    SessionDetail,
    OrchestratorError,
>)
    ensures
        (exists|i: int| 0 <= i < sessions@.len() && (#[trigger] sessions@[i]).id@ == session_id@) <==> r is Ok,
        r matches Err(OrchestratorError::Other(m)) ==> m@ == "Session not found: "@ + session_id@,
        r matches Ok(d) ==> exists|i: int|
            0 <= i < sessions@.len() && (#[trigger] sessions@[i]).id@ == session_id@ && (forall|k: int|
                0 <= k < i ==> sessions@[k].id@ != session_id@) && shows_session(d, sessions@[i]),
{
    let mut i: usize = 0;
    while i < sessions.len()
        invariant
            i <= sessions@.len(),
            forall|k: int| 0 <= k < i ==> (#[trigger] sessions@[k]).id@ != session_id@,
        decreases sessions.len() - i,
    {
        if str_eq(sessions[i].id.as_str(), session_id) {
            return Ok(session_detail(&sessions[i]));
        }
        i = i + 1;
    }
    Err(OrchestratorError::Other(cat("Session not found: ", session_id)))
}

} // verus!

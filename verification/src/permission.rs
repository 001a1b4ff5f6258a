//! Permission requests: how a request is described and labelled for the
//! user, how a reply is read, and what the waiting tool is answered.

use vstd::prelude::*;
use crate::text::opt_view;
use crate::api_error::ApiError;
use crate::text::{
    trim, has_prefix, owned, trim_str, str_eq, cat, cat3, join, join_spec, strip_prefix,
    split_on, split_char, trimmed_nonempty, trim_nonempty, replace_char, replace_char_spec,
    decimal, decimal_string,
};

verus! {

/// The label of a permission scope, on a trimmed, non-empty scope key.
pub open spec fn scope_label_of(s: Seq<char>) -> Seq<char> {
    if has_prefix(s, "cmd:"@) {
        let families = trimmed_nonempty(split_on(s.subrange(4, s.len() as int), '+'));
        if families.len() == 0 {
            "Shell command family"@
        } else {
            "Shell commands: "@ + join_spec(families, ", "@)
        }
    } else if has_prefix(s, "task:agent:"@) {
        "Task agent: "@ + s.subrange(11, s.len() as int)
    } else if has_prefix(s, "task:category:"@) {
        "Task category: "@ + s.subrange(14, s.len() as int)
    } else if has_prefix(s, "task_flow:"@) {
        let rest = s.subrange(10, s.len() as int);
        "Task flow: "@ + (if rest == "create"@ {
            "create task"@
        } else if rest == "resume"@ {
            "resume task"@
        } else if rest == "get"@ {
            "inspect task"@
        } else if rest == "list"@ {
            "list tasks"@
        } else if rest == "cancel"@ {
            "cancel task"@
        } else {
            rest
        })
    } else if has_prefix(s, "shell_session:"@) {
        let rest = s.subrange(14, s.len() as int);
        "Shell session: "@ + (if rest == "start"@ {
            "start session"@
        } else if rest == "write"@ {
            "send input"@
        } else if rest == "read"@ {
            "read output"@
        } else if rest == "status"@ {
            "inspect session"@
        } else if rest == "terminate"@ {
            "terminate session"@
        } else {
            rest
        })
    } else if has_prefix(s, "workspace:batch:"@) {
        let count = trimmed_nonempty(split_on(s.subrange(16, s.len() as int), ',')).len();
        "Workspace batch edit ("@ + decimal(count) + " files)"@
    } else if has_prefix(s, "workspace:/"@) {
        "Workspace path: /"@ + s.subrange(11, s.len() as int)
    } else if has_prefix(s, "workspace:"@) {
        "Workspace path: "@ + s.subrange(10, s.len() as int)
    } else if has_prefix(s, "fs:"@) {
        "External path: "@ + s.subrange(3, s.len() as int)
    } else if has_prefix(s, "net:"@) {
        let rest = s.subrange(4, s.len() as int);
        if rest == "search"@ {
            "Web search"@
        } else {
            "Network host: "@ + rest
        }
    } else {
        s
    }
}

/// The label of a permission scope key: none for a missing or blank key.
pub open spec fn scope_label_spec(scope_key: Option<Seq<char>>) -> Option<Seq<char>> {
    match scope_key {
        None => None,
        Some(k) => if trim(k).len() == 0 {
            None
        } else {
            Some(scope_label_of(trim(k)))
        },
    }
}

/// The view of an optional string slice.
pub open spec fn opt_str(o: Option<&str>) -> Option<Seq<char>> {
    match o {
        Some(s) => Some(s@),
        None => None,
    }
}


/// The label of a task flow step.
fn task_flow_label(rest: &str) -> (r: String)
    ensures
        r@ == (if rest@ == "create"@ {
            "create task"@
        } else if rest@ == "resume"@ {
            "resume task"@
        } else if rest@ == "get"@ {
            "inspect task"@
        } else if rest@ == "list"@ {
            "list tasks"@
        } else if rest@ == "cancel"@ {
            "cancel task"@
        } else {
            rest@
        }),
{
    if str_eq(rest, "create") {
        owned("create task")
    } else if str_eq(rest, "resume") {
        owned("resume task")
    } else if str_eq(rest, "get") {
        owned("inspect task")
    } else if str_eq(rest, "list") {
        owned("list tasks")
    } else if str_eq(rest, "cancel") {
        owned("cancel task")
    } else {
        owned(rest)
    }
}

/// The label of a shell session step.
fn shell_session_label(rest: &str) -> (r: String)
    ensures
        r@ == (if rest@ == "start"@ {
            "start session"@
        } else if rest@ == "write"@ {
            "send input"@
        } else if rest@ == "read"@ {
            "read output"@
        } else if rest@ == "status"@ {
            "inspect session"@
        } else if rest@ == "terminate"@ {
            "terminate session"@
        } else {
            rest@
        }),
{
    if str_eq(rest, "start") {
        owned("start session")
    } else if str_eq(rest, "write") {
        owned("send input")
    } else if str_eq(rest, "read") {
        owned("read output")
    } else if str_eq(rest, "status") {
        owned("inspect session")
    } else if str_eq(rest, "terminate") {
        owned("terminate session")
    } else {
        owned(rest)
    }
}

/// The label shown for a permission's scope key.
pub fn permission_scope_label(scope_key: Option<&str>) -> (r: Option<String>)
    ensures
        opt_view(r) == scope_label_spec(opt_str(scope_key)),
{
    let key = match scope_key {
        None => return None,
        Some(k) => trim_str(k),
    };
    let s = key.as_str();
    if s.unicode_len() == 0 {
        return None;
    }
    proof {
        reveal_strlit("cmd:");
        reveal_strlit("task:agent:");
        reveal_strlit("task:category:");
        reveal_strlit("task_flow:");
        reveal_strlit("shell_session:");
        reveal_strlit("workspace:batch:");
        reveal_strlit("workspace:/");
        reveal_strlit("workspace:");
        reveal_strlit("fs:");
        reveal_strlit("net:");
    }
    if let Some(rest) = strip_prefix(s, "cmd:") {
        let pieces = split_char(rest.as_str(), '+');
        let families = trim_nonempty(&pieces);
        if families.len() == 0 {
            return Some(owned("Shell command family"));
        }
        let body = join(&families, ", ");
        return Some(cat("Shell commands: ", body.as_str()));
    }
    if let Some(rest) = strip_prefix(s, "task:agent:") {
        return Some(cat("Task agent: ", rest.as_str()));
    }
    if let Some(rest) = strip_prefix(s, "task:category:") {
        return Some(cat("Task category: ", rest.as_str()));
    }
    if let Some(rest) = strip_prefix(s, "task_flow:") {
        let label = task_flow_label(rest.as_str());
        return Some(cat("Task flow: ", label.as_str()));
    }
    if let Some(rest) = strip_prefix(s, "shell_session:") {
        let label = shell_session_label(rest.as_str());
        return Some(cat("Shell session: ", label.as_str()));
    }
    if let Some(rest) = strip_prefix(s, "workspace:batch:") {
        let pieces = split_char(rest.as_str(), ',');
        let files = trim_nonempty(&pieces);
        let count = decimal_string(files.len() as u64);
        return Some(cat3("Workspace batch edit (", count.as_str(), " files)"));
    }
    if let Some(rest) = strip_prefix(s, "workspace:/") {
        return Some(cat("Workspace path: /", rest.as_str()));
    }
    if str_eq(s, "workspace:/") {
        proof {
            assert(s@.subrange(0, s@.len() as int) =~= s@);
        }
        return Some(owned("Workspace root"));
    }
    if let Some(rest) = strip_prefix(s, "workspace:") {
        return Some(cat("Workspace path: ", rest.as_str()));
    }
    if let Some(rest) = strip_prefix(s, "fs:") {
        return Some(cat("External path: ", rest.as_str()));
    }
    if let Some(rest) = strip_prefix(s, "net:") {
        if str_eq(rest.as_str(), "search") {
            return Some(owned("Web search"));
        }
        return Some(cat("Network host: ", rest.as_str()));
    }
    Some(key)
}

/// How a permission grant is matched against later requests.
#[derive(Debug, Clone, Copy, PartialEq, Eq, Structural)]
pub enum PermissionMatcherKind {
    ScopeOnly,
    ExactInput,
    StructuredFamily,
    SemanticPattern,
}

/// The serialized name of a matcher kind.
pub open spec fn matcher_kind_name_spec(kind: PermissionMatcherKind) -> Seq<char> {
    match kind {
        PermissionMatcherKind::ScopeOnly => "scope_only"@,
        PermissionMatcherKind::ExactInput => "exact_input"@,
        PermissionMatcherKind::StructuredFamily => "structured_family"@,
        PermissionMatcherKind::SemanticPattern => "semantic_pattern"@,
    }
}

impl PermissionMatcherKind {
    /// The serialized name of the matcher kind.
    pub fn as_str(&self) -> (r: &'static str)
        ensures
            r@ == matcher_kind_name_spec(*self),
    {
        match self {
            PermissionMatcherKind::ScopeOnly => "scope_only",
            PermissionMatcherKind::ExactInput => "exact_input",
            PermissionMatcherKind::StructuredFamily => "structured_family",
            PermissionMatcherKind::SemanticPattern => "semantic_pattern",
        }
    }
}

/// The label of a permission's matcher: none for a missing or blank key or a
/// scope-only matcher.
pub open spec fn matcher_label_spec(
    kind: Option<PermissionMatcherKind>,
    key: Option<Seq<char>>,
) -> Option<Seq<char>> {
    match key {
        None => None,
        Some(k) => {
            let k = trim(k);
            if k.len() == 0 {
                None
            } else {
                match kind {
                    Some(PermissionMatcherKind::ExactInput) => Some("Exact input: "@ + k),
                    Some(PermissionMatcherKind::StructuredFamily) => {
                        let body = if has_prefix(k, "cmd:"@) {
                            k.subrange(4, k.len() as int)
                        } else {
                            k
                        };
                        Some("Command family: "@ + replace_char_spec(body, '+', ", "@))
                    },
                    Some(PermissionMatcherKind::SemanticPattern) => Some("Semantic pattern: "@ + k),
                    _ => None,
                }
            }
        },
    }
}

/// The label shown for a permission's matcher.
pub fn permission_matcher_label(kind: Option<PermissionMatcherKind>, key: Option<&str>) -> (r: Option<
    String,
>)
    ensures
        opt_view(r) == matcher_label_spec(kind, opt_str(key)),
{
    let k = match key {
        None => return None,
        Some(k) => trim_str(k),
    };
    if k.as_str().unicode_len() == 0 {
        return None;
    }
    match kind {
        Some(PermissionMatcherKind::ExactInput) => Some(cat("Exact input: ", k.as_str())),
        Some(PermissionMatcherKind::StructuredFamily) => {
            proof {
                reveal_strlit("cmd:");
            }
            let body = match strip_prefix(k.as_str(), "cmd:") {
                Some(rest) => rest,
                None => k,
            };
            let label = replace_char(body.as_str(), '+', ", ");
            Some(cat("Command family: ", label.as_str()))
        },
        Some(PermissionMatcherKind::SemanticPattern) => Some(cat("Semantic pattern: ", k.as_str())),
        _ => None,
    }
}

/// What a permission grant covers, as shown to the user: the scope's label,
/// or else the matcher's.
pub open spec fn grant_target_spec(
    scope_key: Option<Seq<char>>,
    kind: Option<PermissionMatcherKind>,
    matcher_key: Option<Seq<char>>,
) -> Option<Seq<char>> {
    match scope_label_spec(scope_key) {
        Some(l) => Some(l),
        None => matcher_label_spec(kind, matcher_key),
    }
}

/// What a permission grant covers, as shown to the user.
pub fn permission_grant_target_summary(
    scope_key: Option<&str>,
    kind: Option<PermissionMatcherKind>,
    matcher_key: Option<&str>,
) -> (r: Option<String>)
    ensures
        opt_view(r) == grant_target_spec(opt_str(scope_key), kind, opt_str(matcher_key)),
{
    match permission_scope_label(scope_key) {
        Some(l) => Some(l),
        None => permission_matcher_label(kind, matcher_key),
    }
}

/// The name under which grants by a matcher kind are counted: the kind's
/// name, or `legacy` without one.
pub open spec fn matcher_kind_key_spec(kind: Option<PermissionMatcherKind>) -> Seq<char> {
    match kind {
        Some(k) => matcher_kind_name_spec(k),
        None => "legacy"@,
    }
}

/// The name under which grants by a matcher kind are counted.
pub fn permission_matcher_kind_key(kind: Option<PermissionMatcherKind>) -> (r: String)
    ensures
        r@ == matcher_kind_key_spec(kind),
{
    match kind {
        Some(k) => owned(k.as_str()),
        None => owned("legacy"),
    }
}

/// The message of a permission request: its description, question or
/// command, the first that is given; else the permission and its patterns;
/// else a generic line naming the permission.
pub open spec fn request_message_spec(
    description: Option<Seq<char>>,
    question: Option<Seq<char>>,
    command: Option<Seq<char>>,
    permission: Seq<char>,
    patterns: Seq<Seq<char>>,
) -> Seq<char> {
    match description {
        Some(d) => d,
        None => match question {
            Some(q) => q,
            None => match command {
                Some(c) => c,
                None => if patterns.len() > 0 {
                    permission + ": "@ + join_spec(patterns, ", "@)
                } else {
                    "Permission required: "@ + permission
                },
            },
        },
    }
}

/// The message of a permission request. The description, question and
/// command are the request metadata's string entries under those keys.
pub fn permission_request_message(
    description: Option<&str>,
    question: Option<&str>,
    command: Option<&str>,
    permission: &str,
    patterns: &Vec<String>,
) -> (r: String)
    ensures
        r@ == request_message_spec(
            opt_str(description),
            opt_str(question),
            opt_str(command),
            permission@,
            patterns.deep_view(),
        ),
{
    if let Some(d) = description {
        return owned(d);
    }
    if let Some(q) = question {
        return owned(q);
    }
    if let Some(c) = command {
        return owned(c);
    }
    if patterns.len() > 0 {
        let body = join(patterns, ", ");
        return cat3(permission, ": ", body.as_str());
    }
    cat("Permission required: ", permission)
}

/// The patterns a permission request covers.
pub enum PermissionPattern {
    Single(String),
    Multiple(Vec<String>),
}

/// The pattern of a permission request: none, the one pattern, or all of
/// them.
pub fn request_pattern(patterns: &Vec<String>) -> (r: Option<PermissionPattern>)
    ensures
        patterns@.len() == 0 <==> r is None,
        patterns@.len() == 1 ==> (r matches Some(PermissionPattern::Single(p)) && p@
            == patterns@[0]@),
        patterns@.len() > 1 ==> (r matches Some(PermissionPattern::Multiple(ps)) && ps.deep_view()
            == patterns.deep_view()),
{
    if patterns.len() == 0 {
        None
    } else if patterns.len() == 1 {
        Some(PermissionPattern::Single(owned(patterns[0].as_str())))
    } else {
        Some(PermissionPattern::Multiple(crate::command_args::clone_strings(patterns)))
    }
}

/// A reply to a permission request.
#[derive(Debug, Clone, Copy, PartialEq, Eq, Structural)]
pub enum PermissionResponse {
    Once,
    Turn,
    Always,
    Reject,
}

/// The reply a word stands for, if any.
pub open spec fn response_spec(reply: Seq<char>) -> Option<PermissionResponse> {
    if reply == "once"@ {
        Some(PermissionResponse::Once)
    } else if reply == "turn"@ {
        Some(PermissionResponse::Turn)
    } else if reply == "session"@ || reply == "always"@ {
        Some(PermissionResponse::Always)
    } else if reply == "reject"@ {
        Some(PermissionResponse::Reject)
    } else {
        None
    }
}

/// Each reply lifetime is read from its own words and from no other: `once`
/// alone gives a one-time grant, `turn` alone a grant for the turn,
/// `session` or `always` a lasting grant, `reject` alone a refusal.
pub proof fn lemma_reply_words_name_their_lifetime(w: Seq<char>)
    ensures
        response_spec(w) == Some(PermissionResponse::Once) <==> w == "once"@,
        response_spec(w) == Some(PermissionResponse::Turn) <==> w == "turn"@,
        response_spec(w) == Some(PermissionResponse::Always) <==> (w == "session"@ || w == "always"@),
        response_spec(w) == Some(PermissionResponse::Reject) <==> w == "reject"@,
{
    reveal_strlit("once");
    reveal_strlit("turn");
    reveal_strlit("session");
    reveal_strlit("always");
    reveal_strlit("reject");
    assert("once"@ != "turn"@) by {
        assert("once"@[0] != "turn"@[0]);
    }
    assert("once"@.len() != "session"@.len());
    assert("once"@.len() != "always"@.len());
    assert("once"@.len() != "reject"@.len());
    assert("turn"@.len() != "session"@.len());
    assert("turn"@.len() != "always"@.len());
    assert("turn"@.len() != "reject"@.len());
    assert("session"@.len() != "reject"@.len());
    assert("always"@ != "reject"@) by {
        assert("always"@[0] != "reject"@[0]);
    }
}

/// A request to answer a pending permission.
pub struct ReplyPermissionRequest {
    pub reply: String,
    pub message: Option<String>,
}

/// Reads the reply word of an answer to a permission request.
pub fn parse_permission_reply(reply: &str) -> (r: Result<PermissionResponse, ApiError>)
    ensures
        response_spec(reply@) matches Some(x) ==> r == Ok::<PermissionResponse, ApiError>(x),
        response_spec(reply@) is None ==> (r matches Err(e) && e.is_bad_request(
            "Invalid reply; expected `once`, `turn`, `session`, or `reject`"@,
        )),
{
    if str_eq(reply, "once") {
        Ok(PermissionResponse::Once)
    } else if str_eq(reply, "turn") {
        Ok(PermissionResponse::Turn)
    } else if str_eq(reply, "session") || str_eq(reply, "always") {
        Ok(PermissionResponse::Always)
    } else if str_eq(reply, "reject") {
        Ok(PermissionResponse::Reject)
    } else {
        Err(ApiError::BadRequest(owned("Invalid reply; expected `once`, `turn`, `session`, or `reject`")))
    }
}

/// The error answered to the refusal to reply to an unknown permission.
pub fn permission_not_found(id: &str) -> (r: ApiError)
    ensures
        r.is_not_found("Permission request not found: "@ + id@),
{
    ApiError::NotFound(cat("Permission request not found: ", id))
}

/// What became of the wait for a permission reply.
pub enum PermissionWait {
    /// The user replied with this word and optional message.
    Replied { reply: String, message: Option<String> },
    /// The reply channel closed without a reply.
    ChannelClosed,
    /// No reply came in time.
    TimedOut,
}

/// How a tool's permission request ends when it is not granted.
#[derive(Debug, Clone, PartialEq, Eq)]
pub enum PermissionDenial {
    PermissionDenied(String),
    ExecutionError(String),
}

/// The refusal of a permission that names it.
pub open spec fn rejected_message(permission: Seq<char>) -> Seq<char> {
    "Permission rejected for "@ + permission
}

/// The outcome of a pending permission request for the tool that asked:
/// granted by a `once`, `turn`, `session` or `always` reply; denied by a
/// `reject` (with the user's message, or a line naming the permission) or a
/// timeout; an execution error for any other reply or a closed channel.
pub fn permission_wait_outcome(wait: &PermissionWait, permission: &str) -> (r: Result<(), PermissionDenial>)
    ensures
        match *wait {
            PermissionWait::Replied { reply, message } => if reply@ == "once"@ || reply@ == "turn"@
                || reply@ == "session"@ || reply@ == "always"@ {
                r is Ok
            } else if reply@ == "reject"@ {
                r matches Err(PermissionDenial::PermissionDenied(m)) && m@ == match message {
                    Some(x) => x@,
                    None => rejected_message(permission@),
                }
            } else {
                r matches Err(PermissionDenial::ExecutionError(m)) && m@ == "Invalid permission reply: "@
                    + reply@
            },
            PermissionWait::ChannelClosed => r matches Err(PermissionDenial::ExecutionError(m)) && m@
                == "Permission response channel closed"@,
            PermissionWait::TimedOut => r matches Err(PermissionDenial::PermissionDenied(m)) && m@
                == "Permission request timed out"@,
        },
{
    match wait {
        PermissionWait::Replied { reply, message } => {
            let w = reply.as_str();
            if str_eq(w, "once") || str_eq(w, "turn") || str_eq(w, "session") || str_eq(w, "always") {
                Ok(())
            } else if str_eq(w, "reject") {
                let m = match message {
                    Some(x) => owned(x.as_str()),
                    None => cat("Permission rejected for ", permission),
                };
                Err(PermissionDenial::PermissionDenied(m))
            } else {
                Err(PermissionDenial::ExecutionError(cat("Invalid permission reply: ", w)))
            }
        },
        PermissionWait::ChannelClosed => Err(
            PermissionDenial::ExecutionError(owned("Permission response channel closed")),
        ),
        PermissionWait::TimedOut => Err(
            PermissionDenial::PermissionDenied(owned("Permission request timed out")),
        ),
    }
}

/// The refusal of a permission request that the permission engine turned
/// down outright.
pub fn permission_engine_refusal(permission: &str) -> (r: PermissionDenial)
    ensures
        r matches PermissionDenial::PermissionDenied(m) && m@ == rejected_message(permission@),
{
    PermissionDenial::PermissionDenied(cat("Permission rejected for ", permission))
}

/// A counter advanced by one, from zero when unset, stopping at the largest
/// value.
pub fn next_counter(current: Option<u64>) -> (r: u64)
    ensures
        r == match current {
            Some(c) => if c == u64::MAX {
                c
            } else {
                (c + 1) as u64
            },
            None => 1,
        },
{
    match current {
        Some(c) => c.saturating_add(1),
        None => 1,
    }
}

/// How long a permission waited, in milliseconds: the time since it was
/// requested, with a clock before the epoch taken as the epoch and a request
/// in the future as no wait.
pub fn permission_pending_ms(now_ms: i64, requested_at_ms: u64) -> (r: u64)
    ensures
        r == (if now_ms <= 0 {
            0
        } else if now_ms as u64 >= requested_at_ms {
            (now_ms as u64 - requested_at_ms) as u64
        } else {
            0
        }),
{
    let now: u64 = if now_ms <= 0 {
        0
    } else {
        now_ms as u64
    };
    now.saturating_sub(requested_at_ms)
}

/// What a granted reply records on the session, besides the wait: the
/// matcher kind counted and last seen, what the grant covered, and which
/// lifetime counter is advanced.
pub struct GrantTelemetry {
    pub matcher_kind_key: String,
    pub grant_target: Option<String>,
    pub lifetime_counter_key: Option<String>,
}

/// The session counter a grant of this lifetime advances, if any.
pub open spec fn lifetime_counter_spec(response: PermissionResponse) -> Option<Seq<char>> {
    match response {
        PermissionResponse::Turn => Some("permission_granted_by_turn_count"@),
        PermissionResponse::Always => Some("permission_granted_by_session_count"@),
        _ => None,
    }
}

/// What a permission grant records on its session.
pub fn permission_grant_telemetry(
    scope_key: Option<&str>,
    kind: Option<PermissionMatcherKind>,
    matcher_key: Option<&str>,
    response: PermissionResponse,
) -> (r: GrantTelemetry)
    ensures
        r.matcher_kind_key@ == matcher_kind_key_spec(kind),
        opt_view(r.grant_target) == grant_target_spec(opt_str(scope_key), kind, opt_str(matcher_key)),
        opt_view(r.lifetime_counter_key) == lifetime_counter_spec(response),
{
    let counter = match response {
        PermissionResponse::Turn => Some(owned("permission_granted_by_turn_count")),
        PermissionResponse::Always => Some(owned("permission_granted_by_session_count")),
        _ => None,
    };
    GrantTelemetry {
        matcher_kind_key: permission_matcher_kind_key(kind),
        grant_target: permission_grant_target_summary(scope_key, kind, matcher_key),
        lifetime_counter_key: counter,
    }
}

/// What is shown of a pending permission: the engine's record with the
/// names of its class and lifetimes.
pub struct PermissionInfoView {
    pub id: String,
    pub session_id: String,
    pub permission_type: String,
    pub permission_class: Option<String>,
    pub scope_key: Option<String>,
    pub origin_tool: Option<String>,
    pub supported_lifetimes: Vec<String>,
    pub matcher_kind: Option<PermissionMatcherKind>,
    pub matcher_key: Option<String>,
    pub risk_tags: Vec<String>,
    pub message: String,
}

/// A pending permission as listed for the user, with its labels. (The raw
/// request input travels beside it.)
pub struct PermissionRequestInfo {
    pub id: String,
    pub session_id: String,
    pub tool: String,
    pub permission_class: Option<String>,
    pub scope_key: Option<String>,
    pub scope_label: Option<String>,
    pub origin_tool: Option<String>,
    pub supported_lifetimes: Vec<String>,
    pub matcher_kind: Option<String>,
    pub matcher_key: Option<String>,
    pub matcher_label: Option<String>,
    pub grant_target_summary: Option<String>,
    pub risk_tags: Vec<String>,
    pub message: String,
}

/// Copies an optional string.
pub fn copy_opt_view(o: &Option<String>) -> (r: Option<String>)
    ensures
        opt_view(r) == opt_view(*o),
{
    match o {
        Some(s) => Some(owned(s.as_str())),
        None => None,
    }
}

/// The optional string as a slice.
pub fn opt_as_str(o: &Option<String>) -> (r: Option<&str>)
    ensures
        opt_str(r) == opt_view(*o),
{
    match o {
        Some(s) => Some(s.as_str()),
        None => None,
    }
}

/// Describes a pending permission for the user, with the labels of its scope
/// and matcher and what a grant would cover.
pub fn permission_request_info(info: &PermissionInfoView) -> (r: PermissionRequestInfo)
    ensures
        r.id@ == info.id@,
        r.session_id@ == info.session_id@,
        r.tool@ == info.permission_type@,
        opt_view(r.permission_class) == opt_view(info.permission_class),
        opt_view(r.scope_key) == opt_view(info.scope_key),
        opt_view(r.scope_label) == scope_label_spec(opt_view(info.scope_key)),
        opt_view(r.origin_tool) == opt_view(info.origin_tool),
        r.supported_lifetimes.deep_view() == info.supported_lifetimes.deep_view(),
        opt_view(r.matcher_kind) == match info.matcher_kind {
            Some(k) => Some(matcher_kind_name_spec(k)),
            None => None,
        },
        opt_view(r.matcher_key) == opt_view(info.matcher_key),
        opt_view(r.matcher_label) == matcher_label_spec(info.matcher_kind, opt_view(info.matcher_key)),
        opt_view(r.grant_target_summary) == grant_target_spec(
            opt_view(info.scope_key),
            info.matcher_kind,
            opt_view(info.matcher_key),
        ),
        r.risk_tags.deep_view() == info.risk_tags.deep_view(),
        r.message@ == info.message@,
{
    let scope = opt_as_str(&info.scope_key);
    let mkey = opt_as_str(&info.matcher_key);
    PermissionRequestInfo {
        id: owned(info.id.as_str()),
        session_id: owned(info.session_id.as_str()),
        tool: owned(info.permission_type.as_str()),
        permission_class: copy_opt_view(&info.permission_class),
        scope_key: copy_opt_view(&info.scope_key),
        scope_label: permission_scope_label(scope),
        origin_tool: copy_opt_view(&info.origin_tool),
        supported_lifetimes: crate::command_args::clone_strings(&info.supported_lifetimes),
        matcher_kind: match info.matcher_kind {
            Some(k) => Some(owned(k.as_str())),
            None => None,
        },
        matcher_key: copy_opt_view(&info.matcher_key),
        matcher_label: permission_matcher_label(info.matcher_kind, mkey),
        grant_target_summary: permission_grant_target_summary(scope, info.matcher_kind, mkey),
        risk_tags: crate::command_args::clone_strings(&info.risk_tags),
        message: owned(info.message.as_str()),
    }
}

} // verus!

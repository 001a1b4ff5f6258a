//! The decisions a session prompt goes through before its run starts: the
//! goal continuation check, the request's shape, the displayed prompt, the
//! `/goal` statement, the command fields still to ask for, the reasoning
//! effort, where the prompt goes (batched, queued or run), and what the run
//! writes into the session's model metadata.

use vstd::prelude::*;
use crate::text::opt_view;
use crate::api_error::ApiError;
use crate::text::{owned, cat, cat3, trim, trim_str, lower, lower_str, str_eq};
use crate::recovery::{TaskLedgerStatus, TaskLedgerSummary};
use crate::scheduler::{SchedulerChoice, TemplateId};
use crate::text::{has_prefix, starts_with};
use crate::command_args::{
    CommandArgumentField, CommandArgumentKind, CommandArgumentOption, ArgumentMap, parse, parse_spec,
    missing_required, missing_spec, same_field, normalize_key, normalize_field_key,
};

verus! {

/// Whether a goal continuation still matches the session's task ledger: the
/// ledger is at the expected goal generation, active, with a next action,
/// and the continuation is armed for that generation.
pub open spec fn continuation_matches_spec(expected_generation: u64, ledger: TaskLedgerSummary, armed: bool) -> bool {
    &&& ledger.goal_generation == expected_generation
    &&& ledger.status == TaskLedgerStatus::Active
    &&& ledger.next is Some
    &&& armed
}

/// Whether a goal continuation still matches the session's task ledger; one
/// that does not is answered as superseded.
pub fn auto_continuation_matches(expected_generation: u64, ledger: &TaskLedgerSummary, armed: bool) -> (r: bool)
    ensures
        r == continuation_matches_spec(expected_generation, *ledger, armed),
{
    ledger.goal_generation == expected_generation && ledger.status == TaskLedgerStatus::Active
        && ledger.next.is_some() && armed
}

/// Refuses a request that names both an agent and a scheduler, or both a
/// command and parts, in that order of precedence.
pub fn check_prompt_selection(has_agent: bool, has_scheduler: bool, has_command: bool, has_parts: bool) -> (r:
    Result<(), ApiError>)
    ensures
        has_agent && has_scheduler ==> (r matches Err(e) && e.is_bad_request(
            "`agent` and `scheduler` are mutually exclusive"@,
        )),
        !(has_agent && has_scheduler) && has_command && has_parts ==> (r matches Err(e) && e.is_bad_request(
            "`command` and `parts` are mutually exclusive"@,
        )),
        !(has_agent && has_scheduler) && !(has_command && has_parts) ==> r is Ok,
{
    if has_agent && has_scheduler {
        return Err(ApiError::BadRequest(owned("`agent` and `scheduler` are mutually exclusive")));
    }
    if has_command && has_parts {
        return Err(ApiError::BadRequest(owned("`command` and `parts` are mutually exclusive")));
    }
    Ok(())
}

/// The view of an optional text.
pub open spec fn opt_str(o: Option<&str>) -> Option<Seq<char>> {
    match o {
        Some(s) => Some(s@),
        None => None,
    }
}

/// The text a prompt is shown as: that of its parts where it has any, else
/// its message, else its command as `/name arguments` (or `/name`).
pub open spec fn display_text_spec(
    parts_text: Option<Seq<char>>,
    message: Option<Seq<char>>,
    command: Option<Seq<char>>,
    arguments: Option<Seq<char>>,
) -> Option<Seq<char>> {
    match parts_text {
        Some(t) => Some(t),
        None => match message {
            Some(m) => Some(m),
            None => match command {
                Some(c) => match arguments {
                    Some(a) => Some("/"@ + c + " "@ + a),
                    None => Some("/"@ + c),
                },
                None => None,
            },
        },
    }
}

/// The message answered to a prompt that has no message, parts or command.
pub open spec fn no_prompt_message() -> Seq<char> {
    "Either `message`, `parts`, or `command` must be provided"@
}

/// The text a prompt is shown as, given the display text of its parts where
/// it has a non-empty list of them; a prompt with nothing to show is
/// refused.
pub fn display_prompt_text(
    parts_text: Option<&str>,
    message: Option<&str>,
    command: Option<&str>,
    arguments: Option<&str>,
) -> (r: Result<String, ApiError>)
    ensures
        display_text_spec(opt_str(parts_text), opt_str(message), opt_str(command), opt_str(arguments)) matches Some(
            t,
        ) ==> (r matches Ok(s) && s@ == t),
        display_text_spec(opt_str(parts_text), opt_str(message), opt_str(command), opt_str(arguments)) is None ==> (r matches Err(e)
            && e.is_bad_request(no_prompt_message())),
{
    if let Some(t) = parts_text {
        return Ok(owned(t));
    }
    if let Some(m) = message {
        return Ok(owned(m));
    }
    match command {
        Some(c) => match arguments {
            Some(a) => Ok(cat3(cat("/", c).as_str(), " ", a)),
            None => Ok(cat("/", c)),
        },
        None => Err(ApiError::BadRequest(owned("Either `message`, `parts`, or `command` must be provided"))),
    }
}

/// The goal a `/goal` command states: the first value given to its `goal`
/// argument, trimmed, where that is not blank.
pub open spec fn goal_statement_spec(
    command: Option<Seq<char>>,
    schema: Option<Seq<CommandArgumentField>>,
    raw_arguments: Option<Seq<char>>,
) -> Option<Seq<char>> {
    if command == Some("goal"@) && schema is Some {
        let m = parse_spec(raw_arguments, schema->0);
        if m.dom().contains("goal"@) && m["goal"@].len() > 0 && trim(m["goal"@][0]).len() > 0 {
            Some(trim(m["goal"@][0]))
        } else {
            None
        }
    } else {
        None
    }
}

/// The goal a `/goal` command states, if any, from the command's name, its
/// argument schema and its raw arguments.
pub fn command_goal_statement(
    command: Option<&str>,
    schema: Option<&[CommandArgumentField]>,
    raw_arguments: Option<&str>,
) -> (r: Option<String>)
    ensures
        opt_view(r) == goal_statement_spec(
            opt_str(command),
            match schema {
                Some(s) => Some(s@),
                None => None,
            },
            opt_str(raw_arguments),
        ),
{
    let is_goal = match command {
        Some(c) => str_eq(c, "goal"),
        None => false,
    };
    proof {
        reveal_strlit("goal");
    }
    if !is_goal {
        return None;
    }
    let fields = match schema {
        Some(s) => s,
        None => return None,
    };
    let parsed = parse(raw_arguments, fields);
    match parsed.get("goal") {
        Some(values) => {
            if values.len() == 0 {
                return None;
            }
            let t = trim_str(values[0].as_str());
            proof {
                assert(values.deep_view()[0] == values@[0]@);
            }
            if t.as_str().unicode_len() > 0 {
                Some(t)
            } else {
                None
            }
        },
        None => None,
    }
}


/// The message answered to `/goal` without a goal.
pub open spec fn goal_usage_message() -> Seq<char> {
    "Usage: /goal <goal description>"@
}

/// The goal statement of a prompt, refusing a `/goal` command that states
/// none.
pub fn require_goal_statement(
    command: Option<&str>,
    schema: Option<&[CommandArgumentField]>,
    raw_arguments: Option<&str>,
) -> (r: Result<Option<String>, ApiError>)
    ensures
        ({
            let g = goal_statement_spec(
                opt_str(command),
                match schema {
                    Some(s) => Some(s@),
                    None => None,
                },
                opt_str(raw_arguments),
            );
            &&& opt_str(command) == Some("goal"@) && g is None ==> (r matches Err(e) && e.is_bad_request(
                goal_usage_message(),
            ))
            &&& !(opt_str(command) == Some("goal"@) && g is None) ==> (r matches Ok(s) && opt_view(s) == g)
        }),
{
    let statement = command_goal_statement(command, schema, raw_arguments);
    let is_goal = match command {
        Some(c) => str_eq(c, "goal"),
        None => false,
    };
    proof {
        reveal_strlit("goal");
    }
    if is_goal && statement.is_none() {
        return Err(ApiError::BadRequest(owned("Usage: /goal <goal description>")));
    }
    Ok(statement)
}

/// How a command asks for required arguments it was not given.
#[derive(Debug, Clone, Copy, PartialEq, Eq, Structural)]
pub enum InteractivePolicy {
    Off,
    AskAll,
    AskPerStep,
}

/// The fields a command asks for before it runs: none under `Off`, the
/// first missing one under `AskPerStep`, every missing one otherwise.
pub open spec fn fields_to_ask_spec(
    policy: InteractivePolicy,
    fields: Seq<CommandArgumentField>,
    parsed: Map<Seq<char>, Seq<Seq<char>>>,
) -> Seq<CommandArgumentField> {
    let missing = missing_spec(fields, parsed, fields.len() as int);
    match policy {
        InteractivePolicy::Off => Seq::empty(),
        InteractivePolicy::AskPerStep => missing.take(if missing.len() > 0 { 1int } else { 0int }),
        InteractivePolicy::AskAll => missing,
    }
}

/// The fields a command asks for before it runs; where there are any, the
/// prompt waits for the user's answers instead of running.
pub fn command_fields_to_ask(
    policy: InteractivePolicy,
    fields: &[CommandArgumentField],
    raw_arguments: Option<&str>,
) -> (r: Vec<CommandArgumentField>)
    ensures
        ({
            let want = fields_to_ask_spec(policy, fields@, parse_spec(opt_str(raw_arguments), fields@));
            &&& r@.len() == want.len()
            &&& forall|k: int| 0 <= k < r@.len() ==> same_field(#[trigger] r@[k], want[k])
        }),
{
    if policy == InteractivePolicy::Off {
        return Vec::new();
    }
    let parsed = parse(raw_arguments, fields);
    let mut missing = missing_required(fields, &parsed);
    if policy == InteractivePolicy::AskPerStep {
        missing.truncate(1);
    }
    missing
}

/// The reasoning effort a prompt may ask for.
#[derive(Debug, Clone, Copy, PartialEq, Eq, Structural)]
pub enum ReasoningEffort {
    Off,
    Minimal,
    Low,
    Medium,
    High,
    XHigh,
    Max,
    Ultra,
}

/// The reasoning effort named by `s`, in any ASCII case.
pub open spec fn effort_named(s: Seq<char>) -> Option<ReasoningEffort> {
    let l = lower(s);
    if l == "none"@ {
        Some(ReasoningEffort::Off)
    } else if l == "minimal"@ {
        Some(ReasoningEffort::Minimal)
    } else if l == "low"@ {
        Some(ReasoningEffort::Low)
    } else if l == "medium"@ {
        Some(ReasoningEffort::Medium)
    } else if l == "high"@ {
        Some(ReasoningEffort::High)
    } else if l == "xhigh"@ {
        Some(ReasoningEffort::XHigh)
    } else if l == "max"@ {
        Some(ReasoningEffort::Max)
    } else if l == "ultra"@ {
        Some(ReasoningEffort::Ultra)
    } else {
        None
    }
}

/// Whether a requested effort leaves the choice to the agent: blank,
/// `auto` or `inherit`, in any ASCII case.
pub open spec fn effort_inherits(t: Seq<char>) -> bool {
    t.len() == 0 || lower(t) == "auto"@ || lower(t) == "inherit"@
}

/// The message answered to an effort that names none.
pub open spec fn invalid_effort_message(t: Seq<char>) -> Seq<char> {
    "invalid reasoning_effort `"@ + t
        + "` (expected none/minimal/low/medium/high/xhigh/max/ultra)"@
}

/// The reasoning effort a prompt asks for: none where it gives none or
/// leaves the choice to the agent, else the effort its trimmed text names;
/// a text that names none is refused.
pub fn parse_request_reasoning_effort(raw: Option<&str>) -> (r: Result<Option<ReasoningEffort>, ApiError>)
    ensures
        match raw {
            None => r == Ok::<Option<ReasoningEffort>, ApiError>(None),
            Some(s) => {
                let t = trim(s@);
                if effort_inherits(t) {
                    r == Ok::<Option<ReasoningEffort>, ApiError>(None)
                } else if effort_named(t) is Some {
                    r == Ok::<Option<ReasoningEffort>, ApiError>(effort_named(t))
                } else {
                    r matches Err(e) && e.is_bad_request(invalid_effort_message(t))
                }
            },
        },
{
    let s = match raw {
        Some(s) => s,
        None => return Ok(None),
    };
    let t = trim_str(s);
    let l = lower_str(t.as_str());
    proof {
        reveal_strlit("auto");
        reveal_strlit("inherit");
        reveal_strlit("none");
        reveal_strlit("minimal");
        reveal_strlit("low");
        reveal_strlit("medium");
        reveal_strlit("high");
        reveal_strlit("xhigh");
        reveal_strlit("max");
        reveal_strlit("ultra");
    }
    if t.as_str().unicode_len() == 0 || str_eq(l.as_str(), "auto") || str_eq(l.as_str(), "inherit") {
        return Ok(None);
    }
    if str_eq(l.as_str(), "none") {
        Ok(Some(ReasoningEffort::Off))
    } else if str_eq(l.as_str(), "minimal") {
        Ok(Some(ReasoningEffort::Minimal))
    } else if str_eq(l.as_str(), "low") {
        Ok(Some(ReasoningEffort::Low))
    } else if str_eq(l.as_str(), "medium") {
        Ok(Some(ReasoningEffort::Medium))
    } else if str_eq(l.as_str(), "high") {
        Ok(Some(ReasoningEffort::High))
    } else if str_eq(l.as_str(), "xhigh") {
        Ok(Some(ReasoningEffort::XHigh))
    } else if str_eq(l.as_str(), "max") {
        Ok(Some(ReasoningEffort::Max))
    } else if str_eq(l.as_str(), "ultra") {
        Ok(Some(ReasoningEffort::Ultra))
    } else {
        let m = cat3(
            "invalid reasoning_effort `",
            t.as_str(),
            "` (expected none/minimal/low/medium/high/xhigh/max/ultra)",
        );
        Err(ApiError::BadRequest(m))
    }
}

/// How a web prompt meets the batching of live web input.
#[derive(Debug, Clone, Copy, PartialEq, Eq, Structural)]
pub enum IngressStage {
    /// The prompt is not batched.
    Bypass,
    /// The prompt opens a batch and will run it.
    Leader,
    /// The prompt joined a batch another prompt runs.
    Follower,
}

/// Whether a prompt reserves the session's run before deciding: a goal
/// continuation that is not batched, while nothing runs.
pub fn needs_run_reservation(stage: IngressStage, is_auto_continuation: bool, running: bool) -> (r: bool)
    ensures
        r == (stage == IngressStage::Bypass && is_auto_continuation && !running),
{
    stage == IngressStage::Bypass && is_auto_continuation && !running
}

/// Where a prompt goes.
#[derive(Debug, Clone, Copy, PartialEq, Eq, Structural)]
pub enum PromptDispatch {
    /// Answered as batched: the batch's leader runs it.
    Batched,
    /// Queued behind the run in progress.
    Queued,
    /// Run now.
    Run,
}

/// Where a prompt goes: a batch follower is batched; an unbatched prompt
/// while the session runs, without a reserved run, is queued; every other
/// prompt runs.
pub fn dispatch_prompt(stage: IngressStage, running: bool, reserved: bool) -> (r: PromptDispatch)
    ensures
        stage == IngressStage::Follower ==> r == PromptDispatch::Batched,
        stage == IngressStage::Bypass && running && !reserved ==> r == PromptDispatch::Queued,
        stage == IngressStage::Leader || (stage == IngressStage::Bypass && (!running || reserved)) ==> r
            == PromptDispatch::Run,
{
    match stage {
        IngressStage::Follower => PromptDispatch::Batched,
        IngressStage::Bypass => if running && !reserved {
            PromptDispatch::Queued
        } else {
            PromptDispatch::Run
        },
        IngressStage::Leader => PromptDispatch::Run,
    }
}

/// What a run does to one entry of the session's metadata.
#[derive(Debug, Clone, PartialEq, Eq)]
pub enum MetadataChange {
    Keep,
    Remove,
    Write(String),
}

/// The change a requested variant makes: set where given, removed where not.
pub fn variant_metadata(variant: Option<&str>) -> (r: MetadataChange)
    ensures
        variant matches Some(v) ==> (r matches MetadataChange::Write(s) && s@ == v@),
        variant is None ==> r == MetadataChange::Remove,
{
    match variant {
        Some(v) => MetadataChange::Write(owned(v)),
        None => MetadataChange::Remove,
    }
}

/// The change a requested reasoning effort makes: kept where none is given,
/// removed where it is blank, else set to the trimmed text.
pub fn reasoning_effort_metadata(effort: Option<&str>) -> (r: MetadataChange)
    ensures
        match effort {
            None => r == MetadataChange::Keep,
            Some(e) => if trim(e@).len() == 0 {
                r == MetadataChange::Remove
            } else {
                r matches MetadataChange::Write(s) && s@ == trim(e@)
            },
        },
{
    match effort {
        None => MetadataChange::Keep,
        Some(e) => {
            let t = trim_str(e);
            if t.as_str().unicode_len() == 0 {
                MetadataChange::Remove
            } else {
                MetadataChange::Write(t)
            }
        },
    }
}


/// A question a command declares for one of its arguments: the field it
/// asks for, its prompt and header, and the answers it offers.
#[derive(Debug)]
pub struct QuestionTemplate {
    pub field_key: String,
    pub prompt: String,
    pub header: String,
    pub options: Vec<CommandArgumentOption>,
}

/// A question put to the user.
#[derive(Debug)]
pub struct QuestionDef {
    pub question: String,
    pub header: Option<String>,
    pub options: Vec<(String, Option<String>)>,
    pub multiple: bool,
}

/// The position of the first template for the field with key `key`,
/// comparing keys as normalized.
pub open spec fn template_for(ts: Seq<QuestionTemplate>, key: Seq<char>) -> Option<int>
    decreases ts.len(),
{
    if ts.len() == 0 {
        None
    } else if normalize_key(ts[0].field_key@) == normalize_key(key) {
        Some(0)
    } else {
        match template_for(ts.drop_first(), key) {
            Some(i) => Some(i + 1),
            None => None,
        }
    }
}

/// The offered answers as labels and descriptions.
pub open spec fn options_view(os: Seq<CommandArgumentOption>) -> Seq<(Seq<char>, Option<Seq<char>>)> {
    os.map_values(|o: CommandArgumentOption| (o.label@, opt_view(o.description)))
}

/// The question asked for a missing argument of command `name`: the
/// command's template for the field where it declares one, else a question
/// made from the field; it takes several answers where the field repeats or
/// lists globs.
pub open spec fn question_spec(q: QuestionDef, name: Seq<char>, ts: Seq<QuestionTemplate>, f: CommandArgumentField) -> bool {
    &&& q.multiple == (f.repeatable || f.kind == CommandArgumentKind::GlobList)
    &&& match template_for(ts, f.key@) {
        Some(i) => {
            &&& q.question@ == ts[i].prompt@
            &&& opt_view(q.header) == Some(ts[i].header@)
            &&& q.options@.map_values(|o: (String, Option<String>)| (o.0@, opt_view(o.1))) == options_view(ts[i].options@)
        },
        None => {
            &&& q.question@ == "Provide `"@ + f.label@ + "` for `/"@ + name + "`."@
            &&& opt_view(q.header) == Some(f.label@)
            &&& q.options@.map_values(|o: (String, Option<String>)| (o.0@, opt_view(o.1))) == options_view(f.options@)
        },
    }
}

fn find_template(ts: &[QuestionTemplate], key: &str) -> (r: Option<usize>)
    ensures
        match r {
            Some(i) => template_for(ts@, key@) == Some(i as int) && i < ts@.len(),
            None => template_for(ts@, key@) is None,
        },
{
    let want = normalize_field_key(key);
    let mut i: usize = 0;
    proof {
        assert(ts@.subrange(0, ts@.len() as int) =~= ts@);
    }
    while i < ts.len()
        invariant
            i <= ts@.len(),
            want@ == normalize_key(key@),
            template_for(ts@, key@) == match template_for(ts@.subrange(i as int, ts@.len() as int), key@) {
                Some(k) => Some(k + i),
                None => None,
            },
        decreases ts@.len() - i,
    {
        let ghost rest = ts@.subrange(i as int, ts@.len() as int);
        proof {
            assert(rest[0] == ts@[i as int]);
            assert(rest.drop_first() =~= ts@.subrange(i + 1, ts@.len() as int));
        }
        let k = normalize_field_key(ts[i].field_key.as_str());
        if str_eq(k.as_str(), want.as_str()) {
            return Some(i);
        }
        i = i + 1;
    }
    None
}

fn copy_options(os: &Vec<CommandArgumentOption>) -> (r: Vec<(String, Option<String>)>)
    ensures
        r@.map_values(|o: (String, Option<String>)| (o.0@, opt_view(o.1))) == options_view(os@),
{
    let mut r: Vec<(String, Option<String>)> = Vec::new();
    let mut i: usize = 0;
    while i < os.len()
        invariant
            i <= os@.len(),
            r@.map_values(|o: (String, Option<String>)| (o.0@, opt_view(o.1))) == options_view(os@.subrange(0, i as int)),
        decreases os@.len() - i,
    {
        let ghost before = r@.map_values(|o: (String, Option<String>)| (o.0@, opt_view(o.1)));
        let d = match &os[i].description {
            Some(x) => Some(owned(x.as_str())),
            None => None,
        };
        r.push((owned(os[i].label.as_str()), d));
        proof {
            assert(r@.map_values(|o: (String, Option<String>)| (o.0@, opt_view(o.1))) =~= before.push(
                (os@[i as int].label@, opt_view(os@[i as int].description)),
            ));
            assert(options_view(os@.subrange(0, i + 1)) =~= options_view(os@.subrange(0, i as int)).push(
                (os@[i as int].label@, opt_view(os@[i as int].description)),
            ));
        }
        i = i + 1;
    }
    proof {
        assert(os@.subrange(0, os@.len() as int) =~= os@);
    }
    r
}

/// The question asked for a missing argument of command `name`, as
/// `question_spec` says.
pub fn command_question_for_field(name: &str, templates: &[QuestionTemplate], field: &CommandArgumentField) -> (r:
    QuestionDef)
    ensures
        question_spec(r, name@, templates@, *field),
{
    let multiple = field.repeatable || field.kind == CommandArgumentKind::GlobList;
    match find_template(templates, field.key.as_str()) {
        Some(i) => {
            let t = &templates[i];
            QuestionDef {
                question: owned(t.prompt.as_str()),
                header: Some(owned(t.header.as_str())),
                options: copy_options(&t.options),
                multiple,
            }
        },
        None => {
            let mut q = cat3("Provide `", field.label.as_str(), "` for `/");
            q.append(name);
            q.append("`.");
            QuestionDef {
                question: q,
                header: Some(owned(field.label.as_str())),
                options: copy_options(&field.options),
                multiple,
            }
        },
    }
}


/// The scheduler a command invocation pins: none for a command that does
/// not run in scheduler mode, nor for `/goal` (which goes through the
/// request's own choice); the autoresearch template for a command whose
/// name starts with `autoresearch`; the direct template for any other.
pub open spec fn command_scheduler_spec(name: Seq<char>, scheduler_mode: bool) -> Option<SchedulerChoice> {
    if !scheduler_mode || name == "goal"@ {
        None
    } else if has_prefix(name, "autoresearch"@) {
        Some(SchedulerChoice::Template { template: TemplateId::Autoresearch })
    } else {
        Some(SchedulerChoice::Template { template: TemplateId::Direct })
    }
}

/// The scheduler a command invocation pins, as `command_scheduler_spec`
/// says.
pub fn command_scheduler_choice(name: &str, scheduler_mode: bool) -> (r: Option<SchedulerChoice>)
    ensures
        r == command_scheduler_spec(name@, scheduler_mode),
{
    proof {
        reveal_strlit("goal");
        reveal_strlit("autoresearch");
    }
    if !scheduler_mode || str_eq(name, "goal") {
        None
    } else if starts_with(name, "autoresearch") {
        Some(SchedulerChoice::Template { template: TemplateId::Autoresearch })
    } else {
        Some(SchedulerChoice::Template { template: TemplateId::Direct })
    }
}

/// Raw command arguments as handed on: absent where they are blank.
pub fn nonblank_raw_arguments(raw: &str) -> (r: Option<String>)
    ensures
        match r {
            Some(t) => t@ == raw@ && trim(raw@).len() > 0,
            None => trim(raw@).len() == 0,
        },
{
    let t = trim_str(raw);
    if t.as_str().unicode_len() > 0 {
        Some(owned(raw))
    } else {
        None
    }
}

} // verus!

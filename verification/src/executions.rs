//! The tool calls of a session that are still pending or running, as
//! execution records under the run that is most likely their parent.

use vstd::prelude::*;
use crate::text::{opt_view, copy_opt};
use crate::text::{owned, str_eq, cat};

verus! {

/// The kind of a running execution.
#[derive(Debug, Clone, Copy, PartialEq, Eq, Structural)]
pub enum ExecutionKind {
    PromptRun,
    SchedulerRun,
    SchedulerNode,
    ToolCall,
    Question,
}

/// The state of an execution.
#[derive(Debug, Clone, Copy, PartialEq, Eq, Structural)]
pub enum ExecutionStatus {
    Waiting,
    Running,
}

/// What the listing reads of an execution already registered: its id,
/// kind, stage and times.
#[derive(Debug)]
pub struct RegisteredExecution {
    pub id: String,
    pub kind: ExecutionKind,
    pub stage_id: Option<String>,
    pub started_at: i64,
    pub updated_at: i64,
}

/// The rank of a kind of execution as a parent of tool calls: scheduler
/// nodes above scheduler runs above prompt runs.
pub open spec fn parent_rank_spec(kind: ExecutionKind) -> u8 {
    match kind {
        ExecutionKind::PromptRun => 0,
        ExecutionKind::SchedulerRun => 1,
        ExecutionKind::SchedulerNode => 2,
        _ => 0,
    }
}

/// The rank of a kind of execution as a parent of tool calls.
pub fn execution_parent_rank(kind: ExecutionKind) -> (r: u8)
    ensures
        r == parent_rank_spec(kind),
{
    match kind {
        ExecutionKind::PromptRun => 0,
        ExecutionKind::SchedulerRun => 1,
        ExecutionKind::SchedulerNode => 2,
        _ => 0,
    }
}

/// Whether an execution can be the parent of tool calls: a prompt run, a
/// scheduler run or a scheduler node.
pub open spec fn can_parent(kind: ExecutionKind) -> bool {
    kind == ExecutionKind::PromptRun || kind == ExecutionKind::SchedulerRun || kind == ExecutionKind::SchedulerNode
}

/// Whether `a` ranks at least as high as `b` as a parent: by rank, then by
/// when it was last updated, then by when it started.
pub open spec fn parent_key_ge(a: RegisteredExecution, b: RegisteredExecution) -> bool {
    let ra = parent_rank_spec(a.kind);
    let rb = parent_rank_spec(b.kind);
    ra > rb || (ra == rb && (a.updated_at > b.updated_at || (a.updated_at == b.updated_at && a.started_at
        >= b.started_at)))
}

/// The position of the preferred parent among `rs`: the highest ranking
/// execution that can be a parent, the later one among equals.
pub open spec fn preferred_parent_spec(rs: Seq<RegisteredExecution>) -> Option<int>
    decreases rs.len(),
{
    if rs.len() == 0 {
        None
    } else {
        let best = preferred_parent_spec(rs.drop_last());
        let last = rs.last();
        if can_parent(last.kind) && match best {
            None => true,
            Some(b) => parent_key_ge(last, rs[b]),
        } {
            Some(rs.len() - 1)
        } else {
            best
        }
    }
}

proof fn lemma_preferred_in_range(rs: Seq<RegisteredExecution>)
    ensures
        preferred_parent_spec(rs) matches Some(b) ==> 0 <= b < rs.len(),
    decreases rs.len(),
{
    if rs.len() > 0 {
        lemma_preferred_in_range(rs.drop_last());
    }
}

/// The position of the preferred parent of tool calls, as
/// `preferred_parent_spec` says.
pub fn select_preferred_execution_parent(records: &[RegisteredExecution]) -> (r: Option<usize>)
    ensures
        match r {
            Some(i) => preferred_parent_spec(records@) == Some(i as int) && i < records@.len(),
            None => preferred_parent_spec(records@) is None,
        },
{
    let mut best: Option<usize> = None;
    let mut i: usize = 0;
    while i < records.len()
        invariant
            i <= records@.len(),
            match best {
                Some(b) => preferred_parent_spec(records@.subrange(0, i as int)) == Some(b as int) && b < i,
                None => preferred_parent_spec(records@.subrange(0, i as int)) is None,
            },
        decreases records@.len() - i,
    {
        let ghost sub = records@.subrange(0, i + 1);
        proof {
            assert(sub.drop_last() =~= records@.subrange(0, i as int));
            assert(sub.last() == records@[i as int]);
        }
        let r = &records[i];
        let eligible = r.kind == ExecutionKind::PromptRun || r.kind == ExecutionKind::SchedulerRun || r.kind
            == ExecutionKind::SchedulerNode;
        if eligible {
            let take = match best {
                None => true,
                Some(b) => {
                    proof {
                        assert(sub[b as int] == records@[b as int]);
                    }
                    let o = &records[b];
                    let ra = execution_parent_rank(r.kind);
                    let rb = execution_parent_rank(o.kind);
                    ra > rb || (ra == rb && (r.updated_at > o.updated_at || (r.updated_at == o.updated_at
                        && r.started_at >= o.started_at)))
                },
            };
            if take {
                best = Some(i);
            }
        }
        i = i + 1;
    }
    proof {
        assert(records@.subrange(0, records@.len() as int) =~= records@);
    }
    best
}

/// The id of the preferred parent of tool calls, if any.
pub fn select_preferred_execution_parent_id(records: &[RegisteredExecution]) -> (r: Option<String>)
    ensures
        match preferred_parent_spec(records@) {
            Some(i) => r matches Some(s) && s@ == records@[i].id@,
            None => r is None,
        },
{
    match select_preferred_execution_parent(records) {
        Some(i) => Some(owned(records[i].id.as_str())),
        None => None,
    }
}


/// The state of a tool call.
#[derive(Debug, Clone, Copy, PartialEq, Eq, Structural)]
pub enum ToolCallStatus {
    Pending,
    Running,
    Completed,
    Error,
}

/// A tool-call part of a session message: the call's id, tool name and
/// input, its state, and when it was created.
pub struct ToolCallPart<I> {
    pub id: String,
    pub name: String,
    pub input: I,
    pub status: ToolCallStatus,
    pub created_at_ms: i64,
}

/// A tool call of a session as an execution record.
pub struct ActiveToolRecord<I> {
    pub id: String,
    pub session_id: String,
    pub kind: ExecutionKind,
    pub status: ExecutionStatus,
    pub label: String,
    pub parent_id: Option<String>,
    pub stage_id: Option<String>,
    pub waiting_on: String,
    pub recent_event: String,
    pub started_at: i64,
    pub updated_at: i64,
    pub tool_call_id: String,
    pub tool_name: String,
    pub input: I,
    pub message_id: String,
    pub status_name: String,
}


/// The stage of the first registered execution with id `id`, if any.
pub open spec fn stage_of(rs: Seq<RegisteredExecution>, id: Seq<char>) -> Option<Seq<char>>
    decreases rs.len(),
{
    if rs.len() == 0 {
        None
    } else if rs[0].id@ == id {
        opt_view(rs[0].stage_id)
    } else {
        stage_of(rs.drop_first(), id)
    }
}

/// Whether a tool call is already registered as an execution, under
/// `tool_call:` and its id.
pub open spec fn registered(rs: Seq<RegisteredExecution>, call_id: Seq<char>) -> bool {
    exists|i: int| 0 <= i < rs.len() && rs[i].kind == ExecutionKind::ToolCall && #[trigger] rs[i].id@ == "tool_call:"@
        + call_id
}

/// Whether `r` is the record of tool call `p` of message `message_id`
/// in session `session_id`, under parent `parent` of stage `stage`.
pub open spec fn record_of<I>(
    r: ActiveToolRecord<I>,
    session_id: Seq<char>,
    message_id: Seq<char>,
    p: ToolCallPart<I>,
    parent: Option<Seq<char>>,
    stage: Option<Seq<char>>,
) -> bool {
    let pending = p.status == ToolCallStatus::Pending;
    &&& r.id@ == "tool_call:"@ + p.id@
    &&& r.session_id@ == session_id
    &&& r.kind == ExecutionKind::ToolCall
    &&& r.status == if pending { ExecutionStatus::Waiting } else { ExecutionStatus::Running }
    &&& r.label@ == "Tool: "@ + p.name@
    &&& opt_view(r.parent_id) == parent
    &&& opt_view(r.stage_id) == stage
    &&& r.waiting_on@ == if pending { "dispatch"@ } else { "tool"@ }
    &&& r.recent_event@ == p.name@ + if pending { " queued"@ } else { " running"@ }
    &&& r.started_at == p.created_at_ms
    &&& r.updated_at == p.created_at_ms
    &&& r.tool_call_id@ == p.id@
    &&& r.tool_name@ == p.name@
    &&& r.input == p.input
    &&& r.message_id@ == message_id
    &&& r.status_name@ == if pending { "pending"@ } else { "running"@ }
}

/// Whether a tool call is listed: it is pending or running and not yet
/// registered.
pub open spec fn listed<I>(rs: Seq<RegisteredExecution>, p: ToolCallPart<I>) -> bool {
    (p.status == ToolCallStatus::Pending || p.status == ToolCallStatus::Running) && !registered(rs, p.id@)
}

/// The positions, among the tool-call parts, of those listed.
pub open spec fn listed_positions<I>(rs: Seq<RegisteredExecution>, parts: Seq<(String, ToolCallPart<I>)>) -> Seq<int>
    decreases parts.len(),
{
    if parts.len() == 0 {
        Seq::empty()
    } else {
        let prev = listed_positions(rs, parts.drop_last());
        if listed(rs, parts.last().1) {
            prev.push(parts.len() - 1)
        } else {
            prev
        }
    }
}

fn stage_for(rs: &[RegisteredExecution], id: &str) -> (r: Option<String>)
    ensures
        opt_view(r) == stage_of(rs@, id@),
{
    let mut i: usize = 0;
    proof {
        assert(rs@.subrange(0, rs@.len() as int) =~= rs@);
    }
    while i < rs.len()
        invariant
            i <= rs@.len(),
            stage_of(rs@, id@) == stage_of(rs@.subrange(i as int, rs@.len() as int), id@),
        decreases rs@.len() - i,
    {
        proof {
            let rest = rs@.subrange(i as int, rs@.len() as int);
            assert(rest[0] == rs@[i as int]);
            assert(rest.drop_first() =~= rs@.subrange(i + 1, rs@.len() as int));
        }
        if str_eq(rs[i].id.as_str(), id) {
            return match &rs[i].stage_id {
                Some(s) => Some(owned(s.as_str())),
                None => None,
            };
        }
        i = i + 1;
    }
    None
}

fn is_registered(rs: &[RegisteredExecution], call_id: &str) -> (b: bool)
    ensures
        b == registered(rs@, call_id@),
{
    let key = cat("tool_call:", call_id);
    let mut i: usize = 0;
    while i < rs.len()
        invariant
            i <= rs@.len(),
            key@ == "tool_call:"@ + call_id@,
            forall|j: int| 0 <= j < i ==> !(rs@[j].kind == ExecutionKind::ToolCall && rs@[j].id@ == key@),
        decreases rs@.len() - i,
    {
        if rs[i].kind == ExecutionKind::ToolCall && str_eq(rs[i].id.as_str(), key.as_str()) {
            return true;
        }
        i = i + 1;
    }
    false
}


/// The records of a session's tool calls that are pending or running and
/// not yet registered, from the tool-call parts of its messages (each with
/// its message's id, in order), under the preferred parent among the
/// registered executions and that parent's stage.
pub fn collect_active_tool_execution_records<I>(
    session_id: &str,
    parts: Vec<(String, ToolCallPart<I>)>,
    existing: &[RegisteredExecution],
) -> (r: Vec<ActiveToolRecord<I>>)
    ensures
        ({
            let parent = match preferred_parent_spec(existing@) {
                Some(b) => Some(existing@[b].id@),
                None => None,
            };
            let stage = match parent {
                Some(id) => stage_of(existing@, id),
                None => None,
            };
            let pos = listed_positions(existing@, parts@);
            &&& r@.len() == pos.len()
            &&& forall|k: int|
                0 <= k < r@.len() ==> record_of(
                    #[trigger] r@[k],
                    session_id@,
                    parts@[pos[k]].0@,
                    parts@[pos[k]].1,
                    parent,
                    stage,
                )
        }),
{
    let parent_id = select_preferred_execution_parent_id(existing);
    let stage_id = match &parent_id {
        Some(pid) => stage_for(existing, pid.as_str()),
        None => None,
    };
    let ghost orig = parts@;
    let ghost parent = opt_view(parent_id);
    let ghost stage = opt_view(stage_id);
    let n = parts.len();
    let mut rest = parts;
    let mut records: Vec<ActiveToolRecord<I>> = Vec::new();
    let mut k: usize = 0;
    while k < n
        invariant
            n == orig.len(),
            k <= n,
            rest@ == orig.subrange(k as int, n as int),
            parent == opt_view(parent_id),
            stage == opt_view(stage_id),
            parent == match preferred_parent_spec(existing@) {
                Some(b) => Some(existing@[b].id@),
                None => None,
            },
            stage == match parent {
                Some(id) => stage_of(existing@, id),
                None => None,
            },
            records@.len() == listed_positions(existing@, orig.subrange(0, k as int)).len(),
            forall|q: int| 0 <= q < listed_positions(existing@, orig.subrange(0, k as int)).len() ==> 0 <= #[trigger] listed_positions(existing@, orig.subrange(0, k as int))[q] < k,
            forall|q: int|
                0 <= q < records@.len() ==> record_of(
                    #[trigger] records@[q],
                    session_id@,
                    orig[listed_positions(existing@, orig.subrange(0, k as int))[q]].0@,
                    orig[listed_positions(existing@, orig.subrange(0, k as int))[q]].1,
                    parent,
                    stage,
                ),
        decreases n - k,
    {
        let ghost sub = orig.subrange(0, k + 1);
        let ghost prev_pos = listed_positions(existing@, orig.subrange(0, k as int));
        proof {
            assert(sub.drop_last() =~= orig.subrange(0, k as int));
            assert(sub.last() == orig[k as int]);
            assert(rest@[0] == orig[k as int]);
        }
        let ghost rv = rest@;
        let (message_id, part) = rest.remove(0);
        proof {
            assert(rest@ =~= orig.subrange(k + 1, n as int));
        }
        let active = part.status == ToolCallStatus::Pending || part.status == ToolCallStatus::Running;
        if active && !is_registered(existing, part.id.as_str()) {
            let pending = part.status == ToolCallStatus::Pending;
            let ToolCallPart { id, name, input, status, created_at_ms } = part;
            let record = ActiveToolRecord {
                id: cat("tool_call:", id.as_str()),
                session_id: owned(session_id),
                kind: ExecutionKind::ToolCall,
                status: if pending { ExecutionStatus::Waiting } else { ExecutionStatus::Running },
                label: cat("Tool: ", name.as_str()),
                parent_id: copy_opt(&parent_id),
                stage_id: copy_opt(&stage_id),
                waiting_on: if pending { owned("dispatch") } else { owned("tool") },
                recent_event: if pending { cat(name.as_str(), " queued") } else { cat(name.as_str(), " running") },
                started_at: created_at_ms,
                updated_at: created_at_ms,
                tool_call_id: id,
                tool_name: name,
                input,
                message_id,
                status_name: if pending { owned("pending") } else { owned("running") },
            };
            records.push(record);
            proof {
                let np = listed_positions(existing@, sub);
                assert(np == prev_pos.push(k as int));
                assert forall|q: int| 0 <= q < records@.len() implies record_of(
                    #[trigger] records@[q],
                    session_id@,
                    orig[np[q]].0@,
                    orig[np[q]].1,
                    parent,
                    stage,
                ) by {
                    if q < prev_pos.len() {
                        assert(np[q] == prev_pos[q]);
                    }
                }
            }
        } else {
            proof {
                assert(listed_positions(existing@, sub) == prev_pos);
            }
        }
        k = k + 1;
    }
    proof {
        assert(orig.subrange(0, n as int) =~= orig);
    }
    records
}

} // verus!

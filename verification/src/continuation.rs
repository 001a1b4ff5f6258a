//! The cross-run `/goal` continuation loop and the scheduler prompt around it.

use vstd::prelude::*;
use crate::recovery::{TaskLedgerStatus, TaskLedgerSummary};
use crate::text::opt_view;
use crate::text::{cat, decimal, decimal_string, has_suffix, is_ws, char_is_ws, join, join_spec, owned, push_char, trim, trim_str};

verus! {

/// How many continuation rounds in a row may leave the ledger unchanged
/// before the goal is blocked.
pub const AUTO_CONTINUATION_STAGNATION_LIMIT: u32 = 3;

/// The server's record of the continuation loop of one goal.
#[derive(Debug)]
pub struct TaskLedgerAutoContinuationState {
    pub goal_generation: u64,
    pub rounds: u32,
    pub last_fingerprint: String,
    pub stagnant_rounds: u32,
}

/// Why the continuation loop stops.
#[derive(Debug, Clone, Copy, PartialEq, Eq, Structural)]
pub enum AutoContinuationStop {
    Cancelled,
    Completed,
    AwaitingUser,
    Blocked,
    NoGoal,
    NoNext,
}

/// What the continuation loop does after a run.
#[derive(Debug)]
pub enum AutoContinuationPlan {
    Continue(TaskLedgerAutoContinuationState),
    Stop(AutoContinuationStop),
    Block { state: TaskLedgerAutoContinuationState, reason: String },
}

/// The content of a continuation state: generation, rounds, fingerprint and
/// rounds without progress.
pub open spec fn state_view(s: TaskLedgerAutoContinuationState) -> (u64, u32, Seq<char>, u32) {
    (s.goal_generation, s.rounds, s.last_fingerprint@, s.stagnant_rounds)
}

/// `x + 1`, or `x` at the largest value.
pub open spec fn sat_inc(x: u32) -> u32 {
    if x < u32::MAX {
        (x + 1) as u32
    } else {
        x
    }
}

/// Why the loop stops for a ledger, if it stops at once: a cancelled run, no
/// goal, a completed, awaiting, blocked or interrupted ledger, or no
/// non-blank next action.
pub open spec fn stop_reason(
    cancelled: bool,
    has_goal: bool,
    status: TaskLedgerStatus,
    next: Option<Seq<char>>,
) -> Option<AutoContinuationStop> {
    if cancelled {
        Some(AutoContinuationStop::Cancelled)
    } else if !has_goal {
        Some(AutoContinuationStop::NoGoal)
    } else if status == TaskLedgerStatus::Completed {
        Some(AutoContinuationStop::Completed)
    } else if status == TaskLedgerStatus::AwaitingUser {
        Some(AutoContinuationStop::AwaitingUser)
    } else if status == TaskLedgerStatus::Blocked {
        Some(AutoContinuationStop::Blocked)
    } else if status == TaskLedgerStatus::Interrupted {
        Some(AutoContinuationStop::Cancelled)
    } else if match next {
        Some(n) => trim(n).len() == 0,
        None => true,
    } {
        Some(AutoContinuationStop::NoNext)
    } else {
        None
    }
}

/// The loop state after one more round: rounds and stagnant rounds carry on
/// from the previous state of the same goal generation, stagnant rounds
/// counting up while the fingerprint stays the same and resetting when it
/// changes; a new generation starts over at one round.
pub open spec fn next_state(
    previous: Option<(u64, u32, Seq<char>, u32)>,
    generation: u64,
    fingerprint: Seq<char>,
) -> (u64, u32, Seq<char>, u32) {
    match previous {
        Some(p) if p.0 == generation => (
            generation,
            sat_inc(p.1),
            fingerprint,
            if p.2 == fingerprint {
                sat_inc(p.3)
            } else {
                0
            },
        ),
        _ => (generation, 1, fingerprint, 0),
    }
}

/// The reason given when the loop blocks a goal.
pub open spec fn block_reason(stagnant: u32, next: Seq<char>) -> Seq<char> {
    "automatic continuation made no authoritative TaskLedger progress for "@ + decimal(
        stagnant as nat,
    ) + " consecutive rounds; next action was `"@ + next + "`"@
}

fn sat_inc_exec(x: u32) -> (r: u32)
    ensures
        r == sat_inc(x),
{
    if x < u32::MAX {
        x + 1
    } else {
        x
    }
}

/// What the continuation loop does after a run on `ledger`, whose continuation
/// fingerprint is `fingerprint`: stop for the reasons of `stop_reason`, block
/// when the ledger made no progress for the stagnation limit of rounds, and
/// otherwise continue with the next state.
pub fn plan_auto_continuation_with_fingerprint(
    previous: Option<TaskLedgerAutoContinuationState>,
    ledger: &TaskLedgerSummary,
    fingerprint: &str,
    cancelled: bool,
) -> (r: AutoContinuationPlan)
    ensures
        ({
            let stop = stop_reason(cancelled, ledger.goal is Some, ledger.status, opt_view(ledger.next));
            let st = next_state(
                match previous {
                    Some(p) => Some(state_view(p)),
                    None => None,
                },
                ledger.goal_generation,
                fingerprint@,
            );
            match r {
                AutoContinuationPlan::Stop(why) => stop == Some(why),
                AutoContinuationPlan::Continue(s) => stop is None && state_view(s) == st && st.3
                    < AUTO_CONTINUATION_STAGNATION_LIMIT,
                AutoContinuationPlan::Block { state, reason } => stop is None && state_view(state)
                    == st && st.3 >= AUTO_CONTINUATION_STAGNATION_LIMIT && reason@ == block_reason(
                    st.3,
                    opt_view(ledger.next)->0,
                ),
            }
        }),
{
    if cancelled {
        return AutoContinuationPlan::Stop(AutoContinuationStop::Cancelled);
    }
    if ledger.goal.is_none() {
        return AutoContinuationPlan::Stop(AutoContinuationStop::NoGoal);
    }
    match ledger.status {
        TaskLedgerStatus::Completed => return AutoContinuationPlan::Stop(AutoContinuationStop::Completed),
        TaskLedgerStatus::AwaitingUser => return AutoContinuationPlan::Stop(
            AutoContinuationStop::AwaitingUser,
        ),
        TaskLedgerStatus::Blocked => return AutoContinuationPlan::Stop(AutoContinuationStop::Blocked),
        TaskLedgerStatus::Interrupted => return AutoContinuationPlan::Stop(
            AutoContinuationStop::Cancelled,
        ),
        TaskLedgerStatus::Active => {},
    }
    let next = match &ledger.next {
        Some(n) => {
            if trim_str(n.as_str()).as_str().unicode_len() == 0 {
                return AutoContinuationPlan::Stop(AutoContinuationStop::NoNext);
            }
            n
        },
        None => return AutoContinuationPlan::Stop(AutoContinuationStop::NoNext),
    };
    let (rounds, stagnant_rounds) = match previous {
        Some(p) => {
            if p.goal_generation == ledger.goal_generation {
                let stagnant = if crate::text::str_eq(p.last_fingerprint.as_str(), fingerprint) {
                    sat_inc_exec(p.stagnant_rounds)
                } else {
                    0
                };
                (sat_inc_exec(p.rounds), stagnant)
            } else {
                (1, 0)
            }
        },
        None => (1, 0),
    };
    let state = TaskLedgerAutoContinuationState {
        goal_generation: ledger.goal_generation,
        rounds,
        last_fingerprint: owned(fingerprint),
        stagnant_rounds,
    };
    if stagnant_rounds >= AUTO_CONTINUATION_STAGNATION_LIMIT {
        let mut reason = owned("automatic continuation made no authoritative TaskLedger progress for ");
        reason.append(decimal_string(stagnant_rounds as u64).as_str());
        reason.append(" consecutive rounds; next action was `");
        reason.append(next.as_str());
        reason.append("`");
        return AutoContinuationPlan::Block { state, reason };
    }
    AutoContinuationPlan::Continue(state)
}

/// The name a ledger status is written under in a fingerprint.
pub open spec fn status_name_spec(status: TaskLedgerStatus) -> Seq<char> {
    match status {
        TaskLedgerStatus::Active => "active"@,
        TaskLedgerStatus::Completed => "completed"@,
        TaskLedgerStatus::AwaitingUser => "awaiting_user"@,
        TaskLedgerStatus::Blocked => "blocked"@,
        TaskLedgerStatus::Interrupted => "interrupted"@,
    }
}

fn status_name(status: TaskLedgerStatus) -> (r: &'static str)
    ensures
        r@ == status_name_spec(status),
{
    match status {
        TaskLedgerStatus::Active => "active",
        TaskLedgerStatus::Completed => "completed",
        TaskLedgerStatus::AwaitingUser => "awaiting_user",
        TaskLedgerStatus::Blocked => "blocked",
        TaskLedgerStatus::Interrupted => "interrupted",
    }
}

/// The JSON text `serde_json::to_string` writes for the tuple of a goal
/// generation, a status name, a blocked reason, a next action, and the ids
/// of the open questions and of the current checkpoints.
pub uninterp spec fn fingerprint_json_spec(
    generation: u64,
    status: Seq<char>,
    blocked_reason: Option<Seq<char>>,
    next: Option<Seq<char>>,
    open_ids: Seq<Seq<char>>,
    checkpoint_ids: Seq<Seq<char>>,
) -> Seq<char>;

/// Writes the fingerprint tuple with `serde_json::to_string`. Claimed: the
/// text is the one `fingerprint_json_spec` names for the arguments (an
/// error, which these plain values do not give, would leave it empty; the
/// contract leaves that case unstated).
#[verifier::external_body]
fn fingerprint_json(
    generation: u64,
    status: &str,
    blocked_reason: Option<&str>,
    next: Option<&str>,
    open_ids: &Vec<String>,
    checkpoint_ids: &Vec<String>,
) -> (r: String)
    ensures
        r@ == fingerprint_json_spec(
            generation,
            status@,
            match blocked_reason {
                Some(b) => Some(b@),
                None => None,
            },
            match next {
                Some(n) => Some(n@),
                None => None,
            },
            open_ids.deep_view(),
            checkpoint_ids.deep_view(),
        ),
{
    let opens: Vec<&str> = open_ids.iter().map(|s| s.as_str()).collect();
    let checks: Vec<&str> = checkpoint_ids.iter().map(|s| s.as_str()).collect();
    serde_json::to_string(&(generation, status, blocked_reason, next, opens, checks)).unwrap_or_default()
}

/// The fingerprint of a ledger's progress, as JSON.
pub open spec fn ledger_fingerprint_spec(ledger: TaskLedgerSummary) -> Seq<char> {
    fingerprint_json_spec(
        ledger.goal_generation,
        status_name_spec(ledger.status),
        opt_view(ledger.blocked_reason),
        opt_view(ledger.next),
        ledger.open_question_ids.deep_view(),
        ledger.checkpoint_ids.deep_view(),
    )
}

/// The fingerprint of a ledger's progress: its goal generation, status,
/// blocked reason, next action, open questions and current checkpoints.
pub fn task_ledger_continuation_fingerprint(ledger: &TaskLedgerSummary) -> (r: String)
    ensures
        r@ == ledger_fingerprint_spec(*ledger),
{
    let blocked: Option<&str> = match &ledger.blocked_reason {
        Some(b) => Some(b.as_str()),
        None => None,
    };
    let next: Option<&str> = match &ledger.next {
        Some(n) => Some(n.as_str()),
        None => None,
    };
    fingerprint_json(
        ledger.goal_generation,
        status_name(ledger.status),
        blocked,
        next,
        &ledger.open_question_ids,
        &ledger.checkpoint_ids,
    )
}

/// What the continuation loop does after a run on `ledger`, with the
/// ledger's own fingerprint, as `plan_auto_continuation_with_fingerprint`
/// says.
pub fn plan_task_ledger_auto_continuation(
    previous: Option<TaskLedgerAutoContinuationState>,
    ledger: &TaskLedgerSummary,
    cancelled: bool,
) -> (r: AutoContinuationPlan)
    ensures
        ({
            let stop = stop_reason(cancelled, ledger.goal is Some, ledger.status, opt_view(ledger.next));
            let st = next_state(
                match previous {
                    Some(p) => Some(state_view(p)),
                    None => None,
                },
                ledger.goal_generation,
                ledger_fingerprint_spec(*ledger),
            );
            match r {
                AutoContinuationPlan::Stop(why) => stop == Some(why),
                AutoContinuationPlan::Continue(s) => stop is None && state_view(s) == st && st.3
                    < AUTO_CONTINUATION_STAGNATION_LIMIT,
                AutoContinuationPlan::Block { state, reason } => stop is None && state_view(state)
                    == st && st.3 >= AUTO_CONTINUATION_STAGNATION_LIMIT && reason@ == block_reason(
                    st.3,
                    opt_view(ledger.next)->0,
                ),
            }
        }),
{
    let fingerprint = task_ledger_continuation_fingerprint(ledger);
    plan_auto_continuation_with_fingerprint(previous, ledger, fingerprint.as_str(), cancelled)
}

/// The loop goes on (continues or blocks, rather than stopping) only for a
/// run that was not cancelled, on an active ledger with a goal and a
/// non-blank next action. A ledger that is not active stops it with the
/// reason its status gives; an interrupted one counts as cancelled.
pub proof fn lemma_only_active_goals_continue(
    cancelled: bool,
    has_goal: bool,
    status: TaskLedgerStatus,
    next: Option<Seq<char>>,
)
    ensures
        stop_reason(cancelled, has_goal, status, next) is None <==> (!cancelled && has_goal && status
            == TaskLedgerStatus::Active && (next matches Some(n) && trim(n).len() > 0)),
        !cancelled && has_goal ==> {
            &&& (status == TaskLedgerStatus::Interrupted ==> stop_reason(cancelled, has_goal, status, next) == Some(
                AutoContinuationStop::Cancelled,
            ))
            &&& (status == TaskLedgerStatus::Completed ==> stop_reason(cancelled, has_goal, status, next) == Some(
                AutoContinuationStop::Completed,
            ))
            &&& (status == TaskLedgerStatus::AwaitingUser ==> stop_reason(cancelled, has_goal, status, next)
                == Some(AutoContinuationStop::AwaitingUser))
            &&& (status == TaskLedgerStatus::Blocked ==> stop_reason(cancelled, has_goal, status, next) == Some(
                AutoContinuationStop::Blocked,
            ))
        },
        cancelled ==> stop_reason(cancelled, has_goal, status, next) == Some(AutoContinuationStop::Cancelled),
{
}

/// A goal whose ledger keeps the same fingerprint is blocked on the third
/// round after the round that last made progress: starting from a round with
/// no stagnation, two more unchanged rounds continue and the third blocks; any
/// change of fingerprint resets the count, and a new goal generation starts
/// over.
pub proof fn lemma_stagnation_blocks_on_third_round(generation: u64, rounds: u32, fingerprint: Seq<char>, other: Seq<char>, g2: u64)
    requires
        rounds < u32::MAX - 3,
        other != fingerprint,
        g2 != generation,
    ensures
        ({
            let s0 = (generation, rounds, fingerprint, 0u32);
            let s1 = next_state(Some(s0), generation, fingerprint);
            let s2 = next_state(Some(s1), generation, fingerprint);
            let s3 = next_state(Some(s2), generation, fingerprint);
            &&& s1.3 == 1 && s1.3 < AUTO_CONTINUATION_STAGNATION_LIMIT
            &&& s2.3 == 2 && s2.3 < AUTO_CONTINUATION_STAGNATION_LIMIT
            &&& s3.3 == 3 && s3.3 >= AUTO_CONTINUATION_STAGNATION_LIMIT
            &&& s3.1 == rounds + 3
            &&& next_state(Some(s2), generation, other).3 == 0
            &&& next_state(Some(s2), g2, fingerprint) == (g2, 1u32, fingerprint, 0u32)
        }),
{
}

/// The prompt that continues a goal autonomously, naming its goal and next
/// action, or placeholders where the ledger has none.
pub open spec fn resume_message_spec(goal: Option<Seq<char>>, next: Option<Seq<char>>) -> Seq<char> {
    "Continue the current server-authoritative TaskLedger goal autonomously.\n\nGoal: "@ + (match goal {
        Some(g) => g,
        None => "the current goal"@,
    }) + "\nNext: "@ + (match next {
        Some(n) => n,
        None => "the next concrete action"@,
    })
        + "\n\nPerform the next concrete work, inspect actual results, and verify completion. Do not stop merely because the previous scheduler turn reached its step, token, or active-time budget. If the goal is not complete, leave a truthful Next action in the Ledger."@
}

/// The prompt that continues a goal autonomously.
pub fn task_ledger_auto_resume_message(ledger: &TaskLedgerSummary) -> (r: String)
    ensures
        r@ == resume_message_spec(opt_view(ledger.goal), opt_view(ledger.next)),
{
    let mut r = owned("Continue the current server-authoritative TaskLedger goal autonomously.\n\nGoal: ");
    match &ledger.goal {
        Some(g) => r.append(g.as_str()),
        None => r.append("the current goal"),
    }
    r.append("\nNext: ");
    match &ledger.next {
        Some(n) => r.append(n.as_str()),
        None => r.append("the next concrete action"),
    }
    r.append(
        "\n\nPerform the next concrete work, inspect actual results, and verify completion. Do not stop merely because the previous scheduler turn reached its step, token, or active-time budget. If the goal is not complete, leave a truthful Next action in the Ledger.",
    );
    r
}

/// The memory blocks that are not blank, trimmed, followed by the prompt.
pub open spec fn prompt_sections(prompt: Seq<char>, snapshot: Option<Seq<char>>, prefetch: Option<Seq<char>>) -> Seq<
    Seq<char>,
> {
    let a = match snapshot {
        Some(s) if trim(s).len() > 0 => seq![trim(s)],
        _ => Seq::empty(),
    };
    let b = match prefetch {
        Some(p) if trim(p).len() > 0 => seq![trim(p)],
        _ => Seq::empty(),
    };
    (a + b).push(prompt)
}

fn str_opt_view(o: Option<&str>) -> (r: Option<String>)
    ensures
        opt_view(r) == match o {
            Some(s) => Some(s@),
            None => None,
        },
{
    match o {
        Some(s) => Some(owned(s)),
        None => None,
    }
}

/// The scheduler prompt with the frozen memory snapshot and the turn's memory
/// recall before it, blank blocks left out, parts separated by a blank line.
pub fn merge_scheduler_prompt_with_memory(
    prompt_text: &str,
    frozen_snapshot_block: Option<&str>,
    prefetch_block: Option<&str>,
) -> (r: String)
    ensures
        r@ == join_spec(
            prompt_sections(
                prompt_text@,
                match frozen_snapshot_block {
                    Some(s) => Some(s@),
                    None => None,
                },
                match prefetch_block {
                    Some(s) => Some(s@),
                    None => None,
                },
            ),
            "\n\n"@,
        ),
{
    let mut sections: Vec<String> = Vec::new();
    let ghost snap = match frozen_snapshot_block {
        Some(s) => Some(s@),
        None => None::<Seq<char>>,
    };
    let ghost pre = match prefetch_block {
        Some(s) => Some(s@),
        None => None::<Seq<char>>,
    };
    match frozen_snapshot_block {
        Some(s) => {
            let t = trim_str(s);
            if t.as_str().unicode_len() > 0 {
                sections.push(t);
            }
        },
        None => {},
    }
    let ghost after_a = sections.deep_view();
    match prefetch_block {
        Some(p) => {
            let t = trim_str(p);
            if t.as_str().unicode_len() > 0 {
                sections.push(t);
            }
        },
        None => {},
    }
    let ghost after_b = sections.deep_view();
    sections.push(owned(prompt_text));
    proof {
        let a = match snap {
            Some(s) if trim(s).len() > 0 => seq![trim(s)],
            _ => Seq::<Seq<char>>::empty(),
        };
        let b = match pre {
            Some(p) if trim(p).len() > 0 => seq![trim(p)],
            _ => Seq::<Seq<char>>::empty(),
        };
        assert(after_a =~= a);
        assert(after_b =~= a + b);
        assert(sections.deep_view() =~= (a + b).push(prompt_text@));
    }
    join(&sections, "\n\n")
}

/// Joining a non-empty list of parts ends with its last part.
pub proof fn lemma_join_ends_with_last(parts: Seq<Seq<char>>, sep: Seq<char>)
    requires
        parts.len() > 0,
    ensures
        has_suffix(join_spec(parts, sep), parts.last()),
{
    let j = join_spec(parts, sep);
    let l = parts.last();
    if parts.len() == 1 {
        assert(j.subrange(0, j.len() as int) =~= l);
    } else {
        assert(j.subrange(j.len() - l.len(), j.len() as int) =~= l);
    }
}

/// The merged scheduler prompt always ends with the current prompt, after any
/// memory blocks.
pub proof fn lemma_merged_prompt_ends_with_prompt(
    prompt: Seq<char>,
    snapshot: Option<Seq<char>>,
    prefetch: Option<Seq<char>>,
)
    ensures
        has_suffix(join_spec(prompt_sections(prompt, snapshot, prefetch), "\n\n"@), prompt),
{
    lemma_join_ends_with_last(prompt_sections(prompt, snapshot, prefetch), "\n\n"@);
}

/// The state of splitting text into words: the words so far and the word in
/// progress.
pub open spec fn words_from(s: Seq<char>) -> (Seq<Seq<char>>, Seq<char>)
    decreases s.len(),
{
    if s.len() == 0 {
        (Seq::empty(), Seq::empty())
    } else {
        let (ws, cur) = words_from(s.drop_last());
        let c = s.last();
        if is_ws(c) {
            if cur.len() > 0 {
                (ws.push(cur), Seq::empty())
            } else {
                (ws, cur)
            }
        } else {
            (ws, cur.push(c))
        }
    }
}

/// The words of `s`: its maximal runs of characters that are not white space.
pub open spec fn words(s: Seq<char>) -> Seq<Seq<char>> {
    let (ws, cur) = words_from(s);
    if cur.len() > 0 {
        ws.push(cur)
    } else {
        ws
    }
}

/// The words of `text` joined by single spaces.
pub fn single_line(text: &str) -> (r: String)
    ensures
        r@ == join_spec(words(text@), seq![' ']),
{
    let n = text.unicode_len();
    let mut ws: Vec<String> = Vec::new();
    let mut cur = String::new();
    let mut i: usize = 0;
    proof {
        assert(text@.subrange(0, 0) =~= Seq::<char>::empty());
        assert(ws.deep_view() =~= Seq::<Seq<char>>::empty());
    }
    while i < n
        invariant
            n == text@.len(),
            i <= n,
            words_from(text@.subrange(0, i as int)) == (ws.deep_view(), cur@),
        decreases n - i,
    {
        let c = text.get_char(i);
        proof {
            assert(text@.subrange(0, i + 1).drop_last() =~= text@.subrange(0, i as int));
        }
        if char_is_ws(c) {
            if cur.as_str().unicode_len() > 0 {
                let ghost w0 = ws.deep_view();
                let ghost c0 = cur@;
                ws.push(cur);
                cur = String::new();
                proof {
                    assert(ws.deep_view() =~= w0.push(c0));
                }
            }
        } else {
            push_char(&mut cur, c);
        }
        i = i + 1;
    }
    proof {
        assert(text@.subrange(0, n as int) =~= text@);
    }
    if cur.as_str().unicode_len() > 0 {
        let ghost w0 = ws.deep_view();
        let ghost c0 = cur@;
        ws.push(cur);
        proof {
            assert(ws.deep_view() =~= w0.push(c0));
        }
    }
    let mut space = String::new();
    push_char(&mut space, ' ');
    join(&ws, space.as_str())
}


/// What a continuation plan does to the record kept in the session: a
/// plan that continues stores its new record; one that blocks, or stops
/// because the run was cancelled, the goal completed or blocked, or there
/// is no goal, clears it; one that stops for the user or for want of a next
/// action keeps it.
#[derive(Debug)]
pub enum ContinuationRecordChange {
    Store(TaskLedgerAutoContinuationState),
    Clear,
    Keep,
}

/// What a continuation plan does to the session's record, as
/// `ContinuationRecordChange` says.
pub fn continuation_record_change(plan: &AutoContinuationPlan) -> (r: ContinuationRecordChange)
    ensures
        match *plan {
            AutoContinuationPlan::Continue(next) => r matches ContinuationRecordChange::Store(s) && state_view(s)
                == state_view(next),
            AutoContinuationPlan::Block { .. } => r is Clear,
            AutoContinuationPlan::Stop(reason) => match reason {
                AutoContinuationStop::AwaitingUser | AutoContinuationStop::NoNext => r is Keep,
                _ => r is Clear,
            },
        },
{
    match plan {
        AutoContinuationPlan::Continue(next) => ContinuationRecordChange::Store(TaskLedgerAutoContinuationState {
            goal_generation: next.goal_generation,
            rounds: next.rounds,
            last_fingerprint: owned(next.last_fingerprint.as_str()),
            stagnant_rounds: next.stagnant_rounds,
        }),
        AutoContinuationPlan::Block { .. } => ContinuationRecordChange::Clear,
        AutoContinuationPlan::Stop(reason) => match reason {
            AutoContinuationStop::AwaitingUser | AutoContinuationStop::NoNext => ContinuationRecordChange::Keep,
            _ => ContinuationRecordChange::Clear,
        },
    }
}

} // verus!

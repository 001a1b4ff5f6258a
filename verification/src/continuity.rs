//! What a scheduler run carries over from the session it continues: the
//! exact recent tail of the conversation, how many turns it leaves out, and
//! the latest compaction summary.

use vstd::prelude::*;
use crate::recovery::MessageRole;
use crate::scheduler::{role_label_spec, scheduler_context_role_label};
use crate::text::{owned, trim, trim_str, cat, cat3, str_eq, decimal, decimal_string};

verus! {

/// How many of the latest turns are carried over exactly.
pub const SCHEDULER_RECENT_TAIL_MESSAGES: usize = 6;

/// A summary of older turns, from the message that holds it.
#[derive(Debug)]
pub struct CompactionSummary {
    pub message_id: String,
    pub summary: String,
}

/// What the continuity packet reads of a session message: its id, role and
/// text; for an assistant message, the summary that stands for it in model
/// context, if any; the compaction summary its metadata records, if any;
/// the summaries of its compaction parts, in order; and whether it is
/// marked as a summary.
#[derive(Debug)]
pub struct ContextMessage {
    pub id: String,
    pub role: MessageRole,
    pub text: String,
    pub projection_summary: Option<String>,
    pub metadata_compaction: Option<CompactionSummary>,
    pub compaction_parts: Vec<String>,
    pub marked_summary: bool,
}

/// Whether a message takes part in the conversation carried over: a user or
/// assistant message.
pub open spec fn is_context_message(m: ContextMessage) -> bool {
    m.role == MessageRole::User || m.role == MessageRole::Assistant
}

/// The note that stands for an assistant message in model context, with the
/// summary that projects it.
pub open spec fn projected_text_spec(id: Seq<char>, summary: Seq<char>) -> Seq<char> {
    "Projected assistant output for model context. The visible assistant message is preserved in session history; use `scheduler_context_hydrate` with message id `"@
        + id + "` if exact text is required.\n\n"@ + summary
}

/// The text a message is carried over as, and whether it is projected: an
/// assistant message with a projection summary by the note that projects
/// it, any other message by its text.
pub open spec fn context_text_spec(m: ContextMessage) -> (Seq<char>, bool) {
    if m.role == MessageRole::Assistant && m.projection_summary is Some {
        (projected_text_spec(m.id@, m.projection_summary->0@), true)
    } else {
        (m.text@, false)
    }
}

/// The text a message is carried over as, and whether it is projected.
pub fn scheduler_context_text_for_message(m: &ContextMessage) -> (r: (String, bool))
    ensures
        (r.0@, r.1) == context_text_spec(*m),
{
    if m.role == MessageRole::Assistant {
        if let Some(summary) = &m.projection_summary {
            let head = cat3(
                "Projected assistant output for model context. The visible assistant message is preserved in session history; use `scheduler_context_hydrate` with message id `",
                m.id.as_str(),
                "` if exact text is required.\n\n",
            );
            let mut t = head;
            t.append(summary.as_str());
            return (t, true);
        }
    }
    (owned(m.text.as_str()), false)
}

/// One turn carried over exactly.
#[derive(Debug)]
pub struct ContinuityTurn {
    pub message_id: String,
    pub role: String,
    pub text: String,
    pub projected: bool,
}

/// A turn's id, role, text and whether it is projected.
pub open spec fn turn_view(t: ContinuityTurn) -> (Seq<char>, Seq<char>, Seq<char>, bool) {
    (t.message_id@, t.role@, t.text@, t.projected)
}

/// The turns that could be carried over, in order: each user or assistant
/// message whose carried text is not blank, with that text trimmed.
pub open spec fn candidate_turns(ms: Seq<ContextMessage>) -> Seq<(Seq<char>, Seq<char>, Seq<char>, bool)>
    decreases ms.len(),
{
    if ms.len() == 0 {
        Seq::empty()
    } else {
        let prev = candidate_turns(ms.drop_last());
        let m = ms.last();
        let (text, projected) = context_text_spec(m);
        if is_context_message(m) && trim(text).len() > 0 {
            prev.push((m.id@, role_label_spec(m.role), trim(text), projected))
        } else {
            prev
        }
    }
}

/// The exact recent tail: the latest turns that could be carried over, at
/// most `SCHEDULER_RECENT_TAIL_MESSAGES` of them, in order.
pub open spec fn recent_tail_spec(ms: Seq<ContextMessage>) -> Seq<(Seq<char>, Seq<char>, Seq<char>, bool)> {
    let c = candidate_turns(ms);
    if c.len() > SCHEDULER_RECENT_TAIL_MESSAGES {
        c.subrange(c.len() - SCHEDULER_RECENT_TAIL_MESSAGES, c.len() as int)
    } else {
        c
    }
}

/// The exact recent tail of a session's messages, as `recent_tail_spec`
/// says.
pub fn collect_scheduler_recent_tail(ms: &Vec<ContextMessage>) -> (r: Vec<ContinuityTurn>)
    ensures
        r@.map_values(|t: ContinuityTurn| turn_view(t)) == recent_tail_spec(ms@),
{
    let mut all: Vec<ContinuityTurn> = Vec::new();
    let mut i: usize = 0;
    proof {
        assert(ms@.subrange(0, 0) =~= Seq::<ContextMessage>::empty());
        assert(all@.map_values(|t: ContinuityTurn| turn_view(t)) =~= Seq::<(Seq<char>, Seq<char>, Seq<char>, bool)>::empty());
    }
    while i < ms.len()
        invariant
            i <= ms@.len(),
            all@.map_values(|t: ContinuityTurn| turn_view(t)) == candidate_turns(ms@.subrange(0, i as int)),
        decreases ms@.len() - i,
    {
        proof {
            let sub = ms@.subrange(0, i + 1);
            assert(sub.drop_last() =~= ms@.subrange(0, i as int));
            assert(sub.last() == ms@[i as int]);
        }
        let m = &ms[i];
        if m.role == MessageRole::User || m.role == MessageRole::Assistant {
            let (text, projected) = scheduler_context_text_for_message(m);
            let t = trim_str(text.as_str());
            if t.as_str().unicode_len() > 0 {
                let ghost before = all@.map_values(|t: ContinuityTurn| turn_view(t));
                let turn = ContinuityTurn {
                    message_id: owned(m.id.as_str()),
                    role: owned(scheduler_context_role_label(&m.role)),
                    text: t,
                    projected,
                };
                let ghost tv = turn_view(turn);
                all.push(turn);
                proof {
                    assert(all@.map_values(|t: ContinuityTurn| turn_view(t)) =~= before.push(tv));
                }
            }
        }
        i = i + 1;
    }
    proof {
        assert(ms@.subrange(0, ms@.len() as int) =~= ms@);
    }
    let n = all.len();
    if n <= SCHEDULER_RECENT_TAIL_MESSAGES {
        return all;
    }
    let ghost av = all@.map_values(|t: ContinuityTurn| turn_view(t));
    let start = n - SCHEDULER_RECENT_TAIL_MESSAGES;
    let mut rest = all;
    let mut skipped: usize = 0;
    while skipped < start
        invariant
            skipped <= start,
            start == n - SCHEDULER_RECENT_TAIL_MESSAGES,
            n == av.len(),
            rest@.map_values(|t: ContinuityTurn| turn_view(t)) == av.subrange(skipped as int, n as int),
        decreases start - skipped,
    {
        let ghost rv = rest@;
        proof {
            assert(rest@.map_values(|t: ContinuityTurn| turn_view(t)).len() == rest@.len());
        }
        let _first = rest.remove(0);
        proof {
            assert(rest@ == rv.drop_first());
            assert(rest@.map_values(|t: ContinuityTurn| turn_view(t)) =~= rv.map_values(|t: ContinuityTurn| turn_view(t)).drop_first());
            assert(rest@.map_values(|t: ContinuityTurn| turn_view(t)) =~= av.subrange(skipped + 1, n as int));
        }
        skipped = skipped + 1;
    }
    rest
}

/// The number of user and assistant messages with text that is not blank.
pub open spec fn eligible_count_spec(ms: Seq<ContextMessage>) -> nat
    decreases ms.len(),
{
    if ms.len() == 0 {
        0
    } else {
        let m = ms.last();
        eligible_count_spec(ms.drop_last()) + if is_context_message(m) && trim(m.text@).len() > 0 {
            1nat
        } else {
            0nat
        }
    }
}

/// The number of user and assistant messages with text that is not blank.
pub fn count_scheduler_context_messages(ms: &Vec<ContextMessage>) -> (r: usize)
    ensures
        r == eligible_count_spec(ms@),
{
    let mut count: usize = 0;
    let mut i: usize = 0;
    while i < ms.len()
        invariant
            i <= ms@.len(),
            count == eligible_count_spec(ms@.subrange(0, i as int)),
            count <= i,
        decreases ms@.len() - i,
    {
        proof {
            let sub = ms@.subrange(0, i + 1);
            assert(sub.drop_last() =~= ms@.subrange(0, i as int));
            assert(sub.last() == ms@[i as int]);
        }
        let m = &ms[i];
        if (m.role == MessageRole::User || m.role == MessageRole::Assistant) && trim_str(m.text.as_str()).as_str().unicode_len() > 0 {
            count = count + 1;
        }
        i = i + 1;
    }
    proof {
        assert(ms@.subrange(0, ms@.len() as int) =~= ms@);
    }
    count
}

/// The last compaction part of a message whose summary is not blank,
/// trimmed.
pub open spec fn last_compaction_part(parts: Seq<Seq<char>>) -> Option<Seq<char>>
    decreases parts.len(),
{
    if parts.len() == 0 {
        None
    } else if trim(parts.last()).len() > 0 {
        Some(trim(parts.last()))
    } else {
        last_compaction_part(parts.drop_last())
    }
}

/// The compaction summary a message holds: for an assistant message, the one
/// its metadata records, else its last compaction part that is not blank,
/// else its own text where it is marked as a summary and not blank.
pub open spec fn message_compaction_spec(m: ContextMessage) -> Option<(Seq<char>, Seq<char>)> {
    if m.role != MessageRole::Assistant {
        None
    } else {
        match m.metadata_compaction {
            Some(c) => Some((c.message_id@, c.summary@)),
            None => match last_compaction_part(m.compaction_parts.deep_view()) {
                Some(p) => Some((m.id@, p)),
                None => if m.marked_summary && trim(m.text@).len() > 0 {
                    Some((m.id@, trim(m.text@)))
                } else {
                    None
                },
            },
        }
    }
}

/// The latest compaction summary of the session: that of the latest message
/// holding one.
pub open spec fn latest_compaction_spec(ms: Seq<ContextMessage>) -> Option<(Seq<char>, Seq<char>)>
    decreases ms.len(),
{
    if ms.len() == 0 {
        None
    } else {
        match message_compaction_spec(ms.last()) {
            Some(c) => Some(c),
            None => latest_compaction_spec(ms.drop_last()),
        }
    }
}

fn message_compaction(m: &ContextMessage) -> (r: Option<CompactionSummary>)
    ensures
        match r {
            Some(c) => message_compaction_spec(*m) == Some((c.message_id@, c.summary@)),
            None => message_compaction_spec(*m) is None,
        },
{
    if m.role != MessageRole::Assistant {
        return None;
    }
    if let Some(c) = &m.metadata_compaction {
        return Some(CompactionSummary { message_id: owned(c.message_id.as_str()), summary: owned(c.summary.as_str()) });
    }
    let ghost pv = m.compaction_parts.deep_view();
    let mut j: usize = m.compaction_parts.len();
    proof {
        assert(pv.subrange(0, pv.len() as int) =~= pv);
    }
    while j > 0
        invariant
            j <= pv.len(),
            pv == m.compaction_parts.deep_view(),
            m.role == MessageRole::Assistant,
            m.metadata_compaction is None,
            last_compaction_part(pv) == last_compaction_part(pv.subrange(0, j as int)),
        decreases j,
    {
        let t = trim_str(m.compaction_parts[j - 1].as_str());
        proof {
            let sub = pv.subrange(0, j as int);
            assert(sub.last() == m.compaction_parts@[j - 1]@);
            assert(sub.drop_last() =~= pv.subrange(0, j - 1));
        }
        if t.as_str().unicode_len() > 0 {
            return Some(CompactionSummary { message_id: owned(m.id.as_str()), summary: t });
        }
        j = j - 1;
    }
    if m.marked_summary {
        let t = trim_str(m.text.as_str());
        if t.as_str().unicode_len() > 0 {
            return Some(CompactionSummary { message_id: owned(m.id.as_str()), summary: t });
        }
    }
    None
}

/// The latest compaction summary of a session's messages, as
/// `latest_compaction_spec` says.
pub fn latest_compaction_summary(ms: &Vec<ContextMessage>) -> (r: Option<CompactionSummary>)
    ensures
        match r {
            Some(c) => latest_compaction_spec(ms@) == Some((c.message_id@, c.summary@)),
            None => latest_compaction_spec(ms@) is None,
        },
{
    let mut j: usize = ms.len();
    proof {
        assert(ms@.subrange(0, ms@.len() as int) =~= ms@);
    }
    while j > 0
        invariant
            j <= ms@.len(),
            latest_compaction_spec(ms@) == latest_compaction_spec(ms@.subrange(0, j as int)),
        decreases j,
    {
        proof {
            let sub = ms@.subrange(0, j as int);
            assert(sub.last() == ms@[j - 1]);
            assert(sub.drop_last() =~= ms@.subrange(0, j - 1));
        }
        match message_compaction(&ms[j - 1]) {
            Some(c) => return Some(c),
            None => {},
        }
        j = j - 1;
    }
    None
}

/// The counts a continuity packet reports: the eligible messages, the turns
/// carried over exactly, and the turns left out.
#[derive(Debug, Clone, Copy, PartialEq, Eq)]
pub struct ContinuityCounts {
    pub eligible_message_count: usize,
    pub exact_recent_tail_count: usize,
    pub omitted_older_turns: usize,
}

/// The counts a continuity packet reports; the turns left out are the
/// eligible messages beyond the tail, none where the tail covers them all.
pub fn continuity_counts(eligible_message_count: usize, exact_recent_tail_count: usize) -> (r: ContinuityCounts)
    ensures
        r.eligible_message_count == eligible_message_count,
        r.exact_recent_tail_count == exact_recent_tail_count,
        r.omitted_older_turns == if eligible_message_count > exact_recent_tail_count {
            (eligible_message_count - exact_recent_tail_count) as usize
        } else {
            0
        },
{
    ContinuityCounts {
        eligible_message_count,
        exact_recent_tail_count,
        omitted_older_turns: if eligible_message_count > exact_recent_tail_count {
            eligible_message_count - exact_recent_tail_count
        } else {
            0
        },
    }
}

/// Whether a run carries a continuity packet: it has a recent tail, memory
/// anchors, working-ledger entries, a task ledger or a compaction summary.
pub fn has_continuity(
    tail_len: usize,
    anchor_count: usize,
    ledger_entries: usize,
    has_task_ledger: bool,
    has_compaction: bool,
) -> (r: bool)
    ensures
        r == (tail_len > 0 || anchor_count > 0 || ledger_entries > 0 || has_task_ledger || has_compaction),
{
    tail_len > 0 || anchor_count > 0 || ledger_entries > 0 || has_task_ledger || has_compaction
}

/// The kind of a working-ledger entry.
#[derive(Debug, Clone, Copy, PartialEq, Eq, Structural)]
pub enum LedgerEntryKind {
    SessionTitle,
    SessionDiff,
    LatestUserTurn,
    LatestAssistantOutcome,
    SourcePolicy,
}

/// A text cut to at most `limit` characters, and then put on one line where
/// `single_line` says so. The cut itself is made by the caller's text
/// utilities.
#[derive(Debug)]
pub struct CutText {
    pub text: String,
    pub limit: usize,
    pub single_line: bool,
}

/// A working-ledger entry as planned: its kind, the message it comes from,
/// and its text: `prefix` followed by the cut text, where there is one.
#[derive(Debug)]
pub struct LedgerEntryPlan {
    pub kind: LedgerEntryKind,
    pub source_id: Option<String>,
    pub prefix: String,
    pub cut: Option<CutText>,
}

/// A planned entry as plain values.
pub struct EntryModel {
    pub kind: LedgerEntryKind,
    pub source_id: Option<Seq<char>>,
    pub prefix: Seq<char>,
    pub cut: Option<(Seq<char>, usize, bool)>,
}

/// The content of a planned entry.
pub open spec fn entry_view(e: LedgerEntryPlan) -> EntryModel {
    EntryModel {
        kind: e.kind,
        source_id: match e.source_id {
            Some(s) => Some(s@),
            None => None,
        },
        prefix: e.prefix@,
        cut: match e.cut {
            Some(c) => Some((c.text@, c.limit, c.single_line)),
            None => None,
        },
    }
}

/// What a session's changes amount to: files, added and deleted lines.
#[derive(Debug, Clone, Copy, PartialEq, Eq)]
pub struct SessionDiffSummary {
    pub files: u64,
    pub additions: u64,
    pub deletions: u64,
}

/// The index of the latest turn of the tail with the given role.
pub open spec fn latest_with_role(tail: Seq<(Seq<char>, Seq<char>, Seq<char>, bool)>, role: Seq<char>) -> Option<int>
    decreases tail.len(),
{
    if tail.len() == 0 {
        None
    } else if tail.last().1 == role {
        Some(tail.len() - 1)
    } else {
        latest_with_role(tail.drop_last(), role)
    }
}

/// The source policy that closes a non-empty working ledger.
pub open spec fn source_policy_text() -> Seq<char> {
    "source_policy: use Exact Recent Tail for prior conversation outputs; projected assistant turns are summaries and require scheduler_context_hydrate when exact prior text matters; use tools for current file state, diagnostics, and verification evidence."@
}

/// The entry for the latest turn of a role, if the tail has one.
pub open spec fn turn_entry(
    tail: Seq<(Seq<char>, Seq<char>, Seq<char>, bool)>,
    role: Seq<char>,
    kind: LedgerEntryKind,
    label: Seq<char>,
    limit: usize,
) -> Seq<EntryModel> {
    match latest_with_role(tail, role) {
        Some(i) => seq![EntryModel {
            kind,
            source_id: Some(tail[i].0),
            prefix: label + " `"@ + tail[i].0 + "`: "@,
            cut: Some((tail[i].2, limit, true)),
        }],
        None => Seq::empty(),
    }
}

/// The working ledger before its closing policy: the session's title
/// (trimmed, where it is set and not the default one, cut to 160
/// characters); the size of its changes, where known; the latest user turn
/// of the tail (cut to 240 characters, on one line); and the latest
/// assistant turn (cut to 360 characters, on one line).
pub open spec fn ledger_body_spec(
    title: Seq<char>,
    default_title: bool,
    diff: Option<SessionDiffSummary>,
    tail: Seq<(Seq<char>, Seq<char>, Seq<char>, bool)>,
) -> Seq<EntryModel> {
    (if trim(title).len() > 0 && !default_title {
        seq![EntryModel {
            kind: LedgerEntryKind::SessionTitle,
            source_id: None,
            prefix: "session_title: "@,
            cut: Some((trim(title), 160usize, false)),
        }]
    } else {
        Seq::empty()
    }) + (match diff {
        Some(d) => seq![EntryModel {
            kind: LedgerEntryKind::SessionDiff,
            source_id: None,
            prefix: "session_diff: files="@ + decimal(d.files as nat) + " additions="@ + decimal(d.additions as nat)
                + " deletions="@ + decimal(d.deletions as nat),
            cut: None,
        }],
        None => Seq::empty(),
    }) + turn_entry(tail, "user"@, LedgerEntryKind::LatestUserTurn, "latest_user_turn"@, 240usize) + turn_entry(
        tail,
        "assistant"@,
        LedgerEntryKind::LatestAssistantOutcome,
        "latest_assistant_outcome"@,
        360usize,
    )
}

/// The working ledger: its body as `ledger_body_spec` says, closed by the
/// source policy where the body is not empty.
pub open spec fn working_ledger_spec(
    title: Seq<char>,
    default_title: bool,
    diff: Option<SessionDiffSummary>,
    tail: Seq<(Seq<char>, Seq<char>, Seq<char>, bool)>,
) -> Seq<EntryModel> {
    let body = ledger_body_spec(title, default_title, diff, tail);
    if body.len() > 0 {
        body.push(EntryModel { kind: LedgerEntryKind::SourcePolicy, source_id: None, prefix: source_policy_text(), cut: None })
    } else {
        body
    }
}

fn latest_turn_with_role(tail: &Vec<ContinuityTurn>, role: &str) -> (r: Option<usize>)
    ensures
        match r {
            Some(i) => latest_with_role(tail@.map_values(|t: ContinuityTurn| turn_view(t)), role@) == Some(i as int)
                && i < tail@.len(),
            None => latest_with_role(tail@.map_values(|t: ContinuityTurn| turn_view(t)), role@) is None,
        },
{
    let ghost tv = tail@.map_values(|t: ContinuityTurn| turn_view(t));
    let mut i: usize = tail.len();
    proof {
        assert(tv.subrange(0, i as int) =~= tv);
    }
    while i > 0
        invariant
            i <= tail@.len(),
            tv == tail@.map_values(|t: ContinuityTurn| turn_view(t)),
            latest_with_role(tv, role@) == latest_with_role(tv.subrange(0, i as int), role@),
        decreases i,
    {
        let ghost sub = tv.subrange(0, i as int);
        proof {
            assert(sub.drop_last() =~= tv.subrange(0, i - 1));
            assert(sub.last() == turn_view(tail@[i - 1]));
        }
        if str_eq(tail[i - 1].role.as_str(), role) {
            return Some(i - 1);
        }
        i = i - 1;
    }
    proof {
        assert(tv.subrange(0, 0).len() == 0);
    }
    None
}

fn push_turn_entry(
    out: &mut Vec<LedgerEntryPlan>,
    tail: &Vec<ContinuityTurn>,
    role: &str,
    kind: LedgerEntryKind,
    label: &str,
    limit: usize,
)
    ensures
        final(out)@.map_values(|e: LedgerEntryPlan| entry_view(e)) == old(out)@.map_values(
            |e: LedgerEntryPlan| entry_view(e),
        ) + turn_entry(tail@.map_values(|t: ContinuityTurn| turn_view(t)), role@, kind, label@, limit),
{
    let ghost before = out@.map_values(|e: LedgerEntryPlan| entry_view(e));
    let ghost tv = tail@.map_values(|t: ContinuityTurn| turn_view(t));
    match latest_turn_with_role(tail, role) {
        Some(i) => {
            let t = &tail[i];
            let mut prefix = cat3(label, " `", t.message_id.as_str());
            prefix.append("`: ");
            let e = LedgerEntryPlan {
                kind,
                source_id: Some(owned(t.message_id.as_str())),
                prefix,
                cut: Some(CutText { text: owned(t.text.as_str()), limit, single_line: true }),
            };
            proof {
                assert(tv[i as int] == turn_view(tail@[i as int]));
            }
            let ghost ev = entry_view(e);
            out.push(e);
            proof {
                assert(out@.map_values(|e: LedgerEntryPlan| entry_view(e)) =~= before.push(ev));
                assert(turn_entry(tv, role@, kind, label@, limit) =~= seq![ev]);
            }
        },
        None => {
            proof {
                assert(before + turn_entry(tv, role@, kind, label@, limit) =~= before);
            }
        },
    }
}

/// Plans a session's working ledger, as `working_ledger_spec` says, from its
/// title (and whether it is the default one), the size of its changes and
/// the exact recent tail; the texts to cut are left to the caller.
pub fn plan_scheduler_working_ledger(
    title: &str,
    default_title: bool,
    diff: Option<SessionDiffSummary>,
    recent_tail: &Vec<ContinuityTurn>,
) -> (r: Vec<LedgerEntryPlan>)
    ensures
        r@.map_values(|e: LedgerEntryPlan| entry_view(e)) == working_ledger_spec(
            title@,
            default_title,
            diff,
            recent_tail@.map_values(|t: ContinuityTurn| turn_view(t)),
        ),
{
    let mut out: Vec<LedgerEntryPlan> = Vec::new();
    let ghost tv = recent_tail@.map_values(|t: ContinuityTurn| turn_view(t));
    let t = trim_str(title);
    if t.as_str().unicode_len() > 0 && !default_title {
        let e = LedgerEntryPlan {
            kind: LedgerEntryKind::SessionTitle,
            source_id: None,
            prefix: owned("session_title: "),
            cut: Some(CutText { text: t, limit: 160, single_line: false }),
        };
        let ghost ev = entry_view(e);
        out.push(e);
        proof {
            assert(out@.map_values(|e: LedgerEntryPlan| entry_view(e)) =~= seq![ev]);
        }
    } else {
        proof {
            assert(out@.map_values(|e: LedgerEntryPlan| entry_view(e)) =~= Seq::<EntryModel>::empty());
        }
    }
    let ghost after_title = out@.map_values(|e: LedgerEntryPlan| entry_view(e));
    match diff {
        Some(d) => {
            let mut text = cat("session_diff: files=", decimal_string(d.files).as_str());
            text.append(" additions=");
            text.append(decimal_string(d.additions).as_str());
            text.append(" deletions=");
            text.append(decimal_string(d.deletions).as_str());
            let e = LedgerEntryPlan { kind: LedgerEntryKind::SessionDiff, source_id: None, prefix: text, cut: None };
            let ghost ev = entry_view(e);
            out.push(e);
            proof {
                assert(out@.map_values(|e: LedgerEntryPlan| entry_view(e)) =~= after_title.push(ev));
                assert(after_title.push(ev) =~= after_title + seq![ev]);
            }
        },
        None => {
            proof {
                assert(after_title + Seq::<EntryModel>::empty() =~= after_title);
            }
        },
    }
    push_turn_entry(&mut out, recent_tail, "user", LedgerEntryKind::LatestUserTurn, "latest_user_turn", 240);
    push_turn_entry(
        &mut out,
        recent_tail,
        "assistant",
        LedgerEntryKind::LatestAssistantOutcome,
        "latest_assistant_outcome",
        360,
    );
    let ghost body = out@.map_values(|e: LedgerEntryPlan| entry_view(e));
    proof {
        assert(body =~= ledger_body_spec(title@, default_title, diff, tv));
    }
    if out.len() > 0 {
        let e = LedgerEntryPlan {
            kind: LedgerEntryKind::SourcePolicy,
            source_id: None,
            prefix: owned(
                "source_policy: use Exact Recent Tail for prior conversation outputs; projected assistant turns are summaries and require scheduler_context_hydrate when exact prior text matters; use tools for current file state, diagnostics, and verification evidence.",
            ),
            cut: None,
        };
        let ghost ev = entry_view(e);
        out.push(e);
        proof {
            assert(out@.map_values(|e: LedgerEntryPlan| entry_view(e)) =~= body.push(ev));
        }
    }
    out
}

/// How many characters of context a continuity packet renders at most.
pub const SCHEDULER_CONTEXT_TEXT_LIMIT: usize = 4000;

/// How many characters of one turn a continuity packet renders at most.
pub const SCHEDULER_CONTEXT_TURN_LIMIT: usize = 1200;

/// The limits a continuity packet reports.
#[derive(Debug, Clone, Copy, PartialEq, Eq)]
pub struct ContinuityLimits {
    pub recent_tail_messages: usize,
    pub context_text_chars: usize,
    pub turn_text_chars: usize,
}

/// What a continuity packet says of itself: its counts, its limits and how
/// prior text is to be recalled.
#[derive(Debug)]
pub struct ContinuityPacketHeader {
    pub counts: ContinuityCounts,
    pub limits: ContinuityLimits,
    pub recall_policy: String,
}

/// How a scheduler recalls what the packet leaves out.
pub open spec fn recall_policy_text() -> Seq<char> {
    "exact_tail_for_recent_followups; ledger_and_compaction_are_lossy; use_scheduler_context_hydrate_for_authorized_source_anchors_when_prior_exact_text_is_needed; use_scheduler_memory_hydrate_for_authorized_memory_anchors_when_exact_memory_detail_is_needed; use_memory_artifacts_or_tools_for_facts_outside_anchors"@
}

/// The header of a session's continuity packet: none where the run carries
/// no continuity (as `has_continuity` says); otherwise the counts as
/// `continuity_counts` gives them, the tail, context and turn limits, and
/// the recall policy.
pub fn continuity_packet_header(
    eligible_message_count: usize,
    tail_len: usize,
    anchor_count: usize,
    ledger_entries: usize,
    has_task_ledger: bool,
    has_compaction: bool,
) -> (r: Option<ContinuityPacketHeader>)
    ensures
        r is Some <==> (tail_len > 0 || anchor_count > 0 || ledger_entries > 0 || has_task_ledger || has_compaction),
        r matches Some(h) ==> {
            &&& h.counts.eligible_message_count == eligible_message_count
            &&& h.counts.exact_recent_tail_count == tail_len
            &&& h.counts.omitted_older_turns == if eligible_message_count > tail_len {
                (eligible_message_count - tail_len) as usize
            } else {
                0
            }
            &&& h.limits == ContinuityLimits {
                recent_tail_messages: SCHEDULER_RECENT_TAIL_MESSAGES,
                context_text_chars: SCHEDULER_CONTEXT_TEXT_LIMIT,
                turn_text_chars: SCHEDULER_CONTEXT_TURN_LIMIT,
            }
            &&& h.recall_policy@ == recall_policy_text()
        },
{
    if !has_continuity(tail_len, anchor_count, ledger_entries, has_task_ledger, has_compaction) {
        return None;
    }
    Some(ContinuityPacketHeader {
        counts: continuity_counts(eligible_message_count, tail_len),
        limits: ContinuityLimits {
            recent_tail_messages: SCHEDULER_RECENT_TAIL_MESSAGES,
            context_text_chars: SCHEDULER_CONTEXT_TEXT_LIMIT,
            turn_text_chars: SCHEDULER_CONTEXT_TURN_LIMIT,
        },
        recall_policy: owned(
            "exact_tail_for_recent_followups; ledger_and_compaction_are_lossy; use_scheduler_context_hydrate_for_authorized_source_anchors_when_prior_exact_text_is_needed; use_scheduler_memory_hydrate_for_authorized_memory_anchors_when_exact_memory_detail_is_needed; use_memory_artifacts_or_tools_for_facts_outside_anchors",
        ),
    })
}

} // verus!

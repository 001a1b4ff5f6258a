//! The server-sent event stream: which events a subscriber receives, how live
//! output blocks are coalesced, and how consecutive text deltas are batched.

use vstd::prelude::*;
use crate::text::{opt_view, copy_opt};
use crate::text::{owned, str_eq, cat};
use crate::live_snapshot::{
    LivePartIdentity, LivePartKind, LivePartPhase, LiveSnapshotAccumulator, folded_text, held_text,
    part_key,
};

verus! {

/// What a subscriber tier asks to receive.
#[derive(Debug, Clone, Copy, PartialEq, Eq, Structural)]
pub struct SubscriptionCaps {
    pub final_only: bool,
    pub reasoning_delta: bool,
    pub message_text_delta: bool,
    pub tool_progress: bool,
    pub runtime_live_view: bool,
}

/// Capabilities that let every event through.
pub open spec fn full_caps(c: SubscriptionCaps) -> bool {
    !c.final_only && c.reasoning_delta && c.message_text_delta && c.tool_progress
        && c.runtime_live_view
}

/// Whether an output block of this kind and phase reaches a subscriber that
/// does not receive everything.
pub open spec fn block_passes_spec(kind: Seq<char>, phase: Seq<char>, c: SubscriptionCaps) -> bool {
    if kind == "reasoning"@ {
        !c.final_only && (phase != "delta"@ || c.reasoning_delta)
    } else if kind == "message"@ {
        !c.final_only && c.message_text_delta
    } else if kind == "scheduler_stage"@ {
        !c.final_only && c.tool_progress
    } else if kind == "tool"@ {
        phase == "done"@ || phase == "error"@ || (!c.final_only && c.tool_progress)
    } else {
        !c.final_only
    }
}

/// An optional text, the empty text when missing.
pub open spec fn or_empty(o: Option<Seq<char>>) -> Seq<char> {
    match o {
        Some(s) => s,
        None => Seq::empty(),
    }
}


fn str_or_empty(o: &Option<String>) -> (r: &str)
    ensures
        r@ == or_empty(opt_view(*o)),
{
    match o {
        Some(s) => s.as_str(),
        None => {
            proof {
                reveal_strlit("");
            }
            ""
        },
    }
}

fn block_passes(kind: &str, phase: &str, caps: &SubscriptionCaps) -> (r: bool)
    ensures
        r == block_passes_spec(kind@, phase@, *caps),
{
    if str_eq(kind, "reasoning") {
        !caps.final_only && (!str_eq(phase, "delta") || caps.reasoning_delta)
    } else if str_eq(kind, "message") {
        !caps.final_only && caps.message_text_delta
    } else if str_eq(kind, "scheduler_stage") {
        !caps.final_only && caps.tool_progress
    } else if str_eq(kind, "tool") {
        str_eq(phase, "done") || str_eq(phase, "error") || (!caps.final_only && caps.tool_progress)
    } else {
        !caps.final_only
    }
}

fn all_caps(caps: &SubscriptionCaps) -> (r: bool)
    ensures
        r == full_caps(*caps),
{
    !caps.final_only && caps.reasoning_delta && caps.message_text_delta && caps.tool_progress
        && caps.runtime_live_view
}

/// What the stream reads of a live part identity.
pub struct IdentityModel {
    pub message_id: Seq<char>,
    pub part_key: Seq<char>,
    pub part_kind: LivePartKind,
    pub phase: LivePartPhase,
}

/// The model of a live part identity.
pub open spec fn identity_model(i: LivePartIdentity) -> IdentityModel {
    IdentityModel {
        message_id: i.message_id@,
        part_key: i.part_key@,
        part_kind: i.part_kind,
        phase: i.phase,
    }
}

/// An output block event: its session, its block id, the block's fields that
/// the stream reads (`kind`, `phase`, `role`, `text`, `detail`, each when it
/// is a string) and the live identity of the part it updates.
pub struct OutputBlockView {
    pub session_id: String,
    pub id: Option<String>,
    pub kind: Option<String>,
    pub phase: Option<String>,
    pub role: Option<String>,
    pub text: Option<String>,
    pub detail: Option<String>,
    pub live_identity: Option<LivePartIdentity>,
}

/// The model of an output block event.
pub struct BlockModel {
    pub session_id: Seq<char>,
    pub id: Option<Seq<char>>,
    pub kind: Option<Seq<char>>,
    pub phase: Option<Seq<char>>,
    pub role: Option<Seq<char>>,
    pub text: Option<Seq<char>>,
    pub detail: Option<Seq<char>>,
    pub identity: Option<IdentityModel>,
}

impl View for OutputBlockView {
    type V = BlockModel;

    open spec fn view(&self) -> BlockModel {
        BlockModel {
            session_id: self.session_id@,
            id: opt_view(self.id),
            kind: opt_view(self.kind),
            phase: opt_view(self.phase),
            role: opt_view(self.role),
            text: opt_view(self.text),
            detail: opt_view(self.detail),
            identity: match self.live_identity {
                Some(i) => Some(identity_model(i)),
                None => None,
            },
        }
    }
}


fn copy_identity(i: &LivePartIdentity) -> (r: LivePartIdentity)
    ensures
        identity_model(r) == identity_model(*i),
{
    LivePartIdentity {
        message_id: owned(i.message_id.as_str()),
        part_key: owned(i.part_key.as_str()),
        part_kind: i.part_kind,
        phase: i.phase,
    }
}

impl OutputBlockView {
    /// A copy of the block event.
    pub fn copy(&self) -> (r: Self)
        ensures
            r@ == self@,
    {
        OutputBlockView {
            session_id: owned(self.session_id.as_str()),
            id: copy_opt(&self.id),
            kind: copy_opt(&self.kind),
            phase: copy_opt(&self.phase),
            role: copy_opt(&self.role),
            text: copy_opt(&self.text),
            detail: copy_opt(&self.detail),
            live_identity: match &self.live_identity {
                Some(i) => Some(copy_identity(i)),
                None => None,
            },
        }
    }
}

/// An event of the server stream: an output block, a usage report, or any
/// other event, each with the session it belongs to, if any.
pub enum StreamEvent {
    OutputBlock(OutputBlockView),
    Usage { session_id: Option<String> },
    Other { session_id: Option<String> },
}

/// The model of a stream event.
pub enum EventModel {
    OutputBlock(BlockModel),
    Usage { session_id: Option<Seq<char>> },
    Other { session_id: Option<Seq<char>> },
}

impl View for StreamEvent {
    type V = EventModel;

    open spec fn view(&self) -> EventModel {
        match self {
            StreamEvent::OutputBlock(b) => EventModel::OutputBlock(b@),
            StreamEvent::Usage { session_id } => EventModel::Usage { session_id: opt_view(*session_id) },
            StreamEvent::Other { session_id } => EventModel::Other { session_id: opt_view(*session_id) },
        }
    }
}

/// Whether a server event reaches a subscriber with these capabilities: all
/// do when it receives everything; otherwise output blocks by their kind and
/// phase, usage only to a live view, every other event always.
pub open spec fn event_passes_spec(e: EventModel, c: SubscriptionCaps) -> bool {
    if full_caps(c) {
        true
    } else {
        match e {
            EventModel::OutputBlock(b) => block_passes_spec(or_empty(b.kind), or_empty(b.phase), c),
            EventModel::Usage { .. } => !c.final_only && c.runtime_live_view,
            EventModel::Other { .. } => true,
        }
    }
}

proof fn lemma_kind_literals_differ()
    ensures
        "tool"@ != "reasoning"@,
        "tool"@ != "message"@,
        "tool"@ != "scheduler_stage"@,
        "reasoning"@ != "message"@,
        "reasoning"@ != "scheduler_stage"@,
        "message"@ != "scheduler_stage"@,
{
    reveal_strlit("tool");
    reveal_strlit("reasoning");
    reveal_strlit("message");
    reveal_strlit("scheduler_stage");
    assert("tool"@.len() != "reasoning"@.len());
    assert("tool"@.len() != "message"@.len());
    assert("tool"@.len() != "scheduler_stage"@.len());
    assert("reasoning"@.len() != "message"@.len());
    assert("reasoning"@.len() != "scheduler_stage"@.len());
    assert("message"@.len() != "scheduler_stage"@.len());
}

/// A finished or failed tool block reaches every subscriber, whatever its
/// capabilities, final-only ones included.
pub proof fn lemma_finished_tool_blocks_reach_everyone(b: BlockModel, c: SubscriptionCaps)
    requires
        b.kind == Some("tool"@),
        b.phase == Some("done"@) || b.phase == Some("error"@),
    ensures
        event_passes_spec(EventModel::OutputBlock(b), c),
{
    lemma_kind_literals_differ();
}

/// On the frontend stream too, a finished or failed tool block reaches every
/// subscriber.
pub proof fn lemma_finished_frontend_tool_blocks_reach_everyone(e: FrontendEvent, c: SubscriptionCaps)
    requires
        e matches FrontendEvent::OutputBlockAppended { kind, phase, .. } && opt_view(kind) == Some("tool"@) && (
        opt_view(phase) == Some("done"@) || opt_view(phase) == Some("error"@)),
    ensures
        frontend_passes_spec(e, c),
{
    lemma_kind_literals_differ();
}

/// A final-only subscriber receives no live text: no reasoning, message or
/// scheduler-stage block, and no tool block still in progress.
pub proof fn lemma_final_only_sees_no_live_blocks(b: BlockModel, c: SubscriptionCaps)
    requires
        c.final_only,
        b.kind == Some("reasoning"@) || b.kind == Some("message"@) || b.kind == Some("scheduler_stage"@) || (b.kind
            == Some("tool"@) && b.phase != Some("done"@) && b.phase != Some("error"@)),
    ensures
        !event_passes_spec(EventModel::OutputBlock(b), c),
{
    lemma_kind_literals_differ();
    reveal_strlit("done");
    reveal_strlit("error");
    reveal_strlit("");
    assert(!full_caps(c));
    if b.kind == Some("tool"@) {
        assert(or_empty(b.phase) != "done"@) by {
            if b.phase is None {
                assert(""@.len() != "done"@.len());
            }
        }
        assert(or_empty(b.phase) != "error"@) by {
            if b.phase is None {
                assert(""@.len() != "error"@.len());
            }
        }
    }
}

/// Whether a server event reaches a subscriber with these capabilities.
pub fn event_passes_subscription_caps(event: &StreamEvent, caps: &SubscriptionCaps) -> (r: bool)
    ensures
        r == event_passes_spec(event@, *caps),
{
    if all_caps(caps) {
        return true;
    }
    match event {
        StreamEvent::OutputBlock(b) => block_passes(str_or_empty(&b.kind), str_or_empty(&b.phase), caps),
        StreamEvent::Usage { .. } => !caps.final_only && caps.runtime_live_view,
        StreamEvent::Other { .. } => true,
    }
}

/// An event of the frontend stream: an appended output block, by its kind and
/// phase, or any other event; each belongs to a session.
pub enum FrontendEvent {
    OutputBlockAppended { session_id: String, kind: Option<String>, phase: Option<String> },
    Other { session_id: String },
}

/// Whether a frontend event reaches a subscriber with these capabilities.
pub open spec fn frontend_passes_spec(e: FrontendEvent, c: SubscriptionCaps) -> bool {
    if full_caps(c) {
        true
    } else {
        match e {
            FrontendEvent::OutputBlockAppended { kind, phase, .. } => block_passes_spec(
                or_empty(opt_view(kind)),
                or_empty(opt_view(phase)),
                c,
            ),
            FrontendEvent::Other { .. } => true,
        }
    }
}

/// Whether a frontend event reaches a subscriber with these capabilities.
pub fn frontend_event_passes_subscription_caps(event: &FrontendEvent, caps: &SubscriptionCaps) -> (r:
    bool)
    ensures
        r == frontend_passes_spec(*event, *caps),
{
    if all_caps(caps) {
        return true;
    }
    match event {
        FrontendEvent::OutputBlockAppended { kind, phase, .. } => block_passes(
            str_or_empty(kind),
            str_or_empty(phase),
            caps,
        ),
        FrontendEvent::Other { .. } => true,
    }
}

/// The session a frontend event belongs to.
pub fn frontend_event_session_id(event: &FrontendEvent) -> (r: &str)
    ensures
        r@ == match *event {
            FrontendEvent::OutputBlockAppended { session_id, .. } => session_id@,
            FrontendEvent::Other { session_id } => session_id@,
        },
{
    match event {
        FrontendEvent::OutputBlockAppended { session_id, .. } => session_id.as_str(),
        FrontendEvent::Other { session_id } => session_id.as_str(),
    }
}

/// Whether a raw frontend event passes a session filter: always without a
/// filter; an event that does not parse never passes one; otherwise only
/// events of the filtered session.
pub fn frontend_raw_matches_filter(event: &Option<FrontendEvent>, session_filter: Option<&str>) -> (r:
    bool)
    ensures
        r == match session_filter {
            None => true,
            Some(f) => match *event {
                None => false,
                Some(e) => match e {
                    FrontendEvent::OutputBlockAppended { session_id, .. } => session_id@ == f@,
                    FrontendEvent::Other { session_id } => session_id@ == f@,
                },
            },
        },
{
    match session_filter {
        None => true,
        Some(f) => match event {
            None => false,
            Some(e) => str_eq(frontend_event_session_id(e), f),
        },
    }
}

/// Whether the frontend stream forwards a raw event: it passes the session
/// filter, parses, and reaches the subscriber's capabilities.
pub fn frontend_event_forwarded(
    event: &Option<FrontendEvent>,
    session_filter: Option<&str>,
    caps: &SubscriptionCaps,
) -> (r: bool)
    ensures
        r == (match session_filter {
            None => true,
            Some(f) => match *event {
                None => false,
                Some(e) => match e {
                    FrontendEvent::OutputBlockAppended { session_id, .. } => session_id@ == f@,
                    FrontendEvent::Other { session_id } => session_id@ == f@,
                },
            },
        } && match *event {
            None => false,
            Some(e) => frontend_passes_spec(e, *caps),
        }),
{
    if !frontend_raw_matches_filter(event, session_filter) {
        return false;
    }
    match event {
        None => false,
        Some(e) => frontend_event_passes_subscription_caps(e, caps),
    }
}

/// How consecutive live text blocks of one part may be batched: deltas are
/// appended, full snapshots replace each other.
#[derive(Debug, Clone, Copy, PartialEq, Eq, Structural)]
pub enum MergeMode {
    AppendDelta,
    ReplaceSnapshot,
}

/// How an output block may be batched with the next, if at all: it needs a
/// non-empty id and the kind `message` or `reasoning`; a `delta` phase is
/// appended, a `full` phase replaced when it is a snapshot of assistant text
/// or reasoning.
pub open spec fn block_mode(b: BlockModel) -> Option<MergeMode> {
    if or_empty(b.id).len() == 0 {
        None
    } else if b.kind != Some("message"@) && b.kind != Some("reasoning"@) {
        None
    } else if b.phase == Some("delta"@) {
        Some(MergeMode::AppendDelta)
    } else if b.phase == Some("full"@) && (b.identity matches Some(i) && (i.part_kind
        == LivePartKind::AssistantText || i.part_kind == LivePartKind::AssistantReasoning) && i.phase
        == LivePartPhase::Snapshot) {
        Some(MergeMode::ReplaceSnapshot)
    } else {
        None
    }
}

/// How a stream event may be batched, if at all.
pub open spec fn event_mode(e: EventModel) -> Option<MergeMode> {
    match e {
        EventModel::OutputBlock(b) => block_mode(b),
        _ => None,
    }
}

fn opt_eq(a: &Option<String>, b: &Option<String>) -> (r: bool)
    ensures
        r == (opt_view(*a) == opt_view(*b)),
{
    match (a, b) {
        (Some(x), Some(y)) => str_eq(x.as_str(), y.as_str()),
        (None, None) => true,
        _ => false,
    }
}

fn opt_is(a: &Option<String>, lit: &str) -> (r: bool)
    ensures
        r == (opt_view(*a) == Some(lit@)),
{
    match a {
        Some(x) => str_eq(x.as_str(), lit),
        None => false,
    }
}

/// How an output block may be batched with the next, if at all.
pub fn mergeable_live_text_mode(block: &OutputBlockView) -> (r: Option<MergeMode>)
    ensures
        r == block_mode(block@),
{
    let id_empty = match &block.id {
        None => true,
        Some(i) => i.as_str().unicode_len() == 0,
    };
    if id_empty {
        proof {
            reveal_strlit("");
        }
        return None;
    }
    if !opt_is(&block.kind, "message") && !opt_is(&block.kind, "reasoning") {
        return None;
    }
    if opt_is(&block.phase, "delta") {
        return Some(MergeMode::AppendDelta);
    }
    if opt_is(&block.phase, "full") {
        match &block.live_identity {
            Some(i) => {
                if (i.part_kind == LivePartKind::AssistantText || i.part_kind
                    == LivePartKind::AssistantReasoning) && i.phase == LivePartPhase::Snapshot {
                    return Some(MergeMode::ReplaceSnapshot);
                }
            },
            None => {},
        }
    }
    None
}

/// Whether an event is a live text block that waits to be batched.
pub fn is_mergeable_output_delta(event: &StreamEvent) -> (r: bool)
    ensures
        r == (event_mode(event@) is Some),
{
    match event {
        StreamEvent::OutputBlock(b) => mergeable_live_text_mode(b).is_some(),
        _ => false,
    }
}

/// The block that batching `next` into `cur` gives, if they batch: both of
/// one mode, session, block id and kind (and role, for messages); deltas
/// then append their text, snapshots of the same part replace the earlier.
pub open spec fn merged_spec(c: BlockModel, n: BlockModel) -> Option<BlockModel> {
    match (block_mode(c), block_mode(n)) {
        (Some(cm), Some(nm)) => if cm != nm || c.session_id != n.session_id || c.id != n.id || c.kind
            != n.kind || (c.kind == Some("message"@) && c.role != n.role) {
            None
        } else {
            match cm {
                MergeMode::AppendDelta => match (c.text, n.text) {
                    (Some(ct), Some(nt)) => Some(BlockModel { text: Some(ct + nt), ..c }),
                    _ => None,
                },
                MergeMode::ReplaceSnapshot => match (c.identity, n.identity) {
                    (Some(ci), Some(ni)) => if ci.message_id != ni.message_id || ci.part_key
                        != ni.part_key || ci.part_kind != ni.part_kind {
                        None
                    } else {
                        Some(n)
                    },
                    _ => None,
                },
            }
        },
        _ => None,
    }
}

/// Batches the block `next` into the waiting block `current` when they
/// batch; says whether it did. A block that does not batch is left as it was.
pub fn merge_output_block_delta(current: &mut OutputBlockView, next: &OutputBlockView) -> (r: bool)
    ensures
        match merged_spec(old(current)@, next@) {
            Some(m) => r && final(current)@ == m,
            None => !r && final(current)@ == old(current)@,
        },
{
    let cm = match mergeable_live_text_mode(current) {
        None => return false,
        Some(m) => m,
    };
    let nm = match mergeable_live_text_mode(next) {
        None => return false,
        Some(m) => m,
    };
    if cm != nm {
        return false;
    }
    if !str_eq(current.session_id.as_str(), next.session_id.as_str()) || !opt_eq(&current.id, &next.id) {
        return false;
    }
    if !opt_eq(&current.kind, &next.kind) {
        return false;
    }
    if opt_is(&current.kind, "message") && !opt_eq(&current.role, &next.role) {
        return false;
    }
    match cm {
        MergeMode::AppendDelta => {
            let nt = match &next.text {
                None => return false,
                Some(t) => t.as_str(),
            };
            let joined = match &current.text {
                None => return false,
                Some(ct) => cat(ct.as_str(), nt),
            };
            current.text = Some(joined);
            true
        },
        MergeMode::ReplaceSnapshot => {
            let same_part = match (&current.live_identity, &next.live_identity) {
                (Some(ci), Some(ni)) => str_eq(ci.message_id.as_str(), ni.message_id.as_str())
                    && str_eq(ci.part_key.as_str(), ni.part_key.as_str()) && ci.part_kind
                    == ni.part_kind,
                _ => false,
            };
            if !same_part {
                return false;
            }
            *current = next.copy();
            true
        },
    }
}

/// The block with its coalesced field set to `t`, its phase `full`, and its
/// identity marked a snapshot.
pub open spec fn with_snapshot(b: BlockModel, i: IdentityModel, t: Seq<char>) -> BlockModel {
    let base = BlockModel {
        phase: Some("full"@),
        identity: Some(IdentityModel { phase: LivePartPhase::Snapshot, ..i }),
        ..b
    };
    if i.part_kind == LivePartKind::ToolCall {
        BlockModel { detail: Some(t), ..base }
    } else {
        BlockModel { text: Some(t), ..base }
    }
}

/// The text a live block carries in the field coalesced for its part kind.
pub open spec fn carried_text(b: BlockModel, kind: LivePartKind) -> Seq<char> {
    if kind == LivePartKind::ToolCall {
        or_empty(b.detail)
    } else {
        or_empty(b.text)
    }
}

/// What coalescing an event does to the held texts and to the event: an
/// output block of an assistant text, reasoning or tool part folds its text
/// into the part's held text and is replaced by a full snapshot; an `End`
/// forgets the part; every other event passes unchanged.
pub open spec fn coalesce_spec(m: Map<Seq<char>, Seq<char>>, e: EventModel) -> (
    Map<Seq<char>, Seq<char>>,
    EventModel,
) {
    match e {
        EventModel::OutputBlock(b) => match b.identity {
            None => (m, e),
            Some(i) => if i.part_kind == LivePartKind::Other {
                (m, e)
            } else {
                let k = part_key(b.session_id, i.message_id, i.part_key);
                match i.phase {
                    LivePartPhase::End => (m.remove(k), e),
                    LivePartPhase::Other => (m, e),
                    _ => {
                        let t = folded_text(held_text(m, k), i.phase, carried_text(b, i.part_kind));
                        (m.insert(k, t), EventModel::OutputBlock(with_snapshot(b, i, t)))
                    },
                }
            },
        },
        _ => (m, e),
    }
}

/// The text of every live part in progress on one stream, by part key, used
/// to turn deltas and partial snapshots into full snapshots.
pub struct LiveSnapshotCoalescer {
    accum: LiveSnapshotAccumulator,
    missing_identities: Option<u64>,
}

/// Whether an event is an output block that carries no live identity.
pub open spec fn lacks_identity(e: EventModel) -> bool {
    e matches EventModel::OutputBlock(b) && b.identity is None
}

/// The count of blocks seen without a live identity after one more event,
/// where the count is kept at all; it saturates at `u64::MAX`.
pub open spec fn telemetry_after(t: Option<u64>, e: EventModel) -> Option<u64> {
    match t {
        None => None,
        Some(n) => if lacks_identity(e) && n < u64::MAX {
            Some((n + 1) as u64)
        } else {
            Some(n)
        },
    }
}

impl LiveSnapshotCoalescer {
    /// The held text of each part in progress, by part key.
    pub closed spec fn view(&self) -> Map<Seq<char>, Seq<char>> {
        self.accum.view()
    }

    /// The coalescer's own invariant.
    pub closed spec fn wf(&self) -> bool {
        self.accum.wf()
    }

    /// The number of output blocks seen without a live identity, where the
    /// coalescer reports to telemetry.
    pub closed spec fn telemetry(&self) -> Option<u64> {
        self.missing_identities
    }

    /// A coalescer that holds no text.
    pub fn new() -> (c: Self)
        ensures
            c.wf(),
            c.view() == Map::<Seq<char>, Seq<char>>::empty(),
            c.telemetry() is None,
    {
        LiveSnapshotCoalescer { accum: LiveSnapshotAccumulator::new(), missing_identities: None }
    }

    /// A coalescer that holds no text and counts the blocks that arrive
    /// without a live identity.
    pub fn with_telemetry() -> (c: Self)
        ensures
            c.wf(),
            c.view() == Map::<Seq<char>, Seq<char>>::empty(),
            c.telemetry() == Some(0u64),
    {
        LiveSnapshotCoalescer { accum: LiveSnapshotAccumulator::new(), missing_identities: Some(0) }
    }

    /// The number of blocks seen without a live identity, if counted.
    pub fn missing_identities(&self) -> (r: Option<u64>)
        ensures
            r == self.telemetry(),
    {
        self.missing_identities
    }

    fn note_missing_identity(&mut self)
        ensures
            final(self).view() == old(self).view(),
            final(self).wf() == old(self).wf(),
            final(self).telemetry() == match old(self).telemetry() {
                None => None,
                Some(n) => if n < u64::MAX { Some((n + 1) as u64) } else { Some(n) },
            },
    {
        match self.missing_identities {
            Some(n) => {
                if n < u64::MAX {
                    self.missing_identities = Some(n + 1);
                }
            },
            None => {},
        }
    }

    /// Coalesces one event, as `coalesce_spec` says.
    pub fn coalesce(&mut self, event: StreamEvent) -> (r: StreamEvent)
        requires
            old(self).wf(),
        ensures
            final(self).wf(),
            (final(self).view(), r@) == coalesce_spec(old(self).view(), event@),
            final(self).telemetry() == telemetry_after(old(self).telemetry(), event@),
    {
        let mut b = match event {
            StreamEvent::OutputBlock(b) => b,
            other => return other,
        };
        let ident = match &b.live_identity {
            None => {
                self.note_missing_identity();
                return StreamEvent::OutputBlock(b);
            },
            Some(i) => copy_identity(i),
        };
        if ident.part_kind == LivePartKind::Other {
            return StreamEvent::OutputBlock(b);
        }
        let ghost b0 = b@;
        let is_detail = ident.part_kind == LivePartKind::ToolCall;
        let carried = if is_detail {
            owned(str_or_empty(&b.detail))
        } else {
            owned(str_or_empty(&b.text))
        };
        let folded = self.accum.update(b.session_id.as_str(), &ident, carried.as_str());
        match folded {
            None => StreamEvent::OutputBlock(b),
            Some(t) => {
                if is_detail {
                    b.detail = Some(t);
                } else {
                    b.text = Some(t);
                }
                b.phase = Some(owned("full"));
                b.live_identity = Some(
                    LivePartIdentity {
                        message_id: ident.message_id,
                        part_key: ident.part_key,
                        part_kind: ident.part_kind,
                        phase: LivePartPhase::Snapshot,
                    },
                );
                StreamEvent::OutputBlock(b)
            },
        }
    }
}

/// The session a server event belongs to, if any.
pub open spec fn event_session(e: EventModel) -> Option<Seq<char>> {
    match e {
        EventModel::OutputBlock(b) => Some(b.session_id),
        EventModel::Usage { session_id } => session_id,
        EventModel::Other { session_id } => session_id,
    }
}

/// Whether a server event passes a session filter: events of no session
/// always do.
pub open spec fn filter_ok(filter: Option<Seq<char>>, e: EventModel) -> bool {
    match filter {
        None => true,
        Some(f) => match event_session(e) {
            Some(s) => s == f,
            None => true,
        },
    }
}

/// Whether a message that is no server event passes a session filter: one
/// that is no JSON does; otherwise by its `sessionID`, else its `parentID`,
/// else it does.
pub open spec fn raw_filter_ok(
    filter: Option<Seq<char>>,
    json: bool,
    session_id: Option<Seq<char>>,
    parent_id: Option<Seq<char>>,
) -> bool {
    match filter {
        None => true,
        Some(f) => if !json {
            true
        } else {
            match session_id {
                Some(s) => s == f,
                None => match parent_id {
                    Some(p) => p == f,
                    None => true,
                },
            }
        },
    }
}

/// What the stream receives next.
pub enum StreamInput {
    /// A broadcast message that parsed as a server event.
    Event(StreamEvent),
    /// A broadcast message that did not parse as a server event: whether it is
    /// JSON at all, and its `sessionID` and `parentID` strings.
    Raw { json: bool, session_id: Option<String>, parent_id: Option<String> },
    /// The broadcast receiver fell behind and lost messages.
    Lagged,
    /// The broadcast channel closed.
    Closed,
    /// The batching delay of the waiting block ran out.
    FlushDue,
}

/// The model of a stream input.
pub enum InputModel {
    Event(EventModel),
    Raw { json: bool, session_id: Option<Seq<char>>, parent_id: Option<Seq<char>> },
    Lagged,
    Closed,
    FlushDue,
}

impl View for StreamInput {
    type V = InputModel;

    open spec fn view(&self) -> InputModel {
        match self {
            StreamInput::Event(e) => InputModel::Event(e@),
            StreamInput::Raw { json, session_id, parent_id } => InputModel::Raw {
                json: *json,
                session_id: opt_view(*session_id),
                parent_id: opt_view(*parent_id),
            },
            StreamInput::Lagged => InputModel::Lagged,
            StreamInput::Closed => InputModel::Closed,
            StreamInput::FlushDue => InputModel::FlushDue,
        }
    }
}

/// What the stream sends: a server event, or the raw message just received.
pub enum StreamEmit {
    Event(StreamEvent),
    Raw,
}

/// The model of what the stream sends.
pub enum EmitModel {
    Event(EventModel),
    Raw,
}

impl View for StreamEmit {
    type V = EmitModel;

    open spec fn view(&self) -> EmitModel {
        match self {
            StreamEmit::Event(e) => EmitModel::Event(e@),
            StreamEmit::Raw => EmitModel::Raw,
        }
    }
}

/// What one step of the stream does: the messages to send, in order (the
/// stream stops at the first that cannot be sent); whether to start the
/// batching delay of a newly waiting block; whether the stream ends.
pub struct StreamStep {
    pub emits: Vec<StreamEmit>,
    pub arm_timer: bool,
    pub stop: bool,
}

/// The models of the messages a step sends.
pub open spec fn emits_model(v: Seq<StreamEmit>) -> Seq<EmitModel> {
    v.map_values(|e: StreamEmit| e@)
}

/// The waiting block, sent first.
pub open spec fn flush_spec(pending: Option<BlockModel>) -> Seq<EmitModel> {
    match pending {
        Some(p) => seq![EmitModel::Event(EventModel::OutputBlock(p))],
        None => Seq::empty(),
    }
}

/// One step of the stream: the held texts, the waiting block, the messages
/// sent, whether the delay starts, whether the stream ends.
pub open spec fn step_spec(
    held: Map<Seq<char>, Seq<char>>,
    pending: Option<BlockModel>,
    filter: Option<Seq<char>>,
    caps: SubscriptionCaps,
    input: InputModel,
) -> (Map<Seq<char>, Seq<char>>, Option<BlockModel>, Seq<EmitModel>, bool, bool) {
    match input {
        InputModel::Event(e) => if !filter_ok(filter, e) {
            (held, pending, Seq::empty(), false, false)
        } else {
            let (h2, e2) = coalesce_spec(held, e);
            if !event_passes_spec(e2, caps) {
                (h2, pending, Seq::empty(), false, false)
            } else {
                match (pending, e2) {
                    (Some(p), EventModel::OutputBlock(b)) if merged_spec(p, b) is Some => (
                        h2,
                        merged_spec(p, b),
                        Seq::empty(),
                        false,
                        false,
                    ),
                    _ => if event_mode(e2) is Some {
                        (h2, Some(e2->OutputBlock_0), flush_spec(pending), true, false)
                    } else {
                        (h2, None, flush_spec(pending).push(EmitModel::Event(e2)), false, false)
                    },
                }
            }
        },
        InputModel::Raw { json, session_id, parent_id } => if !raw_filter_ok(
            filter,
            json,
            session_id,
            parent_id,
        ) {
            (held, pending, Seq::empty(), false, false)
        } else {
            (held, None, flush_spec(pending).push(EmitModel::Raw), false, false)
        },
        InputModel::Lagged => (held, None, flush_spec(pending), false, false),
        InputModel::Closed => (held, None, flush_spec(pending), false, true),
        InputModel::FlushDue => (held, None, flush_spec(pending), false, false),
    }
}

/// The state of one subscriber's server event stream: its session filter and
/// capabilities, the live text held per part, and the block waiting to be
/// batched with the next.
pub struct ServerEventStream {
    session_filter: Option<String>,
    caps: SubscriptionCaps,
    coalescer: LiveSnapshotCoalescer,
    pending: Option<OutputBlockView>,
}

impl ServerEventStream {
    /// The session filter.
    pub closed spec fn filter(&self) -> Option<Seq<char>> {
        opt_view(self.session_filter)
    }

    /// The subscriber's capabilities.
    pub closed spec fn capabilities(&self) -> SubscriptionCaps {
        self.caps
    }

    /// The live text held per part.
    pub closed spec fn held(&self) -> Map<Seq<char>, Seq<char>> {
        self.coalescer.view()
    }

    /// The block waiting to be batched, if any.
    pub closed spec fn pending(&self) -> Option<BlockModel> {
        match self.pending {
            Some(b) => Some(b@),
            None => None,
        }
    }

    /// The stream's own invariant.
    pub closed spec fn wf(&self) -> bool {
        self.coalescer.wf()
    }

    /// The count of blocks seen without a live identity, where kept.
    pub closed spec fn telemetry(&self) -> Option<u64> {
        self.coalescer.telemetry()
    }

    /// A stream for a subscriber, holding nothing yet.
    pub fn new(session_filter: Option<String>, caps: SubscriptionCaps, telemetry: bool) -> (s: Self)
        ensures
            s.wf(),
            s.filter() == opt_view(session_filter),
            s.capabilities() == caps,
            s.held() == Map::<Seq<char>, Seq<char>>::empty(),
            s.pending() is None,
            s.telemetry() == (if telemetry { Some(0u64) } else { None }),
    {
        let coalescer = if telemetry {
            LiveSnapshotCoalescer::with_telemetry()
        } else {
            LiveSnapshotCoalescer::new()
        };
        ServerEventStream { session_filter, caps, coalescer, pending: None }
    }

    fn matches_filter(&self, e: &StreamEvent) -> (r: bool)
        ensures
            r == filter_ok(self.filter(), e@),
    {
        let f = match &self.session_filter {
            None => return true,
            Some(f) => f.as_str(),
        };
        match e {
            StreamEvent::OutputBlock(b) => str_eq(b.session_id.as_str(), f),
            StreamEvent::Usage { session_id } => match session_id {
                Some(s) => str_eq(s.as_str(), f),
                None => true,
            },
            StreamEvent::Other { session_id } => match session_id {
                Some(s) => str_eq(s.as_str(), f),
                None => true,
            },
        }
    }

    fn raw_matches_filter(&self, json: bool, session_id: &Option<String>, parent_id: &Option<String>) -> (r:
        bool)
        ensures
            r == raw_filter_ok(self.filter(), json, opt_view(*session_id), opt_view(*parent_id)),
    {
        let f = match &self.session_filter {
            None => return true,
            Some(f) => f.as_str(),
        };
        if !json {
            return true;
        }
        match session_id {
            Some(s) => str_eq(s.as_str(), f),
            None => match parent_id {
                Some(p) => str_eq(p.as_str(), f),
                None => true,
            },
        }
    }

    fn flush_into(&mut self, emits: &mut Vec<StreamEmit>)
        ensures
            final(self).pending() is None,
            final(self).held() == old(self).held(),
            final(self).filter() == old(self).filter(),
            final(self).capabilities() == old(self).capabilities(),
            final(self).wf() == old(self).wf(),
            final(self).telemetry() == old(self).telemetry(),
            emits_model(final(emits)@) == emits_model(old(emits)@) + flush_spec(old(self).pending()),
    {
        match self.pending.take() {
            Some(p) => {
                emits.push(StreamEmit::Event(StreamEvent::OutputBlock(p)));
                assert(emits_model(final(emits)@) =~= emits_model(old(emits)@) + flush_spec(
                    old(self).pending(),
                ));
            },
            None => {
                assert(emits_model(final(emits)@) =~= emits_model(old(emits)@) + flush_spec(
                    old(self).pending(),
                ));
            },
        }
    }

    /// Runs one step of the stream on what it received, as `step_spec` says;
    /// an event that passes the session filter is counted into the telemetry
    /// as the coalescer counts it.
    pub fn step(&mut self, input: StreamInput) -> (r: StreamStep)
        requires
            old(self).wf(),
        ensures
            final(self).wf(),
            final(self).telemetry() == match input@ {
                InputModel::Event(e) => if filter_ok(old(self).filter(), e) {
                    telemetry_after(old(self).telemetry(), e)
                } else {
                    old(self).telemetry()
                },
                _ => old(self).telemetry(),
            },
            final(self).filter() == old(self).filter(),
            final(self).capabilities() == old(self).capabilities(),
            (final(self).held(), final(self).pending(), emits_model(r.emits@), r.arm_timer, r.stop)
                == step_spec(
                old(self).held(),
                old(self).pending(),
                old(self).filter(),
                old(self).capabilities(),
                input@,
            ),
    {
        let mut emits: Vec<StreamEmit> = Vec::new();
        proof {
            assert(emits_model(emits@) =~= Seq::<EmitModel>::empty());
        }
        match input {
            StreamInput::Event(e) => {
                if !self.matches_filter(&e) {
                    return StreamStep { emits, arm_timer: false, stop: false };
                }
                let e2 = self.coalescer.coalesce(e);
                if !event_passes_subscription_caps(&e2, &self.caps) {
                    return StreamStep { emits, arm_timer: false, stop: false };
                }
                match e2 {
                    StreamEvent::OutputBlock(b) => {
                        match self.pending.take() {
                            Some(mut p) => {
                                let merged = merge_output_block_delta(&mut p, &b);
                                self.pending = Some(p);
                                if merged {
                                    return StreamStep { emits, arm_timer: false, stop: false };
                                }
                            },
                            None => {},
                        }
                        self.flush_into(&mut emits);
                        if mergeable_live_text_mode(&b).is_some() {
                            self.pending = Some(b);
                            return StreamStep { emits, arm_timer: true, stop: false };
                        }
                        let ghost before = emits_model(emits@);
                        emits.push(StreamEmit::Event(StreamEvent::OutputBlock(b)));
                        proof {
                            assert(emits_model(emits@) =~= before.push(EmitModel::Event(EventModel::OutputBlock(b@))));
                        }
                        StreamStep { emits, arm_timer: false, stop: false }
                    },
                    other => {
                        self.flush_into(&mut emits);
                        let ghost before = emits_model(emits@);
                        let ghost om = other@;
                        emits.push(StreamEmit::Event(other));
                        proof {
                            assert(emits_model(emits@) =~= before.push(EmitModel::Event(om)));
                        }
                        StreamStep { emits, arm_timer: false, stop: false }
                    },
                }
            },
            StreamInput::Raw { json, session_id, parent_id } => {
                if !self.raw_matches_filter(json, &session_id, &parent_id) {
                    return StreamStep { emits, arm_timer: false, stop: false };
                }
                self.flush_into(&mut emits);
                let ghost before = emits_model(emits@);
                emits.push(StreamEmit::Raw);
                proof {
                    assert(emits_model(emits@) =~= before.push(EmitModel::Raw));
                }
                StreamStep { emits, arm_timer: false, stop: false }
            },
            StreamInput::Lagged => {
                self.flush_into(&mut emits);
                StreamStep { emits, arm_timer: false, stop: false }
            },
            StreamInput::Closed => {
                self.flush_into(&mut emits);
                StreamStep { emits, arm_timer: false, stop: true }
            },
            StreamInput::FlushDue => {
                self.flush_into(&mut emits);
                StreamStep { emits, arm_timer: false, stop: false }
            },
        }
    }
}

} // verus!

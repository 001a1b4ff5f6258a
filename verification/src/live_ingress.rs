//! Batching of live web input: prompts typed in quick succession in the web
//! interface are gathered into one batch, which the first of them (its
//! leader) runs as a single turn.

use vstd::prelude::*;
use crate::text::{opt_view, text_listed};
use crate::text::{owned, str_eq, str_lt, seq_lt, cat3, cat, trim, trim_str};
use crate::api_error::ApiError;

verus! {

/// How long a batch stays open for more input, in milliseconds.
pub const BATCH_WINDOW_MS: i64 = 250;

/// What batching reads of a prompt's ingress: its session, the name of its
/// source (`web` for the web interface), its context key, the command it
/// names, its turn id, when it was received, and its idempotency key.
#[derive(Debug)]
pub struct IngressInfo {
    pub session_id: String,
    pub source: String,
    pub context_key: Option<String>,
    pub command: Option<String>,
    pub turn_id: String,
    pub received_at_ms: i64,
    pub idempotency_key: Option<String>,
}

/// The content of an ingress.
pub struct IngressModel {
    pub session_id: Seq<char>,
    pub source: Seq<char>,
    pub context_key: Option<Seq<char>>,
    pub command: Option<Seq<char>>,
    pub turn_id: Seq<char>,
    pub received_at_ms: i64,
    pub idempotency_key: Option<Seq<char>>,
}


impl View for IngressInfo {
    type V = IngressModel;

    open spec fn view(&self) -> IngressModel {
        IngressModel {
            session_id: self.session_id@,
            source: self.source@,
            context_key: opt_view(self.context_key),
            command: opt_view(self.command),
            turn_id: self.turn_id@,
            received_at_ms: self.received_at_ms,
            idempotency_key: opt_view(self.idempotency_key),
        }
    }
}

/// One prompt of a batch: its ingress and its parts.
pub struct BatchItem<P> {
    pub ingress: IngressInfo,
    pub parts: Vec<P>,
}

/// An open batch: the turn that owns it, when it opened, and its prompts in
/// the order they joined.
pub struct LiveBatch<P> {
    pub owner_turn_id: String,
    pub opened_at_ms: i64,
    pub items: Vec<BatchItem<P>>,
}

/// The content of a batch.
pub struct BatchModel<P> {
    pub owner: Seq<char>,
    pub opened_at_ms: i64,
    pub items: Seq<(IngressModel, Seq<P>)>,
}

/// The content of a batch.
pub open spec fn batch_view<P>(b: LiveBatch<P>) -> BatchModel<P> {
    BatchModel {
        owner: b.owner_turn_id@,
        opened_at_ms: b.opened_at_ms,
        items: b.items@.map_values(|i: BatchItem<P>| (i.ingress@, i.parts@)),
    }
}

/// The content of a session's batch slot.
pub open spec fn slot_view<P>(s: Option<LiveBatch<P>>) -> Option<BatchModel<P>> {
    match s {
        Some(b) => Some(batch_view(b)),
        None => None,
    }
}

/// Whether a prompt takes part in batching: plain web input typed into the
/// session prompt, naming no command.
pub open spec fn supports_spec(i: IngressModel) -> bool {
    &&& i.source == "web"@
    &&& i.context_key == Some("session_prompt"@)
    &&& i.command is None
}

/// Whether a prompt takes part in batching.
pub fn supports(ingress: &IngressInfo) -> (r: bool)
    ensures
        r == supports_spec(ingress@),
{
    let ctx = match &ingress.context_key {
        Some(k) => str_eq(k.as_str(), "session_prompt"),
        None => false,
    };
    str_eq(ingress.source.as_str(), "web") && ctx && ingress.command.is_none()
}

/// `a - b`, held to the range of a timestamp.
pub open spec fn sat_sub_spec(a: i64, b: i64) -> int {
    let d = a - b;
    if d < i64::MIN {
        i64::MIN as int
    } else if d > i64::MAX {
        i64::MAX as int
    } else {
        d
    }
}

/// Whether a batch opened at `opened_at_ms` no longer takes input at
/// `now_ms`.
pub open spec fn stale_spec(opened_at_ms: i64, now_ms: i64) -> bool {
    sat_sub_spec(now_ms, opened_at_ms) > BATCH_WINDOW_MS
}

fn stale(opened_at_ms: i64, now_ms: i64) -> (r: bool)
    ensures
        r == stale_spec(opened_at_ms, now_ms),
{
    let d: i128 = now_ms as i128 - opened_at_ms as i128;
    let s: i128 = if d < i64::MIN as i128 {
        i64::MIN as i128
    } else if d > i64::MAX as i128 {
        i64::MAX as i128
    } else {
        d
    };
    s > BATCH_WINDOW_MS as i128
}

/// Whether a prompt belongs to a batch: the batch's first prompt has its
/// session, source, context key and command.
pub open spec fn matches_spec<P>(b: BatchModel<P>, i: IngressModel) -> bool {
    b.items.len() > 0 && {
        let f = b.items[0].0;
        &&& f.session_id == i.session_id
        &&& f.source == i.source
        &&& f.context_key == i.context_key
        &&& f.command == i.command
    }
}

fn opt_eq(a: &Option<String>, b: &Option<String>) -> (r: bool)
    ensures
        r == (opt_view(*a) == opt_view(*b)),
{
    match (a, b) {
        (Some(x), Some(y)) => str_eq(x.as_str(), y.as_str()),
        (None, None) => true,
        _ => false,
    }
}

fn matches_batch<P>(batch: &LiveBatch<P>, ingress: &IngressInfo) -> (r: bool)
    ensures
        r == matches_spec(batch_view(*batch), ingress@),
{
    if batch.items.len() == 0 {
        return false;
    }
    let f = &batch.items[0].ingress;
    str_eq(f.session_id.as_str(), ingress.session_id.as_str()) && str_eq(f.source.as_str(), ingress.source.as_str())
        && opt_eq(&f.context_key, &ingress.context_key) && opt_eq(&f.command, &ingress.command)
}

/// What offering a prompt to a session's open batch does: a prompt that
/// takes part in batching joins a batch that is still open and that it
/// belongs to; otherwise the batch is dropped. A prompt that takes no part
/// leaves the slot as it is.
pub open spec fn append_spec<P>(slot: Option<BatchModel<P>>, i: IngressModel, parts: Seq<P>, now_ms: i64) -> (
    bool,
    Option<BatchModel<P>>,
) {
    if !supports_spec(i) {
        (false, slot)
    } else {
        match slot {
            Some(b) => if !stale_spec(b.opened_at_ms, now_ms) && matches_spec(b, i) {
                (true, Some(BatchModel { items: b.items.push((i, parts)), ..b }))
            } else {
                (false, None)
            },
            None => (false, None),
        }
    }
}

/// Offers a prompt to a session's open batch; whether it joined it, as
/// `append_spec` says.
pub fn append_if_present<P>(slot: &mut Option<LiveBatch<P>>, ingress: IngressInfo, parts: Vec<P>, now_ms: i64) -> (r:
    bool)
    ensures
        (r, slot_view(*final(slot))) == append_spec(slot_view(*old(slot)), ingress@, parts@, now_ms),
{
    if !supports(&ingress) {
        return false;
    }
    let current = slot.take();
    match current {
        Some(mut batch) => {
            if !stale(batch.opened_at_ms, now_ms) && matches_batch(&batch, &ingress) {
                let ghost before = batch_view(batch);
                let ghost item_view = (ingress@, parts@);
                batch.items.push(BatchItem { ingress, parts });
                proof {
                    assert(batch_view(batch).items =~= before.items.push(item_view));
                }
                *slot = Some(batch);
                true
            } else {
                false
            }
        },
        None => false,
    }
}

/// What opening a batch does: for a prompt that takes part in batching, a
/// new batch owned by its turn, holding it alone, replaces any other; one
/// that takes no part leaves the slot as it is and opens nothing.
pub open spec fn open_spec<P>(slot: Option<BatchModel<P>>, i: IngressModel, parts: Seq<P>, now_ms: i64) -> (
    Option<Seq<char>>,
    Option<BatchModel<P>>,
) {
    if !supports_spec(i) {
        (None, slot)
    } else {
        (Some(i.turn_id), Some(BatchModel { owner: i.turn_id, opened_at_ms: now_ms, items: seq![(i, parts)] }))
    }
}

/// Opens a batch led by a prompt; the owning turn, as `open_spec` says.
pub fn open<P>(slot: &mut Option<LiveBatch<P>>, ingress: IngressInfo, parts: Vec<P>, now_ms: i64) -> (r: Option<
    String,
>)
    ensures
        (opt_view(r), slot_view(*final(slot))) == open_spec(slot_view(*old(slot)), ingress@, parts@, now_ms),
{
    if !supports(&ingress) {
        return None;
    }
    let owner = owned(ingress.turn_id.as_str());
    let ghost item_view = (ingress@, parts@);
    let mut items: Vec<BatchItem<P>> = Vec::new();
    items.push(BatchItem { ingress, parts });
    let batch = LiveBatch { owner_turn_id: owned(owner.as_str()), opened_at_ms: now_ms, items };
    proof {
        assert(batch_view(batch).items =~= seq![item_view]);
    }
    *slot = Some(batch);
    Some(owner)
}

/// What draining does: the batch owned by `owner` is taken out of the slot;
/// any other batch stays.
pub open spec fn drain_spec<P>(slot: Option<BatchModel<P>>, owner: Seq<char>) -> (
    Option<BatchModel<P>>,
    Option<BatchModel<P>>,
) {
    match slot {
        Some(b) => if b.owner == owner {
            (Some(b), None)
        } else {
            (None, slot)
        },
        None => (None, None),
    }
}

/// Takes the batch owned by `owner` out of the slot, as `drain_spec` says.
pub fn drain<P>(slot: &mut Option<LiveBatch<P>>, owner: &str) -> (r: Option<LiveBatch<P>>)
    ensures
        (slot_view(r), slot_view(*final(slot))) == drain_spec(slot_view(*old(slot)), owner@),
{
    let owned_by = match slot {
        Some(b) => str_eq(b.owner_turn_id.as_str(), owner),
        None => false,
    };
    if owned_by {
        slot.take()
    } else {
        None
    }
}

/// Whether item `a` orders before item `b`: received earlier, or at the
/// same time with a lower turn id.
pub open spec fn item_lt(a: IngressModel, b: IngressModel) -> bool {
    a.received_at_ms < b.received_at_ms || (a.received_at_ms == b.received_at_ms && seq_lt(a.turn_id, b.turn_id))
}

/// `s` with `x` placed after every item that does not order after it.
pub open spec fn insert_item<P>(s: Seq<(IngressModel, Seq<P>)>, x: (IngressModel, Seq<P>)) -> Seq<(IngressModel, Seq<P>)>
    decreases s.len(),
{
    if s.len() == 0 {
        seq![x]
    } else if item_lt(x.0, s.last().0) {
        insert_item(s.drop_last(), x).push(s.last())
    } else {
        s.push(x)
    }
}

/// The items in the order they were received, then by turn id; equal ones
/// keep their order.
pub open spec fn order_items_spec<P>(s: Seq<(IngressModel, Seq<P>)>) -> Seq<(IngressModel, Seq<P>)>
    decreases s.len(),
{
    if s.len() == 0 {
        Seq::empty()
    } else {
        insert_item(order_items_spec(s.drop_last()), s.last())
    }
}

proof fn lemma_insert_item_at<P>(s: Seq<(IngressModel, Seq<P>)>, x: (IngressModel, Seq<P>), pos: int)
    requires
        0 <= pos <= s.len(),
        forall|k: int| pos <= k < s.len() ==> item_lt(x.0, (#[trigger] s[k]).0),
        pos == 0 || !item_lt(x.0, s[pos - 1].0),
    ensures
        insert_item(s, x) == s.insert(pos, x),
    decreases s.len(),
{
    if s.len() == pos {
        if s.len() == 0 {
            assert(s.insert(pos, x) =~= seq![x]);
        } else {
            assert(s.insert(pos, x) =~= s.push(x));
        }
    } else {
        lemma_insert_item_at(s.drop_last(), x, pos);
        assert(s.drop_last().insert(pos, x).push(s.last()) =~= s.insert(pos, x));
    }
}

fn item_lt_exec(a: &IngressInfo, b: &IngressInfo) -> (r: bool)
    ensures
        r == item_lt(a@, b@),
{
    a.received_at_ms < b.received_at_ms || (a.received_at_ms == b.received_at_ms && str_lt(
        a.turn_id.as_str(),
        b.turn_id.as_str(),
    ))
}

/// The items of a batch and their parts.
pub open spec fn items_view<P>(v: Seq<BatchItem<P>>) -> Seq<(IngressModel, Seq<P>)> {
    v.map_values(|i: BatchItem<P>| (i.ingress@, i.parts@))
}

/// Orders the items of a batch, as `order_items_spec` says.
pub fn order_batch_items<P>(items: Vec<BatchItem<P>>) -> (r: Vec<BatchItem<P>>)
    ensures
        items_view(r@) == order_items_spec(items_view(items@)),
{
    let ghost orig = items_view(items@);
    let n = items.len();
    let mut rest = items;
    let mut out: Vec<BatchItem<P>> = Vec::new();
    let mut k: usize = 0;
    proof {
        assert(orig.subrange(0, 0) =~= Seq::<(IngressModel, Seq<P>)>::empty());
        assert(items_view(out@) =~= Seq::<(IngressModel, Seq<P>)>::empty());
    }
    while k < n
        invariant
            n == orig.len(),
            k <= n,
            items_view(rest@) == orig.subrange(k as int, n as int),
            items_view(out@) == order_items_spec(orig.subrange(0, k as int)),
        decreases n - k,
    {
        proof {
            assert(orig.subrange(0, k + 1).drop_last() =~= orig.subrange(0, k as int));
            assert(items_view(rest@).len() == rest@.len());
            assert(items_view(rest@)[0] == orig[k as int]);
        }
        let ghost rv = items_view(rest@);
        let x = rest.remove(0);
        proof {
            assert(items_view(rest@) =~= rv.drop_first());
            assert(rv.drop_first() =~= orig.subrange(k + 1, n as int));
        }
        let ghost ov = items_view(out@);
        let ghost xv = (x.ingress@, x.parts@);
        let mut pos = out.len();
        while pos > 0 && item_lt_exec(&x.ingress, &out[pos - 1].ingress)
            invariant
                pos <= out@.len(),
                ov == items_view(out@),
                xv == (x.ingress@, x.parts@),
                forall|q: int| pos <= q < ov.len() ==> item_lt(xv.0, (#[trigger] ov[q]).0),
            decreases pos,
        {
            pos = pos - 1;
        }
        proof {
            lemma_insert_item_at(ov, xv, pos as int);
        }
        out.insert(pos, x);
        proof {
            assert(items_view(out@) =~= ov.insert(pos as int, xv));
        }
        k = k + 1;
    }
    proof {
        assert(orig.subrange(0, n as int) =~= orig);
    }
    out
}

/// The key under which an item's idempotency key is remembered: its
/// session, source and key, joined by colons.
pub open spec fn scoped_key(i: IngressModel, key: Seq<char>) -> Seq<char> {
    i.session_id + ":"@ + i.source + ":"@ + key
}

/// The parts of the items in turn, skipping an item whose scoped
/// idempotency key came earlier; with the keys seen.
pub open spec fn merge_parts_spec<P>(items: Seq<(IngressModel, Seq<P>)>) -> (Seq<P>, Seq<Seq<char>>)
    decreases items.len(),
{
    if items.len() == 0 {
        (Seq::empty(), Seq::empty())
    } else {
        let (parts, seen) = merge_parts_spec(items.drop_last());
        let (i, p) = items.last();
        match i.idempotency_key {
            Some(k) => if seen.contains(scoped_key(i, k)) {
                (parts, seen)
            } else {
                (parts + p, seen.push(scoped_key(i, k)))
            },
            None => (parts + p, seen),
        }
    }
}

/// The parts of a batch's items, in turn, skipping an item that repeats an
/// earlier idempotency key of the same session and source.
pub fn merge_batch_parts<P>(items: Vec<BatchItem<P>>) -> (r: Vec<P>)
    ensures
        r@ == merge_parts_spec(items_view(items@)).0,
{
    let ghost orig = items_view(items@);
    let n = items.len();
    let mut rest = items;
    let mut parts: Vec<P> = Vec::new();
    let mut seen: Vec<String> = Vec::new();
    let mut k: usize = 0;
    proof {
        assert(orig.subrange(0, 0) =~= Seq::<(IngressModel, Seq<P>)>::empty());
        assert(seen.deep_view() =~= Seq::<Seq<char>>::empty());
    }
    while k < n
        invariant
            n == orig.len(),
            k <= n,
            items_view(rest@) == orig.subrange(k as int, n as int),
            (parts@, seen.deep_view()) == merge_parts_spec(orig.subrange(0, k as int)),
        decreases n - k,
    {
        proof {
            assert(orig.subrange(0, k + 1).drop_last() =~= orig.subrange(0, k as int));
            assert(items_view(rest@).len() == rest@.len());
            assert(items_view(rest@)[0] == orig[k as int]);
        }
        let ghost rv = items_view(rest@);
        let item = rest.remove(0);
        proof {
            assert(items_view(rest@) =~= rv.drop_first());
            assert(rv.drop_first() =~= orig.subrange(k + 1, n as int));
        }
        let BatchItem { ingress, parts: item_parts } = item;
        let ghost pv = item_parts@;
        let duplicate = match &ingress.idempotency_key {
            Some(key) => {
                let scoped = cat(cat3(ingress.session_id.as_str(), ":", ingress.source.as_str()).as_str(), cat(":", key.as_str()).as_str());
                proof {
                    assert(scoped@ =~= scoped_key(ingress@, key@));
                }
                if text_listed(&seen, scoped.as_str()) {
                    true
                } else {
                    let ghost before = seen.deep_view();
                    seen.push(scoped);
                    proof {
                        assert(seen.deep_view() =~= before.push(scoped_key(ingress@, key@)));
                    }
                    false
                }
            },
            None => false,
        };
        if !duplicate {
            let ghost before = parts@;
            let mut more = item_parts;
            parts.append(&mut more);
            proof {
                assert(parts@ =~= before + pv);
            }
        }
        k = k + 1;
    }
    proof {
        assert(orig.subrange(0, n as int) =~= orig);
    }
    parts
}

/// The turn id of a prompt's ingress: `ingress_` and its idempotency key,
/// trimmed, where that is not blank; else `ingress_` and a fresh id.
pub open spec fn turn_id_spec(idempotency_key: Option<Seq<char>>, fresh_id: Seq<char>) -> Seq<char> {
    match idempotency_key {
        Some(k) => if trim(k).len() > 0 {
            "ingress_"@ + trim(k)
        } else {
            "ingress_"@ + fresh_id
        },
        None => "ingress_"@ + fresh_id,
    }
}

/// The turn id of a prompt's ingress, given a fresh id to use when the
/// prompt has no usable idempotency key.
pub fn ingress_turn_id(idempotency_key: Option<&str>, fresh_id: &str) -> (r: String)
    ensures
        r@ == turn_id_spec(
            match idempotency_key {
                Some(k) => Some(k@),
                None => None,
            },
            fresh_id@,
        ),
{
    if let Some(k) = idempotency_key {
        let t = trim_str(k);
        if t.as_str().unicode_len() > 0 {
            return cat("ingress_", t.as_str());
        }
    }
    cat("ingress_", fresh_id)
}

/// The idempotency key an ingress keeps: the request's, unless it is blank.
pub fn ingress_idempotency_key(idempotency_key: Option<String>) -> (r: Option<String>)
    ensures
        opt_view(r) == match opt_view(idempotency_key) {
            Some(k) => if trim(k).len() > 0 {
                Some(k)
            } else {
                None
            },
            None => None,
        },
{
    match idempotency_key {
        Some(k) => {
            if trim_str(k.as_str()).as_str().unicode_len() > 0 {
                Some(k)
            } else {
                None
            }
        },
        None => None,
    }
}

/// The message refusing a verified ingress of another session.
pub open spec fn foreign_ingress_message(ingress_session: Seq<char>, route_session: Seq<char>) -> Seq<char> {
    "verified ingress session_id `"@ + ingress_session + "` does not match route session `"@ + route_session + "`"@
}

/// Accepts a verified ingress only for the session of the route.
pub fn check_verified_ingress_session(ingress_session: &str, route_session: &str) -> (r: Result<(), ApiError>)
    ensures
        r is Ok <==> ingress_session@ == route_session@,
        r matches Err(e) ==> e.is_bad_request(foreign_ingress_message(ingress_session@, route_session@)),
{
    if str_eq(ingress_session, route_session) {
        Ok(())
    } else {
        let mut m = cat3("verified ingress session_id `", ingress_session, "` does not match route session `");
        m.append(route_session);
        m.append("`");
        Err(ApiError::BadRequest(m))
    }
}

/// Names the command of an ingress that names none: the command the prompt
/// resolved to, else the one the request named.
pub fn complete_ingress_command(ingress: &mut IngressInfo, resolved_command: Option<&str>, request_command: Option<&str>)
    ensures
        final(ingress)@ == (IngressModel {
            command: match old(ingress)@.command {
                Some(c) => Some(c),
                None => match resolved_command {
                    Some(c) => Some(c@),
                    None => match request_command {
                        Some(c) => Some(c@),
                        None => None,
                    },
                },
            },
            ..old(ingress)@
        }),
{
    if ingress.command.is_none() {
        ingress.command = match resolved_command {
            Some(c) => Some(owned(c)),
            None => match request_command {
                Some(c) => Some(owned(c)),
                None => None,
            },
        };
    }
}

/// A prompt typed within the window into the same session prompt joins the
/// batch its leader opened, and the leader drains both, in order, leaving
/// no batch behind.
pub proof fn lemma_batch_gathers_follower<P>(
    slot: Option<BatchModel<P>>,
    leader: IngressModel,
    leader_parts: Seq<P>,
    follower: IngressModel,
    follower_parts: Seq<P>,
    opened_at_ms: i64,
    now_ms: i64,
)
    requires
        supports_spec(leader),
        follower.session_id == leader.session_id,
        follower.source == leader.source,
        follower.context_key == leader.context_key,
        follower.command == leader.command,
        opened_at_ms <= now_ms <= opened_at_ms + BATCH_WINDOW_MS,
    ensures
        ({
            let (owner, s1) = open_spec(slot, leader, leader_parts, opened_at_ms);
            let (joined, s2) = append_spec(s1, follower, follower_parts, now_ms);
            let (drained, s3) = drain_spec(s2, leader.turn_id);
            &&& owner == Some(leader.turn_id)
            &&& joined
            &&& drained matches Some(b) && b.items == seq![(leader, leader_parts), (follower, follower_parts)]
            &&& s3 is None
        }),
{
    let (owner, s1) = open_spec(slot, leader, leader_parts, opened_at_ms);
    let b1 = s1->0;
    assert(b1.items.len() == 1);
    assert(matches_spec(b1, follower));
    let (joined, s2) = append_spec(s1, follower, follower_parts, now_ms);
    assert(s2->0.items =~= seq![(leader, leader_parts), (follower, follower_parts)]);
}


/// Where staging a live web prompt stands when its session is read: just
/// arrived, or back from asking the runtime to reserve a run for the session
/// (refused, with the runtime's reason, or granted).
pub enum StagePoint {
    Arrived,
    ReservationRefused(String),
    ReservationGranted,
}

/// The role a staged prompt takes: run on its own (`Bypass`), lead a new
/// batch owned by its turn (`Leader`), or join the open batch (`Follower`).
#[derive(Debug, Clone, PartialEq, Eq)]
pub enum StageOutcome {
    Bypass,
    Leader(String),
    Follower,
}

/// What follows a staging step: reserve a run and step again with the
/// answer, or the end of staging.
#[derive(Debug)]
pub enum StageNext {
    Reserve,
    Finish(Result<StageOutcome, ApiError>),
}

/// One staging step: whether the session read is to be written back,
/// whether the run reserved is to be released, and what follows.
#[derive(Debug)]
pub struct StageStep {
    pub persist: bool,
    pub release: bool,
    pub next: StageNext,
}

/// What a staging step settles.
pub enum StageResult {
    Reserve,
    Bypass,
    Leader(Seq<char>),
    Follower,
    SessionMissing(Seq<char>),
    ReservationFailed(Seq<char>),
    Unexpected,
}

/// A staging step as plain values.
pub struct StepModel {
    pub persist: bool,
    pub release: bool,
    pub result: StageResult,
}

/// The content of a staging step.
pub open spec fn step_view(s: StageStep) -> StepModel {
    StepModel {
        persist: s.persist,
        release: s.release,
        result: match s.next {
            StageNext::Reserve => StageResult::Reserve,
            StageNext::Finish(Ok(StageOutcome::Bypass)) => StageResult::Bypass,
            StageNext::Finish(Ok(StageOutcome::Leader(o))) => StageResult::Leader(o@),
            StageNext::Finish(Ok(StageOutcome::Follower)) => StageResult::Follower,
            StageNext::Finish(Err(ApiError::SessionNotFound(m))) => StageResult::SessionMissing(m@),
            StageNext::Finish(Err(ApiError::BadRequest(m))) => StageResult::ReservationFailed(m@),
            StageNext::Finish(Err(_)) => StageResult::Unexpected,
        },
    }
}

/// The view of a staging point.
pub enum PointModel {
    Arrived,
    ReservationRefused(Seq<char>),
    ReservationGranted,
}

/// The content of a staging point.
pub open spec fn point_view(p: StagePoint) -> PointModel {
    match p {
        StagePoint::Arrived => PointModel::Arrived,
        StagePoint::ReservationRefused(m) => PointModel::ReservationRefused(m@),
        StagePoint::ReservationGranted => PointModel::ReservationGranted,
    }
}

/// A staging step with the given flags and result.
pub open spec fn step_of(persist: bool, release: bool, result: StageResult) -> StepModel {
    StepModel { persist, release, result }
}

/// One step of staging a prompt, over the batch slot of its session as
/// read (`present` says whether the session exists):
/// - on arrival, a prompt that takes no part in batching runs on its own;
///   for a session that does not exist the answer is `SessionNotFound`;
///   otherwise the prompt is offered to the open batch (the session written
///   back either way): it follows if it joined, else a run is reserved;
/// - when the reservation was refused, the prompt is offered to the batch
///   again: it follows if it joined (the session written back), else the
///   refusal's reason is answered as a bad request;
/// - when the reservation was granted, the prompt is offered again: if it
///   joined, the reservation is released and it follows; otherwise it opens
///   a batch and leads it, or runs on its own (releasing the reservation)
///   where it opens none. A session that vanished meanwhile releases the
///   reservation and answers `SessionNotFound`.
pub open spec fn stage_spec<P>(
    point: PointModel,
    session_id: Seq<char>,
    present: bool,
    slot: Option<BatchModel<P>>,
    i: IngressModel,
    parts: Seq<P>,
    now_ms: i64,
) -> (StepModel, Option<BatchModel<P>>) {
    match point {
        PointModel::Arrived => if !supports_spec(i) {
            (step_of(false, false, StageResult::Bypass), slot)
        } else if !present {
            (step_of(false, false, StageResult::SessionMissing(session_id)), slot)
        } else {
            let (joined, s1) = append_spec(slot, i, parts, now_ms);
            if joined {
                (step_of(true, false, StageResult::Follower), s1)
            } else {
                (step_of(true, false, StageResult::Reserve), s1)
            }
        },
        PointModel::ReservationRefused(reason) => if !present {
            (step_of(false, false, StageResult::SessionMissing(session_id)), slot)
        } else {
            let (joined, s1) = append_spec(slot, i, parts, now_ms);
            if joined {
                (step_of(true, false, StageResult::Follower), s1)
            } else {
                (step_of(false, false, StageResult::ReservationFailed(reason)), s1)
            }
        },
        PointModel::ReservationGranted => if !present {
            (step_of(false, true, StageResult::SessionMissing(session_id)), slot)
        } else {
            let (joined, s1) = append_spec(slot, i, parts, now_ms);
            if joined {
                (step_of(true, true, StageResult::Follower), s1)
            } else {
                let (owner, s2) = open_spec(s1, i, parts, now_ms);
                match owner {
                    Some(o) => (step_of(true, false, StageResult::Leader(o)), s2),
                    None => (step_of(true, true, StageResult::Bypass), s2),
                }
            }
        },
    }
}

/// Whether a prompt would join the batch in the slot.
fn would_join<P>(slot: &Option<LiveBatch<P>>, ingress: &IngressInfo, now_ms: i64) -> (r: bool)
    ensures
        r == append_spec(slot_view(*slot), ingress@, Seq::<P>::empty(), now_ms).0,
{
    if !supports(ingress) {
        return false;
    }
    match slot {
        Some(b) => !stale(b.opened_at_ms, now_ms) && matches_batch(b, ingress),
        None => false,
    }
}

/// One step of staging a live web prompt, as `stage_spec` says; the slot is
/// left as it was where the session does not exist.
pub fn stage_step<P>(
    point: StagePoint,
    session_id: &str,
    present: bool,
    slot: &mut Option<LiveBatch<P>>,
    ingress: IngressInfo,
    parts: Vec<P>,
    now_ms: i64,
) -> (r: StageStep)
    ensures
        (step_view(r), slot_view(*final(slot))) == stage_spec(
            point_view(point),
            session_id@,
            present,
            slot_view(*old(slot)),
            ingress@,
            parts@,
            now_ms,
        ),
{
    let ghost i = ingress@;
    let ghost ps = parts@;
    let ghost s0 = slot_view(*slot);
    match point {
        StagePoint::Arrived => {
            if !supports(&ingress) {
                return StageStep { persist: false, release: false, next: StageNext::Finish(Ok(StageOutcome::Bypass)) };
            }
            if !present {
                return StageStep {
                    persist: false,
                    release: false,
                    next: StageNext::Finish(Err(ApiError::SessionNotFound(owned(session_id)))),
                };
            }
            let joined = append_if_present(slot, ingress, parts, now_ms);
            if joined {
                StageStep { persist: true, release: false, next: StageNext::Finish(Ok(StageOutcome::Follower)) }
            } else {
                StageStep { persist: true, release: false, next: StageNext::Reserve }
            }
        },
        StagePoint::ReservationRefused(reason) => {
            if !present {
                return StageStep {
                    persist: false,
                    release: false,
                    next: StageNext::Finish(Err(ApiError::SessionNotFound(owned(session_id)))),
                };
            }
            let joined = append_if_present(slot, ingress, parts, now_ms);
            if joined {
                StageStep { persist: true, release: false, next: StageNext::Finish(Ok(StageOutcome::Follower)) }
            } else {
                StageStep { persist: false, release: false, next: StageNext::Finish(Err(ApiError::BadRequest(reason))) }
            }
        },
        StagePoint::ReservationGranted => {
            if !present {
                return StageStep {
                    persist: false,
                    release: true,
                    next: StageNext::Finish(Err(ApiError::SessionNotFound(owned(session_id)))),
                };
            }
            if would_join(slot, &ingress, now_ms) {
                let joined = append_if_present(slot, ingress, parts, now_ms);
                assert(joined);
                return StageStep { persist: true, release: true, next: StageNext::Finish(Ok(StageOutcome::Follower)) };
            }
            proof {
                let (joined, s1) = append_spec(s0, i, ps, now_ms);
                assert(!joined);
                assert(open_spec(s1, i, ps, now_ms) == open_spec(s0, i, ps, now_ms));
            }
            match open(slot, ingress, parts, now_ms) {
                Some(owner) => StageStep {
                    persist: true,
                    release: false,
                    next: StageNext::Finish(Ok(StageOutcome::Leader(owner))),
                },
                None => StageStep { persist: true, release: true, next: StageNext::Finish(Ok(StageOutcome::Bypass)) },
            }
        },
    }
}

/// Staging two web prompts typed in quick succession into a session with
/// no open batch: the first, once its run is reserved, leads a new batch,
/// and the second joins it as a follower without asking for a run.
pub proof fn lemma_staging_leader_then_follower<P>(
    session_id: Seq<char>,
    leader: IngressModel,
    leader_parts: Seq<P>,
    follower: IngressModel,
    follower_parts: Seq<P>,
    opened_at_ms: i64,
    now_ms: i64,
)
    requires
        supports_spec(leader),
        follower.session_id == leader.session_id,
        follower.source == leader.source,
        follower.context_key == leader.context_key,
        follower.command == leader.command,
        opened_at_ms <= now_ms <= opened_at_ms + BATCH_WINDOW_MS,
    ensures
        ({
            let (s1, slot1) = stage_spec(PointModel::Arrived, session_id, true, None, leader, leader_parts, opened_at_ms);
            let (s2, slot2) = stage_spec(
                PointModel::ReservationGranted,
                session_id,
                true,
                slot1,
                leader,
                leader_parts,
                opened_at_ms,
            );
            let (s3, slot3) = stage_spec(PointModel::Arrived, session_id, true, slot2, follower, follower_parts, now_ms);
            &&& s1.result == StageResult::Reserve
            &&& s2.result == StageResult::Leader(leader.turn_id)
            &&& !s2.release
            &&& s3.result == StageResult::Follower
            &&& slot3 matches Some(b) && b.owner == leader.turn_id && b.items == seq![
                (leader, leader_parts),
                (follower, follower_parts),
            ]
        }),
{
    let (s2, slot2) = stage_spec::<P>(
        PointModel::ReservationGranted,
        session_id,
        true,
        None,
        leader,
        leader_parts,
        opened_at_ms,
    );
    let b = slot2->0;
    assert(b.items.len() == 1);
    assert(matches_spec(b, follower));
    let (s3, slot3) = stage_spec(PointModel::Arrived, session_id, true, slot2, follower, follower_parts, now_ms);
    assert(slot3->0.items =~= seq![(leader, leader_parts), (follower, follower_parts)]);
}

} // verus!

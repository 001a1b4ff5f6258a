//! Coalescing of live assistant output: append deltas and full snapshots of one
//! message part are folded into the text seen so far.

use vstd::prelude::*;
use crate::text::{has_prefix, has_suffix, owned, push_char, starts_with};
use crate::text_map::TextMap;
use vstd::utf8::encode_utf8;
use vstd::string::StringSliceAdditionalSpecFns;

verus! {

/// The longest overlap of at most `k` characters between a suffix of `e` and a
/// prefix of `i`, searching from the longest.
pub open spec fn overlap_from(e: Seq<char>, i: Seq<char>, k: nat) -> nat
    decreases k,
{
    if k == 0 {
        0
    } else if k <= e.len() && k <= i.len() && e.subrange(e.len() - k, e.len() as int)
        == i.subrange(0, k as int) {
        k
    } else {
        overlap_from(e, i, (k - 1) as nat)
    }
}

/// The longest suffix of `e` that is also a prefix of `i`.
pub open spec fn overlap(e: Seq<char>, i: Seq<char>) -> nat {
    overlap_from(e, i, if e.len() <= i.len() { e.len() } else { i.len() })
}

/// The text after a snapshot `i` is folded into the text `e` seen so far: an
/// empty snapshot changes nothing, a snapshot that extends `e` replaces it, a
/// snapshot that `e` already starts with is dropped, and otherwise the part of
/// `i` past its overlap with the end of `e` is appended.
pub open spec fn merge_snapshot(e: Seq<char>, i: Seq<char>) -> Seq<char> {
    if i.len() == 0 {
        e
    } else if e.len() == 0 {
        i
    } else if has_prefix(i, e) {
        i
    } else if has_prefix(e, i) {
        e
    } else {
        e + i.subrange(overlap(e, i) as int, i.len() as int)
    }
}

proof fn lemma_overlap_from_bound(e: Seq<char>, i: Seq<char>, k: nat)
    ensures
        overlap_from(e, i, k) <= k,
        overlap_from(e, i, k) > 0 ==> overlap_from(e, i, k) <= e.len() && overlap_from(e, i, k)
            <= i.len() && e.subrange(e.len() - overlap_from(e, i, k), e.len() as int)
            == i.subrange(0, overlap_from(e, i, k) as int),
    decreases k,
{
    if k > 0 {
        lemma_overlap_from_bound(e, i, (k - 1) as nat);
    }
}

/// Whether the last `k` characters of `e` are the first `k` characters of `i`.
fn suffix_matches_prefix(e: &str, i: &str, k: usize) -> (r: bool)
    requires
        k <= e@.len(),
        k <= i@.len(),
    ensures
        r == (e@.subrange(e@.len() - k, e@.len() as int) == i@.subrange(0, k as int)),
{
    let n = e.unicode_len();
    let mut j: usize = 0;
    while j < k
        invariant
            n == e@.len(),
            k <= n,
            k <= i@.len(),
            j <= k,
            forall|t: int| 0 <= t < j ==> e@[n - k + t] == i@[t],
        decreases k - j,
    {
        if e.get_char(n - k + j) != i.get_char(j) {
            proof {
                assert(e@.subrange(n - k, n as int)[j as int] != i@.subrange(0, k as int)[j as int]);
            }
            return false;
        }
        j = j + 1;
    }
    proof {
        assert(e@.subrange(n - k, n as int) =~= i@.subrange(0, k as int));
    }
    true
}

/// The length, in characters, of the longest suffix of `existing` that is also a
/// prefix of `incoming`.
fn char_overlap(existing: &str, incoming: &str) -> (r: usize)
    ensures
        r == overlap(existing@, incoming@),
{
    let n = existing.unicode_len();
    let m = incoming.unicode_len();
    let max = if n <= m { n } else { m };
    let mut size = max;
    while size > 0
        invariant
            n == existing@.len(),
            m == incoming@.len(),
            size <= max,
            max == (if n <= m { n } else { m }),
            overlap(existing@, incoming@) == overlap_from(existing@, incoming@, size as nat),
        decreases size,
    {
        if suffix_matches_prefix(existing, incoming, size) {
            return size;
        }
        size = size - 1;
    }
    0
}

/// UTF-8 encoding distributes over concatenation.
proof fn lemma_encode_utf8_concat(a: Seq<char>, b: Seq<char>)
    ensures
        encode_utf8(a + b) == encode_utf8(a) + encode_utf8(b),
    decreases a.len(),
{
    if a.len() == 0 {
        assert(a + b =~= b);
        assert(encode_utf8(a) + encode_utf8(b) =~= encode_utf8(b));
    } else {
        lemma_encode_utf8_concat(a.drop_first(), b);
        assert((a + b).drop_first() =~= a.drop_first() + b);
        assert((a + b)[0] == a[0]);
        assert(encode_utf8(a + b) =~= encode_utf8(a) + encode_utf8(b));
    }
}

/// The length, in bytes, of the longest suffix of `existing` that is also a
/// prefix of `incoming`, cut at character boundaries: the UTF-8 length of
/// the longest common run of characters, whose bytes end `existing` and
/// begin `incoming`.
pub fn suffix_prefix_overlap(existing: &str, incoming: &str) -> (r: usize)
    ensures
        r == encode_utf8(incoming@.subrange(0, overlap(existing@, incoming@) as int)).len(),
        r <= existing.spec_bytes().len(),
        r <= incoming.spec_bytes().len(),
        existing.spec_bytes().subrange(existing.spec_bytes().len() - r, existing.spec_bytes().len() as int)
            == incoming.spec_bytes().subrange(0, r as int),
{
    let k = char_overlap(existing, incoming);
    let n = existing.unicode_len();
    let m = incoming.unicode_len();
    proof {
        lemma_overlap_from_bound(existing@, incoming@, if n <= m { n as nat } else { m as nat });
    }
    let prefix = incoming.substring_char(0, k);
    proof {
        let c = incoming@.subrange(0, k as int);
        let head = existing@.subrange(0, n - k);
        let tail = incoming@.subrange(k as int, m as int);
        if k > 0 {
            assert(existing@.subrange(n - k, n as int) == c);
        } else {
            assert(existing@.subrange(n - k, n as int) =~= c);
        }
        assert(existing@ =~= head + c);
        assert(incoming@ =~= c + tail);
        lemma_encode_utf8_concat(head, c);
        lemma_encode_utf8_concat(c, tail);
        let eb = existing.spec_bytes();
        let ib = incoming.spec_bytes();
        assert(eb == encode_utf8(head) + encode_utf8(c));
        assert(ib == encode_utf8(c) + encode_utf8(tail));
        assert(eb.subrange(eb.len() - encode_utf8(c).len(), eb.len() as int) =~= encode_utf8(c));
        assert(ib.subrange(0, encode_utf8(c).len() as int) =~= encode_utf8(c));
    }
    prefix.as_bytes().len()
}

/// A part in progress makes the accumulated parts non-empty: after an update
/// returns text, its part is held and the count of parts is not zero.
pub proof fn lemma_held_part_counts(parts: Map<Seq<char>, Seq<char>>, key: Seq<char>)
    requires
        parts.dom().finite(),
        parts.dom().contains(key),
    ensures
        parts.len() > 0,
        !parts.dom().is_empty(),
{
    assert(parts.dom().remove(key).len() + 1 == parts.dom().len());
}

/// Folds a full snapshot of a message part into the text held so far.
pub fn merge_snapshot_text_in_place(existing: &mut String, incoming: &str)
    ensures
        final(existing)@ == merge_snapshot(old(existing)@, incoming@),
{
    let m = incoming.unicode_len();
    if m == 0 {
        return;
    }
    let n = existing.as_str().unicode_len();
    if n == 0 {
        existing.append(incoming);
        return;
    }
    if starts_with(incoming, existing.as_str()) {
        let rest = incoming.substring_char(n, m);
        proof {
            assert(incoming@ =~= existing@ + rest@);
        }
        existing.append(rest);
        return;
    }
    if starts_with(existing.as_str(), incoming) {
        return;
    }
    let ov = char_overlap(existing.as_str(), incoming);
    proof {
        lemma_overlap_from_bound(existing@, incoming@, if n <= m { n as nat } else { m as nat });
    }
    existing.append(incoming.substring_char(ov, m));
}

/// The text after a snapshot is folded into the text seen so far, if any.
pub fn merge_snapshot_text(existing: Option<&str>, incoming: &str) -> (r: String)
    ensures
        r@ == merge_snapshot(
            match existing {
                Some(e) => e@,
                None => Seq::<char>::empty(),
            },
            incoming@,
        ),
{
    let mut merged = match existing {
        Some(e) => owned(e),
        None => String::new(),
    };
    merge_snapshot_text_in_place(&mut merged, incoming);
    merged
}

/// Folding a snapshot into text never drops any of the text seen so far: the
/// old text is a prefix of the new one.
pub proof fn lemma_merge_keeps_existing(e: Seq<char>, i: Seq<char>)
    ensures
        has_prefix(merge_snapshot(e, i), e),
{
    let r = merge_snapshot(e, i);
    if i.len() == 0 || (e.len() > 0 && !has_prefix(i, e) && has_prefix(e, i)) {
        assert(r.subrange(0, e.len() as int) =~= e);
    } else if e.len() == 0 {
        assert(r.subrange(0, 0) =~= e);
    } else if has_prefix(i, e) {
    } else {
        assert(r.subrange(0, e.len() as int) =~= e);
    }
}

/// After a non-empty snapshot is folded in, the text ends with that snapshot
/// unless the text seen so far already started with it.
pub proof fn lemma_merge_shows_snapshot(e: Seq<char>, i: Seq<char>)
    requires
        i.len() > 0,
    ensures
        has_suffix(merge_snapshot(e, i), i) || has_prefix(e, i),
{
    let r = merge_snapshot(e, i);
    if e.len() == 0 {
        assert(r.subrange(0, r.len() as int) =~= i);
    } else if has_prefix(i, e) {
        assert(r.subrange(0, r.len() as int) =~= i);
    } else if has_prefix(e, i) {
    } else {
        let k = overlap(e, i);
        lemma_overlap_from_bound(e, i, if e.len() <= i.len() { e.len() } else { i.len() });
        assert(r.subrange(r.len() - i.len(), r.len() as int) =~= i) by {
            assert forall|t: int| 0 <= t < i.len() implies r.subrange(
                r.len() - i.len(),
                r.len() as int,
            )[t] == i[t] by {
                if t < k {
                    assert(e.subrange(e.len() - k, e.len() as int)[t] == i.subrange(0, k as int)[t]);
                }
            }
        }
    }
}

/// Folding the same snapshot in twice gives the same text as folding it once:
/// a repeated snapshot is harmless.
pub proof fn lemma_merge_idempotent(e: Seq<char>, i: Seq<char>)
    ensures
        merge_snapshot(merge_snapshot(e, i), i) == merge_snapshot(e, i),
{
    let r = merge_snapshot(e, i);
    if i.len() == 0 {
    } else if e.len() == 0 || has_prefix(i, e) {
        assert(r == i);
        assert(i.subrange(0, i.len() as int) =~= i);
    } else if has_prefix(e, i) {
    } else {
        lemma_merge_shows_snapshot(e, i);
        lemma_merge_keeps_existing(e, i);
        if has_prefix(i, r) {
            assert(i.subrange(0, e.len() as int) =~= r.subrange(0, e.len() as int));
            assert(false);
        }
        if !has_prefix(r, i) {
            let mx = if r.len() <= i.len() { r.len() } else { i.len() };
            assert(mx == i.len());
            assert(r.subrange(r.len() - i.len(), r.len() as int) == i.subrange(0, i.len() as int)) by {
                assert(i.subrange(0, i.len() as int) =~= i);
            }
            assert(overlap(r, i) == i.len());
            assert(i.subrange(i.len() as int, i.len() as int) =~= Seq::<char>::empty());
            assert(r + Seq::<char>::empty() =~= r);
        }
    }
}


/// The phase of one live update of a message part.
#[derive(Clone, Copy, Debug, PartialEq, Eq, Structural)]
pub enum LivePartPhase {
    /// The update carries text to append to the part.
    Append,
    /// The update carries the full text of the part so far.
    Snapshot,
    /// The part is complete.
    End,
    /// Any other phase, which carries no text to fold.
    Other,
}

/// The kind of message part that a live update belongs to.
#[derive(Clone, Copy, Debug, PartialEq, Eq, Structural)]
pub enum LivePartKind {
    AssistantText,
    AssistantReasoning,
    ToolCall,
    /// Any other kind of part, whose updates are passed on as they are.
    Other,
}

/// Which message part a live update belongs to, and in which phase.
#[derive(Clone, Debug)]
pub struct LivePartIdentity {
    pub message_id: String,
    pub part_key: String,
    pub part_kind: LivePartKind,
    pub phase: LivePartPhase,
}

/// The key under which the text of one message part of one session is held:
/// `session:message:part`.
pub open spec fn part_key(session_id: Seq<char>, message_id: Seq<char>, part: Seq<char>) -> Seq<
    char,
> {
    session_id + seq![':'] + message_id + seq![':'] + part
}

/// The key of the part that `identity` names, in session `session_id`.
pub fn key_for(session_id: &str, identity: &LivePartIdentity) -> (k: String)
    ensures
        k@ == part_key(session_id@, identity.message_id@, identity.part_key@),
{
    let mut k = owned(session_id);
    push_char(&mut k, ':');
    k.append(identity.message_id.as_str());
    push_char(&mut k, ':');
    k.append(identity.part_key.as_str());
    k
}

/// The block field that carries the coalesced text of a part of the given kind:
/// `text` for assistant text and reasoning, `detail` for tool calls.
pub open spec fn coalesce_field_spec(kind: LivePartKind) -> Option<Seq<char>> {
    match kind {
        LivePartKind::AssistantText | LivePartKind::AssistantReasoning => Some("text"@),
        LivePartKind::ToolCall => Some("detail"@),
        LivePartKind::Other => None,
    }
}

/// The block field that carries the coalesced text of the part `identity`
/// names, if its kind is coalesced at all.
pub fn coalesced_text_field(identity: &LivePartIdentity) -> (r: Option<&'static str>)
    ensures
        match r {
            Some(f) => coalesce_field_spec(identity.part_kind) == Some(f@),
            None => coalesce_field_spec(identity.part_kind) is None,
        },
{
    match identity.part_kind {
        LivePartKind::AssistantText | LivePartKind::AssistantReasoning => Some("text"),
        LivePartKind::ToolCall => Some("detail"),
        LivePartKind::Other => None,
    }
}

/// The text held under `k` in `m`, or the empty text.
pub open spec fn held_text(m: Map<Seq<char>, Seq<char>>, k: Seq<char>) -> Seq<char> {
    if m.dom().contains(k) {
        m[k]
    } else {
        Seq::empty()
    }
}

/// The text that an update of phase `phase` carrying `incoming` leaves under
/// its key, for the phases that fold text.
pub open spec fn folded_text(held: Seq<char>, phase: LivePartPhase, incoming: Seq<char>) -> Seq<
    char,
> {
    if phase == LivePartPhase::Append {
        held + incoming
    } else {
        merge_snapshot(held, incoming)
    }
}

/// The accumulated text of every live message part still in progress.
pub struct LiveSnapshotAccumulator {
    values: TextMap,
}

impl LiveSnapshotAccumulator {
    /// The accumulated text of each part in progress, by part key.
    pub closed spec fn view(&self) -> Map<Seq<char>, Seq<char>> {
        self.values.view()
    }

    /// The accumulator's own invariant.
    pub closed spec fn wf(&self) -> bool {
        self.values.wf()
    }

    /// An accumulator with no part in progress.
    pub fn new() -> (a: Self)
        ensures
            a.wf(),
            a.view() == Map::<Seq<char>, Seq<char>>::empty(),
            a.view().dom().finite(),
    {
        LiveSnapshotAccumulator { values: TextMap::new() }
    }

    /// Folds one live update into the part it names and returns the part's full
    /// text so far. An `End` update forgets the part; an update of another
    /// phase changes nothing; neither returns text.
    pub fn update(&mut self, session_id: &str, identity: &LivePartIdentity, incoming: &str) -> (r:
        Option<String>)
        requires
            old(self).wf(),
        ensures
            final(self).wf(),
            final(self).view().dom().finite(),
            ({
                let k = part_key(session_id@, identity.message_id@, identity.part_key@);
                match identity.phase {
                    LivePartPhase::End => r is None && final(self).view() == old(self).view().remove(k),
                    LivePartPhase::Other => r is None && final(self).view() == old(self).view(),
                    _ => {
                        let t = folded_text(held_text(old(self).view(), k), identity.phase, incoming@);
                        r is Some && r->0@ == t && final(self).view() == old(self).view().insert(k, t)
                            && final(self).view().dom().contains(k) && final(self).view().len() > 0
                    },
                }
            }),
    {
        let key = key_for(session_id, identity);
        match identity.phase {
            LivePartPhase::End => {
                self.values.remove(key.as_str());
                None
            },
            LivePartPhase::Other => {
                proof {
                    self.values.lemma_finite();
                }
                None
            },
            _ => {
                let mut entry = match self.values.get(key.as_str()) {
                    Some(v) => v,
                    None => String::new(),
                };
                if identity.phase == LivePartPhase::Append {
                    entry.append(incoming);
                } else {
                    merge_snapshot_text_in_place(&mut entry, incoming);
                }
                let result = entry.clone();
                self.values.insert(key.as_str(), entry);
                proof {
                    lemma_held_part_counts(self.values.view(), key@);
                }
                Some(result)
            },
        }
    }

    /// The number of parts in progress.
    pub fn len(&self) -> (n: usize)
        requires
            self.wf(),
        ensures
            n == self.view().len(),
            self.view().dom().finite(),
    {
        self.values.len()
    }

    /// Whether no part is in progress.
    pub fn is_empty(&self) -> (b: bool)
        requires
            self.wf(),
        ensures
            b == (self.view().len() == 0),
            b == self.view().dom().is_empty(),
            self.view().dom().finite(),
    {
        self.values.len() == 0
    }

    /// Whether the part with key `key` is in progress.
    pub fn contains_key(&self, key: &str) -> (b: bool)
        requires
            self.wf(),
        ensures
            b == self.view().dom().contains(key@),
    {
        self.values.contains_key(key)
    }
}

} // verus!

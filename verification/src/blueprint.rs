//! A session's scheduler blueprint lock: inspecting it, locking a blueprint
//! the user supplied, and rejecting one the planner chose, which records its
//! fingerprint so that it is not chosen again.

use vstd::prelude::*;
use crate::api_error::ApiError;
use crate::text::{opt_view, owned, str_eq, seq_lt, sort_texts, insert_sorted, dedup_texts, sort_strings,
    dedup_strings, texts_strictly_sorted, lemma_sort_texts_sorted, lemma_dedup_sorted_strict};

verus! {

/// What a session's metadata holds of its scheduler blueprint: the locked
/// blueprint, its fingerprint, the source that selected it (`user` or
/// `planner`), and the fingerprints rejected so far.
pub struct BlueprintRecord<B> {
    pub blueprint: Option<B>,
    pub fingerprint: Option<String>,
    pub selection_source: Option<String>,
    pub rejected: Vec<String>,
}

/// A locked blueprint as shown to clients.
pub struct BlueprintView<B> {
    pub blueprint: B,
    pub fingerprint: String,
    pub selection_source: String,
}

/// Shows the blueprint a session has locked: refused as not found where it
/// has none, and as an internal error where its fingerprint or selection
/// source is missing.
pub fn session_blueprint_view<B>(record: BlueprintRecord<B>) -> (r: Result<BlueprintView<B>, ApiError>)
    ensures
        match r {
            Ok(v) => record.blueprint == Some(v.blueprint) && opt_view(record.fingerprint) == Some(v.fingerprint@)
                && opt_view(record.selection_source) == Some(v.selection_source@),
            Err(e) => if record.blueprint is None {
                e.is_not_found("session has no effective Blueprint"@)
            } else if record.fingerprint is None {
                e is InternalError && e.message() == "Blueprint fingerprint is missing"@
            } else {
                record.selection_source is None && e is InternalError && e.message()
                    == "Blueprint selection source is missing"@
            },
        },
{
    let blueprint = match record.blueprint {
        Some(b) => b,
        None => return Err(ApiError::NotFound(owned("session has no effective Blueprint"))),
    };
    let fingerprint = match record.fingerprint {
        Some(f) => f,
        None => return Err(ApiError::InternalError(owned("Blueprint fingerprint is missing"))),
    };
    let selection_source = match record.selection_source {
        Some(s) => s,
        None => return Err(ApiError::InternalError(owned("Blueprint selection source is missing"))),
    };
    Ok(BlueprintView { blueprint, fingerprint, selection_source })
}

/// Locks a blueprint the user supplied (already validated), with its
/// fingerprint, as selected by the user; the rejected fingerprints stay.
pub fn lock_user_blueprint<B>(record: &mut BlueprintRecord<B>, blueprint: B, fingerprint: String)
    ensures
        final(record).blueprint == Some(blueprint),
        opt_view(final(record).fingerprint) == Some(fingerprint@),
        opt_view(final(record).selection_source) == Some("user"@),
        final(record).rejected@ == old(record).rejected@,
{
    record.blueprint = Some(blueprint);
    record.fingerprint = Some(fingerprint);
    record.selection_source = Some(owned("user"));
}

proof fn lemma_insert_sorted_contents(s: Seq<Seq<char>>, x: Seq<char>)
    ensures
        forall|y: Seq<char>| #[trigger] insert_sorted(s, x).contains(y) <==> (s.contains(y) || y == x),
    decreases s.len(),
{
    if s.len() > 0 && seq_lt(x, s.last()) {
        lemma_insert_sorted_contents(s.drop_last(), x);
        let p = insert_sorted(s.drop_last(), x);
        assert forall|y: Seq<char>| #[trigger] insert_sorted(s, x).contains(y) <==> (s.contains(y) || y == x) by {
            assert(insert_sorted(s, x) == p.push(s.last()));
            if s.contains(y) {
                let k = choose|k: int| 0 <= k < s.len() && s[k] == y;
                if k < s.len() - 1 {
                    assert(s.drop_last()[k] == y);
                    assert(p.contains(y));
                    let j = choose|j: int| 0 <= j < p.len() && p[j] == y;
                    assert(p.push(s.last())[j] == y);
                } else {
                    assert(p.push(s.last())[p.len() as int] == y);
                }
            }
            if y == x {
                assert(p.contains(x));
                let j = choose|j: int| 0 <= j < p.len() && p[j] == x;
                assert(p.push(s.last())[j] == x);
            }
            if insert_sorted(s, x).contains(y) {
                let j = choose|j: int| 0 <= j < p.len() + 1 && p.push(s.last())[j] == y;
                if j < p.len() {
                    assert(p[j] == y);
                    assert(p.contains(y));
                    if y != x {
                        assert(s.drop_last().contains(y));
                        let k = choose|k: int| 0 <= k < s.drop_last().len() && s.drop_last()[k] == y;
                        assert(s[k] == y);
                    }
                } else {
                    assert(s[s.len() - 1] == y);
                }
            }
        }
    } else if s.len() > 0 {
        assert forall|y: Seq<char>| #[trigger] insert_sorted(s, x).contains(y) <==> (s.contains(y) || y == x) by {
            assert(insert_sorted(s, x) == s.push(x));
            if s.contains(y) {
                let k = choose|k: int| 0 <= k < s.len() && s[k] == y;
                assert(s.push(x)[k] == y);
            }
            if y == x {
                assert(s.push(x)[s.len() as int] == x);
            }
            if s.push(x).contains(y) {
                let j = choose|j: int| 0 <= j < s.len() + 1 && s.push(x)[j] == y;
                if j < s.len() {
                    assert(s[j] == y);
                }
            }
        }
    } else {
        assert forall|y: Seq<char>| #[trigger] insert_sorted(s, x).contains(y) <==> (s.contains(y) || y == x) by {
            assert(insert_sorted(s, x) == seq![x]);
            if seq![x].contains(y) {
                let j = choose|j: int| 0 <= j < 1 && seq![x][j] == y;
            }
            if y == x {
                assert(seq![x][0] == x);
            }
        }
    }
}

proof fn lemma_sort_texts_contents(s: Seq<Seq<char>>)
    ensures
        forall|y: Seq<char>| #[trigger] sort_texts(s).contains(y) <==> s.contains(y),
    decreases s.len(),
{
    if s.len() > 0 {
        lemma_sort_texts_contents(s.drop_last());
        lemma_insert_sorted_contents(sort_texts(s.drop_last()), s.last());
        assert forall|y: Seq<char>| #[trigger] sort_texts(s).contains(y) <==> s.contains(y) by {
            if s.contains(y) && y != s.last() {
                let k = choose|k: int| 0 <= k < s.len() && s[k] == y;
                assert(k < s.len() - 1);
                assert(s.drop_last()[k] == y);
            }
            if s.drop_last().contains(y) {
                let k = choose|k: int| 0 <= k < s.drop_last().len() && s.drop_last()[k] == y;
                assert(s[k] == y);
            }
            if y == s.last() {
                assert(s[s.len() - 1] == y);
            }
        }
    }
}

proof fn lemma_dedup_texts_contents(s: Seq<Seq<char>>)
    ensures
        forall|y: Seq<char>| #[trigger] dedup_texts(s).contains(y) <==> s.contains(y),
    decreases s.len(),
{
    if s.len() > 0 {
        let p = s.drop_last();
        lemma_dedup_texts_contents(p);
        let d = dedup_texts(p);
        assert forall|y: Seq<char>| #[trigger] dedup_texts(s).contains(y) <==> s.contains(y) by {
            if s.contains(y) {
                let k = choose|k: int| 0 <= k < s.len() && s[k] == y;
                if k < s.len() - 1 {
                    assert(p[k] == y);
                    assert(d.contains(y));
                    let j = choose|j: int| 0 <= j < d.len() && d[j] == y;
                    if !(d.len() > 0 && d.last() == s.last()) {
                        assert(d.push(s.last())[j] == y);
                    }
                } else if d.len() > 0 && d.last() == s.last() {
                    assert(d[d.len() - 1] == y);
                } else {
                    assert(d.push(s.last())[d.len() as int] == y);
                }
            }
            if dedup_texts(s).contains(y) {
                if d.len() > 0 && d.last() == s.last() {
                    assert(d.contains(y));
                    assert(p.contains(y));
                    let k = choose|k: int| 0 <= k < p.len() && p[k] == y;
                    assert(s[k] == y);
                } else {
                    let j = choose|j: int| 0 <= j < d.len() + 1 && d.push(s.last())[j] == y;
                    if j < d.len() {
                        assert(d[j] == y);
                        assert(d.contains(y));
                        assert(p.contains(y));
                        let k = choose|k: int| 0 <= k < p.len() && p[k] == y;
                        assert(s[k] == y);
                    } else {
                        assert(s[s.len() - 1] == y);
                    }
                }
            }
        }
    }
}

/// The fingerprints rejected after rejecting `fingerprint`: those rejected
/// before and it, each once, in ascending order.
pub open spec fn rejected_after(rejected: Seq<Seq<char>>, fingerprint: Seq<char>) -> Seq<Seq<char>> {
    dedup_texts(sort_texts(rejected.push(fingerprint)))
}

/// The rejected fingerprints after a rejection hold exactly those held
/// before and the one rejected, in strictly ascending order.
pub proof fn lemma_rejected_after(rejected: Seq<Seq<char>>, fingerprint: Seq<char>)
    ensures
        texts_strictly_sorted(rejected_after(rejected, fingerprint)),
        forall|y: Seq<char>|
            #[trigger] rejected_after(rejected, fingerprint).contains(y) <==> (rejected.contains(y) || y
                == fingerprint),
{
    let s = rejected.push(fingerprint);
    lemma_sort_texts_sorted(s);
    lemma_dedup_sorted_strict(sort_texts(s));
    lemma_sort_texts_contents(s);
    lemma_dedup_texts_contents(sort_texts(s));
    assert forall|y: Seq<char>| #[trigger] s.contains(y) <==> (rejected.contains(y) || y == fingerprint) by {
        if rejected.contains(y) {
            let k = choose|k: int| 0 <= k < rejected.len() && rejected[k] == y;
            assert(s[k] == y);
        }
        if y == fingerprint {
            assert(s[rejected.len() as int] == y);
        }
        if s.contains(y) {
            let k = choose|k: int| 0 <= k < s.len() && s[k] == y;
            if k < rejected.len() {
                assert(rejected[k] == y);
            }
        }
    }
}

/// The refusal of rejecting a blueprint the planner did not choose.
pub open spec fn not_planned_message() -> Seq<char> {
    "only an AI-planned Blueprint can be rejected"@
}

/// Rejects the blueprint the planner chose for a session: refused as a bad
/// request unless the planner selected it, and as an internal error where
/// its fingerprint is missing; otherwise the fingerprint joins the rejected
/// ones (as `rejected_after` says) and the lock, fingerprint and selection
/// source are cleared. The fingerprint rejected is returned. A refused
/// rejection leaves the record as it was.
pub fn reject_planned_blueprint<B>(record: &mut BlueprintRecord<B>) -> (r: Result<String, ApiError>)
    ensures
        opt_view(old(record).selection_source) != Some("planner"@) ==> (r matches Err(e) && e.is_bad_request(
            not_planned_message(),
        )),
        opt_view(old(record).selection_source) == Some("planner"@) && old(record).fingerprint is None ==> (r matches Err(
            e,
        ) && e is InternalError && e.message() == "Blueprint fingerprint is missing"@),
        r is Err ==> *final(record) == *old(record),
        r is Ok <==> (opt_view(old(record).selection_source) == Some("planner"@) && old(record).fingerprint is Some),
        r matches Ok(f) ==> {
            &&& opt_view(old(record).fingerprint) == Some(f@)
            &&& final(record).rejected.deep_view() == rejected_after(old(record).rejected.deep_view(), f@)
            &&& final(record).blueprint is None
            &&& final(record).fingerprint is None
            &&& final(record).selection_source is None
        },
{
    let planned = match &record.selection_source {
        Some(s) => str_eq(s.as_str(), "planner"),
        None => false,
    };
    if !planned {
        return Err(ApiError::BadRequest(owned("only an AI-planned Blueprint can be rejected")));
    }
    let fingerprint = match &record.fingerprint {
        Some(f) => owned(f.as_str()),
        None => return Err(ApiError::InternalError(owned("Blueprint fingerprint is missing"))),
    };
    let mut all: Vec<String> = Vec::new();
    let mut i: usize = 0;
    while i < record.rejected.len()
        invariant
            i <= record.rejected@.len(),
            all.deep_view() == record.rejected.deep_view().subrange(0, i as int),
        decreases record.rejected@.len() - i,
    {
        let ghost before = all.deep_view();
        let t = owned(record.rejected[i].as_str());
        proof {
            assert(record.rejected.deep_view()[i as int] == record.rejected@[i as int]@);
        }
        all.push(t);
        proof {
            assert(all.deep_view() =~= before.push(t@));
            assert(all.deep_view() =~= record.rejected.deep_view().subrange(0, i + 1));
        }
        i = i + 1;
    }
    proof {
        assert(record.rejected.deep_view().subrange(0, record.rejected@.len() as int) =~= record.rejected.deep_view());
    }
    let ghost before_all = all.deep_view();
    all.push(owned(fingerprint.as_str()));
    proof {
        assert(all.deep_view() =~= before_all.push(fingerprint@));
    }
    let sorted = sort_strings(&all);
    let rejected = dedup_strings(&sorted);
    record.rejected = rejected;
    record.blueprint = None;
    record.fingerprint = None;
    record.selection_source = None;
    Ok(fingerprint)
}

} // verus!

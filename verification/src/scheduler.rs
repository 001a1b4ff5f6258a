//! The scheduler's host tools: the checks on their arguments, which requested
//! anchors they may hydrate, and the text they answer with.

use vstd::prelude::*;
use crate::text::opt_view;
use crate::text::{text_listed, dedup_strings, dedup_texts, sort_strings, sort_texts, texts_strictly_sorted, lemma_sort_texts_sorted, lemma_dedup_sorted_strict, trim, owned, trim_str, str_eq, cat, cat3, join, join_spec, split_on, split_char, lemma_split_on_len};
use crate::recovery::MessageRole;
use crate::api_error::ApiError;

verus! {

/// An error of a scheduler host tool.
#[derive(Debug, Clone, PartialEq, Eq)]
pub enum SchedulerToolError {
    InvalidArguments(String),
    Execution(String),
}

impl SchedulerToolError {
    /// The text shown for the error.
    pub open spec fn text_spec(self) -> Seq<char> {
        match self {
            SchedulerToolError::InvalidArguments(m) => "Invalid arguments: "@ + m@,
            SchedulerToolError::Execution(m) => "Execution error: "@ + m@,
        }
    }

    /// The text shown for the error.
    pub fn to_text(&self) -> (r: String)
        ensures
            r@ == self.text_spec(),
    {
        match self {
            SchedulerToolError::InvalidArguments(m) => cat("Invalid arguments: ", m.as_str()),
            SchedulerToolError::Execution(m) => cat("Execution error: ", m.as_str()),
        }
    }

    /// An invalid-arguments error with message `m`.
    pub open spec fn is_invalid(self, m: Seq<char>) -> bool {
        self matches SchedulerToolError::InvalidArguments(x) && x@ == m
    }
}

/// The first occurrence of each item, in order.
pub open spec fn dedupe(s: Seq<Seq<char>>) -> Seq<Seq<char>>
    decreases s.len(),
{
    if s.len() == 0 {
        Seq::empty()
    } else {
        let d = dedupe(s.drop_last());
        if d.contains(s.last()) {
            d
        } else {
            d.push(s.last())
        }
    }
}

/// An id entry that is a string holding more than white space.
pub open spec fn usable_id(v: Option<String>) -> bool {
    v matches Some(s) && trim(s@).len() > 0
}

/// The entries, trimmed.
pub open spec fn trimmed_ids(values: Seq<Option<String>>) -> Seq<Seq<char>> {
    Seq::new(values.len(), |i: int| trim(values[i]->Some_0@))
}

/// Which ids a hydrate request asks for: `values` is the request's id array
/// (`None` where it has none, and `None` for an entry that is not a string).
pub open spec fn requested_ids_spec(values: Option<Seq<Option<String>>>, max: nat) -> Option<
    Seq<Seq<char>>,
> {
    match values {
        None => None,
        Some(v) => if v.len() == 0 || v.len() > max || exists|i: int|
            0 <= i < v.len() && !usable_id(#[trigger] v[i]) {
            None
        } else {
            Some(dedupe(trimmed_ids(v)))
        },
    }
}

proof fn lemma_dedupe_step(s: Seq<Seq<char>>, x: Seq<char>)
    ensures
        dedupe(s.push(x)) == (if dedupe(s).contains(x) {
            dedupe(s)
        } else {
            dedupe(s).push(x)
        }),
{
    assert(s.push(x).drop_last() =~= s);
}


/// Checks the ids of a hydrate request and gathers them: an array of at most
/// `max` entries, none empty, each a string holding more than white space;
/// the trimmed ids, each once, in order of first appearance.
fn hydrate_ids(
    values: &Option<Vec<Option<String>>>,
    max: usize,
    not_array: &str,
    empty: &str,
    too_many: &str,
    bad_entry: &str,
) -> (r: Result<Vec<String>, SchedulerToolError>)
    ensures
        values is None ==> (r matches Err(e) && e.is_invalid(not_array@)),
        values matches Some(v) && v.len() == 0 ==> (r matches Err(e) && e.is_invalid(empty@)),
        values matches Some(v) && v.len() > max ==> (r matches Err(e) && e.is_invalid(too_many@)),
        values matches Some(v) && 0 < v.len() <= max && (exists|i: int|
            0 <= i < v.len() && !usable_id(#[trigger] v@[i])) ==> (r matches Err(e) && e.is_invalid(
            bad_entry@,
        )),
        r is Ok <==> requested_ids_spec(
            match values {
                Some(v) => Some(v@),
                None => None,
            },
            max as nat,
        ) is Some,
        r matches Ok(ids) ==> Some(ids.deep_view()) == requested_ids_spec(
            match values {
                Some(v) => Some(v@),
                None => None,
            },
            max as nat,
        ),
{
    let v = match values {
        None => return Err(SchedulerToolError::InvalidArguments(owned(not_array))),
        Some(v) => v,
    };
    if v.len() == 0 {
        return Err(SchedulerToolError::InvalidArguments(owned(empty)));
    }
    if v.len() > max {
        return Err(SchedulerToolError::InvalidArguments(owned(too_many)));
    }
    let ghost tv = trimmed_ids(v@);
    let mut ids: Vec<String> = Vec::new();
    let mut i: usize = 0;
    while i < v.len()
        invariant
            i <= v.len(),
            0 < v.len() <= max,
            tv == trimmed_ids(v@),
            values matches Some(w) && w@ == v@,
            forall|j: int| 0 <= j < i ==> usable_id(#[trigger] v@[j]),
            ids.deep_view() == dedupe(tv.subrange(0, i as int)),
        decreases v.len() - i,
    {
        let entry = match &v[i] {
            None => None,
            Some(s) => {
                let t = trim_str(s.as_str());
                if t.as_str().unicode_len() == 0 {
                    None
                } else {
                    Some(t)
                }
            },
        };
        match entry {
            None => {
                assert(!usable_id(v@[i as int]));
                return Err(SchedulerToolError::InvalidArguments(owned(bad_entry)));
            },
            Some(t) => {
                proof {
                    assert(tv.subrange(0, i + 1) =~= tv.subrange(0, i as int).push(tv[i as int]));
                    lemma_dedupe_step(tv.subrange(0, i as int), tv[i as int]);
                }
                if !text_listed(&ids, t.as_str()) {
                    ids.push(t);
                    proof {
                        assert(ids.deep_view() =~= dedupe(tv.subrange(0, i as int)).push(tv[i as int]));
                    }
                }
                i = i + 1;
            },
        }
    }
    proof {
        assert(tv.subrange(0, v@.len() as int) =~= tv);
    }
    Ok(ids)
}

/// Checks and gathers the `message_ids` of a context hydrate request.
pub fn scheduler_context_hydrate_message_ids(values: &Option<Vec<Option<String>>>) -> (r: Result<
    Vec<String>,
    SchedulerToolError,
>)
    ensures
        values is None ==> (r matches Err(e) && e.is_invalid(
            "message_ids must be an array of scheduler continuity message ids"@,
        )),
        values matches Some(v) && v.len() == 0 ==> (r matches Err(e) && e.is_invalid(
            "message_ids must not be empty"@,
        )),
        values matches Some(v) && v.len() > 12 ==> (r matches Err(e) && e.is_invalid(
            "message_ids must contain at most 12 ids"@,
        )),
        values matches Some(v) && 0 < v.len() <= 12 && (exists|i: int|
            0 <= i < v.len() && !usable_id(#[trigger] v@[i])) ==> (r matches Err(e) && e.is_invalid(
            "message_ids must only contain non-empty strings"@,
        )),
        r is Ok <==> requested_ids_spec(
            match values {
                Some(v) => Some(v@),
                None => None,
            },
            12,
        ) is Some,
        r matches Ok(ids) ==> Some(ids.deep_view()) == requested_ids_spec(
            match values {
                Some(v) => Some(v@),
                None => None,
            },
            12,
        ),
{
    hydrate_ids(
        values,
        12,
        "message_ids must be an array of scheduler continuity message ids",
        "message_ids must not be empty",
        "message_ids must contain at most 12 ids",
        "message_ids must only contain non-empty strings",
    )
}

/// Checks and gathers the `record_ids` of a memory hydrate request.
pub fn scheduler_memory_hydrate_record_ids(values: &Option<Vec<Option<String>>>) -> (r: Result<
    Vec<String>,
    SchedulerToolError,
>)
    ensures
        values is None ==> (r matches Err(e) && e.is_invalid(
            "record_ids must be an array of scheduler memory anchor ids"@,
        )),
        values matches Some(v) && v.len() == 0 ==> (r matches Err(e) && e.is_invalid(
            "record_ids must not be empty"@,
        )),
        values matches Some(v) && v.len() > 8 ==> (r matches Err(e) && e.is_invalid(
            "record_ids must contain at most 8 ids"@,
        )),
        values matches Some(v) && 0 < v.len() <= 8 && (exists|i: int|
            0 <= i < v.len() && !usable_id(#[trigger] v@[i])) ==> (r matches Err(e) && e.is_invalid(
            "record_ids must only contain non-empty strings"@,
        )),
        r is Ok <==> requested_ids_spec(
            match values {
                Some(v) => Some(v@),
                None => None,
            },
            8,
        ) is Some,
        r matches Ok(ids) ==> Some(ids.deep_view()) == requested_ids_spec(
            match values {
                Some(v) => Some(v@),
                None => None,
            },
            8,
        ),
{
    hydrate_ids(
        values,
        8,
        "record_ids must be an array of scheduler memory anchor ids",
        "record_ids must not be empty",
        "record_ids must contain at most 8 ids",
        "record_ids must only contain non-empty strings",
    )
}

/// A requested limit, or `default` when none is given, held to `1..=max`.
pub open spec fn clamp_limit(requested: Option<u64>, default: nat, max: nat) -> nat {
    let v: nat = match requested {
        Some(x) => x as nat,
        None => default,
    };
    if v < 1 {
        1
    } else if v > max {
        max
    } else {
        v
    }
}

fn clamp_request(requested: Option<u64>, default: u64, max: u64) -> (r: usize)
    requires
        1 <= default <= max <= 65535,
    ensures
        r == clamp_limit(requested, default as nat, max as nat),
{
    let v: u64 = match requested {
        Some(x) => x,
        None => default,
    };
    let c: u64 = if v < 1 {
        1
    } else if v > max {
        max
    } else {
        v
    };
    c as usize
}

/// How many characters of each hydrated message are shown: the requested
/// number, 2000 by default, held to `1..=8000`.
pub fn scheduler_context_hydrate_message_limit(requested: Option<u64>) -> (r: usize)
    ensures
        r == clamp_limit(requested, 2000, 8000),
{
    clamp_request(requested, 2000, 8000)
}

/// How many characters of each hydrated memory record are shown: the
/// requested number, 4000 by default, held to `1..=12000`.
pub fn scheduler_memory_hydrate_record_limit(requested: Option<u64>) -> (r: usize)
    ensures
        r == clamp_limit(requested, 4000, 12000),
{
    clamp_request(requested, 4000, 12000)
}

/// Whether memory evidence is shown: only when the request asks for it.
pub fn scheduler_memory_hydrate_include_evidence(requested: Option<bool>) -> (r: bool)
    ensures
        r == (requested == Some(true)),
{
    match requested {
        Some(b) => b,
        None => false,
    }
}

/// The test that an id is among the allowed ones.
pub open spec fn in_list(allowed: Seq<Seq<char>>) -> spec_fn(Seq<char>) -> bool {
    |x: Seq<char>| allowed.contains(x)
}

/// The test that an id is not among the allowed ones.
pub open spec fn not_in_list(allowed: Seq<Seq<char>>) -> spec_fn(Seq<char>) -> bool {
    |x: Seq<char>| !allowed.contains(x)
}

/// Splits the requested ids into those the continuity packet authorizes and
/// those it does not, each in request order. With no authorized anchor at
/// all, the request is refused with `unavailable`.
fn partition_requests(
    requested: &Vec<String>,
    allowed: &Vec<String>,
    unavailable: &str,
) -> (r: Result<(Vec<String>, Vec<String>), SchedulerToolError>)
    ensures
        allowed@.len() == 0 <==> r is Err,
        r matches Err(e) ==> e.is_invalid(unavailable@),
        r matches Ok(p) ==> p.0.deep_view() == requested.deep_view().filter(
            in_list(allowed.deep_view()),
        ) && p.1.deep_view() == requested.deep_view().filter(not_in_list(allowed.deep_view())),
{
    if allowed.len() == 0 {
        return Err(SchedulerToolError::InvalidArguments(owned(unavailable)));
    }
    let ghost rq = requested.deep_view();
    let ghost al = allowed.deep_view();
    let mut authorized: Vec<String> = Vec::new();
    let mut rejected: Vec<String> = Vec::new();
    let mut i: usize = 0;
    while i < requested.len()
        invariant
            i <= requested.len(),
            rq == requested.deep_view(),
            al == allowed.deep_view(),
            authorized.deep_view() == rq.subrange(0, i as int).filter(in_list(al)),
            rejected.deep_view() == rq.subrange(0, i as int).filter(not_in_list(al)),
        decreases requested.len() - i,
    {
        proof {
            assert(rq.subrange(0, i + 1).drop_last() =~= rq.subrange(0, i as int));
            reveal(Seq::filter);
        }
        let id = owned(requested[i].as_str());
        if text_listed(allowed, id.as_str()) {
            authorized.push(id);
            proof {
                assert(authorized.deep_view() =~= rq.subrange(0, i as int).filter(in_list(al)).push(
                    rq[i as int],
                ));
            }
        } else {
            rejected.push(id);
            proof {
                assert(rejected.deep_view() =~= rq.subrange(0, i as int).filter(not_in_list(al)).push(
                    rq[i as int],
                ));
            }
        }
        i = i + 1;
    }
    proof {
        assert(rq.subrange(0, requested@.len() as int) =~= rq);
    }
    Ok((authorized, rejected))
}

/// Splits the requested message ids into those the continuity packet
/// authorizes and those it rejects; refused when it authorizes none.
pub fn plan_scheduler_context_hydration(requested: &Vec<String>, allowed: &Vec<String>) -> (r: Result<
    (Vec<String>, Vec<String>),
    SchedulerToolError,
>)
    ensures
        allowed@.len() == 0 <==> r is Err,
        r matches Err(e) ==> e.is_invalid(
            "scheduler continuity packet is unavailable; no hydration anchors are authorized"@,
        ),
        r matches Ok(p) ==> p.0.deep_view() == requested.deep_view().filter(
            in_list(allowed.deep_view()),
        ) && p.1.deep_view() == requested.deep_view().filter(not_in_list(allowed.deep_view())),
{
    partition_requests(
        requested,
        allowed,
        "scheduler continuity packet is unavailable; no hydration anchors are authorized",
    )
}

/// Splits the requested memory record ids into those the continuity packet
/// authorizes and those it rejects; refused when it authorizes none.
pub fn plan_scheduler_memory_hydration(requested: &Vec<String>, allowed: &Vec<String>) -> (r: Result<
    (Vec<String>, Vec<String>),
    SchedulerToolError,
>)
    ensures
        allowed@.len() == 0 <==> r is Err,
        r matches Err(e) ==> e.is_invalid(
            "scheduler continuity packet is unavailable; no memory anchors are authorized"@,
        ),
        r matches Ok(p) ==> p.0.deep_view() == requested.deep_view().filter(
            in_list(allowed.deep_view()),
        ) && p.1.deep_view() == requested.deep_view().filter(not_in_list(allowed.deep_view())),
{
    partition_requests(
        requested,
        allowed,
        "scheduler continuity packet is unavailable; no memory anchors are authorized",
    )
}

/// One line per id, naming why it was not hydrated.
pub open spec fn id_lines(ids: Seq<Seq<char>>, reason: Seq<char>) -> Seq<Seq<char>> {
    Seq::new(ids.len(), |i: int| "- `"@ + ids[i] + "`: "@ + reason)
}

/// A titled section of lines, left out when there are none.
pub open spec fn opt_section(title: Seq<char>, lines: Seq<Seq<char>>) -> Seq<Seq<char>> {
    if lines.len() == 0 {
        Seq::empty()
    } else {
        seq![title + join_spec(lines, "\n"@)]
    }
}

/// The report of a hydration: its header, then the hydrated sources, the
/// rejected ids and the missing ids, each section only when it has lines,
/// separated by blank lines.
pub open spec fn report_spec(
    header: Seq<char>,
    hydrated_title: Seq<char>,
    hydrated: Seq<Seq<char>>,
    rejected_title: Seq<char>,
    rejected: Seq<Seq<char>>,
    rejected_reason: Seq<char>,
    missing_title: Seq<char>,
    missing: Seq<Seq<char>>,
    missing_reason: Seq<char>,
) -> Seq<char> {
    join_spec(
        seq![header] + opt_section(hydrated_title, hydrated) + opt_section(
            rejected_title,
            id_lines(rejected, rejected_reason),
        ) + opt_section(missing_title, id_lines(missing, missing_reason)),
        "\n\n"@,
    )
}

fn render_id_lines(ids: &Vec<String>, reason: &str) -> (r: Vec<String>)
    ensures
        r.deep_view() == id_lines(ids.deep_view(), reason@),
{
    let mut out: Vec<String> = Vec::new();
    let mut i: usize = 0;
    while i < ids.len()
        invariant
            i <= ids.len(),
            out.deep_view() =~= id_lines(ids.deep_view().subrange(0, i as int), reason@),
        decreases ids.len() - i,
    {
        let line = cat3("- `", ids[i].as_str(), "`: ");
        let line = cat(line.as_str(), reason);
        let ghost before = out.deep_view();
        out.push(line);
        proof {
            assert(out.deep_view() =~= before.push(line@));
            assert(ids.deep_view()[i as int] == ids@[i as int]@);
        }
        i = i + 1;
    }
    assert(ids.deep_view().subrange(0, ids@.len() as int) =~= ids.deep_view());
    out
}

fn push_section(sections: &mut Vec<String>, title: &str, lines: &Vec<String>)
    ensures
        final(sections).deep_view() == old(sections).deep_view() + opt_section(
            title@,
            lines.deep_view(),
        ),
{
    if lines.len() > 0 {
        let body = join(lines, "\n");
        sections.push(cat(title, body.as_str()));
        assert(final(sections).deep_view() =~= old(sections).deep_view() + opt_section(
            title@,
            lines.deep_view(),
        ));
    } else {
        assert(final(sections).deep_view() =~= old(sections).deep_view() + opt_section(
            title@,
            lines.deep_view(),
        ));
    }
}

fn hydration_report(
    header: &str,
    hydrated_title: &str,
    hydrated: &Vec<String>,
    rejected_title: &str,
    rejected: &Vec<String>,
    rejected_reason: &str,
    missing_title: &str,
    missing: &Vec<String>,
    missing_reason: &str,
) -> (r: String)
    ensures
        r@ == report_spec(
            header@,
            hydrated_title@,
            hydrated.deep_view(),
            rejected_title@,
            rejected.deep_view(),
            rejected_reason@,
            missing_title@,
            missing.deep_view(),
            missing_reason@,
        ),
{
    let mut sections: Vec<String> = Vec::new();
    sections.push(owned(header));
    assert(sections.deep_view() =~= seq![header@]);
    push_section(&mut sections, hydrated_title, hydrated);
    let rl = render_id_lines(rejected, rejected_reason);
    push_section(&mut sections, rejected_title, &rl);
    let ml = render_id_lines(missing, missing_reason);
    push_section(&mut sections, missing_title, &ml);
    join(&sections, "\n\n")
}

/// The answer of the context hydrate tool, from the rendered messages and the
/// ids it rejected and could not find.
pub open spec fn context_report_spec(
    hydrated: Seq<Seq<char>>,
    rejected: Seq<Seq<char>>,
    missing: Seq<Seq<char>>,
) -> Seq<char> {
    report_spec(
        "## Scheduler Context Hydration\nHydrated exact same-session sources authorized by the scheduler continuity packet."@,
        "## Hydrated Messages\n"@,
        hydrated,
        "## Rejected Message IDs\n"@,
        rejected,
        "not present in scheduler continuity anchors"@,
        "## Missing Message IDs\n"@,
        missing,
        "not found or no hydratable text"@,
    )
}

/// The answer of the context hydrate tool.
pub fn scheduler_context_hydration_report(
    hydrated: &Vec<String>,
    rejected: &Vec<String>,
    missing: &Vec<String>,
) -> (r: String)
    ensures
        r@ == context_report_spec(hydrated.deep_view(), rejected.deep_view(), missing.deep_view()),
{
    hydration_report(
        "## Scheduler Context Hydration\nHydrated exact same-session sources authorized by the scheduler continuity packet.",
        "## Hydrated Messages\n",
        hydrated,
        "## Rejected Message IDs\n",
        rejected,
        "not present in scheduler continuity anchors",
        "## Missing Message IDs\n",
        missing,
        "not found or no hydratable text",
    )
}

/// The answer of the memory hydrate tool, from the rendered records and the
/// ids it rejected and could not find.
pub open spec fn memory_report_spec(
    hydrated: Seq<Seq<char>>,
    rejected: Seq<Seq<char>>,
    missing: Seq<Seq<char>>,
) -> Seq<char> {
    report_spec(
        "## Scheduler Memory Hydration\nHydrated memory records authorized by the scheduler continuity packet."@,
        "## Hydrated Memory Records\n"@,
        hydrated,
        "## Rejected Memory Record IDs\n"@,
        rejected,
        "not present in scheduler memory anchors"@,
        "## Missing Memory Record IDs\n"@,
        missing,
        "not found or not visible in memory scope"@,
    )
}

/// The answer of the memory hydrate tool.
pub fn scheduler_memory_hydration_report(
    hydrated: &Vec<String>,
    rejected: &Vec<String>,
    missing: &Vec<String>,
) -> (r: String)
    ensures
        r@ == memory_report_spec(hydrated.deep_view(), rejected.deep_view(), missing.deep_view()),
{
    hydration_report(
        "## Scheduler Memory Hydration\nHydrated memory records authorized by the scheduler continuity packet.",
        "## Hydrated Memory Records\n",
        hydrated,
        "## Rejected Memory Record IDs\n",
        rejected,
        "not present in scheduler memory anchors",
        "## Missing Memory Record IDs\n",
        missing,
        "not found or not visible in memory scope",
    )
}

/// `value` when it has at most `limit` characters; otherwise its first
/// `limit - 24` characters (none when `limit` is smaller) and a truncation
/// mark.
pub open spec fn truncate_spec(value: Seq<char>, limit: nat) -> Seq<char> {
    if value.len() <= limit {
        value
    } else {
        let keep: int = if limit >= 24 {
            limit - 24
        } else {
            0
        };
        value.subrange(0, keep) + "\n...[truncated]..."@
    }
}

/// Cuts a hydrated text to `limit` characters, marking the cut.
pub fn truncate_scheduler_context_hydration(value: &str, limit: usize) -> (r: String)
    ensures
        r@ == truncate_spec(value@, limit as nat),
{
    let n = value.unicode_len();
    if n <= limit {
        return owned(value);
    }
    let keep: usize = if limit >= 24 {
        limit - 24
    } else {
        0
    };
    let head = value.substring_char(0, keep);
    cat(head, "\n...[truncated]...")
}

/// A line with the carriage return that ended it removed.
pub open spec fn strip_cr(l: Seq<char>) -> Seq<char> {
    if l.len() > 0 && l.last() == '\r' {
        l.drop_last()
    } else {
        l
    }
}

/// The lines of `s`, as `str::lines` gives them: split at each newline, a
/// carriage return before the newline removed, no line after a final newline.
pub open spec fn lines_spec(s: Seq<char>) -> Seq<Seq<char>> {
    let p = split_on(s, '\n');
    if s.len() == 0 {
        Seq::empty()
    } else if s.last() == '\n' {
        p.drop_last().map_values(|l: Seq<char>| strip_cr(l))
    } else {
        p.drop_last().map_values(|l: Seq<char>| strip_cr(l)).push(p.last())
    }
}

fn strip_cr_exec(l: &str) -> (r: String)
    ensures
        r@ == strip_cr(l@),
{
    let n = l.unicode_len();
    if n > 0 && l.get_char(n - 1) == '\r' {
        proof {
            assert(l@.subrange(0, n - 1) =~= l@.drop_last());
        }
        owned(l.substring_char(0, n - 1))
    } else {
        owned(l)
    }
}

/// The lines of `text`, as `str::lines` gives them.
pub fn text_lines(text: &str) -> (r: Vec<String>)
    ensures
        r.deep_view() == lines_spec(text@),
{
    let pieces = split_char(text, '\n');
    proof {
        lemma_split_on_len(text@, '\n');
    }
    let ghost pv = pieces.deep_view();
    let last = pieces.len() - 1;
    let mut out: Vec<String> = Vec::new();
    let mut i: usize = 0;
    while i < last
        invariant
            last == pieces@.len() - 1,
            i <= last,
            pv == pieces.deep_view(),
            out.deep_view() =~= pv.subrange(0, i as int).map_values(|l: Seq<char>| strip_cr(l)),
        decreases last - i,
    {
        let ghost before = out.deep_view();
        let l = strip_cr_exec(pieces[i].as_str());
        out.push(l);
        proof {
            assert(out.deep_view() =~= before.push(l@));
            assert(pv[i as int] == pieces@[i as int]@);
        }
        i = i + 1;
    }
    proof {
        assert(pv.subrange(0, last as int) =~= pv.drop_last());
    }
    let n = text.unicode_len();
    if n == 0 {
        proof {
            assert(out.deep_view() =~= lines_spec(text@));
        }
        return out;
    }
    if text.get_char(n - 1) == '\n' {
        return out;
    }
    let ghost before = out.deep_view();
    let tail = owned(pieces[last].as_str());
    out.push(tail);
    proof {
        assert(out.deep_view() =~= before.push(pv.last()));
    }
    out
}

/// Each line of `text` indented by two spaces.
pub open spec fn indent_spec(text: Seq<char>) -> Seq<char> {
    join_spec(lines_spec(text).map_values(|l: Seq<char>| "  "@ + l), "\n"@)
}

/// Indents each line of a hydrated text by two spaces.
pub fn indent_scheduler_context_hydration(text: &str) -> (r: String)
    ensures
        r@ == indent_spec(text@),
{
    let lines = text_lines(text);
    let mut out: Vec<String> = Vec::new();
    let mut i: usize = 0;
    while i < lines.len()
        invariant
            i <= lines.len(),
            lines.deep_view() == lines_spec(text@),
            out.deep_view() =~= lines.deep_view().subrange(0, i as int).map_values(
                |l: Seq<char>| "  "@ + l,
            ),
        decreases lines.len() - i,
    {
        let ghost before = out.deep_view();
        let line = cat("  ", lines[i].as_str());
        out.push(line);
        proof {
            assert(out.deep_view() =~= before.push(line@));
            assert(lines.deep_view()[i as int] == lines@[i as int]@);
        }
        i = i + 1;
    }
    proof {
        assert(lines.deep_view().subrange(0, lines@.len() as int) =~= lines.deep_view());
    }
    join(&out, "\n")
}

/// The label of a message's role in hydrated text.
pub open spec fn role_label_spec(role: MessageRole) -> Seq<char> {
    match role {
        MessageRole::User => "user"@,
        MessageRole::Assistant => "assistant"@,
        MessageRole::System => "system"@,
        MessageRole::Tool => "tool"@,
    }
}

/// The label of a message's role in hydrated text.
pub fn scheduler_context_role_label(role: &MessageRole) -> (r: &'static str)
    ensures
        r@ == role_label_spec(*role),
{
    match role {
        MessageRole::User => "user",
        MessageRole::Assistant => "assistant",
        MessageRole::System => "system",
        MessageRole::Tool => "tool",
    }
}

/// What the context hydrate tool reads of a session message: its id, role
/// and text, the compaction summary its continuity packet records for it, if
/// any, and the summaries of its compaction parts.
pub struct HydratableMessage {
    pub id: String,
    pub role: MessageRole,
    pub text: String,
    pub packet_summary: Option<String>,
    pub compaction_summaries: Vec<String>,
}

/// A summary that holds more than white space.
pub open spec fn nonblank() -> spec_fn(Seq<char>) -> bool {
    |x: Seq<char>| trim(x).len() > 0
}

/// A compaction summary as shown in hydrated text.
pub open spec fn summary_block(summary: Seq<char>) -> Seq<char> {
    "[continuity compaction summary]\n"@ + trim(summary)
}

/// The hydratable text of a message: its trimmed text when not blank, then
/// the packet's compaction summary when there is one, or else each non-blank
/// compaction part summary; `None` when there is nothing.
pub open spec fn hydratable_spec(
    text: Seq<char>,
    packet_summary: Option<Seq<char>>,
    part_summaries: Seq<Seq<char>>,
) -> Option<Seq<char>> {
    let base: Seq<Seq<char>> = if trim(text).len() > 0 {
        seq![trim(text)]
    } else {
        Seq::empty()
    };
    let parts = match packet_summary {
        Some(s) => base.push(summary_block(s)),
        None => base + part_summaries.filter(nonblank()).map_values(|x: Seq<char>| summary_block(x)),
    };
    if parts.len() == 0 {
        None
    } else {
        Some(join_spec(parts, "\n\n"@))
    }
}


/// The text the context hydrate tool shows of a message, if any.
pub fn scheduler_context_hydratable_text(message: &HydratableMessage) -> (r: Option<String>)
    ensures
        opt_view(r) == hydratable_spec(
            message.text@,
            opt_view(message.packet_summary),
            message.compaction_summaries.deep_view(),
        ),
{
    let mut parts: Vec<String> = Vec::new();
    let t = trim_str(message.text.as_str());
    if t.as_str().unicode_len() > 0 {
        parts.push(t);
    }
    let ghost base = parts.deep_view();
    proof {
        let want: Seq<Seq<char>> = if trim(message.text@).len() > 0 {
            seq![trim(message.text@)]
        } else {
            Seq::empty()
        };
        assert(base =~= want);
    }
    let ghost spec_parts = match opt_view(message.packet_summary) {
        Some(s) => base.push(summary_block(s)),
        None => base + message.compaction_summaries.deep_view().filter(nonblank()).map_values(
            |x: Seq<char>| summary_block(x),
        ),
    };
    match &message.packet_summary {
        Some(summary) => {
            let st = trim_str(summary.as_str());
            parts.push(cat("[continuity compaction summary]\n", st.as_str()));
            proof {
                assert(parts.deep_view() =~= base.push(summary_block(summary@)));
            }
        },
        None => {
            let sums = &message.compaction_summaries;
            let ghost sv = sums.deep_view();
            let mut i: usize = 0;
            while i < sums.len()
                invariant
                    i <= sums.len(),
                    sv == sums.deep_view(),
                    parts.deep_view() =~= base + sv.subrange(0, i as int).filter(nonblank()).map_values(
                        |x: Seq<char>| summary_block(x),
                    ),
                decreases sums.len() - i,
            {
                proof {
                    assert(sv.subrange(0, i + 1).drop_last() =~= sv.subrange(0, i as int));
                    reveal(Seq::filter);
                    assert(sv[i as int] == sums@[i as int]@);
                }
                let st = trim_str(sums[i].as_str());
                if st.as_str().unicode_len() > 0 {
                    let ghost before = parts.deep_view();
                    let block = cat("[continuity compaction summary]\n", st.as_str());
                    parts.push(block);
                    proof {
                        assert(parts.deep_view() =~= before.push(block@));
                        assert(sv.subrange(0, i + 1).filter(nonblank()) =~= sv.subrange(
                            0,
                            i as int,
                        ).filter(nonblank()).push(sv[i as int]));
                    }
                } else {
                    proof {
                        assert(sv.subrange(0, i + 1).filter(nonblank()) =~= sv.subrange(
                            0,
                            i as int,
                        ).filter(nonblank()));
                    }
                }
                i = i + 1;
            }
            proof {
                assert(sv.subrange(0, sv.len() as int) =~= sv);
            }
        },
    }
    assert(parts.deep_view() =~= spec_parts);
    if parts.len() == 0 {
        None
    } else {
        Some(join(&parts, "\n\n"))
    }
}

/// A hydrated message: its role, its id, then its hydratable text cut to
/// `limit` characters and indented.
pub open spec fn hydrated_message_spec(role: MessageRole, id: Seq<char>, text: Seq<char>, limit: nat) -> Seq<
    char,
> {
    "- "@ + role_label_spec(role) + " `"@ + id + "`:\n"@ + indent_spec(truncate_spec(text, limit))
}

/// Renders a message for the context hydrate tool; `None` when it has no
/// hydratable text.
pub fn render_scheduler_context_hydrated_message(message: &HydratableMessage, limit: usize) -> (r:
    Option<String>)
    ensures
        match hydratable_spec(
            message.text@,
            opt_view(message.packet_summary),
            message.compaction_summaries.deep_view(),
        ) {
            None => r is None,
            Some(t) => r matches Some(x) && x@ == hydrated_message_spec(
                message.role,
                message.id@,
                t,
                limit as nat,
            ),
        },
{
    let text = match scheduler_context_hydratable_text(message) {
        None => return None,
        Some(t) => t,
    };
    let cut = truncate_scheduler_context_hydration(text.as_str(), limit);
    let indented = indent_scheduler_context_hydration(cut.as_str());
    let head = cat3("- ", scheduler_context_role_label(&message.role), " `");
    let head = cat3(head.as_str(), message.id.as_str(), "`:\n");
    Some(cat(head.as_str(), indented.as_str()))
}

/// Where a memory record's evidence was found.
pub struct MemoryEvidenceRef {
    pub session_id: Option<String>,
    pub message_id: Option<String>,
    pub tool_call_id: Option<String>,
    pub stage_id: Option<String>,
    pub note: Option<String>,
}

/// `[prefix + value + suffix]` when the value is there, else nothing.
pub open spec fn opt_piece(prefix: Seq<char>, value: Option<String>, suffix: Seq<char>) -> Seq<Seq<char>> {
    match value {
        Some(v) => seq![prefix + v@ + suffix],
        None => Seq::empty(),
    }
}

/// The pieces that describe an evidence reference.
pub open spec fn evidence_parts(e: MemoryEvidenceRef) -> Seq<Seq<char>> {
    opt_piece("session_id=`"@, e.session_id, "`"@) + opt_piece("message_id=`"@, e.message_id, "`"@)
        + opt_piece("tool_call_id=`"@, e.tool_call_id, "`"@) + opt_piece(
        "stage_id=`"@,
        e.stage_id,
        "`"@,
    ) + match e.note {
        Some(n) => seq!["note="@ + trim(n@)],
        None => Seq::<Seq<char>>::empty(),
    }
}

/// The line that shows an evidence reference.
pub open spec fn evidence_line_spec(e: MemoryEvidenceRef) -> Seq<char> {
    if evidence_parts(e).len() == 0 {
        "    - evidence reference with no details"@
    } else {
        "    - "@ + join_spec(evidence_parts(e), "; "@)
    }
}

fn push_opt_piece(out: &mut Vec<String>, prefix: &str, value: &Option<String>, suffix: &str)
    ensures
        final(out).deep_view() == old(out).deep_view() + opt_piece(prefix@, *value, suffix@),
{
    match value {
        Some(v) => {
            let piece = cat3(prefix, v.as_str(), suffix);
            out.push(piece);
        },
        None => {},
    }
    assert(final(out).deep_view() =~= old(out).deep_view() + opt_piece(prefix@, *value, suffix@));
}

/// Renders an evidence reference of a hydrated memory record.
pub fn render_scheduler_memory_evidence_ref(evidence: &MemoryEvidenceRef) -> (r: String)
    ensures
        r@ == evidence_line_spec(*evidence),
{
    let mut parts: Vec<String> = Vec::new();
    push_opt_piece(&mut parts, "session_id=`", &evidence.session_id, "`");
    push_opt_piece(&mut parts, "message_id=`", &evidence.message_id, "`");
    push_opt_piece(&mut parts, "tool_call_id=`", &evidence.tool_call_id, "`");
    push_opt_piece(&mut parts, "stage_id=`", &evidence.stage_id, "`");
    let ghost before = parts.deep_view();
    match &evidence.note {
        Some(n) => {
            let t = trim_str(n.as_str());
            parts.push(cat("note=", t.as_str()));
        },
        None => {},
    }
    assert(parts.deep_view() =~= evidence_parts(*evidence));
    if parts.len() == 0 {
        owned("    - evidence reference with no details")
    } else {
        let body = join(&parts, "; ");
        cat("    - ", body.as_str())
    }
}

/// The lines that list values under a memory record's field.
pub open spec fn list_lines(values: Seq<Seq<char>>) -> Seq<Seq<char>> {
    values.map_values(|v: Seq<char>| "    - "@ + trim(v))
}

/// Renders the values listed under a memory record's field, one per line.
pub fn render_scheduler_memory_list(values: &Vec<String>) -> (r: Vec<String>)
    ensures
        r.deep_view() == list_lines(values.deep_view()),
{
    let mut out: Vec<String> = Vec::new();
    let mut i: usize = 0;
    while i < values.len()
        invariant
            i <= values.len(),
            out.deep_view() =~= list_lines(values.deep_view().subrange(0, i as int)),
        decreases values.len() - i,
    {
        let ghost before = out.deep_view();
        let t = trim_str(values[i].as_str());
        let line = cat("    - ", t.as_str());
        out.push(line);
        proof {
            assert(out.deep_view() =~= before.push(line@));
            assert(values.deep_view()[i as int] == values@[i as int]@);
        }
        i = i + 1;
    }
    proof {
        assert(values.deep_view().subrange(0, values@.len() as int) =~= values.deep_view());
    }
    out
}

/// What the memory hydrate tool reads of a memory record. The labels are the
/// serialized names of the record's kind, scope, status and validation
/// status; the confidence is shown with two decimals.
pub struct MemoryRecordView {
    pub id: String,
    pub kind_label: String,
    pub scope_label: String,
    pub status_label: String,
    pub validation_label: String,
    pub title: String,
    pub summary: String,
    pub confidence_text: Option<String>,
    pub source_session_id: Option<String>,
    pub workspace_identity: Option<String>,
    pub trigger_conditions: Vec<String>,
    pub normalized_facts: Vec<String>,
    pub boundaries: Vec<String>,
    pub evidence_refs: Vec<MemoryEvidenceRef>,
    pub derived_skill_name: Option<String>,
    pub linked_skill_name: Option<String>,
}

/// A header line and the listed values, when there are any.
pub open spec fn list_block(header: Seq<char>, values: Seq<Seq<char>>) -> Seq<Seq<char>> {
    if values.len() == 0 {
        Seq::empty()
    } else {
        seq![header] + list_lines(values)
    }
}

/// The lines of a hydrated memory record, before the cut to the limit.
pub open spec fn record_lines(r: MemoryRecordView, include_evidence: bool) -> Seq<Seq<char>> {
    seq![
        "- memory `"@ + r.id@ + "` ["@ + r.kind_label@ + " / "@ + r.scope_label@ + " / "@
            + r.status_label@ + " / validation:"@ + r.validation_label@ + "]: "@ + trim(r.title@),
        "  summary: "@ + trim(r.summary@),
    ] + opt_piece("  confidence: "@, r.confidence_text, ""@) + opt_piece(
        "  source_session_id: `"@,
        r.source_session_id,
        "`"@,
    ) + opt_piece("  workspace_identity: `"@, r.workspace_identity, "`"@) + list_block(
        "  trigger_conditions:"@,
        r.trigger_conditions.deep_view(),
    ) + list_block("  normalized_facts:"@, r.normalized_facts.deep_view()) + list_block(
        "  boundaries:"@,
        r.boundaries.deep_view(),
    ) + (if include_evidence && r.evidence_refs@.len() > 0 {
        seq!["  evidence_refs:"@] + r.evidence_refs@.map_values(
            |e: MemoryEvidenceRef| evidence_line_spec(e),
        )
    } else {
        Seq::empty()
    }) + opt_piece("  derived_skill_name: `"@, r.derived_skill_name, "`"@) + opt_piece(
        "  linked_skill_name: `"@,
        r.linked_skill_name,
        "`"@,
    )
}

fn push_list_block(out: &mut Vec<String>, header: &str, values: &Vec<String>)
    ensures
        final(out).deep_view() == old(out).deep_view() + list_block(header@, values.deep_view()),
{
    if values.len() > 0 {
        out.push(owned(header));
        let lines = render_scheduler_memory_list(values);
        let mut i: usize = 0;
        let ghost start = out.deep_view();
        while i < lines.len()
            invariant
                i <= lines.len(),
                out.deep_view() =~= start + lines.deep_view().subrange(0, i as int),
            decreases lines.len() - i,
        {
            let ghost before = out.deep_view();
            let l = owned(lines[i].as_str());
            out.push(l);
            proof {
                assert(out.deep_view() =~= before.push(l@));
                assert(lines.deep_view()[i as int] == lines@[i as int]@);
            }
            i = i + 1;
        }
        assert(lines.deep_view().subrange(0, lines@.len() as int) =~= lines.deep_view());
    }
    assert(final(out).deep_view() =~= old(out).deep_view() + list_block(header@, values.deep_view()));
}

/// Renders a memory record for the memory hydrate tool, cut to `limit`
/// characters; its evidence is shown only when asked for.
pub fn render_scheduler_memory_hydrated_record(
    record: &MemoryRecordView,
    include_evidence: bool,
    limit: usize,
) -> (r: String)
    ensures
        r@ == truncate_spec(join_spec(record_lines(*record, include_evidence), "\n"@), limit as nat),
{
    let mut lines: Vec<String> = Vec::new();
    let l1 = cat3("- memory `", record.id.as_str(), "` [");
    let l1 = cat3(l1.as_str(), record.kind_label.as_str(), " / ");
    let l1 = cat3(l1.as_str(), record.scope_label.as_str(), " / ");
    let l1 = cat3(l1.as_str(), record.status_label.as_str(), " / validation:");
    let l1 = cat3(l1.as_str(), record.validation_label.as_str(), "]: ");
    let title = trim_str(record.title.as_str());
    let l1 = cat(l1.as_str(), title.as_str());
    lines.push(l1);
    let summary = trim_str(record.summary.as_str());
    let l2 = cat("  summary: ", summary.as_str());
    lines.push(l2);
    assert(lines.deep_view() =~= seq![l1@, l2@]);
    assert(l1@ == "- memory `"@ + record.id@ + "` ["@ + record.kind_label@ + " / "@
        + record.scope_label@ + " / "@ + record.status_label@ + " / validation:"@
        + record.validation_label@ + "]: "@ + trim(record.title@));
    let ghost s0 = lines.deep_view();
    push_opt_piece(&mut lines, "  confidence: ", &record.confidence_text, "");
    push_opt_piece(&mut lines, "  source_session_id: `", &record.source_session_id, "`");
    push_opt_piece(&mut lines, "  workspace_identity: `", &record.workspace_identity, "`");
    push_list_block(&mut lines, "  trigger_conditions:", &record.trigger_conditions);
    push_list_block(&mut lines, "  normalized_facts:", &record.normalized_facts);
    push_list_block(&mut lines, "  boundaries:", &record.boundaries);
    let ghost before_evidence = lines.deep_view();
    if include_evidence && record.evidence_refs.len() > 0 {
        lines.push(owned("  evidence_refs:"));
        let refs = &record.evidence_refs;
        let ghost start = lines.deep_view();
        let mut i: usize = 0;
        while i < refs.len()
            invariant
                i <= refs.len(),
                lines.deep_view() =~= start + refs@.subrange(0, i as int).map_values(
                    |e: MemoryEvidenceRef| evidence_line_spec(e),
                ),
            decreases refs.len() - i,
        {
            let ghost before = lines.deep_view();
            let l = render_scheduler_memory_evidence_ref(&refs[i]);
            lines.push(l);
            proof {
                assert(lines.deep_view() =~= before.push(l@));
            }
            i = i + 1;
        }
        assert(refs@.subrange(0, refs@.len() as int) =~= refs@);
    }
    let ghost ev_block: Seq<Seq<char>> = if include_evidence && record.evidence_refs@.len() > 0 {
        seq!["  evidence_refs:"@] + record.evidence_refs@.map_values(
            |e: MemoryEvidenceRef| evidence_line_spec(e),
        )
    } else {
        Seq::empty()
    };
    assert(lines.deep_view() =~= before_evidence + ev_block);
    push_opt_piece(&mut lines, "  derived_skill_name: `", &record.derived_skill_name, "`");
    push_opt_piece(&mut lines, "  linked_skill_name: `", &record.linked_skill_name, "`");
    assert(lines.deep_view() == s0 + opt_piece("  confidence: "@, record.confidence_text, ""@)
        + opt_piece("  source_session_id: `"@, record.source_session_id, "`"@) + opt_piece(
        "  workspace_identity: `"@,
        record.workspace_identity,
        "`"@,
    ) + list_block("  trigger_conditions:"@, record.trigger_conditions.deep_view()) + list_block(
        "  normalized_facts:"@,
        record.normalized_facts.deep_view(),
    ) + list_block("  boundaries:"@, record.boundaries.deep_view()) + ev_block + opt_piece(
        "  derived_skill_name: `"@,
        record.derived_skill_name,
        "`"@,
    ) + opt_piece("  linked_skill_name: `"@, record.linked_skill_name, "`"@));
    assert(lines.deep_view() == record_lines(*record, include_evidence));
    let body = join(&lines, "\n");
    truncate_scheduler_context_hydration(body.as_str(), limit)
}

/// Where a scheduler tool call goes.
#[derive(Debug, Clone, Copy, PartialEq, Eq, Structural)]
pub enum SchedulerToolRoute {
    /// The context hydrate host tool.
    ContextHydrate,
    /// The memory hydrate host tool.
    MemoryHydrate,
    /// Any other tool, run by the tool registry.
    Registry,
}

/// Routes a scheduler tool call by the tool's name.
pub fn route_scheduler_tool(tool_name: &str) -> (r: SchedulerToolRoute)
    ensures
        tool_name@ == "scheduler_context_hydrate"@ ==> r == SchedulerToolRoute::ContextHydrate,
        tool_name@ == "scheduler_memory_hydrate"@ ==> r == SchedulerToolRoute::MemoryHydrate,
        tool_name@ != "scheduler_context_hydrate"@ && tool_name@ != "scheduler_memory_hydrate"@ ==> r
            == SchedulerToolRoute::Registry,
{
    proof {
        reveal_strlit("scheduler_context_hydrate");
        reveal_strlit("scheduler_memory_hydrate");
        assert("scheduler_context_hydrate"@[10] != "scheduler_memory_hydrate"@[10]);
    }
    if str_eq(tool_name, "scheduler_context_hydrate") {
        SchedulerToolRoute::ContextHydrate
    } else if str_eq(tool_name, "scheduler_memory_hydrate") {
        SchedulerToolRoute::MemoryHydrate
    } else {
        SchedulerToolRoute::Registry
    }
}

/// What a scheduler tool call answers the agent loop with (its metadata is
/// carried beside it).
pub struct SchedulerToolReply {
    pub output: String,
    pub title: Option<String>,
    pub is_error: bool,
}

/// The reply to a scheduler tool call that failed: the error's text, under
/// the title `Tool error`.
pub fn scheduler_tool_error_reply(error: &SchedulerToolError) -> (r: SchedulerToolReply)
    ensures
        r.output@ == error.text_spec(),
        r.title matches Some(t) && t@ == "Tool error"@,
        r.is_error,
{
    SchedulerToolReply { output: error.to_text(), title: Some(owned("Tool error")), is_error: true }
}

/// The agent named by the configuration's default, trimmed, or `build` when
/// it names none.
pub open spec fn default_agent_spec(configured: Option<Seq<char>>) -> Seq<char> {
    match configured {
        Some(n) => if trim(n).len() > 0 {
            trim(n)
        } else {
            "build"@
        },
        None => "build"@,
    }
}

/// The default agent's name from the configured one.
pub fn resolve_config_default_agent_name(configured: Option<&str>) -> (r: String)
    ensures
        r@ == default_agent_spec(
            match configured {
                Some(n) => Some(n@),
                None => None,
            },
        ),
{
    match configured {
        Some(n) => {
            let t = trim_str(n);
            if t.as_str().unicode_len() > 0 {
                t
            } else {
                owned("build")
            }
        },
        None => owned("build"),
    }
}

/// Copies an optional text.
pub fn opt_owned(o: Option<&str>) -> (r: Option<String>)
    ensures
        opt_view(r) == match o {
            Some(s) => Some(s@),
            None => None,
        },
{
    match o {
        Some(s) => Some(owned(s)),
        None => None,
    }
}

/// The model inputs of a prompt request: the request's own model; the
/// agent's model, or else the configured one; and no provider.
pub fn resolve_request_model_inputs(
    agent_model: Option<&str>,
    request_model: Option<&str>,
    config_model: Option<&str>,
) -> (r: (Option<String>, Option<String>, Option<String>))
    ensures
        opt_view(r.0) == match request_model {
            Some(s) => Some(s@),
            None => None,
        },
        opt_view(r.1) == match agent_model {
            Some(s) => Some(s@),
            None => match config_model {
                Some(s) => Some(s@),
                None => None,
            },
        },
        r.2 is None,
{
    let fallback = match agent_model {
        Some(a) => Some(a),
        None => config_model,
    };
    (opt_owned(request_model), opt_owned(fallback), None)
}

/// The agent a prompt request runs with: the one it names, else the
/// configured default agent.
pub fn selected_agent_name(requested: Option<&str>, configured_default: Option<&str>) -> (r: String)
    ensures
        r@ == match requested {
            Some(n) => n@,
            None => default_agent_spec(
                match configured_default {
                    Some(n) => Some(n@),
                    None => None,
                },
            ),
        },
{
    match requested {
        Some(n) => owned(n),
        None => resolve_config_default_agent_name(configured_default),
    }
}

/// The refusal of a request naming an agent that is not registered.
pub open spec fn unknown_agent_message(name: Seq<char>) -> Seq<char> {
    "unknown agent '"@ + name + "'"@
}

/// Refuses a request that names an agent the registry does not hold
/// (`registered` says whether the selected agent was found); a request
/// naming none runs with the default even where that is not registered.
pub fn check_requested_agent(requested: Option<&str>, registered: bool) -> (r: Result<(), ApiError>)
    ensures
        r is Err <==> (requested is Some && !registered),
        r matches Err(e) ==> e.is_bad_request(unknown_agent_message(requested->0@)),
{
    match requested {
        Some(n) => if registered {
            Ok(())
        } else {
            Err(ApiError::BadRequest(cat3("unknown agent '", n, "'")))
        },
        None => Ok(()),
    }
}

/// The model an agent names, as `provider/model`.
pub fn agent_model_name(provider_id: &str, model_id: &str) -> (r: String)
    ensures
        r@ == provider_id@ + "/"@ + model_id@,
{
    cat3(provider_id, "/", model_id)
}

/// A scheduler template.
#[derive(Debug, Clone, PartialEq, Eq)]
pub enum TemplateId {
    Direct,
    Verify,
    Autoresearch,
    Other(String),
}

/// How a session's scheduler is chosen.
#[derive(Debug, Clone, PartialEq, Eq)]
pub enum SchedulerChoice {
    Auto,
    Template { template: TemplateId },
    Blueprint { name: String },
}

/// The scheduler a prompt runs with: the command's choice, else the
/// request's, else the direct template when an agent was named explicitly,
/// else automatic choice.
pub fn resolve_effective_scheduler_choice(
    command_scheduler: Option<SchedulerChoice>,
    request_scheduler: Option<SchedulerChoice>,
    has_explicit_agent: bool,
) -> (r: SchedulerChoice)
    ensures
        r == match command_scheduler {
            Some(c) => c,
            None => match request_scheduler {
                Some(c) => c,
                None => if has_explicit_agent {
                    SchedulerChoice::Template { template: TemplateId::Direct }
                } else {
                    SchedulerChoice::Auto
                },
            },
        },
{
    match command_scheduler {
        Some(c) => c,
        None => match request_scheduler {
            Some(c) => c,
            None => if has_explicit_agent {
                SchedulerChoice::Template { template: TemplateId::Direct }
            } else {
                SchedulerChoice::Auto
            },
        },
    }
}

/// The kind of a scheduler choice, as reported in a session's policy.
pub open spec fn choice_kind_spec(choice: SchedulerChoice) -> Seq<char> {
    match choice {
        SchedulerChoice::Auto => "auto"@,
        SchedulerChoice::Template { .. } => "template"@,
        SchedulerChoice::Blueprint { .. } => "blueprint"@,
    }
}

/// The kind of a scheduler choice.
pub fn scheduler_choice_kind(choice: &SchedulerChoice) -> (r: String)
    ensures
        r@ == choice_kind_spec(*choice),
{
    match choice {
        SchedulerChoice::Auto => owned("auto"),
        SchedulerChoice::Template { .. } => owned("template"),
        SchedulerChoice::Blueprint { .. } => owned("blueprint"),
    }
}

/// Whether a prompt with this scheduler choice drops the session's
/// blueprint lock: every choice but automatic choice does.
pub fn clears_blueprint_lock(choice: &SchedulerChoice) -> (r: bool)
    ensures
        r == !(*choice is Auto),
{
    match choice {
        SchedulerChoice::Auto => false,
        _ => true,
    }
}

/// The agent and scheduler a recovery re-runs a session with: an agent
/// override beside the direct template keeps the agent alone; otherwise a
/// scheduler override wins alone; otherwise the agent override, if any.
pub fn recovery_selection_overrides(
    agent: Option<String>,
    scheduler: Option<SchedulerChoice>,
) -> (r: (Option<String>, Option<SchedulerChoice>))
    ensures
        r == (match (agent, scheduler) {
            (Some(a), Some(SchedulerChoice::Template { template: TemplateId::Direct })) => (
                Some(a),
                None,
            ),
            (_, Some(s)) => (None, Some(s)),
            (a, None) => (a, None),
        }),
{
    match (agent, scheduler) {
        (Some(a), Some(SchedulerChoice::Template { template: TemplateId::Direct })) => (Some(a), None),
        (_, Some(s)) => (None, Some(s)),
        (a, None) => (a, None),
    }
}


/// The tools one agent may call.
#[derive(Debug)]
pub struct AgentToolAllowance {
    pub agent: String,
    pub tools: Vec<String>,
}

/// The tools allowed to `agent`: those of the first allowance that names
/// it, none where no allowance does.
pub open spec fn allowed_tools_of(allowances: Seq<AgentToolAllowance>, agent: Seq<char>) -> Seq<Seq<char>>
    decreases allowances.len(),
{
    if allowances.len() == 0 {
        Seq::empty()
    } else if allowances[0].agent@ == agent {
        allowances[0].tools.deep_view()
    } else {
        allowed_tools_of(allowances.drop_first(), agent)
    }
}

/// The tool ids offered to a tool call of `agent`: its allowed tools in
/// ascending order, each once.
pub fn available_tool_ids(allowances: &Vec<AgentToolAllowance>, agent: &str) -> (r: Vec<String>)
    ensures
        r.deep_view() == dedup_texts(sort_texts(allowed_tools_of(allowances@, agent@))),
{
    let mut i: usize = 0;
    proof {
        assert(allowances@.subrange(0, allowances@.len() as int) =~= allowances@);
    }
    while i < allowances.len()
        invariant
            i <= allowances@.len(),
            allowed_tools_of(allowances@, agent@) == allowed_tools_of(allowances@.subrange(i as int, allowances@.len() as int), agent@),
        decreases allowances@.len() - i,
    {
        let ghost rest = allowances@.subrange(i as int, allowances@.len() as int);
        proof {
            assert(rest[0] == allowances@[i as int]);
            assert(rest.drop_first() =~= allowances@.subrange(i + 1, allowances@.len() as int));
        }
        if str_eq(allowances[i].agent.as_str(), agent) {
            let sorted = sort_strings(&allowances[i].tools);
            return dedup_strings(&sorted);
        }
        i = i + 1;
    }
    proof {
        assert(allowances@.subrange(i as int, allowances@.len() as int).len() == 0);
    }
    let empty: Vec<String> = Vec::new();
    proof {
        assert(empty.deep_view() =~= Seq::<Seq<char>>::empty());
        assert(sort_texts(Seq::<Seq<char>>::empty()) == Seq::<Seq<char>>::empty());
        assert(dedup_texts(Seq::<Seq<char>>::empty()) == Seq::<Seq<char>>::empty());
    }
    empty
}


/// The tool ids offered to an agent are in strictly ascending order, so each
/// appears once.
pub proof fn lemma_available_tool_ids_strictly_sorted(allowances: Seq<AgentToolAllowance>, agent: Seq<char>)
    ensures
        texts_strictly_sorted(dedup_texts(sort_texts(allowed_tools_of(allowances, agent)))),
{
    let tools = allowed_tools_of(allowances, agent);
    lemma_sort_texts_sorted(tools);
    lemma_dedup_sorted_strict(sort_texts(tools));
}

} // verus!

//! Configuration endpoints: how a model configuration patch is applied, where
//! the scheduler configuration is written, and how it is inspected and
//! reported.

use vstd::prelude::*;
use crate::text::opt_view;
use crate::api_error::ApiError;
use crate::text::{trim, owned, trim_str, cat, cat3, sort_strings, sort_texts, str_eq};

verus! {

/// A patched setting: the patch's value when it gives one, else the setting
/// as it was.
pub open spec fn overlay_spec<T>(existing: Option<T>, patch: Option<T>) -> Option<T> {
    match patch {
        Some(v) => Some(v),
        None => existing,
    }
}

/// Applies one setting of a model configuration patch: a value in the patch
/// replaces the setting whole; a missing one leaves it.
pub fn overlay_field<T>(existing: &mut Option<T>, patch: Option<T>)
    ensures
        *final(existing) == overlay_spec(*old(existing), patch),
{
    match patch {
        Some(v) => {
            *existing = Some(v);
        },
        None => {},
    }
}

/// Applying a patch twice gives what applying it once gave.
pub proof fn lemma_overlay_idempotent<T>(existing: Option<T>, patch: Option<T>)
    ensures
        overlay_spec(overlay_spec(existing, patch), patch) == overlay_spec(existing, patch),
{
}

/// A patch that sets a value sets exactly that value; an empty patch keeps
/// the setting.
pub proof fn lemma_overlay_sets_or_keeps<T>(existing: Option<T>, patch: Option<T>)
    ensures
        patch is Some ==> overlay_spec(existing, patch) == patch,
        patch is None ==> overlay_spec(existing, patch) == existing,
{
}

/// A model's configuration. Settings that hold structured JSON (variants,
/// modalities, interleaving, options, cost, limits, provider overrides) are
/// carried as `J`, which nothing here inspects.
#[derive(Debug)]
pub struct ModelConfig<J> {
    pub name: Option<String>,
    pub model: Option<String>,
    pub api_key: Option<String>,
    pub base_url: Option<String>,
    pub variants: Option<J>,
    pub tool_call: Option<bool>,
    pub modalities: Option<J>,
    pub reasoning: Option<bool>,
    pub attachment: Option<bool>,
    pub temperature: Option<bool>,
    pub interleaved: Option<J>,
    pub options: Option<J>,
    pub cost: Option<J>,
    pub limit: Option<J>,
    pub headers: Option<Vec<(String, String)>>,
    pub family: Option<String>,
    pub status: Option<String>,
    pub release_date: Option<String>,
    pub experimental: Option<bool>,
    pub provider: Option<J>,
}

/// A model configuration after a patch: each setting the patch gives
/// replaces the one held, whole; every other setting stays.
pub open spec fn merge_model_spec<J>(e: ModelConfig<J>, p: ModelConfig<J>) -> ModelConfig<J> {
    ModelConfig {
        name: overlay_spec(e.name, p.name),
        model: overlay_spec(e.model, p.model),
        api_key: overlay_spec(e.api_key, p.api_key),
        base_url: overlay_spec(e.base_url, p.base_url),
        variants: overlay_spec(e.variants, p.variants),
        tool_call: overlay_spec(e.tool_call, p.tool_call),
        modalities: overlay_spec(e.modalities, p.modalities),
        reasoning: overlay_spec(e.reasoning, p.reasoning),
        attachment: overlay_spec(e.attachment, p.attachment),
        temperature: overlay_spec(e.temperature, p.temperature),
        interleaved: overlay_spec(e.interleaved, p.interleaved),
        options: overlay_spec(e.options, p.options),
        cost: overlay_spec(e.cost, p.cost),
        limit: overlay_spec(e.limit, p.limit),
        headers: overlay_spec(e.headers, p.headers),
        family: overlay_spec(e.family, p.family),
        status: overlay_spec(e.status, p.status),
        release_date: overlay_spec(e.release_date, p.release_date),
        experimental: overlay_spec(e.experimental, p.experimental),
        provider: overlay_spec(e.provider, p.provider),
    }
}

/// Applies a model configuration patch, as `merge_model_spec` says.
pub fn merge_model_config<J>(existing: &mut ModelConfig<J>, patch: ModelConfig<J>)
    ensures
        *final(existing) == merge_model_spec(*old(existing), patch),
{
    let ModelConfig { name, model, api_key, base_url, variants, tool_call, modalities, reasoning, attachment, temperature, interleaved, options, cost, limit, headers, family, status, release_date, experimental, provider } = patch;
    overlay_field(&mut existing.name, name);
    overlay_field(&mut existing.model, model);
    overlay_field(&mut existing.api_key, api_key);
    overlay_field(&mut existing.base_url, base_url);
    overlay_field(&mut existing.variants, variants);
    overlay_field(&mut existing.tool_call, tool_call);
    overlay_field(&mut existing.modalities, modalities);
    overlay_field(&mut existing.reasoning, reasoning);
    overlay_field(&mut existing.attachment, attachment);
    overlay_field(&mut existing.temperature, temperature);
    overlay_field(&mut existing.interleaved, interleaved);
    overlay_field(&mut existing.options, options);
    overlay_field(&mut existing.cost, cost);
    overlay_field(&mut existing.limit, limit);
    overlay_field(&mut existing.headers, headers);
    overlay_field(&mut existing.family, family);
    overlay_field(&mut existing.status, status);
    overlay_field(&mut existing.release_date, release_date);
    overlay_field(&mut existing.experimental, experimental);
    overlay_field(&mut existing.provider, provider);
}

/// Applying a model configuration patch twice gives what applying it once
/// gave.
pub proof fn lemma_merge_model_idempotent<J>(existing: ModelConfig<J>, patch: ModelConfig<J>)
    ensures
        merge_model_spec(merge_model_spec(existing, patch), patch) == merge_model_spec(existing, patch),
{
}

/// The file the scheduler configuration is written to when none is named.
pub open spec fn default_scheduler_path() -> Seq<char> {
    ".agendao/scheduler.jsonc"@
}

/// Whether a path is absolute on this platform, as `std::path::Path::is_absolute`
/// says.
pub uninterp spec fn path_is_absolute_spec(path: Seq<char>) -> bool;

/// The display form of `base` joined with `rel`, as `std::path::Path::join`
/// gives it.
pub uninterp spec fn path_join_spec(base: Seq<char>, rel: Seq<char>) -> Seq<char>;

/// Calls `std::path::Path::is_absolute` on `path`. Claimed: the result is the
/// platform's answer named `path_is_absolute_spec` for that path.
#[verifier::external_body]
fn path_is_absolute(path: &str) -> (r: bool)
    ensures
        r == path_is_absolute_spec(path@),
{
    std::path::Path::new(path).is_absolute()
}

/// Calls `std::path::Path::join` on `base` and `rel` and displays the result.
/// Claimed: the result is the path named `path_join_spec` for them.
#[verifier::external_body]
fn path_join(base: &str, rel: &str) -> (r: String)
    ensures
        r@ == path_join_spec(base@, rel@),
{
    std::path::Path::new(base).join(rel).display().to_string()
}


/// The scheduler configuration path a write names: the requested one, else
/// the configured one, trimmed, else the default.
pub open spec fn scheduler_raw_path(requested: Option<Seq<char>>, configured: Option<Seq<char>>) -> Seq<
    char,
> {
    let chosen = match requested {
        Some(r) => Some(r),
        None => configured,
    };
    match chosen {
        Some(p) => if trim(p).len() > 0 {
            trim(p)
        } else {
            default_scheduler_path()
        },
        None => default_scheduler_path(),
    }
}

/// Where a scheduler configuration is written: the path as named and the
/// file it resolves to, an absolute path as it is and a relative one under
/// the project directory, which it then requires.
pub fn resolve_scheduler_write_target(
    requested_path: Option<String>,
    configured_path: Option<String>,
    project_dir: Option<String>,
) -> (r: Result<(String, String), ApiError>)
    ensures
        ({
            let raw = scheduler_raw_path(opt_view(requested_path), opt_view(configured_path));
            if path_is_absolute_spec(raw) {
                r matches Ok((a, b)) && a@ == raw && b@ == raw
            } else {
                match project_dir {
                    None => r matches Err(e) && e.is_bad_request(
                        "scheduler config requires a project directory"@,
                    ),
                    Some(d) => r matches Ok((a, b)) && a@ == raw && b@ == path_join_spec(d@, raw),
                }
            }
        }),
{
    let chosen = match requested_path {
        Some(r) => Some(r),
        None => configured_path,
    };
    let raw = match chosen {
        Some(p) => {
            let t = trim_str(p.as_str());
            if t.as_str().unicode_len() > 0 {
                t
            } else {
                owned(".agendao/scheduler.jsonc")
            }
        },
        None => owned(".agendao/scheduler.jsonc"),
    };
    if path_is_absolute(raw.as_str()) {
        let resolved = owned(raw.as_str());
        return Ok((raw, resolved));
    }
    match project_dir {
        None => Err(ApiError::BadRequest(owned("scheduler config requires a project directory"))),
        Some(d) => {
            let resolved = path_join(d.as_str(), raw.as_str());
            Ok((raw, resolved))
        },
    }
}

/// A scheduler profile as listed: its key, orchestrator, description and the
/// event names of its stages.
pub struct SchedulerProfileSummary {
    pub key: String,
    pub orchestrator: Option<String>,
    pub description: Option<String>,
    pub stages: Vec<String>,
}

/// What the scheduler configuration endpoint answers.
pub struct SchedulerConfigResponse {
    pub raw_path: Option<String>,
    pub resolved_path: Option<String>,
    pub exists: bool,
    pub content: String,
    pub default_profile: Option<String>,
    pub profiles: Vec<SchedulerProfileSummary>,
    pub parse_error: Option<String>,
}

/// A scheduler configuration as parsed: its profiles by key and its default
/// profile, if it names one.
pub struct ParsedSchedulerConfig {
    pub profiles: Vec<SchedulerProfileSummary>,
    pub default_profile: Option<String>,
}

/// The key of each profile.
pub open spec fn profile_keys(ps: Seq<SchedulerProfileSummary>) -> Seq<Seq<char>> {
    ps.map_values(|p: SchedulerProfileSummary| p.key@)
}

/// What a scheduler configuration's profile summary holds: the default
/// profile when it is not blank, the profiles in ascending key order (keys
/// being unique), and no parse error; or, when it did not parse, only the
/// parse error.
pub fn summarize_scheduler_profiles(parsed: Result<ParsedSchedulerConfig, String>) -> (r: (
    Option<String>,
    Vec<SchedulerProfileSummary>,
    Option<String>,
))
    ensures
        match parsed {
            Ok(c) => {
                &&& opt_view(r.0) == match opt_view(c.default_profile) {
                    Some(d) => if trim(d).len() > 0 {
                        Some(d)
                    } else {
                        None
                    },
                    None => None,
                }
                &&& profile_keys(r.1@) == sort_texts(profile_keys(c.profiles@))
                &&& forall|i: int|
                    0 <= i < r.1@.len() ==> exists|j: int|
                        0 <= j < c.profiles@.len() && #[trigger] r.1@[i] == c.profiles@[j]
                &&& r.2 is None
            },
            Err(m) => r.0 is None && r.1@.len() == 0 && opt_view(r.2) == Some(m@),
        },
{
    let c = match parsed {
        Err(m) => return (None, Vec::new(), Some(m)),
        Ok(c) => c,
    };
    let default_profile = match c.default_profile {
        Some(d) => {
            let t = trim_str(d.as_str());
            if t.as_str().unicode_len() > 0 {
                Some(d)
            } else {
                None
            }
        },
        None => None,
    };
    let mut rest = c.profiles;
    let ghost orig = rest@;
    let n = rest.len();
    let mut out: Vec<SchedulerProfileSummary> = Vec::new();
    let mut k: usize = 0;
    proof {
        assert(profile_keys(orig).subrange(0, 0) =~= Seq::<Seq<char>>::empty());
        assert(profile_keys(out@) =~= Seq::<Seq<char>>::empty());
    }
    while k < n
        invariant
            n == orig.len(),
            k <= n,
            rest@ == orig.subrange(k as int, n as int),
            profile_keys(out@) == sort_texts(profile_keys(orig).subrange(0, k as int)),
            forall|a: int|
                0 <= a < out@.len() ==> exists|j: int| 0 <= j < k && #[trigger] out@[a] == orig[j],
        decreases n - k,
    {
        proof {
            assert(profile_keys(orig).subrange(0, k + 1).drop_last() =~= profile_keys(orig).subrange(0, k as int));
            assert(rest@[0] == orig[k as int]);
        }
        let x = rest.remove(0);
        proof {
            assert(rest@ =~= orig.subrange(k + 1, n as int));
        }
        let ghost ov = out@;
        let ghost kv = profile_keys(ov);
        let mut pos = out.len();
        while pos > 0 && crate::text::str_lt(x.key.as_str(), out[pos - 1].key.as_str())
            invariant
                pos <= out@.len(),
                out@ == ov,
                kv == profile_keys(ov),
                forall|q: int| pos <= q < kv.len() ==> crate::text::seq_lt(x.key@, #[trigger] kv[q]),
            decreases pos,
        {
            pos = pos - 1;
        }
        proof {
            crate::text::lemma_insert_sorted_at(kv, x.key@, pos as int);
        }
        let ghost xv = x;
        out.insert(pos, x);
        proof {
            assert(profile_keys(out@) =~= kv.insert(pos as int, xv.key@));
            assert forall|a: int| 0 <= a < out@.len() implies exists|j: int|
                0 <= j < k + 1 && #[trigger] out@[a] == orig[j] by {
                if a < pos {
                    assert(out@[a] == ov[a]);
                } else if a == pos {
                    assert(out@[a] == orig[k as int]);
                } else {
                    assert(out@[a] == ov[a - 1]);
                }
            }
        }
        k = k + 1;
    }
    proof {
        assert(profile_keys(orig).subrange(0, n as int) =~= profile_keys(orig));
    }
    (default_profile, out, None)
}

/// What reading the scheduler configuration file gave.
pub enum SchedulerFileRead {
    /// The file's content.
    Content(String),
    /// There is no such file.
    NotFound,
    /// It could not be read, for this reason.
    Failed(String),
}

/// What is known of the scheduler configuration file.
pub struct SchedulerConfigInspection {
    pub raw_path: Option<String>,
    pub resolved_path: Option<String>,
    pub exists: bool,
    pub content: String,
    pub default_profile: Option<String>,
    pub profiles: Vec<SchedulerProfileSummary>,
    pub parse_error: Option<String>,
    pub read_error: Option<String>,
}

/// What the configured scheduler path, the path it resolved to and the read
/// of the file say: the configured path trimmed (none when blank), whether
/// the file exists, its content, and why it could not be read. A configured
/// path that resolves to nothing could not be read.
pub fn scheduler_file_state(
    configured_path: &Option<String>,
    resolved_path: &Option<String>,
    read: Option<SchedulerFileRead>,
) -> (r: (Option<String>, bool, String, Option<String>))
    ensures
        opt_view(r.0) == match opt_view(*configured_path) {
            Some(p) => if trim(p).len() > 0 {
                Some(trim(p))
            } else {
                None
            },
            None => None,
        },
        resolved_path is Some ==> match read {
            Some(SchedulerFileRead::Content(c)) => r.1 && r.2@ == c@ && r.3 is None,
            Some(SchedulerFileRead::Failed(m)) => !r.1 && r.2@.len() == 0 && opt_view(r.3) == Some(m@),
            _ => !r.1 && r.2@.len() == 0 && r.3 is None,
        },
        resolved_path is None ==> !r.1 && r.2@.len() == 0 && (if r.0 is Some {
            opt_view(r.3) == Some("configured scheduler_path could not be resolved against a project directory"@)
        } else {
            r.3 is None
        }),
{
    let raw = match configured_path {
        Some(p) => {
            let t = trim_str(p.as_str());
            if t.as_str().unicode_len() > 0 {
                Some(t)
            } else {
                None
            }
        },
        None => None,
    };
    let (exists, content, read_error) = match resolved_path {
        Some(_) => match read {
            Some(SchedulerFileRead::Content(c)) => (true, c, None),
            Some(SchedulerFileRead::Failed(m)) => (false, String::new(), Some(m)),
            _ => (false, String::new(), None),
        },
        None => if raw.is_some() {
            (
                false,
                String::new(),
                Some(owned("configured scheduler_path could not be resolved against a project directory")),
            )
        } else {
            (false, String::new(), None)
        },
    };
    (raw, exists, content, read_error)
}

/// Whether the scheduler configuration's content is parsed: only when it is
/// not blank.
pub fn scheduler_content_needs_parse(content: &str) -> (r: bool)
    ensures
        r == (trim(content@).len() > 0),
{
    trim_str(content).as_str().unicode_len() > 0
}

/// The scheduler configuration endpoint's answer: refused with an internal
/// error when the file could not be read, else the inspection as it is.
pub fn scheduler_config_response(inspection: SchedulerConfigInspection) -> (r: Result<
    SchedulerConfigResponse,
    ApiError,
>)
    ensures
        match opt_view(inspection.read_error) {
            Some(m) => r matches Err(e) && e is InternalError && e.message() == "failed to read scheduler config: "@ + m,
            None => r matches Ok(x) && opt_view(x.raw_path) == opt_view(inspection.raw_path) && opt_view(
                x.resolved_path,
            ) == opt_view(inspection.resolved_path) && x.exists == inspection.exists && x.content@
                == inspection.content@ && opt_view(x.default_profile) == opt_view(inspection.default_profile)
                && x.profiles@ == inspection.profiles@ && opt_view(x.parse_error) == opt_view(
                inspection.parse_error,
            ),
        },
{
    match inspection.read_error {
        Some(m) => Err(ApiError::InternalError(cat("failed to read scheduler config: ", m.as_str()))),
        None => Ok(
            SchedulerConfigResponse {
                raw_path: inspection.raw_path,
                resolved_path: inspection.resolved_path,
                exists: inspection.exists,
                content: inspection.content,
                default_profile: inspection.default_profile,
                profiles: inspection.profiles,
                parse_error: inspection.parse_error,
            },
        ),
    }
}

/// A finding of the configuration check on the scheduler path: an error of
/// the scheduler owner on `scheduler_path`, with a soft fallback.
pub struct SchedulerValidationItem {
    pub code: String,
    pub message: String,
}

/// The finding on the configured scheduler file, if any: unreadable,
/// missing, or not parseable, in that order; none when no path is
/// configured.
pub open spec fn scheduler_finding(
    raw_path: Option<Seq<char>>,
    resolved_path: Option<Seq<char>>,
    exists: bool,
    read_error: Option<Seq<char>>,
    parse_error: Option<Seq<char>>,
) -> Option<(Seq<char>, Seq<char>)> {
    match raw_path {
        None => None,
        Some(raw) => if !exists {
            match read_error {
                Some(e) => Some(
                    (
                        "scheduler_config_unreadable"@,
                        "Configured scheduler_path `"@ + raw + "` could not be read: "@ + e,
                    ),
                ),
                None => Some(
                    (
                        "scheduler_config_missing"@,
                        "Configured scheduler_path `"@ + raw + "` does not exist at `"@ + (match resolved_path {
                            Some(l) => l,
                            None => raw,
                        }) + "`."@,
                    ),
                ),
            }
        } else {
            match parse_error {
                Some(e) => Some(
                    (
                        "scheduler_config_parse_error"@,
                        "Configured scheduler_path `"@ + raw + "` could not be parsed: "@ + e,
                    ),
                ),
                None => None,
            }
        },
    }
}

/// Checks the configured scheduler file.
pub fn collect_scheduler_config_validation(inspection: &SchedulerConfigInspection) -> (r: Vec<
    SchedulerValidationItem,
>)
    ensures
        match scheduler_finding(
            opt_view(inspection.raw_path),
            opt_view(inspection.resolved_path),
            inspection.exists,
            opt_view(inspection.read_error),
            opt_view(inspection.parse_error),
        ) {
            None => r@.len() == 0,
            Some((code, message)) => r@.len() == 1 && r@[0].code@ == code && r@[0].message@ == message,
        },
{
    let mut r: Vec<SchedulerValidationItem> = Vec::new();
    let raw = match &inspection.raw_path {
        None => return r,
        Some(p) => p.as_str(),
    };
    if !inspection.exists {
        match &inspection.read_error {
            Some(e) => {
                let m = cat3("Configured scheduler_path `", raw, "` could not be read: ");
                r.push(SchedulerValidationItem { code: owned("scheduler_config_unreadable"), message: cat(m.as_str(), e.as_str()) });
            },
            None => {
                let location = match &inspection.resolved_path {
                    Some(l) => l.as_str(),
                    None => raw,
                };
                let m = cat3("Configured scheduler_path `", raw, "` does not exist at `");
                r.push(SchedulerValidationItem { code: owned("scheduler_config_missing"), message: cat3(m.as_str(), location, "`.") });
            },
        }
        return r;
    }
    match &inspection.parse_error {
        Some(e) => {
            let m = cat3("Configured scheduler_path `", raw, "` could not be parsed: ");
            r.push(SchedulerValidationItem { code: owned("scheduler_config_parse_error"), message: cat(m.as_str(), e.as_str()) });
        },
        None => {},
    }
    r
}

} // verus!

//! The policy a session runs under, as reported to clients: which scheduler
//! it asked for and got, which provider and model answer it, and whether its
//! last input came through an external adapter.

use vstd::prelude::*;
use crate::text::{opt_view, owned, cat, cat3, has_prefix, starts_with, str_eq};
use crate::external_adapter::{trimmed_opt, trimmed_nonempty_opt};
use crate::scheduler::{SchedulerChoice, choice_kind_spec, scheduler_choice_kind};

verus! {

/// The scheduler side of a session's policy.
#[derive(Debug, Clone, PartialEq, Eq)]
pub struct SchedulerPolicy {
    pub requested_kind: Option<String>,
    pub blueprint_name: Option<String>,
    pub blueprint_fingerprint: Option<String>,
    pub source: String,
    pub applied: bool,
    pub resolved_agent: Option<String>,
}

/// The content of a scheduler policy.
pub struct SchedulerPolicyModel {
    pub requested_kind: Option<Seq<char>>,
    pub blueprint_name: Option<Seq<char>>,
    pub blueprint_fingerprint: Option<Seq<char>>,
    pub source: Seq<char>,
    pub applied: bool,
    pub resolved_agent: Option<Seq<char>>,
}

impl View for SchedulerPolicy {
    type V = SchedulerPolicyModel;

    open spec fn view(&self) -> SchedulerPolicyModel {
        SchedulerPolicyModel {
            requested_kind: opt_view(self.requested_kind),
            blueprint_name: opt_view(self.blueprint_name),
            blueprint_fingerprint: opt_view(self.blueprint_fingerprint),
            source: self.source@,
            applied: self.applied,
            resolved_agent: opt_view(self.resolved_agent),
        }
    }
}

/// What a session's metadata says of its scheduler: whether it holds a
/// blueprint, the blueprint's name (where it is a string), and the texts
/// stored as the blueprint's fingerprint and as the source of the selection.
pub struct SchedulerMetadata {
    pub blueprint_present: bool,
    pub blueprint_name: Option<String>,
    pub blueprint_fingerprint: Option<String>,
    pub selection_source: Option<String>,
}

/// The scheduler policy of a session: the kind of scheduler requested, the
/// blueprint's name, its fingerprint and the selection source as stored
/// (trimmed; a blank one counts as absent), the source falling back to
/// `session` where a scheduler was requested and `none` otherwise; the
/// policy applies where a blueprint is stored or a scheduler was requested.
pub open spec fn scheduler_policy_spec(
    blueprint_present: bool,
    blueprint_name: Option<Seq<char>>,
    fingerprint: Option<Seq<char>>,
    selection_source: Option<Seq<char>>,
    requested: Option<SchedulerChoice>,
    resolved_agent: Option<Seq<char>>,
) -> SchedulerPolicyModel {
    SchedulerPolicyModel {
        requested_kind: match requested {
            Some(c) => Some(choice_kind_spec(c)),
            None => None,
        },
        blueprint_name,
        blueprint_fingerprint: trimmed_opt(fingerprint),
        source: match trimmed_opt(selection_source) {
            Some(s) => s,
            None => if requested is Some {
                "session"@
            } else {
                "none"@
            },
        },
        applied: blueprint_present || requested is Some,
        resolved_agent,
    }
}

/// The scheduler policy of a session, as `scheduler_policy_spec` says.
pub fn build_scheduler_policy_from_metadata(
    metadata: &SchedulerMetadata,
    requested: Option<&SchedulerChoice>,
    resolved_agent: Option<String>,
) -> (r: SchedulerPolicy)
    ensures
        r@ == scheduler_policy_spec(
            metadata.blueprint_present,
            opt_view(metadata.blueprint_name),
            opt_view(metadata.blueprint_fingerprint),
            opt_view(metadata.selection_source),
            match requested {
                Some(c) => Some(*c),
                None => None,
            },
            opt_view(resolved_agent),
        ),
{
    let requested_kind = match requested {
        Some(c) => Some(scheduler_choice_kind(c)),
        None => None,
    };
    let source = match trimmed_nonempty_opt(&metadata.selection_source) {
        Some(s) => s,
        None => if requested.is_some() {
            owned("session")
        } else {
            owned("none")
        },
    };
    let blueprint_name = match &metadata.blueprint_name {
        Some(n) => Some(owned(n.as_str())),
        None => None,
    };
    SchedulerPolicy {
        requested_kind,
        blueprint_name,
        blueprint_fingerprint: trimmed_nonempty_opt(&metadata.blueprint_fingerprint),
        source,
        applied: metadata.blueprint_present || requested.is_some(),
        resolved_agent,
    }
}

/// The warning of a policy whose request inputs did not resolve.
pub open spec fn unresolved_warning(error: Seq<char>) -> Seq<char> {
    "effective policy could not fully resolve current request inputs: "@ + error
}

/// The scheduler policy of a session given how its request inputs resolved
/// (to the agent resolved, if any, or to an error): built with the agent
/// resolved, or with none and the error recorded as a warning.
pub fn resolved_scheduler_policy(
    metadata: &SchedulerMetadata,
    requested: Option<&SchedulerChoice>,
    resolution: Result<Option<String>, String>,
    warnings: &mut Vec<String>,
) -> (r: SchedulerPolicy)
    ensures
        r@ == scheduler_policy_spec(
            metadata.blueprint_present,
            opt_view(metadata.blueprint_name),
            opt_view(metadata.blueprint_fingerprint),
            opt_view(metadata.selection_source),
            match requested {
                Some(c) => Some(*c),
                None => None,
            },
            match resolution {
                Ok(a) => opt_view(a),
                Err(_) => None,
            },
        ),
        final(warnings)@.map_values(|w: String| w@) == match resolution {
            Ok(_) => old(warnings)@.map_values(|w: String| w@),
            Err(e) => old(warnings)@.map_values(|w: String| w@).push(unresolved_warning(e@)),
        },
{
    match resolution {
        Ok(agent) => build_scheduler_policy_from_metadata(metadata, requested, agent),
        Err(error) => {
            let ghost before = warnings@.map_values(|w: String| w@);
            let w = cat("effective policy could not fully resolve current request inputs: ", error.as_str());
            warnings.push(w);
            proof {
                assert(warnings@.map_values(|w: String| w@) =~= before.push(unresolved_warning(error@)));
            }
            build_scheduler_policy_from_metadata(metadata, requested, None)
        },
    }
}

/// The external adapter side of a session's policy.
#[derive(Debug, Clone, PartialEq, Eq)]
pub struct ExternalAdapterPolicy {
    pub last_ingress_source: String,
    pub last_ingress_policy: Option<String>,
    pub last_ingress_batch_count: Option<u64>,
}

/// The external adapter policy of a session, from the stored source and
/// policy of its last input (trimmed; blank counts as absent) and the size
/// of its last batch: present where a source is stored and it names an
/// external adapter (`external:` first) or the policy is the external
/// adapter's.
pub open spec fn external_adapter_policy_spec(
    source: Option<Seq<char>>,
    policy: Option<Seq<char>>,
    batch_count: Option<u64>,
) -> Option<(Seq<char>, Option<Seq<char>>, Option<u64>)> {
    match trimmed_opt(source) {
        Some(s) => if has_prefix(s, "external:"@) || trimmed_opt(policy) == Some(
            "external_adapter_metadata_only"@,
        ) {
            Some((s, trimmed_opt(policy), batch_count))
        } else {
            None
        },
        None => None,
    }
}

/// The external adapter policy of a session, as
/// `external_adapter_policy_spec` says.
pub fn build_external_adapter_policy(
    source: &Option<String>,
    policy: &Option<String>,
    batch_count: Option<u64>,
) -> (r: Option<ExternalAdapterPolicy>)
    ensures
        match r {
            Some(p) => external_adapter_policy_spec(opt_view(*source), opt_view(*policy), batch_count) == Some(
                (p.last_ingress_source@, opt_view(p.last_ingress_policy), p.last_ingress_batch_count),
            ),
            None => external_adapter_policy_spec(opt_view(*source), opt_view(*policy), batch_count) is None,
        },
{
    let s = match trimmed_nonempty_opt(source) {
        Some(s) => s,
        None => return None,
    };
    let p = trimmed_nonempty_opt(policy);
    let external_policy = match &p {
        Some(v) => str_eq(v.as_str(), "external_adapter_metadata_only"),
        None => false,
    };
    proof {
        reveal_strlit("external_adapter_metadata_only");
    }
    if starts_with(s.as_str(), "external:") || external_policy {
        Some(ExternalAdapterPolicy { last_ingress_source: s, last_ingress_policy: p, last_ingress_batch_count: batch_count })
    } else {
        None
    }
}

/// The model a provider policy names: provider and model joined by `/`.
pub fn resolved_model_name(provider_id: &str, model_id: &str) -> (r: String)
    ensures
        r@ == provider_id@ + "/"@ + model_id@,
{
    cat3(provider_id, "/", model_id)
}

/// The warning of a provider whose configured descriptor did not project.
pub open spec fn descriptor_warning(provider_id: Seq<char>, error: Seq<char>) -> Seq<char> {
    "provider descriptor projection failed for `"@ + provider_id + "`: "@ + error
}

/// The warning of a provider that exposes no runtime profile.
pub open spec fn missing_profile_warning(provider_id: Seq<char>) -> Seq<char> {
    "provider `"@ + provider_id + "` did not expose a runtime profile fingerprint"@
}

/// The warnings a provider policy adds: one for a configured descriptor that
/// did not project, then one where the provider exposes no runtime profile.
pub fn provider_policy_warnings(
    provider_id: &str,
    descriptor_error: &Option<String>,
    has_runtime_profile: bool,
    warnings: &mut Vec<String>,
)
    ensures
        final(warnings)@.map_values(|w: String| w@) == old(warnings)@.map_values(|w: String| w@) + (match *descriptor_error {
            Some(e) => seq![descriptor_warning(provider_id@, e@)],
            None => Seq::<Seq<char>>::empty(),
        }) + (if has_runtime_profile {
            Seq::<Seq<char>>::empty()
        } else {
            seq![missing_profile_warning(provider_id@)]
        }),
{
    let ghost before = warnings@.map_values(|w: String| w@);
    match descriptor_error {
        Some(e) => {
            let mut w = cat3("provider descriptor projection failed for `", provider_id, "`: ");
            w.append(e.as_str());
            warnings.push(w);
        },
        None => {},
    }
    let ghost mid = warnings@.map_values(|w: String| w@);
    proof {
        assert(mid =~= before + (match *descriptor_error {
            Some(e) => seq![descriptor_warning(provider_id@, e@)],
            None => Seq::<Seq<char>>::empty(),
        }));
    }
    if !has_runtime_profile {
        let w = cat3("provider `", provider_id, "` did not expose a runtime profile fingerprint");
        warnings.push(w);
    }
    proof {
        assert(warnings@.map_values(|w: String| w@) =~= mid + (if has_runtime_profile {
            Seq::<Seq<char>>::empty()
        } else {
            seq![missing_profile_warning(provider_id@)]
        }));
    }
}

} // verus!

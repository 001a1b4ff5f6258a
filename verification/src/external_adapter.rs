//! The generic-webhook external adapter: which configured adapter accepts an
//! event, how a binding is checked and normalized, and how a webhook's replay
//! guard and HMAC signature are verified.

use vstd::prelude::*;
use crate::text::opt_view;
use vstd::utf8::encode_utf8;
use crate::api_error::ApiError;
use crate::crypto::{hmac_sha256, sha256_digest, hex_encode, hmac_sha256_spec, sha256_spec, hex_lower, is_hex_lower_char, lemma_hex_lower_chars};
use crate::text::{
    trim, lower, has_prefix, owned, trim_str, lower_str, str_eq, cat, cat3, strip_prefix, decimal,
    decimal_string, lemma_trim_idempotent, sort_strings, sort_texts, trim_start, trim_end,
};

verus! {

/// A field whose value holds only white space is refused as missing.
pub fn require_non_blank(field: &str, value: &str) -> (r: Result<(), ApiError>)
    ensures
        r is Ok <==> trim(value@).len() > 0,
        r matches Err(e) ==> e.is_bad_request(field@ + " is required"@),
{
    let t = trim_str(value);
    if t.as_str().unicode_len() == 0 {
        Err(ApiError::BadRequest(cat(field, " is required")))
    } else {
        Ok(())
    }
}

/// The replay guard of a webhook delivery: when it was signed, a nonce, and
/// the signature.
pub struct GenericWebhookReplayGuardRef {
    pub timestamp_ms: i64,
    pub nonce: String,
    pub signature: String,
}

impl GenericWebhookReplayGuardRef {
    /// Checks the guard's material: a positive timestamp, then a nonce, then a
    /// signature, each not blank.
    pub fn validate(&self) -> (r: Result<(), ApiError>)
        ensures
            self.timestamp_ms <= 0 ==> (r matches Err(e) && e.is_bad_request(
                "replay_guard.timestamp_ms must be positive"@,
            )),
            self.timestamp_ms > 0 && trim(self.nonce@).len() == 0 ==> (r matches Err(e)
                && e.is_bad_request("replay_guard.nonce is required"@)),
            self.timestamp_ms > 0 && trim(self.nonce@).len() > 0 && trim(self.signature@).len()
                == 0 ==> (r matches Err(e) && e.is_bad_request(
                "replay_guard.signature is required"@,
            )),
            r is Ok <==> (self.timestamp_ms > 0 && trim(self.nonce@).len() > 0 && trim(
                self.signature@,
            ).len() > 0),
    {
        proof {
            reveal_strlit("replay_guard.nonce");
            reveal_strlit("replay_guard.signature");
            reveal_strlit(" is required");
            reveal_strlit("replay_guard.nonce is required");
            reveal_strlit("replay_guard.signature is required");
            assert("replay_guard.nonce"@ + " is required"@ =~= "replay_guard.nonce is required"@);
            assert("replay_guard.signature"@ + " is required"@ =~= "replay_guard.signature is required"@);
        }
        if self.timestamp_ms <= 0 {
            return Err(ApiError::BadRequest(owned("replay_guard.timestamp_ms must be positive")));
        }
        match require_non_blank("replay_guard.nonce", self.nonce.as_str()) {
            Err(e) => return Err(e),
            Ok(()) => {},
        }
        require_non_blank("replay_guard.signature", self.signature.as_str())
    }
}

/// A supplied signature as compared: trimmed, without a `sha256=` prefix, in
/// lower case.
pub open spec fn normalize_signature_spec(signature: Seq<char>) -> Seq<char> {
    let t = trim(signature);
    lower(
        if has_prefix(t, "sha256="@) {
            t.subrange(7, t.len() as int)
        } else {
            t
        },
    )
}

/// Normalizes a supplied signature for comparison.
pub fn normalize_signature(signature: &str) -> (r: String)
    ensures
        r@ == normalize_signature_spec(signature@),
{
    let t = trim_str(signature);
    proof {
        reveal_strlit("sha256=");
    }
    let body = match strip_prefix(t.as_str(), "sha256=") {
        Some(rest) => rest,
        None => t,
    };
    lower_str(body.as_str())
}

/// The decimal notation of a signed number.
pub open spec fn signed_decimal(n: int) -> Seq<char> {
    if n >= 0 {
        decimal(n as nat)
    } else {
        seq!['-'] + decimal((-n) as nat)
    }
}

/// The decimal notation of `n`.
pub fn signed_decimal_string(n: i64) -> (r: String)
    ensures
        r@ == signed_decimal(n as int),
{
    if n >= 0 {
        decimal_string(n as u64)
    } else {
        let m: i128 = -(n as i128);
        let d = decimal_string(m as u64);
        let r = cat("-", d.as_str());
        proof {
            reveal_strlit("-");
        }
        r
    }
}

/// The text a webhook signature signs: the timestamp, the trimmed nonce, the
/// event's JSON and the binding's JSON, separated by dots.
pub open spec fn signature_payload(
    timestamp_ms: int,
    nonce: Seq<char>,
    event_json: Seq<char>,
    binding_json: Seq<char>,
) -> Seq<char> {
    signed_decimal(timestamp_ms) + "."@ + trim(nonce) + "."@ + event_json + "."@ + binding_json
}

/// The signature a webhook delivery must carry: the lower-case hex of the
/// HMAC-SHA256, under the adapter's secret, of its signed text.
pub open spec fn expected_signature(
    secret: Seq<char>,
    timestamp_ms: int,
    nonce: Seq<char>,
    event_json: Seq<char>,
    binding_json: Seq<char>,
) -> Seq<char> {
    hex_lower(
        hmac_sha256_spec(
            encode_utf8(secret),
            encode_utf8(signature_payload(timestamp_ms, nonce, event_json, binding_json)),
        ),
    )
}

proof fn lemma_hex_text_normalizes(s: Seq<char>)
    requires
        forall|i: int| 0 <= i < s.len() ==> is_hex_lower_char(#[trigger] s[i]),
    ensures
        normalize_signature_spec(s) == s,
        normalize_signature_spec("sha256="@ + s) == s,
{
    reveal_strlit("sha256=");
    let p = "sha256="@;
    assert(p.len() == 7);
    if s.len() > 0 {
        assert(is_hex_lower_char(s[0]));
        assert(is_hex_lower_char(s.last()));
        assert(s[s.len() - 1] == s.last());
    }
    assert(trim_start(s) == s);
    assert(trim_end(s) == s);
    assert(trim(s) == s);
    assert(!has_prefix(s, p)) by {
        if s.len() >= 7 {
            assert(s.subrange(0, 7)[0] == s[0]);
            assert(is_hex_lower_char(s[0]));
        }
    }
    assert(lower(s) =~= s) by {
        assert forall|i: int| 0 <= i < s.len() implies lower(s)[i] == s[i] by {
            assert(is_hex_lower_char(s[i]));
        }
    }
    let t = p + s;
    assert(t[0] == 's');
    assert(t.last() == (if s.len() > 0 { s.last() } else { '=' }));
    if s.len() > 0 {
        assert(is_hex_lower_char(s.last()));
    }
    assert(trim_start(t) == t);
    assert(trim_end(t) == t);
    assert(trim(t) == t);
    assert(t.subrange(0, 7) =~= p);
    assert(has_prefix(t, p));
    assert(t.subrange(7, t.len() as int) =~= s);
}

/// A signature as `generic_webhook_signature` computes it compares as
/// itself, bare or behind a `sha256=` prefix: a delivery that carries it
/// passes the signature check of `verify_replay_signature`.
pub proof fn lemma_expected_signature_accepted(
    secret: Seq<char>,
    timestamp_ms: int,
    nonce: Seq<char>,
    event_json: Seq<char>,
    binding_json: Seq<char>,
)
    ensures
        ({
            let sig = expected_signature(secret, timestamp_ms, nonce, event_json, binding_json);
            &&& normalize_signature_spec(sig) == sig
            &&& normalize_signature_spec("sha256="@ + sig) == sig
        }),
{
    let bytes = hmac_sha256_spec(
        encode_utf8(secret),
        encode_utf8(signature_payload(timestamp_ms, nonce, event_json, binding_json)),
    );
    lemma_hex_lower_chars(bytes);
    lemma_hex_text_normalizes(hex_lower(bytes));
}

/// Builds the signed text of a webhook delivery.
pub fn generic_webhook_payload(
    timestamp_ms: i64,
    nonce: &str,
    event_json: &str,
    binding_json: &str,
) -> (r: String)
    ensures
        r@ == signature_payload(timestamp_ms as int, nonce@, event_json@, binding_json@),
{
    let ts = signed_decimal_string(timestamp_ms);
    let n = trim_str(nonce);
    let a = cat3(ts.as_str(), ".", n.as_str());
    let b = cat3(a.as_str(), ".", event_json);
    cat3(b.as_str(), ".", binding_json)
}

/// The signature a webhook delivery must carry, from the adapter's secret,
/// the guard's timestamp and nonce, and the JSON of the event and binding.
pub fn generic_webhook_signature(
    secret: &str,
    timestamp_ms: i64,
    nonce: &str,
    event_json: &str,
    binding_json: &str,
) -> (r: Result<String, ApiError>)
    ensures
        r matches Ok(s) && s@ == expected_signature(secret@, timestamp_ms as int, nonce@, event_json@, binding_json@),
{
    let payload = generic_webhook_payload(timestamp_ms, nonce, event_json, binding_json);
    let mac = match hmac_sha256(secret.as_bytes(), payload.as_str().as_bytes()) {
        Ok(m) => m,
        Err(error) => {
            return Err(
                ApiError::BadRequest(cat("failed to initialize external adapter signature: ", error.as_str())),
            );
        },
    };
    Ok(hex_encode(mac.as_slice()))
}

/// The fingerprint under which a delivery's signature is recorded: `sha256:`
/// and the lower-case hex SHA-256 of the trimmed signature.
pub fn signature_hash(signature: &str) -> (r: String)
    ensures
        r@ == "sha256:"@ + hex_lower(sha256_spec(encode_utf8(trim(signature@)))),
{
    let t = trim_str(signature);
    let digest = sha256_digest(t.as_str().as_bytes());
    let h = hex_encode(digest.as_slice());
    cat("sha256:", h.as_str())
}

/// A number of seconds in milliseconds, held to the largest timestamp.
pub open spec fn window_ms_spec(seconds: u64) -> int {
    let ms = if seconds as int * 1000 > u64::MAX as int {
        u64::MAX as int
    } else {
        seconds as int * 1000
    };
    if ms > i64::MAX as int {
        i64::MAX as int
    } else {
        ms
    }
}

fn window_ms(seconds: u64) -> (r: i64)
    ensures
        r as int == window_ms_spec(seconds),
{
    let ms: u64 = if seconds > u64::MAX / 1000 {
        u64::MAX
    } else {
        seconds * 1000
    };
    if ms > i64::MAX as u64 {
        i64::MAX
    } else {
        ms as i64
    }
}

/// `a - b`, held to the range of a timestamp.
pub open spec fn sat_sub_i64(a: int, b: int) -> int {
    if a - b < i64::MIN as int {
        i64::MIN as int
    } else if a - b > i64::MAX as int {
        i64::MAX as int
    } else {
        a - b
    }
}

fn sat_sub(a: i64, b: i64) -> (r: i64)
    ensures
        r as int == sat_sub_i64(a as int, b as int),
{
    let d: i128 = a as i128 - b as i128;
    if d < i64::MIN as i128 {
        i64::MIN
    } else if d > i64::MAX as i128 {
        i64::MAX
    } else {
        d as i64
    }
}

/// Whether a delivery signed at `timestamp_ms` is outside a replay window
/// of `window_seconds` at `now_ms`.
pub open spec fn outside_window(now_ms: i64, timestamp_ms: i64, window_seconds: Option<u64>) -> bool {
    match window_seconds {
        Some(w) => w > 0 && ({
            let d = sat_sub_i64(now_ms as int, timestamp_ms as int);
            (if d < 0 {
                -d
            } else {
                d
            }) > window_ms_spec(w)
        }),
        None => false,
    }
}

/// Checks a delivery's replay guard and signature: the guard's material
/// first, then, when a replay window is configured, that it was signed within
/// the window around `now_ms`, then that its signature is the expected one.
pub fn verify_replay_signature(
    guard: &GenericWebhookReplayGuardRef,
    secret: &str,
    event_json: &str,
    binding_json: &str,
    nonce_window_seconds: Option<u64>,
    now_ms: i64,
) -> (r: Result<(), ApiError>)
    requires
        nonce_window_seconds matches Some(w) && w > 0 ==> now_ms as int - guard.timestamp_ms as int
            > i64::MIN as int,
    ensures
        r is Ok <==> (guard.timestamp_ms > 0 && trim(guard.nonce@).len() > 0 && trim(
            guard.signature@,
        ).len() > 0 && !outside_window(now_ms, guard.timestamp_ms, nonce_window_seconds)
            && normalize_signature_spec(guard.signature@) == expected_signature(
            secret@,
            guard.timestamp_ms as int,
            guard.nonce@,
            event_json@,
            binding_json@,
        )),
        guard.timestamp_ms > 0 && trim(guard.nonce@).len() > 0 && trim(guard.signature@).len() > 0
            && outside_window(now_ms, guard.timestamp_ms, nonce_window_seconds) ==> (r matches Err(e)
            && e.is_bad_request(
            "external adapter webhook timestamp is outside the configured replay window"@,
        )),
        guard.timestamp_ms > 0 && trim(guard.nonce@).len() > 0 && trim(guard.signature@).len() > 0
            && !outside_window(now_ms, guard.timestamp_ms, nonce_window_seconds)
            && normalize_signature_spec(guard.signature@) != expected_signature(
            secret@,
            guard.timestamp_ms as int,
            guard.nonce@,
            event_json@,
            binding_json@,
        ) ==> (r matches Err(e) && e.is_bad_request("invalid external adapter webhook signature"@)),
{
    match guard.validate() {
        Err(e) => return Err(e),
        Ok(()) => {},
    }
    match nonce_window_seconds {
        Some(w) => {
            if w > 0 {
                let limit = window_ms(w);
                let d = sat_sub(now_ms, guard.timestamp_ms);
                let age = if d < 0 {
                    -d
                } else {
                    d
                };
                if age > limit {
                    return Err(
                        ApiError::BadRequest(
                            owned("external adapter webhook timestamp is outside the configured replay window"),
                        ),
                    );
                }
            }
        },
        None => {},
    }
    let expected = match generic_webhook_signature(
        secret,
        guard.timestamp_ms,
        guard.nonce.as_str(),
        event_json,
        binding_json,
    ) {
        Ok(s) => s,
        Err(e) => return Err(e),
    };
    let supplied = normalize_signature(guard.signature.as_str());
    if !str_eq(expected.as_str(), supplied.as_str()) {
        return Err(ApiError::BadRequest(owned("invalid external adapter webhook signature")));
    }
    Ok(())
}

/// The time before which recorded replay state is pruned, when a retention
/// is configured: `now_ms` less the retention, held to the range of a
/// timestamp.
pub fn replay_retention_cutoff(retention_seconds: Option<u64>, now_ms: i64) -> (r: Option<i64>)
    ensures
        match retention_seconds {
            Some(s) => if s > 0 {
                r matches Some(c) && c as int == sat_sub_i64(now_ms as int, window_ms_spec(s))
            } else {
                r is None
            },
            None => r is None,
        },
{
    match retention_seconds {
        Some(s) => {
            if s > 0 {
                Some(sat_sub(now_ms, window_ms(s)))
            } else {
                None
            }
        },
        None => None,
    }
}

/// The configuration of one external adapter.
pub struct ExternalAdapterEntry {
    pub enabled: Option<bool>,
    pub source: Option<String>,
    pub secret_ref: Option<String>,
    pub default_workspace: Option<String>,
    pub route_policy_id: Option<String>,
    pub allow_session_run: Option<bool>,
    pub allowed_workspaces: Vec<String>,
}


/// An optional text, trimmed, and none when it is then empty.
pub open spec fn trimmed_opt(o: Option<Seq<char>>) -> Option<Seq<char>> {
    match o {
        Some(s) => if trim(s).len() > 0 {
            Some(trim(s))
        } else {
            None
        },
        None => None,
    }
}

/// An optional string, trimmed, and none when it is then empty.
pub fn trimmed_nonempty_opt(o: &Option<String>) -> (r: Option<String>)
    ensures
        opt_view(r) == trimmed_opt(opt_view(*o)),
{
    match o {
        Some(s) => {
            let t = trim_str(s.as_str());
            if t.as_str().unicode_len() > 0 {
                Some(t)
            } else {
                None
            }
        },
        None => None,
    }
}

/// The source a generic-webhook adapter is configured with.
pub open spec fn generic_source() -> Seq<char> {
    "generic-webhook"@
}

/// Whether an adapter takes generic-webhook events: not disabled, and its
/// trimmed source is `generic-webhook`.
pub open spec fn webhook_enabled_spec(a: ExternalAdapterEntry) -> bool {
    a.enabled != Some(false) && trimmed_opt(opt_view(a.source)) == Some(generic_source())
}

fn opt_is(o: &Option<String>, lit: &str) -> (r: bool)
    ensures
        r == (opt_view(*o) == Some(lit@)),
{
    match o {
        Some(s) => str_eq(s.as_str(), lit),
        None => false,
    }
}

/// Whether an adapter takes generic-webhook events.
pub fn generic_webhook_adapter_enabled(adapter: &ExternalAdapterEntry) -> (r: bool)
    ensures
        r == webhook_enabled_spec(*adapter),
{
    if adapter.enabled == Some(false) {
        return false;
    }
    let source = trimmed_nonempty_opt(&adapter.source);
    opt_is(&source, "generic-webhook")
}

/// The source of an external adapter event.
#[derive(Debug, Clone, Copy, PartialEq, Eq, Structural)]
pub enum ExternalAdapterSource {
    GenericWebhook,
    /// Any other source, which the webhook endpoints refuse.
    Other,
}

/// The configured adapters, by id.
pub struct ExternalAdapterConfig {
    pub adapters: Vec<(String, ExternalAdapterEntry)>,
}

/// The index of the first adapter configured under `id`, if any.
pub open spec fn find_spec(adapters: Seq<(String, ExternalAdapterEntry)>, id: Seq<char>) -> Option<int> {
    if exists|i: int| 0 <= i < adapters.len() && (#[trigger] adapters[i]).0@ == id {
        Some(choose|i: int| 0 <= i < adapters.len() && adapters[i].0@ == id && forall|j: int|
            0 <= j < i ==> adapters[j].0@ != id)
    } else {
        None
    }
}

/// Finds the adapter configured under `id`.
pub fn find_adapter<'a>(config: &'a ExternalAdapterConfig, id: &str) -> (r: Option<&'a ExternalAdapterEntry>)
    ensures
        match find_spec(config.adapters@, id@) {
            Some(i) => r == Some(&config.adapters@[i].1),
            None => r is None,
        },
{
    let mut i: usize = 0;
    while i < config.adapters.len()
        invariant
            i <= config.adapters@.len(),
            forall|j: int| 0 <= j < i ==> config.adapters@[j].0@ != id@,
        decreases config.adapters.len() - i,
    {
        if str_eq(config.adapters[i].0.as_str(), id) {
            proof {
                let w = choose|k: int| 0 <= k < config.adapters@.len() && config.adapters@[k].0@ == id@
                    && forall|j: int| 0 <= j < k ==> config.adapters@[j].0@ != id@;
                assert(0 <= i < config.adapters@.len() && config.adapters@[i as int].0@ == id@ && forall|j: int|
                    0 <= j < i ==> config.adapters@[j].0@ != id@);
                if w < i {
                    assert(config.adapters@[w].0@ != id@);
                }
                if w > i {
                    assert(config.adapters@[i as int].0@ != id@);
                }
            }
            return Some(&config.adapters[i].1);
        }
        i = i + 1;
    }
    None
}

/// Which configured adapter takes events of `source` under `adapter_id` (its
/// index), or the message of the refusal: a source other than the generic
/// webhook, an adapter that is not configured or disabled, or one configured
/// for another source.
pub open spec fn adapter_lookup_spec(
    adapters: Seq<(String, ExternalAdapterEntry)>,
    adapter_id: Seq<char>,
    source: ExternalAdapterSource,
) -> Result<int, Seq<char>> {
    if source != ExternalAdapterSource::GenericWebhook {
        Err("generic webhook endpoint requires event.source `generic-webhook`"@)
    } else {
        match find_spec(adapters, adapter_id) {
            None => Err("external adapter `"@ + adapter_id + "` is not configured"@),
            Some(i) => if adapters[i].1.enabled == Some(false) {
                Err("external adapter `"@ + adapter_id + "` is disabled"@)
            } else if trimmed_opt(opt_view(adapters[i].1.source)) != Some(generic_source()) {
                Err("external adapter `"@ + adapter_id + "` is not configured for `generic-webhook`"@)
            } else {
                Ok(i)
            },
        }
    }
}

/// Finds the adapter that takes events of `source` under `adapter_id`.
pub fn configured_external_adapter_for_source<'a>(
    config: &'a ExternalAdapterConfig,
    adapter_id: &str,
    source: ExternalAdapterSource,
) -> (r: Result<&'a ExternalAdapterEntry, ApiError>)
    ensures
        match adapter_lookup_spec(config.adapters@, adapter_id@, source) {
            Ok(i) => r == Ok::<&ExternalAdapterEntry, ApiError>(&config.adapters@[i].1),
            Err(m) => r matches Err(e) && e.is_bad_request(m),
        },
{
    if source != ExternalAdapterSource::GenericWebhook {
        return Err(ApiError::BadRequest(owned("generic webhook endpoint requires event.source `generic-webhook`")));
    }
    let adapter = match find_adapter(config, adapter_id) {
        None => return Err(ApiError::BadRequest(cat3("external adapter `", adapter_id, "` is not configured"))),
        Some(a) => a,
    };
    if adapter.enabled == Some(false) {
        return Err(ApiError::BadRequest(cat3("external adapter `", adapter_id, "` is disabled")));
    }
    let src = trimmed_nonempty_opt(&adapter.source);
    if !opt_is(&src, "generic-webhook") {
        return Err(
            ApiError::BadRequest(cat3("external adapter `", adapter_id, "` is not configured for `generic-webhook`")),
        );
    }
    Ok(adapter)
}

/// Which session, actor, workspace and route policy an external event is
/// bound to.
pub struct ResolvedBinding {
    pub session_id: String,
    pub actor_id: String,
    pub workspace_id: String,
    pub route_policy_id: Option<String>,
}

/// The model of a binding.
pub struct BindingModel {
    pub session_id: Seq<char>,
    pub actor_id: Seq<char>,
    pub workspace_id: Seq<char>,
    pub route_policy_id: Option<Seq<char>>,
}

impl View for ResolvedBinding {
    type V = BindingModel;

    open spec fn view(&self) -> BindingModel {
        BindingModel {
            session_id: self.session_id@,
            actor_id: self.actor_id@,
            workspace_id: self.workspace_id@,
            route_policy_id: opt_view(self.route_policy_id),
        }
    }
}

/// A binding with its fields trimmed and a blank route policy dropped.
pub open spec fn normalized_spec(b: BindingModel) -> BindingModel {
    BindingModel {
        session_id: trim(b.session_id),
        actor_id: trim(b.actor_id),
        workspace_id: trim(b.workspace_id),
        route_policy_id: trimmed_opt(b.route_policy_id),
    }
}

/// Normalizes a binding.
pub fn normalized_binding(binding: &ResolvedBinding) -> (r: ResolvedBinding)
    ensures
        r@ == normalized_spec(binding@),
{
    ResolvedBinding {
        session_id: trim_str(binding.session_id.as_str()),
        actor_id: trim_str(binding.actor_id.as_str()),
        workspace_id: trim_str(binding.workspace_id.as_str()),
        route_policy_id: trimmed_nonempty_opt(&binding.route_policy_id),
    }
}

/// Whether a workspace is among the allowed ones, compared trimmed.
pub open spec fn workspace_allowed(allowed: Seq<String>, workspace: Seq<char>) -> bool {
    exists|i: int| 0 <= i < allowed.len() && trim((#[trigger] allowed[i])@) == trim(workspace)
}

fn any_workspace_matches(allowed: &Vec<String>, workspace: &str) -> (r: bool)
    ensures
        r == workspace_allowed(allowed@, workspace@),
{
    let w = trim_str(workspace);
    let mut i: usize = 0;
    while i < allowed.len()
        invariant
            i <= allowed@.len(),
            w@ == trim(workspace@),
            forall|j: int| 0 <= j < i ==> trim(#[trigger] allowed@[j]@) != trim(workspace@),
        decreases allowed.len() - i,
    {
        let t = trim_str(allowed[i].as_str());
        if str_eq(t.as_str(), w.as_str()) {
            return true;
        }
        i = i + 1;
    }
    false
}

/// Why a (validated) binding breaks an adapter's policy, if it does: its
/// workspace must be allowed when the adapter lists workspaces, and it must
/// carry the adapter's route policy when the adapter names one.
pub open spec fn binding_policy_error(a: ExternalAdapterEntry, b: BindingModel) -> Option<Seq<char>> {
    if a.allowed_workspaces@.len() > 0 && !workspace_allowed(a.allowed_workspaces@, b.workspace_id) {
        Some("workspace `"@ + trim(b.workspace_id) + "` is not allowed for this external adapter"@)
    } else {
        match trimmed_opt(opt_view(a.route_policy_id)) {
            Some(p) => if trimmed_opt(b.route_policy_id) != Some(p) {
                Some("route_policy_id `"@ + p + "` is required for this external adapter"@)
            } else {
                None
            },
            None => None,
        }
    }
}

/// Checks a (validated) binding against an adapter's policy.
pub fn enforce_binding_policy(adapter: &ExternalAdapterEntry, binding: &ResolvedBinding) -> (r: Result<
    (),
    ApiError,
>)
    ensures
        match binding_policy_error(*adapter, binding@) {
            None => r is Ok,
            Some(m) => r matches Err(e) && e.is_bad_request(m),
        },
{
    if adapter.allowed_workspaces.len() > 0 && !any_workspace_matches(
        &adapter.allowed_workspaces,
        binding.workspace_id.as_str(),
    ) {
        let w = trim_str(binding.workspace_id.as_str());
        return Err(
            ApiError::BadRequest(cat3("workspace `", w.as_str(), "` is not allowed for this external adapter")),
        );
    }
    match trimmed_nonempty_opt(&adapter.route_policy_id) {
        Some(p) => {
            let supplied = trimmed_nonempty_opt(&binding.route_policy_id);
            if !opt_is(&supplied, p.as_str()) {
                return Err(
                    ApiError::BadRequest(cat3("route_policy_id `", p.as_str(), "` is required for this external adapter")),
                );
            }
            Ok(())
        },
        None => Ok(()),
    }
}

/// Refuses session runs from an adapter that does not allow them.
pub fn enforce_session_run_allowed(adapter: &ExternalAdapterEntry, adapter_id: &str) -> (r: Result<
    (),
    ApiError,
>)
    ensures
        r is Ok <==> adapter.allow_session_run == Some(true),
        r matches Err(e) ==> e.is_bad_request(
            "external adapter `"@ + adapter_id@ + "` is not allowed to run session turns"@,
        ),
{
    if adapter.allow_session_run == Some(true) {
        Ok(())
    } else {
        Err(ApiError::BadRequest(cat3("external adapter `", adapter_id, "` is not allowed to run session turns")))
    }
}

fn same_binding(a: &ResolvedBinding, b: &ResolvedBinding) -> (r: bool)
    ensures
        r == (a@ == b@),
{
    let rp = match (&a.route_policy_id, &b.route_policy_id) {
        (Some(x), Some(y)) => str_eq(x.as_str(), y.as_str()),
        (None, None) => true,
        _ => false,
    };
    str_eq(a.session_id.as_str(), b.session_id.as_str()) && str_eq(a.actor_id.as_str(), b.actor_id.as_str())
        && str_eq(a.workspace_id.as_str(), b.workspace_id.as_str()) && rp
}

/// Checks that a session was provisioned for the binding: it must carry a
/// verified binding, equal to this one once both are normalized.
pub fn enforce_session_binding_authority(
    session_id: &str,
    existing: &Option<ResolvedBinding>,
    binding: &ResolvedBinding,
) -> (r: Result<(), ApiError>)
    ensures
        match *existing {
            None => r matches Err(e) && e.is_bad_request(
                "session `"@ + session_id@
                    + "` is not provisioned for external adapter binding; provision it through the owner-local external-adapter session path first"@,
            ),
            Some(x) => if normalized_spec(x@) != normalized_spec(binding@) {
                r matches Err(e) && e.is_bad_request(
                    "session `"@ + session_id@
                        + "` is already bound to a different external adapter actor/workspace"@,
                )
            } else {
                r is Ok
            },
        },
{
    let b = normalized_binding(binding);
    match existing {
        Some(x) => {
            let nx = normalized_binding(x);
            if !same_binding(&nx, &b) {
                return Err(
                    ApiError::BadRequest(
                        cat3(
                            "session `",
                            session_id,
                            "` is already bound to a different external adapter actor/workspace",
                        ),
                    ),
                );
            }
            Ok(())
        },
        None => Err(
            ApiError::BadRequest(
                cat3(
                    "session `",
                    session_id,
                    "` is not provisioned for external adapter binding; provision it through the owner-local external-adapter session path first",
                ),
            ),
        ),
    }
}

/// What provisioning a session for a generic-webhook adapter settled before
/// the session is created: the trimmed adapter id and the workspace.
pub struct ProvisionPlan {
    pub adapter_id: String,
    pub workspace_id: String,
}

/// The workspace of a provisioned session: the requested one, else the
/// adapter's default, each trimmed and when not blank.
pub open spec fn provision_workspace_spec(
    requested: Option<Seq<char>>,
    default: Option<Seq<char>>,
) -> Option<Seq<char>> {
    match trimmed_opt(requested) {
        Some(w) => Some(w),
        None => trimmed_opt(default),
    }
}

/// The binding checked before a session is provisioned, with a placeholder
/// session id.
pub open spec fn preflight_binding(
    actor_id: Seq<char>,
    workspace: Seq<char>,
    route_policy_id: Option<Seq<char>>,
) -> BindingModel {
    normalized_spec(
        BindingModel {
            session_id: "__provision__"@,
            actor_id: actor_id,
            workspace_id: workspace,
            route_policy_id: route_policy_id,
        },
    )
}

/// The outcome of the checks before a session is provisioned for a
/// generic-webhook adapter: the adapter id and actor must not be blank, the
/// adapter must take generic-webhook events and allow session runs, a
/// workspace must be given or defaulted, and the binding must pass the
/// adapter's policy. `Err` holds the message of the refusal.
pub open spec fn provision_spec(
    adapters: Seq<(String, ExternalAdapterEntry)>,
    adapter_id: Seq<char>,
    actor_id: Seq<char>,
    workspace_id: Option<Seq<char>>,
    route_policy_id: Option<Seq<char>>,
) -> Result<(Seq<char>, Seq<char>), Seq<char>> {
    let id = trim(adapter_id);
    if id.len() == 0 {
        Err("adapter_id is required"@)
    } else if trim(actor_id).len() == 0 {
        Err("actor_id is required"@)
    } else {
        match adapter_lookup_spec(adapters, id, ExternalAdapterSource::GenericWebhook) {
            Err(m) => Err(m),
            Ok(i) => {
                let a = adapters[i].1;
                if a.allow_session_run != Some(true) {
                    Err("external adapter `"@ + id + "` is not allowed to run session turns"@)
                } else {
                    match provision_workspace_spec(workspace_id, opt_view(a.default_workspace)) {
                        None => Err(
                            "external adapter session provisioning requires workspace_id or adapter default_workspace"@,
                        ),
                        Some(w) => match binding_policy_error(
                            a,
                            preflight_binding(actor_id, w, route_policy_id),
                        ) {
                            Some(m) => Err(m),
                            None => Ok((id, w)),
                        },
                    }
                }
            },
        }
    }
}

/// Runs the checks before a session is provisioned for a generic-webhook
/// adapter, as `provision_spec` says.
pub fn plan_generic_webhook_provision(
    config: &ExternalAdapterConfig,
    adapter_id: &str,
    actor_id: &str,
    workspace_id: &Option<String>,
    route_policy_id: &Option<String>,
) -> (r: Result<ProvisionPlan, ApiError>)
    ensures
        match provision_spec(
            config.adapters@,
            adapter_id@,
            actor_id@,
            opt_view(*workspace_id),
            opt_view(*route_policy_id),
        ) {
            Ok((id, w)) => r matches Ok(p) && p.adapter_id@ == id && p.workspace_id@ == w,
            Err(m) => r matches Err(e) && e.is_bad_request(m),
        },
{
    proof {
        reveal_strlit("adapter_id");
        reveal_strlit("actor_id");
        reveal_strlit(" is required");
        reveal_strlit("adapter_id is required");
        reveal_strlit("actor_id is required");
        assert("adapter_id"@ + " is required"@ =~= "adapter_id is required"@);
        assert("actor_id"@ + " is required"@ =~= "actor_id is required"@);
        lemma_trim_idempotent(adapter_id@);
    }
    let id = trim_str(adapter_id);
    match require_non_blank("adapter_id", id.as_str()) {
        Err(e) => return Err(e),
        Ok(()) => {},
    }
    match require_non_blank("actor_id", actor_id) {
        Err(e) => return Err(e),
        Ok(()) => {},
    }
    let adapter = match configured_external_adapter_for_source(
        config,
        id.as_str(),
        ExternalAdapterSource::GenericWebhook,
    ) {
        Err(e) => return Err(e),
        Ok(a) => a,
    };
    match enforce_session_run_allowed(adapter, id.as_str()) {
        Err(e) => return Err(e),
        Ok(()) => {},
    }
    let workspace = match trimmed_nonempty_opt(workspace_id) {
        Some(w) => w,
        None => match trimmed_nonempty_opt(&adapter.default_workspace) {
            Some(w) => w,
            None => return Err(
                ApiError::BadRequest(
                    owned("external adapter session provisioning requires workspace_id or adapter default_workspace"),
                ),
            ),
        },
    };
    let preflight = normalized_binding(
        &ResolvedBinding {
            session_id: owned("__provision__"),
            actor_id: owned(actor_id),
            workspace_id: owned(workspace.as_str()),
            route_policy_id: match route_policy_id {
                Some(p) => Some(owned(p.as_str())),
                None => None,
            },
        },
    );
    match enforce_binding_policy(adapter, &preflight) {
        Err(e) => return Err(e),
        Ok(()) => {},
    }
    Ok(ProvisionPlan { adapter_id: id, workspace_id: workspace })
}

/// The binding stored on a session provisioned under `plan` for `actor_id`.
pub fn provisioned_binding(
    session_id: &str,
    plan: &ProvisionPlan,
    actor_id: &str,
    route_policy_id: &Option<String>,
) -> (r: ResolvedBinding)
    ensures
        r@ == normalized_spec(
            BindingModel {
                session_id: session_id@,
                actor_id: actor_id@,
                workspace_id: plan.workspace_id@,
                route_policy_id: opt_view(*route_policy_id),
            },
        ),
{
    normalized_binding(
        &ResolvedBinding {
            session_id: owned(session_id),
            actor_id: owned(actor_id),
            workspace_id: owned(plan.workspace_id.as_str()),
            route_policy_id: match route_policy_id {
                Some(p) => Some(owned(p.as_str())),
                None => None,
            },
        },
    )
}

/// A finding of the configuration check on an external adapter. Every such
/// finding is an error of the external-adapter owner, scoped to the adapter,
/// that closes the request gate.
pub struct AdapterValidationItem {
    pub subject_id: Option<String>,
    pub path: String,
    pub code: String,
    pub message: String,
}

/// The model of a finding.
pub struct ItemModel {
    pub subject_id: Option<Seq<char>>,
    pub path: Seq<char>,
    pub code: Seq<char>,
    pub message: Seq<char>,
}

impl View for AdapterValidationItem {
    type V = ItemModel;

    open spec fn view(&self) -> ItemModel {
        ItemModel {
            subject_id: opt_view(self.subject_id),
            path: self.path@,
            code: self.code@,
            message: self.message@,
        }
    }
}

/// A finding on the setting `field` of the adapter `adapter_id`: its subject
/// and path name the trimmed id when it is not blank, and its message names
/// the adapter by that id, or `<unknown>`, before `tail`.
pub open spec fn item_spec(adapter_id: Seq<char>, field: Seq<char>, code: Seq<char>, tail: Seq<char>) -> ItemModel {
    let id = trim(adapter_id);
    ItemModel {
        subject_id: if id.len() > 0 {
            Some(id)
        } else {
            None
        },
        path: if id.len() > 0 {
            "external_adapter.adapters."@ + id + "."@ + field
        } else {
            "external_adapter.adapters"@
        },
        code: code,
        message: "External adapter `"@ + (if id.len() > 0 {
            id
        } else {
            "<unknown>"@
        }) + tail,
    }
}

fn adapter_item(adapter_id: &str, field: &str, code: &str, tail: &str) -> (r: AdapterValidationItem)
    ensures
        r@ == item_spec(adapter_id@, field@, code@, tail@),
{
    let id = trim_str(adapter_id);
    let nonblank = id.as_str().unicode_len() > 0;
    let path = if nonblank {
        let p = cat3("external_adapter.adapters.", id.as_str(), ".");
        cat(p.as_str(), field)
    } else {
        owned("external_adapter.adapters")
    };
    let label = if nonblank {
        owned(id.as_str())
    } else {
        owned("<unknown>")
    };
    let message = cat3("External adapter `", label.as_str(), tail);
    AdapterValidationItem {
        subject_id: if nonblank {
            Some(id)
        } else {
            None
        },
        path,
        code: owned(code),
        message,
    }
}

/// The finding that a generic-webhook adapter declares no secret.
pub open spec fn missing_secret_ref_spec(adapter_id: Seq<char>, a: ExternalAdapterEntry) -> Option<ItemModel> {
    if !webhook_enabled_spec(a) || trimmed_opt(opt_view(a.secret_ref)) is Some {
        None
    } else {
        Some(
            item_spec(
                adapter_id,
                "secret_ref"@,
                "external_adapter_missing_secret_ref"@,
                "` is configured for generic-webhook but does not declare secret_ref."@,
            ),
        )
    }
}

/// Reports a generic-webhook adapter that declares no secret.
pub fn external_adapter_missing_secret_ref_item(adapter_id: &str, adapter: &ExternalAdapterEntry) -> (r:
    Option<AdapterValidationItem>)
    ensures
        match missing_secret_ref_spec(adapter_id@, *adapter) {
            Some(m) => r matches Some(x) && x@ == m,
            None => r is None,
        },
{
    if !generic_webhook_adapter_enabled(adapter) {
        return None;
    }
    if trimmed_nonempty_opt(&adapter.secret_ref).is_some() {
        return None;
    }
    Some(
        adapter_item(
            adapter_id,
            "secret_ref",
            "external_adapter_missing_secret_ref",
            "` is configured for generic-webhook but does not declare secret_ref.",
        ),
    )
}

/// The finding that a generic-webhook adapter that runs sessions declares no
/// default workspace.
pub open spec fn missing_default_workspace_spec(adapter_id: Seq<char>, a: ExternalAdapterEntry) -> Option<
    ItemModel,
> {
    if !webhook_enabled_spec(a) || a.allow_session_run != Some(true) || trimmed_opt(
        opt_view(a.default_workspace),
    ) is Some {
        None
    } else {
        Some(
            item_spec(
                adapter_id,
                "default_workspace"@,
                "external_adapter_missing_default_workspace"@,
                "` allows session runs but does not declare default_workspace for owner-local session provisioning."@,
            ),
        )
    }
}

/// Reports a generic-webhook adapter that runs sessions but declares no
/// default workspace.
pub fn external_adapter_missing_default_workspace_item(
    adapter_id: &str,
    adapter: &ExternalAdapterEntry,
) -> (r: Option<AdapterValidationItem>)
    ensures
        match missing_default_workspace_spec(adapter_id@, *adapter) {
            Some(m) => r matches Some(x) && x@ == m,
            None => r is None,
        },
{
    if !generic_webhook_adapter_enabled(adapter) || adapter.allow_session_run != Some(true) {
        return None;
    }
    if trimmed_nonempty_opt(&adapter.default_workspace).is_some() {
        return None;
    }
    Some(
        adapter_item(
            adapter_id,
            "default_workspace",
            "external_adapter_missing_default_workspace",
            "` allows session runs but does not declare default_workspace for owner-local session provisioning.",
        ),
    )
}

/// The findings on one adapter, the missing secret first.
pub open spec fn adapter_findings(id: Seq<char>, a: ExternalAdapterEntry) -> Seq<ItemModel> {
    (match missing_secret_ref_spec(id, a) {
        Some(m) => seq![m],
        None => Seq::empty(),
    }) + (match missing_default_workspace_spec(id, a) {
        Some(m) => seq![m],
        None => Seq::empty(),
    })
}

/// The ids of the configured adapters.
pub open spec fn adapter_ids(adapters: Seq<(String, ExternalAdapterEntry)>) -> Seq<Seq<char>> {
    adapters.map_values(|p: (String, ExternalAdapterEntry)| p.0@)
}

/// The findings on the adapters with the given ids, in order.
pub open spec fn findings_for(adapters: Seq<(String, ExternalAdapterEntry)>, ids: Seq<Seq<char>>) -> Seq<
    ItemModel,
>
    decreases ids.len(),
{
    if ids.len() == 0 {
        Seq::empty()
    } else {
        findings_for(adapters, ids.drop_last()) + match find_spec(adapters, ids.last()) {
            Some(i) => adapter_findings(ids.last(), adapters[i].1),
            None => Seq::empty(),
        }
    }
}

/// Checks the configuration of every external adapter, in ascending order of
/// their ids.
pub fn collect_external_adapter_config_validation(config: &Option<ExternalAdapterConfig>) -> (r: Vec<
    AdapterValidationItem,
>)
    ensures
        r@.map_values(|x: AdapterValidationItem| x@) == match *config {
            None => Seq::empty(),
            Some(c) => findings_for(c.adapters@, sort_texts(adapter_ids(c.adapters@))),
        },
{
    let c = match config {
        None => {
            let r: Vec<AdapterValidationItem> = Vec::new();
            assert(r@.map_values(|x: AdapterValidationItem| x@) =~= Seq::<ItemModel>::empty());
            return r;
        },
        Some(c) => c,
    };
    let mut ids: Vec<String> = Vec::new();
    let mut k: usize = 0;
    while k < c.adapters.len()
        invariant
            k <= c.adapters@.len(),
            ids.deep_view() =~= adapter_ids(c.adapters@).subrange(0, k as int),
        decreases c.adapters.len() - k,
    {
        let ghost before = ids.deep_view();
        let id = owned(c.adapters[k].0.as_str());
        ids.push(id);
        proof {
            assert(ids.deep_view() =~= before.push(id@));
        }
        k = k + 1;
    }
    proof {
        assert(adapter_ids(c.adapters@).subrange(0, c.adapters@.len() as int) =~= adapter_ids(c.adapters@));
    }
    let sorted = sort_strings(&ids);
    let ghost sv = sorted.deep_view();
    let mut reports: Vec<AdapterValidationItem> = Vec::new();
    let mut i: usize = 0;
    proof {
        assert(sv.subrange(0, 0) =~= Seq::<Seq<char>>::empty());
        assert(reports@.map_values(|x: AdapterValidationItem| x@) =~= Seq::<ItemModel>::empty());
    }
    while i < sorted.len()
        invariant
            i <= sorted@.len(),
            sv == sorted.deep_view(),
            reports@.map_values(|x: AdapterValidationItem| x@) == findings_for(
                c.adapters@,
                sv.subrange(0, i as int),
            ),
        decreases sorted.len() - i,
    {
        proof {
            assert(sv.subrange(0, i + 1).drop_last() =~= sv.subrange(0, i as int));
            assert(sv[i as int] == sorted@[i as int]@);
        }
        let ghost before = reports@.map_values(|x: AdapterValidationItem| x@);
        match find_adapter(c, sorted[i].as_str()) {
            None => {},
            Some(adapter) => {
                match external_adapter_missing_secret_ref_item(sorted[i].as_str(), adapter) {
                    Some(item) => reports.push(item),
                    None => {},
                }
                match external_adapter_missing_default_workspace_item(sorted[i].as_str(), adapter) {
                    Some(item) => reports.push(item),
                    None => {},
                }
            },
        }
        proof {
            assert(reports@.map_values(|x: AdapterValidationItem| x@) =~= findings_for(
                c.adapters@,
                sv.subrange(0, i + 1),
            ));
        }
        i = i + 1;
    }
    proof {
        assert(sv.subrange(0, sv.len() as int) =~= sv);
    }
    reports
}

/// Refuses an event whose source is not the generic webhook.
pub fn check_generic_webhook_source(source: ExternalAdapterSource) -> (r: Result<(), ApiError>)
    ensures
        r is Ok <==> source == ExternalAdapterSource::GenericWebhook,
        r matches Err(e) ==> e.is_bad_request(
            "generic webhook endpoint requires event.source `generic-webhook`"@,
        ),
{
    if source != ExternalAdapterSource::GenericWebhook {
        Err(ApiError::BadRequest(owned("generic webhook endpoint requires event.source `generic-webhook`")))
    } else {
        Ok(())
    }
}

/// What a webhook delivery's replay guard is reported as.
pub struct ReplayGuardInspection {
    pub present: bool,
    pub verified: bool,
    pub nonce: String,
    pub timestamp_ms: i64,
    pub status: String,
}

/// Which components own a webhook's configuration, secret and replay state.
pub struct AuthorityInspection {
    pub config_owner: String,
    pub secret_owner: String,
    pub replay_store: String,
}

/// What is answered about a webhook delivery (besides its source and the
/// ingress turn it maps to).
pub struct GenericWebhookInspection {
    pub adapter: String,
    pub dry_run: bool,
    pub would_enqueue: bool,
    pub binding: ResolvedBinding,
    pub replay_guard: ReplayGuardInspection,
    pub authority: AuthorityInspection,
    pub warnings: Vec<String>,
}

/// The replay store named when a delivery is parsed.
pub open spec fn parse_replay_store(available: bool) -> Seq<char> {
    if available {
        "agendao-storage.external_adapter_replay"@
    } else {
        "unavailable: storage repository not configured"@
    }
}

/// Reports a webhook delivery without verifying it, once its event and
/// binding were validated: refused when its replay guard lacks material;
/// otherwise a dry run that would not enqueue, with the trimmed adapter id,
/// the normalized binding, the trimmed nonce marked unverified, and the
/// warnings that nothing was verified, enqueued or recorded.
pub fn generic_webhook_parse_inspection(
    adapter_id: &str,
    binding: &ResolvedBinding,
    guard: &GenericWebhookReplayGuardRef,
    replay_store_available: bool,
) -> (r: Result<GenericWebhookInspection, ApiError>)
    ensures
        r is Ok <==> (guard.timestamp_ms > 0 && trim(guard.nonce@).len() > 0 && trim(
            guard.signature@,
        ).len() > 0),
        guard.timestamp_ms <= 0 ==> (r matches Err(e) && e.is_bad_request(
            "replay_guard.timestamp_ms must be positive"@,
        )),
        r matches Ok(x) ==> {
            &&& x.adapter@ == trim(adapter_id@)
            &&& x.dry_run && !x.would_enqueue
            &&& x.binding@ == normalized_spec(binding@)
            &&& x.replay_guard.present && !x.replay_guard.verified
            &&& x.replay_guard.nonce@ == trim(guard.nonce@)
            &&& x.replay_guard.timestamp_ms == guard.timestamp_ms
            &&& x.replay_guard.status@ == "parse_only_not_verified"@
            &&& x.authority.config_owner@ == "agendao-config.external_adapter"@
            &&& x.authority.secret_owner@ == "AuthManager via external_adapter.adapters[*].secret_ref"@
            &&& x.authority.replay_store@ == parse_replay_store(replay_store_available)
            &&& x.warnings.deep_view() == seq![
                "generic webhook parse-only skeleton did not verify the signature"@,
                "generic webhook parse-only skeleton did not enqueue a session turn"@,
                "generic webhook parse-only skeleton did not record replay state"@,
            ]
        },
{
    match guard.validate() {
        Err(e) => return Err(e),
        Ok(()) => {},
    }
    let mut warnings: Vec<String> = Vec::new();
    warnings.push(owned("generic webhook parse-only skeleton did not verify the signature"));
    warnings.push(owned("generic webhook parse-only skeleton did not enqueue a session turn"));
    warnings.push(owned("generic webhook parse-only skeleton did not record replay state"));
    let store = if replay_store_available {
        owned("agendao-storage.external_adapter_replay")
    } else {
        owned("unavailable: storage repository not configured")
    };
    let x = GenericWebhookInspection {
        adapter: trim_str(adapter_id),
        dry_run: true,
        would_enqueue: false,
        binding: normalized_binding(binding),
        replay_guard: ReplayGuardInspection {
            present: true,
            verified: false,
            nonce: trim_str(guard.nonce.as_str()),
            timestamp_ms: guard.timestamp_ms,
            status: owned("parse_only_not_verified"),
        },
        authority: AuthorityInspection {
            config_owner: owned("agendao-config.external_adapter"),
            secret_owner: owned("AuthManager via external_adapter.adapters[*].secret_ref"),
            replay_store: store,
        },
        warnings,
    };
    assert(x.warnings.deep_view() =~= seq![
        "generic webhook parse-only skeleton did not verify the signature"@,
        "generic webhook parse-only skeleton did not enqueue a session turn"@,
        "generic webhook parse-only skeleton did not record replay state"@,
    ]);
    Ok(x)
}

/// Marks a delivery verified once its signature checked out and its replay
/// state was recorded.
pub fn mark_generic_webhook_verified(x: &mut GenericWebhookInspection)
    ensures
        final(x).replay_guard.verified,
        final(x).replay_guard.status@ == "verified_recorded"@,
        final(x).authority.replay_store@ == "agendao-storage.external_adapter_replay:recorded"@,
        final(x).warnings.deep_view() == seq![
            "generic webhook verified and recorded replay state"@,
            "generic webhook verify gate did not enqueue a session turn"@,
        ],
        final(x).adapter@ == old(x).adapter@,
        final(x).dry_run == old(x).dry_run,
        final(x).would_enqueue == old(x).would_enqueue,
        final(x).binding@ == old(x).binding@,
        final(x).replay_guard.present == old(x).replay_guard.present,
        final(x).replay_guard.nonce@ == old(x).replay_guard.nonce@,
        final(x).replay_guard.timestamp_ms == old(x).replay_guard.timestamp_ms,
        final(x).authority.config_owner@ == old(x).authority.config_owner@,
        final(x).authority.secret_owner@ == old(x).authority.secret_owner@,
{
    x.replay_guard.verified = true;
    x.replay_guard.status = owned("verified_recorded");
    x.authority.replay_store = owned("agendao-storage.external_adapter_replay:recorded");
    let mut w: Vec<String> = Vec::new();
    w.push(owned("generic webhook verified and recorded replay state"));
    w.push(owned("generic webhook verify gate did not enqueue a session turn"));
    x.warnings = w;
    assert(x.warnings.deep_view() =~= seq![
        "generic webhook verified and recorded replay state"@,
        "generic webhook verify gate did not enqueue a session turn"@,
    ]);
}

/// Marks a verified delivery as one that runs a session turn.
pub fn mark_generic_webhook_session_run(x: &mut GenericWebhookInspection)
    ensures
        !final(x).dry_run,
        final(x).would_enqueue,
        final(x).warnings.deep_view() == seq![
            "generic webhook verified and recorded replay state"@,
            "generic webhook run gate called the shared session runtime entrypoint"@,
        ],
        final(x).adapter@ == old(x).adapter@,
        final(x).binding@ == old(x).binding@,
        final(x).replay_guard.present == old(x).replay_guard.present,
        final(x).replay_guard.verified == old(x).replay_guard.verified,
        final(x).replay_guard.nonce@ == old(x).replay_guard.nonce@,
        final(x).replay_guard.timestamp_ms == old(x).replay_guard.timestamp_ms,
        final(x).replay_guard.status@ == old(x).replay_guard.status@,
        final(x).authority.config_owner@ == old(x).authority.config_owner@,
        final(x).authority.secret_owner@ == old(x).authority.secret_owner@,
        final(x).authority.replay_store@ == old(x).authority.replay_store@,
{
    x.dry_run = false;
    x.would_enqueue = true;
    let mut w: Vec<String> = Vec::new();
    w.push(owned("generic webhook verified and recorded replay state"));
    w.push(owned("generic webhook run gate called the shared session runtime entrypoint"));
    x.warnings = w;
    assert(x.warnings.deep_view() =~= seq![
        "generic webhook verified and recorded replay state"@,
        "generic webhook run gate called the shared session runtime entrypoint"@,
    ]);
}

/// The checks before a delivery's signature is verified, once its binding
/// was validated: a replay store must be available, the adapter must take
/// the event, the binding must pass its policy, and it must name a secret.
/// The trimmed secret reference to look up.
pub fn check_generic_webhook_verify_preconditions(
    replay_store_available: bool,
    config: &ExternalAdapterConfig,
    adapter_id: &str,
    source: ExternalAdapterSource,
    binding: &ResolvedBinding,
) -> (r: Result<String, ApiError>)
    ensures
        !replay_store_available ==> (r matches Err(e) && e.is_bad_request(
            "external adapter replay store is required before accepting webhook events"@,
        )),
        replay_store_available ==> match adapter_lookup_spec(config.adapters@, trim(adapter_id@), source) {
            Err(m) => r matches Err(e) && e.is_bad_request(m),
            Ok(i) => match binding_policy_error(config.adapters@[i].1, binding@) {
                Some(m) => r matches Err(e) && e.is_bad_request(m),
                None => match trimmed_opt(opt_view(config.adapters@[i].1.secret_ref)) {
                    None => r matches Err(e) && e.is_bad_request(
                        "external adapter `"@ + trim(adapter_id@) + "` requires secret_ref"@,
                    ),
                    Some(s) => r matches Ok(x) && x@ == s,
                },
            },
        },
{
    if !replay_store_available {
        return Err(
            ApiError::BadRequest(owned("external adapter replay store is required before accepting webhook events")),
        );
    }
    let id = trim_str(adapter_id);
    let adapter = match configured_external_adapter_for_source(config, id.as_str(), source) {
        Err(e) => return Err(e),
        Ok(a) => a,
    };
    match enforce_binding_policy(adapter, binding) {
        Err(e) => return Err(e),
        Ok(()) => {},
    }
    match trimmed_nonempty_opt(&adapter.secret_ref) {
        None => Err(ApiError::BadRequest(cat3("external adapter `", id.as_str(), "` requires secret_ref"))),
        Some(s) => Ok(s),
    }
}

/// The refusal when an adapter's secret is not stored.
pub fn missing_secret_error(secret_ref: &str) -> (r: ApiError)
    ensures
        r.is_bad_request("external adapter secret `"@ + secret_ref@ + "` is not available in AuthManager"@),
{
    ApiError::BadRequest(cat3("external adapter secret `", secret_ref, "` is not available in AuthManager"))
}

/// The refusal of a delivery whose event or nonce was already recorded.
pub fn duplicate_replay_error() -> (r: ApiError)
    ensures
        r.is_bad_request("duplicate external adapter event or replay nonce"@),
{
    ApiError::BadRequest(owned("duplicate external adapter event or replay nonce"))
}

/// What the ingress turn of a delivery carries that its replay record keeps.
pub struct IngressReplayFields {
    pub external_event_id: Option<String>,
    pub idempotency_key: Option<String>,
    pub external_user_id: Option<String>,
    pub external_conversation_id: Option<String>,
    pub received_at_ms: i64,
}

/// The replay state recorded for a verified delivery.
pub struct ReplayRecord {
    pub adapter_id: String,
    pub source: String,
    pub external_event_id: String,
    pub idempotency_key: String,
    pub external_user_id: String,
    pub external_conversation_id: String,
    pub session_id: String,
    pub actor_id: String,
    pub workspace_id: String,
    pub nonce: String,
    pub signature_hash: String,
    pub received_at_ms: i64,
    pub recorded_at_ms: i64,
    pub status: String,
}

fn text_or_empty(o: &Option<String>) -> (r: String)
    ensures
        r@ == match opt_view(*o) {
            Some(s) => s,
            None => Seq::empty(),
        },
{
    match o {
        Some(s) => owned(s.as_str()),
        None => String::new(),
    }
}

/// The replay record of a verified delivery, recorded at `now_ms`: the
/// reported adapter, binding and nonce, the ingress ids (empty when missing),
/// the signature's fingerprint, and the status `verified`.
pub fn replay_record_from_inspection(
    x: &GenericWebhookInspection,
    ingress: &IngressReplayFields,
    signature: &str,
    now_ms: i64,
) -> (r: ReplayRecord)
    ensures
        r.adapter_id@ == x.adapter@,
        r.source@ == generic_source(),
        r.external_event_id@ == match opt_view(ingress.external_event_id) {
            Some(s) => s,
            None => Seq::empty(),
        },
        r.idempotency_key@ == match opt_view(ingress.idempotency_key) {
            Some(s) => s,
            None => Seq::empty(),
        },
        r.external_user_id@ == match opt_view(ingress.external_user_id) {
            Some(s) => s,
            None => Seq::empty(),
        },
        r.external_conversation_id@ == match opt_view(ingress.external_conversation_id) {
            Some(s) => s,
            None => Seq::empty(),
        },
        r.session_id@ == x.binding.session_id@,
        r.actor_id@ == x.binding.actor_id@,
        r.workspace_id@ == x.binding.workspace_id@,
        r.nonce@ == x.replay_guard.nonce@,
        r.signature_hash@ == "sha256:"@ + hex_lower(sha256_spec(encode_utf8(trim(signature@)))),
        r.received_at_ms == ingress.received_at_ms,
        r.recorded_at_ms == now_ms,
        r.status@ == "verified"@,
{
    ReplayRecord {
        adapter_id: owned(x.adapter.as_str()),
        source: owned("generic-webhook"),
        external_event_id: text_or_empty(&ingress.external_event_id),
        idempotency_key: text_or_empty(&ingress.idempotency_key),
        external_user_id: text_or_empty(&ingress.external_user_id),
        external_conversation_id: text_or_empty(&ingress.external_conversation_id),
        session_id: owned(x.binding.session_id.as_str()),
        actor_id: owned(x.binding.actor_id.as_str()),
        workspace_id: owned(x.binding.workspace_id.as_str()),
        nonce: owned(x.replay_guard.nonce.as_str()),
        signature_hash: signature_hash(signature),
        received_at_ms: ingress.received_at_ms,
        recorded_at_ms: now_ms,
        status: owned("verified"),
    }
}

} // verus!

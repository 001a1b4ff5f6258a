//! Provider catalogue logic: model capability merging, wire protocols, the
//! known-provider search behind the connect dialog, and provider request rules.

use vstd::prelude::*;
use crate::text::opt_view;
use crate::api_error::ApiError;
use crate::command_args::clone_strings;
use crate::text::{seq_lt, str_lt, contains_run, contains_str, lower, lower_str, owned, str_eq, trim, trim_str};
use crate::text::{is_ws, trim_start, trim_end};

verus! {

/// Which input or output modalities a model supports, where known.
#[derive(Clone, Copy, Debug, PartialEq, Eq, Structural)]
pub struct ModelModalityInfo {
    pub text: Option<bool>,
    pub audio: Option<bool>,
    pub image: Option<bool>,
    pub video: Option<bool>,
    pub pdf: Option<bool>,
}

/// What a model supports, where known.
#[derive(Clone, Copy, Debug, PartialEq, Eq, Structural)]
pub struct ModelCapabilityInfo {
    pub attachment: Option<bool>,
    pub tool_call: Option<bool>,
    pub reasoning: Option<bool>,
    pub temperature: Option<bool>,
    pub input: ModelModalityInfo,
    pub output: ModelModalityInfo,
}

/// No modality known.
pub open spec fn no_modalities() -> ModelModalityInfo {
    ModelModalityInfo { text: None, audio: None, image: None, video: None, pdf: None }
}

/// No capability known.
pub open spec fn no_capabilities() -> ModelCapabilityInfo {
    ModelCapabilityInfo {
        attachment: None,
        tool_call: None,
        reasoning: None,
        temperature: None,
        input: no_modalities(),
        output: no_modalities(),
    }
}

impl Default for ModelModalityInfo {
    fn default() -> (r: Self)
        ensures
            r == no_modalities(),
    {
        ModelModalityInfo { text: None, audio: None, image: None, video: None, pdf: None }
    }
}

impl Default for ModelCapabilityInfo {
    fn default() -> (r: Self)
        ensures
            r == no_capabilities(),
    {
        ModelCapabilityInfo {
            attachment: None,
            tool_call: None,
            reasoning: None,
            temperature: None,
            input: ModelModalityInfo::default(),
            output: ModelModalityInfo::default(),
        }
    }
}

impl ModelModalityInfo {
    /// Whether no modality is known.
    pub fn is_empty(&self) -> (b: bool)
        ensures
            b == (*self == no_modalities()),
    {
        self.text.is_none() && self.audio.is_none() && self.image.is_none() && self.video.is_none()
            && self.pdf.is_none()
    }
}

impl ModelCapabilityInfo {
    /// Whether no capability is known.
    pub fn is_empty(&self) -> (b: bool)
        ensures
            b == (*self == no_capabilities()),
    {
        self.attachment.is_none() && self.tool_call.is_none() && self.reasoning.is_none()
            && self.temperature.is_none() && self.input.is_empty() && self.output.is_empty()
    }
}

/// Whether `values` holds `needle`.
pub fn modality_contains(values: &[String], needle: &str) -> (b: bool)
    ensures
        b == exists|i: int| 0 <= i < values@.len() && #[trigger] values@[i]@ == needle@,
{
    let mut i: usize = 0;
    while i < values.len()
        invariant
            i <= values@.len(),
            forall|j: int| 0 <= j < i ==> values@[j]@ != needle@,
        decreases values@.len() - i,
    {
        if str_eq(values[i].as_str(), needle) {
            return true;
        }
        i = i + 1;
    }
    false
}

/// Whether the list holds the text `needle`.
pub open spec fn lists(values: Seq<String>, needle: Seq<char>) -> bool {
    exists|i: int| 0 <= i < values.len() && #[trigger] values[i]@ == needle
}

/// The modalities named by a list of modality names. Without a list only text
/// is known, and only when `fallback_text` holds; with a list every modality is
/// known, text also when `fallback_text` holds.
pub open spec fn modalities_from(values: Option<Seq<String>>, fallback_text: bool) -> ModelModalityInfo {
    match values {
        None => ModelModalityInfo {
            text: if fallback_text {
                Some(true)
            } else {
                None
            },
            ..no_modalities()
        },
        Some(v) => ModelModalityInfo {
            text: Some(fallback_text || lists(v, "text"@)),
            audio: Some(lists(v, "audio"@)),
            image: Some(lists(v, "image"@)),
            video: Some(lists(v, "video"@)),
            pdf: Some(lists(v, "pdf"@)),
        },
    }
}

/// The modalities named by a list of modality names.
pub fn modality_info_from_values(values: Option<&[String]>, fallback_text: bool) -> (r:
    ModelModalityInfo)
    ensures
        r == modalities_from(
            match values {
                Some(v) => Some(v@),
                None => None,
            },
            fallback_text,
        ),
{
    match values {
        None => ModelModalityInfo {
            text: if fallback_text {
                Some(true)
            } else {
                None
            },
            audio: None,
            image: None,
            video: None,
            pdf: None,
        },
        Some(v) => ModelModalityInfo {
            text: Some(fallback_text || modality_contains(v, "text")),
            audio: Some(modality_contains(v, "audio")),
            image: Some(modality_contains(v, "image")),
            video: Some(modality_contains(v, "video")),
            pdf: Some(modality_contains(v, "pdf")),
        },
    }
}

/// What the model catalogue says of a model.
pub struct CatalogModelCapabilities {
    pub attachment: bool,
    pub tool_call: bool,
    pub reasoning: bool,
    pub temperature: bool,
    /// The modality lists, where the catalogue gives them.
    pub modalities: Option<(Vec<String>, Vec<String>)>,
}

/// What the provider configuration says of a model.
pub struct ConfiguredModelCapabilities {
    pub attachment: Option<bool>,
    pub tool_call: Option<bool>,
    pub reasoning: Option<bool>,
    pub temperature: Option<bool>,
    pub input_modalities: Option<Vec<String>>,
    pub output_modalities: Option<Vec<String>>,
}

/// `c`, or nothing when no capability of it is known.
pub open spec fn unless_empty(c: ModelCapabilityInfo) -> Option<ModelCapabilityInfo> {
    if c == no_capabilities() {
        None
    } else {
        Some(c)
    }
}

/// The capabilities that the catalogue states of a model.
pub open spec fn catalog_caps_spec(model: CatalogModelCapabilities) -> Option<ModelCapabilityInfo> {
    unless_empty(
        ModelCapabilityInfo {
            attachment: Some(model.attachment),
            tool_call: Some(model.tool_call),
            reasoning: Some(model.reasoning),
            temperature: Some(model.temperature),
            input: modalities_from(
                match model.modalities {
                    Some(m) => Some(m.0@),
                    None => None,
                },
                true,
            ),
            output: modalities_from(
                match model.modalities {
                    Some(m) => Some(m.1@),
                    None => None,
                },
                true,
            ),
        },
    )
}

/// The capabilities that the catalogue states; text is assumed in both
/// directions.
pub fn capability_info_from_catalog(model: &CatalogModelCapabilities) -> (r: Option<
    ModelCapabilityInfo,
>)
    ensures
        r == catalog_caps_spec(*model),
{
    let (input, output) = match &model.modalities {
        Some(m) => (
            modality_info_from_values(Some(m.0.as_slice()), true),
            modality_info_from_values(Some(m.1.as_slice()), true),
        ),
        None => (modality_info_from_values(None, true), modality_info_from_values(None, true)),
    };
    let capability = ModelCapabilityInfo {
        attachment: Some(model.attachment),
        tool_call: Some(model.tool_call),
        reasoning: Some(model.reasoning),
        temperature: Some(model.temperature),
        input,
        output,
    };
    if capability.is_empty() {
        None
    } else {
        Some(capability)
    }
}

/// The capabilities of a model that a connected provider serves.
pub open spec fn runtime_caps_spec(supports_tools: bool, supports_vision: bool) -> Option<ModelCapabilityInfo> {
    unless_empty(
        ModelCapabilityInfo {
            tool_call: Some(supports_tools),
            input: ModelModalityInfo {
                text: Some(true),
                image: Some(supports_vision),
                ..no_modalities()
            },
            output: ModelModalityInfo { text: Some(true), ..no_modalities() },
            ..no_capabilities()
        },
    )
}

/// The capabilities of a model that a connected provider serves: tool calls and
/// image input as the provider reports them, text in both directions.
pub fn capability_info_from_runtime(supports_tools: bool, supports_vision: bool) -> (r: Option<
    ModelCapabilityInfo,
>)
    ensures
        r == runtime_caps_spec(supports_tools, supports_vision),
{
    let capability = ModelCapabilityInfo {
        attachment: None,
        tool_call: Some(supports_tools),
        reasoning: None,
        temperature: None,
        input: ModelModalityInfo {
            text: Some(true),
            audio: None,
            image: Some(supports_vision),
            video: None,
            pdf: None,
        },
        output: ModelModalityInfo { text: Some(true), audio: None, image: None, video: None, pdf: None },
    };
    if capability.is_empty() {
        None
    } else {
        Some(capability)
    }
}

fn opt_slice(v: &Option<Vec<String>>) -> (r: Option<&[String]>)
    ensures
        match r {
            Some(s) => v is Some && s@ == v->0@,
            None => v is None,
        },
{
    match v {
        Some(x) => Some(x.as_slice()),
        None => None,
    }
}

/// The capabilities that the configuration states of a model.
pub open spec fn config_caps_spec(model: ConfiguredModelCapabilities) -> Option<ModelCapabilityInfo> {
    unless_empty(
        ModelCapabilityInfo {
            attachment: model.attachment,
            tool_call: model.tool_call,
            reasoning: model.reasoning,
            temperature: model.temperature,
            input: modalities_from(
                match model.input_modalities {
                    Some(m) => Some(m@),
                    None => None,
                },
                false,
            ),
            output: modalities_from(
                match model.output_modalities {
                    Some(m) => Some(m@),
                    None => None,
                },
                false,
            ),
        },
    )
}

/// The capabilities that the configuration states, with no modality assumed.
pub fn capability_info_from_config(model: &ConfiguredModelCapabilities) -> (r: Option<
    ModelCapabilityInfo,
>)
    ensures
        r == config_caps_spec(*model),
{
    let input = modality_info_from_values(opt_slice(&model.input_modalities), false);
    let output = modality_info_from_values(opt_slice(&model.output_modalities), false);
    let capability = ModelCapabilityInfo {
        attachment: model.attachment,
        tool_call: model.tool_call,
        reasoning: model.reasoning,
        temperature: model.temperature,
        input,
        output,
    };
    if capability.is_empty() {
        None
    } else {
        Some(capability)
    }
}

/// `target`, or `incoming` where `target` is unknown.
pub open spec fn fill(target: Option<bool>, incoming: Option<bool>) -> Option<bool> {
    if target is None {
        incoming
    } else {
        target
    }
}

/// `incoming` where it is known, or else `target`.
pub open spec fn over(target: Option<bool>, incoming: Option<bool>) -> Option<bool> {
    if incoming is Some {
        incoming
    } else {
        target
    }
}

/// Sets `target` to `incoming` where `target` is unknown.
pub fn fill_missing_bool(target: &mut Option<bool>, incoming: Option<bool>)
    ensures
        *final(target) == fill(*old(target), incoming),
{
    if target.is_none() {
        *target = incoming;
    }
}

/// Sets `target` to `incoming` where `incoming` is known.
pub fn override_bool(target: &mut Option<bool>, incoming: Option<bool>)
    ensures
        *final(target) == over(*old(target), incoming),
{
    if incoming.is_some() {
        *target = incoming;
    }
}

/// Each modality of `e`, or of `i` where `e` does not know it.
pub open spec fn fill_modalities(e: ModelModalityInfo, i: ModelModalityInfo) -> ModelModalityInfo {
    ModelModalityInfo {
        text: fill(e.text, i.text),
        audio: fill(e.audio, i.audio),
        image: fill(e.image, i.image),
        video: fill(e.video, i.video),
        pdf: fill(e.pdf, i.pdf),
    }
}

/// Each modality of `i` where it is known, or else of `e`.
pub open spec fn override_modalities(e: ModelModalityInfo, i: ModelModalityInfo) -> ModelModalityInfo {
    ModelModalityInfo {
        text: over(e.text, i.text),
        audio: over(e.audio, i.audio),
        image: over(e.image, i.image),
        video: over(e.video, i.video),
        pdf: over(e.pdf, i.pdf),
    }
}

/// Each capability of `e`, or of `i` where `e` does not know it.
pub open spec fn fill_capabilities(e: ModelCapabilityInfo, i: ModelCapabilityInfo) -> ModelCapabilityInfo {
    ModelCapabilityInfo {
        attachment: fill(e.attachment, i.attachment),
        tool_call: fill(e.tool_call, i.tool_call),
        reasoning: fill(e.reasoning, i.reasoning),
        temperature: fill(e.temperature, i.temperature),
        input: fill_modalities(e.input, i.input),
        output: fill_modalities(e.output, i.output),
    }
}

/// Each capability of `i` where it is known, or else of `e`.
pub open spec fn override_capabilities(e: ModelCapabilityInfo, i: ModelCapabilityInfo) -> ModelCapabilityInfo {
    ModelCapabilityInfo {
        attachment: over(e.attachment, i.attachment),
        tool_call: over(e.tool_call, i.tool_call),
        reasoning: over(e.reasoning, i.reasoning),
        temperature: over(e.temperature, i.temperature),
        input: override_modalities(e.input, i.input),
        output: override_modalities(e.output, i.output),
    }
}

/// Fills the modalities that `existing` does not know from `incoming`.
pub fn merge_fill_missing_modalities(existing: &mut ModelModalityInfo, incoming: &ModelModalityInfo)
    ensures
        *final(existing) == fill_modalities(*old(existing), *incoming),
{
    fill_missing_bool(&mut existing.text, incoming.text);
    fill_missing_bool(&mut existing.audio, incoming.audio);
    fill_missing_bool(&mut existing.image, incoming.image);
    fill_missing_bool(&mut existing.video, incoming.video);
    fill_missing_bool(&mut existing.pdf, incoming.pdf);
}

/// Overrides the modalities of `existing` with those `incoming` knows.
pub fn merge_override_modalities(existing: &mut ModelModalityInfo, incoming: &ModelModalityInfo)
    ensures
        *final(existing) == override_modalities(*old(existing), *incoming),
{
    override_bool(&mut existing.text, incoming.text);
    override_bool(&mut existing.audio, incoming.audio);
    override_bool(&mut existing.image, incoming.image);
    override_bool(&mut existing.video, incoming.video);
    override_bool(&mut existing.pdf, incoming.pdf);
}

/// Fills the capabilities that `existing` does not know from `incoming`.
pub fn merge_fill_missing_capabilities(existing: &mut ModelCapabilityInfo, incoming: &ModelCapabilityInfo)
    ensures
        *final(existing) == fill_capabilities(*old(existing), *incoming),
{
    fill_missing_bool(&mut existing.attachment, incoming.attachment);
    fill_missing_bool(&mut existing.tool_call, incoming.tool_call);
    fill_missing_bool(&mut existing.reasoning, incoming.reasoning);
    fill_missing_bool(&mut existing.temperature, incoming.temperature);
    merge_fill_missing_modalities(&mut existing.input, &incoming.input);
    merge_fill_missing_modalities(&mut existing.output, &incoming.output);
}

/// Overrides the capabilities of `existing` with those `incoming` knows.
pub fn merge_override_capabilities(existing: &mut ModelCapabilityInfo, incoming: &ModelCapabilityInfo)
    ensures
        *final(existing) == override_capabilities(*old(existing), *incoming),
{
    override_bool(&mut existing.attachment, incoming.attachment);
    override_bool(&mut existing.tool_call, incoming.tool_call);
    override_bool(&mut existing.reasoning, incoming.reasoning);
    override_bool(&mut existing.temperature, incoming.temperature);
    merge_override_modalities(&mut existing.input, &incoming.input);
    merge_override_modalities(&mut existing.output, &incoming.output);
}

/// Filling in missing capabilities never changes one already known, and
/// filling in twice from the same source changes nothing more.
pub proof fn lemma_fill_keeps_known(e: ModelCapabilityInfo, i: ModelCapabilityInfo)
    ensures
        e.attachment is Some ==> fill_capabilities(e, i).attachment == e.attachment,
        e.tool_call is Some ==> fill_capabilities(e, i).tool_call == e.tool_call,
        e.reasoning is Some ==> fill_capabilities(e, i).reasoning == e.reasoning,
        e.temperature is Some ==> fill_capabilities(e, i).temperature == e.temperature,
        fill_capabilities(fill_capabilities(e, i), i) == fill_capabilities(e, i),
        fill_capabilities(e, no_capabilities()) == e,
{
}

/// Overriding takes every capability the source knows, overriding twice from
/// the same source is the same as once, and overriding with nothing known
/// changes nothing.
pub proof fn lemma_override_takes_known(e: ModelCapabilityInfo, i: ModelCapabilityInfo)
    ensures
        i.attachment is Some ==> override_capabilities(e, i).attachment == i.attachment,
        i.tool_call is Some ==> override_capabilities(e, i).tool_call == i.tool_call,
        i.reasoning is Some ==> override_capabilities(e, i).reasoning == i.reasoning,
        i.temperature is Some ==> override_capabilities(e, i).temperature == i.temperature,
        override_capabilities(override_capabilities(e, i), i) == override_capabilities(e, i),
        override_capabilities(e, no_capabilities()) == e,
{
}


/// The wire protocols that the connect dialog offers, by id and display name.
#[derive(Debug, Clone)]
pub struct ConnectProtocolOption {
    pub id: String,
    pub name: String,
}

/// The wire protocols that the connect dialog offers: OpenAI Responses, OpenAI
/// Chat Completions and Anthropic Messages, in that order.
pub fn connect_protocol_options() -> (r: Vec<ConnectProtocolOption>)
    ensures
        r@.len() == 3,
        r@[0].id@ == "openai-responses"@ && r@[0].name@ == "OpenAI Responses"@,
        r@[1].id@ == "openai-chat"@ && r@[1].name@ == "OpenAI Chat Completions"@,
        r@[2].id@ == "anthropic"@ && r@[2].name@ == "Anthropic Messages"@,
{
    let mut r = Vec::new();
    r.push(ConnectProtocolOption { id: owned("openai-responses"), name: owned("OpenAI Responses") });
    r.push(ConnectProtocolOption { id: owned("openai-chat"), name: owned("OpenAI Chat Completions") });
    r.push(ConnectProtocolOption { id: owned("anthropic"), name: owned("Anthropic Messages") });
    r
}

/// The provider profile that a wire protocol stands for.
#[derive(Clone, Copy, Debug)]
pub struct ConnectProtocolProfile {
    pub npm: &'static str,
    pub api_style: &'static str,
    pub api_shape: &'static str,
    pub transport: &'static str,
    pub usage_shape: &'static str,
}

/// The profile fields of a wire protocol, as text: npm package, API style,
/// API shape, transport and usage shape.
pub open spec fn protocol_profile_spec(protocol: Seq<char>) -> Option<
    (Seq<char>, Seq<char>, Seq<char>, Seq<char>, Seq<char>),
> {
    if protocol == "openai-responses"@ {
        Some(
            (
                "@ai-sdk/openai"@,
                "openai-compatible"@,
                "responses"@,
                "bearer"@,
                "openai-cached-tokens"@,
            ),
        )
    } else if protocol == "openai-chat"@ {
        Some(
            (
                "@ai-sdk/openai-compatible"@,
                "openai-compatible"@,
                "chat-completions"@,
                "bearer"@,
                "openai-cached-tokens"@,
            ),
        )
    } else if protocol == "anthropic"@ {
        Some(
            (
                "@ai-sdk/anthropic"@,
                "anthropic-compatible"@,
                "messages"@,
                "bearer"@,
                "anthropic-read-write"@,
            ),
        )
    } else {
        None
    }
}

/// The fields of a profile, as text.
pub open spec fn profile_fields(p: ConnectProtocolProfile) -> (Seq<char>, Seq<char>, Seq<char>, Seq<char>, Seq<char>) {
    (p.npm@, p.api_style@, p.api_shape@, p.transport@, p.usage_shape@)
}

/// The provider profile of one of the three supported wire protocols.
pub fn connect_protocol_profile(protocol: &str) -> (r: Option<ConnectProtocolProfile>)
    ensures
        match r {
            Some(p) => protocol_profile_spec(protocol@) == Some(profile_fields(p)),
            None => protocol_profile_spec(protocol@) is None,
        },
{
    if str_eq(protocol, "openai-responses") {
        Some(ConnectProtocolProfile {
            npm: "@ai-sdk/openai",
            api_style: "openai-compatible",
            api_shape: "responses",
            transport: "bearer",
            usage_shape: "openai-cached-tokens",
        })
    } else if str_eq(protocol, "openai-chat") {
        Some(ConnectProtocolProfile {
            npm: "@ai-sdk/openai-compatible",
            api_style: "openai-compatible",
            api_shape: "chat-completions",
            transport: "bearer",
            usage_shape: "openai-cached-tokens",
        })
    } else if str_eq(protocol, "anthropic") {
        Some(ConnectProtocolProfile {
            npm: "@ai-sdk/anthropic",
            api_style: "anthropic-compatible",
            api_shape: "messages",
            transport: "bearer",
            usage_shape: "anthropic-read-write",
        })
    } else {
        None
    }
}

/// The wire protocol of an SDK package name, compared trimmed and in ASCII
/// lower case; only the three supported SDK shapes map to a protocol.
pub open spec fn npm_protocol_spec(npm: Seq<char>) -> Option<Seq<char>> {
    let key = lower(trim(npm));
    if key == "@ai-sdk/openai"@ {
        Some("openai-responses"@)
    } else if key == "@ai-sdk/openai-compatible"@ {
        Some("openai-chat"@)
    } else if key == "@ai-sdk/anthropic"@ {
        Some("anthropic"@)
    } else {
        None
    }
}

/// The wire protocol of an SDK package name.
pub fn npm_to_protocol(npm: &str) -> (r: Option<&'static str>)
    ensures
        match r {
            Some(p) => npm_protocol_spec(npm@) == Some(p@),
            None => npm_protocol_spec(npm@) is None,
        },
{
    let t = trim_str(npm);
    let key = lower_str(t.as_str());
    if str_eq(key.as_str(), "@ai-sdk/openai") {
        Some("openai-responses")
    } else if str_eq(key.as_str(), "@ai-sdk/openai-compatible") {
        Some("openai-chat")
    } else if str_eq(key.as_str(), "@ai-sdk/anthropic") {
        Some("anthropic")
    } else {
        None
    }
}

/// A text with no white space at either end and no ASCII upper-case letter
/// reads the same trimmed and lower-cased.
proof fn lemma_plain_text_key(s: Seq<char>)
    requires
        s.len() > 0,
        !is_ws(s[0]),
        !is_ws(s.last()),
        forall|i: int| 0 <= i < s.len() ==> !('A' <= #[trigger] s[i] && s[i] <= 'Z'),
    ensures
        lower(trim(s)) == s,
{
    assert(trim_start(s) == s);
    assert(trim_end(s) == s);
    assert(lower(s) =~= s);
}

/// The SDK package of each supported wire protocol's profile maps back to
/// that protocol.
pub proof fn lemma_protocol_npm_round_trip(protocol: Seq<char>)
    ensures
        protocol_profile_spec(protocol) matches Some(f) ==> npm_protocol_spec(f.0) == Some(protocol),
{
    reveal_strlit("@ai-sdk/openai");
    reveal_strlit("@ai-sdk/openai-compatible");
    reveal_strlit("@ai-sdk/anthropic");
    let a = "@ai-sdk/openai"@;
    let b = "@ai-sdk/openai-compatible"@;
    let c = "@ai-sdk/anthropic"@;
    lemma_plain_text_key(a);
    lemma_plain_text_key(b);
    lemma_plain_text_key(c);
    assert(a.len() != b.len());
    assert(a != c) by {
        assert(a[8] != c[8]);
    }
    assert(b != c) by {
        assert(b.len() != c.len());
    }
}

/// The protocol of an SDK package name ignores white space at its ends and
/// ASCII case: names that agree once trimmed and lower-cased map alike.
pub proof fn lemma_npm_protocol_ignores_case_and_space(a: Seq<char>, b: Seq<char>)
    requires
        lower(trim(a)) == lower(trim(b)),
    ensures
        npm_protocol_spec(a) == npm_protocol_spec(b),
{
}

/// The wire protocol of a catalogue provider's SDK package.
pub fn catalog_wire_protocol(npm: &str) -> (r: Option<&'static str>)
    ensures
        match r {
            Some(p) => npm_protocol_spec(npm@) == Some(p@),
            None => npm_protocol_spec(npm@) is None,
        },
{
    npm_to_protocol(npm)
}

/// Whether `a` and `b` are equal ignoring ASCII case.
pub open spec fn eq_ignore_case(a: Seq<char>, b: Seq<char>) -> bool {
    lower(a) == lower(b)
}

/// Whether `a` and `b` are equal ignoring ASCII case.
pub fn str_eq_ignore_case(a: &str, b: &str) -> (r: bool)
    ensures
        r == eq_ignore_case(a@, b@),
{
    let la = lower_str(a);
    let lb = lower_str(b);
    str_eq(la.as_str(), lb.as_str())
}

/// The display name of a provider: `Anthropic` when the id or the name is
/// `anthropic` in any ASCII case, else the given name.
pub open spec fn display_name_spec(provider_id: Seq<char>, name: Seq<char>) -> Seq<char> {
    if eq_ignore_case(provider_id, "anthropic"@) || eq_ignore_case(name, "anthropic"@) {
        "Anthropic"@
    } else {
        name
    }
}

/// The display name of a provider.
pub fn provider_display_name(provider_id: &str, name: &str) -> (r: String)
    ensures
        r@ == display_name_spec(provider_id@, name@),
{
    if str_eq_ignore_case(provider_id, "anthropic") || str_eq_ignore_case(name, "anthropic") {
        owned("Anthropic")
    } else {
        owned(name)
    }
}

/// Whether `value`, trimmed and lowered, is not empty and contains `query_lower`.
pub open spec fn search_matches(value: Seq<char>, query_lower: Seq<char>) -> bool {
    let v = lower(trim(value));
    v.len() > 0 && contains_run(v, query_lower)
}

/// Whether `value` matches the lowered search text `query_lower`.
pub fn search_text_matches(value: &str, query_lower: &str) -> (r: bool)
    ensures
        r == search_matches(value@, query_lower@),
{
    let t = trim_str(value);
    let v = lower_str(t.as_str());
    v.as_str().unicode_len() > 0 && contains_str(v.as_str(), query_lower)
}

/// A provider that the model catalogue knows.
#[derive(Debug)]
pub struct KnownProviderEntry {
    pub id: String,
    pub name: String,
    pub env: Vec<String>,
    pub model_count: usize,
    pub connected: bool,
    pub base_url: Option<String>,
    pub protocol: Option<String>,
    pub npm: Option<String>,
    pub supports_api_key_connect: bool,
}

/// The content of a known-provider entry.
pub struct KnownProviderView {
    pub id: Seq<char>,
    pub name: Seq<char>,
    pub env: Seq<Seq<char>>,
    pub model_count: usize,
    pub connected: bool,
    pub base_url: Option<Seq<char>>,
    pub protocol: Option<Seq<char>>,
    pub npm: Option<Seq<char>>,
    pub supports_api_key_connect: bool,
}


/// A copy of an optional string.
pub fn clone_opt(o: &Option<String>) -> (r: Option<String>)
    ensures
        opt_view(r) == opt_view(*o),
{
    match o {
        Some(s) => Some(s.clone()),
        None => None,
    }
}

impl View for KnownProviderEntry {
    type V = KnownProviderView;

    open spec fn view(&self) -> KnownProviderView {
        KnownProviderView {
            id: self.id@,
            name: self.name@,
            env: self.env.deep_view(),
            model_count: self.model_count,
            connected: self.connected,
            base_url: opt_view(self.base_url),
            protocol: opt_view(self.protocol),
            npm: opt_view(self.npm),
            supports_api_key_connect: self.supports_api_key_connect,
        }
    }
}

impl KnownProviderEntry {
    /// A copy of the entry.
    pub fn duplicate(&self) -> (r: Self)
        ensures
            r@ == self@,
    {
        KnownProviderEntry {
            id: self.id.clone(),
            name: self.name.clone(),
            env: clone_strings(&self.env),
            model_count: self.model_count,
            connected: self.connected,
            base_url: clone_opt(&self.base_url),
            protocol: clone_opt(&self.protocol),
            npm: clone_opt(&self.npm),
            supports_api_key_connect: self.supports_api_key_connect,
        }
    }
}

/// How well a known provider matches a search: 0 for the id, 1 for the name,
/// 2 for a prefix of the id, 3 for a prefix of the name (all ignoring ASCII
/// case), 4 when the id contains the query, 5 when the name does, 6 when one
/// of its environment variables does; no score for a blank query or no match.
pub open spec fn match_score_spec(p: KnownProviderView, query: Seq<char>) -> Option<u8> {
    let q = trim(query);
    let ql = lower(q);
    if q.len() == 0 {
        None
    } else if lower(p.id) == ql {
        Some(0)
    } else if lower(p.name) == ql {
        Some(1)
    } else if crate::text::has_prefix(lower(p.id), ql) {
        Some(2)
    } else if crate::text::has_prefix(lower(p.name), ql) {
        Some(3)
    } else if search_matches(p.id, ql) {
        Some(4)
    } else if search_matches(p.name, ql) {
        Some(5)
    } else if exists|i: int| 0 <= i < p.env.len() && search_matches(#[trigger] p.env[i], ql) {
        Some(6)
    } else {
        None
    }
}

/// How well a known provider matches a search.
pub fn known_provider_match_score(provider: &KnownProviderEntry, query: &str) -> (r: Option<u8>)
    ensures
        r == match_score_spec(provider@, query@),
{
    let q = trim_str(query);
    if q.as_str().unicode_len() == 0 {
        return None;
    }
    let ql = lower_str(q.as_str());
    let id = lower_str(provider.id.as_str());
    let name = lower_str(provider.name.as_str());
    if str_eq(id.as_str(), ql.as_str()) {
        return Some(0);
    }
    if str_eq(name.as_str(), ql.as_str()) {
        return Some(1);
    }
    if crate::text::starts_with(id.as_str(), ql.as_str()) {
        return Some(2);
    }
    if crate::text::starts_with(name.as_str(), ql.as_str()) {
        return Some(3);
    }
    if search_text_matches(provider.id.as_str(), ql.as_str()) {
        return Some(4);
    }
    if search_text_matches(provider.name.as_str(), ql.as_str()) {
        return Some(5);
    }
    let ghost pv = provider@;
    let mut i: usize = 0;
    #[verifier::loop_isolation(false)]
    while i < provider.env.len()
        invariant
            i <= provider.env@.len(),
            pv == provider@,
            forall|j: int| 0 <= j < i ==> !search_matches(#[trigger] pv.env[j], ql@),
        decreases provider.env@.len() - i,
    {
        proof {
            assert(provider.env@[i as int]@ == pv.env[i as int]);
        }
        if search_text_matches(provider.env[i].as_str(), ql.as_str()) {
            return Some(6);
        }
        i = i + 1;
    }
    None
}


/// A scored match orders before another: lower score first, then by id.
pub open spec fn match_lt(a: (u8, KnownProviderView), b: (u8, KnownProviderView)) -> bool {
    a.0 < b.0 || (a.0 == b.0 && seq_lt(a.1.id, b.1.id))
}

/// `s` with `x` inserted after every element that does not order after it.
pub open spec fn insert_match(s: Seq<(u8, KnownProviderView)>, x: (u8, KnownProviderView)) -> Seq<
    (u8, KnownProviderView),
>
    decreases s.len(),
{
    if s.len() == 0 {
        seq![x]
    } else if match_lt(x, s.last()) {
        insert_match(s.drop_last(), x).push(s.last())
    } else {
        s.push(x)
    }
}

/// `s` in stable sorted order: by score, then by id, equal elements in their
/// order in `s`.
pub open spec fn sort_matches(s: Seq<(u8, KnownProviderView)>) -> Seq<(u8, KnownProviderView)>
    decreases s.len(),
{
    if s.len() == 0 {
        Seq::empty()
    } else {
        insert_match(sort_matches(s.drop_last()), s.last())
    }
}

/// The providers among the first `j` that match `query`, with their scores,
/// in catalogue order.
pub open spec fn scored_matches(ps: Seq<KnownProviderView>, query: Seq<char>, j: int) -> Seq<
    (u8, KnownProviderView),
>
    decreases j,
{
    if j <= 0 {
        Seq::empty()
    } else {
        let rest = scored_matches(ps, query, j - 1);
        match match_score_spec(ps[j - 1], query) {
            Some(score) => rest.push((score, ps[j - 1])),
            None => rest,
        }
    }
}

/// The known providers that match `query`, best match first: by score, then
/// by id, and providers with equal score and id in catalogue order.
pub open spec fn resolve_matches_spec(ps: Seq<KnownProviderView>, query: Seq<char>) -> Seq<
    KnownProviderView,
> {
    sort_matches(scored_matches(ps, query, ps.len() as int)).map_values(
        |m: (u8, KnownProviderView)| m.1,
    )
}

proof fn lemma_insert_at(s: Seq<(u8, KnownProviderView)>, x: (u8, KnownProviderView), pos: int)
    requires
        0 <= pos <= s.len(),
        forall|k: int| pos <= k < s.len() ==> match_lt(x, #[trigger] s[k]),
        pos == 0 || !match_lt(x, s[pos - 1]),
    ensures
        insert_match(s, x) == s.insert(pos, x),
    decreases s.len(),
{
    if s.len() == pos {
        if s.len() == 0 {
            assert(s.insert(pos, x) =~= seq![x]);
        } else {
            assert(s.insert(pos, x) =~= s.push(x));
        }
    } else {
        lemma_insert_at(s.drop_last(), x, pos);
        assert(s.drop_last().insert(pos, x).push(s.last()) =~= s.insert(pos, x));
    }
}

fn match_lt_exec(a: &(u8, KnownProviderEntry), b: &(u8, KnownProviderEntry)) -> (r: bool)
    ensures
        r == match_lt((a.0, a.1@), (b.0, b.1@)),
{
    a.0 < b.0 || (a.0 == b.0 && str_lt(a.1.id.as_str(), b.1.id.as_str()))
}

/// The content of a list of scored entries.
pub open spec fn scored_view(v: Seq<(u8, KnownProviderEntry)>) -> Seq<(u8, KnownProviderView)> {
    v.map_values(|e: (u8, KnownProviderEntry)| (e.0, e.1@))
}

/// The known providers that match `query`, best match first.
pub fn resolve_known_provider_matches(providers: &[KnownProviderEntry], query: &str) -> (r: Vec<
    KnownProviderEntry,
>)
    ensures
        r@.map_values(|e: KnownProviderEntry| e@) == resolve_matches_spec(
            providers@.map_values(|e: KnownProviderEntry| e@),
            query@,
        ),
{
    let ghost ps = providers@.map_values(|e: KnownProviderEntry| e@);
    let mut sorted: Vec<(u8, KnownProviderEntry)> = Vec::new();
    let mut j: usize = 0;
    proof {
        assert(scored_view(sorted@) =~= Seq::<(u8, KnownProviderView)>::empty());
    }
    while j < providers.len()
        invariant
            j <= providers@.len(),
            ps == providers@.map_values(|e: KnownProviderEntry| e@),
            scored_view(sorted@) == sort_matches(scored_matches(ps, query@, j as int)),
        decreases providers@.len() - j,
    {
        let ghost prev = scored_matches(ps, query@, j as int);
        proof {
            assert(ps[j as int] == providers@[j as int]@);
        }
        match known_provider_match_score(&providers[j], query) {
            Some(score) => {
                proof {
                    assert(scored_matches(ps, query@, j + 1) == prev.push((score, ps[j as int])));
                    assert(prev.push((score, ps[j as int])).drop_last() =~= prev);
                }
                let x = (score, providers[j].duplicate());
                let ghost xv = (score, providers@[j as int]@);
                let ghost sv = scored_view(sorted@);
                let mut pos = sorted.len();
                while pos > 0 && match_lt_exec(&x, &sorted[pos - 1])
                    invariant
                        pos <= sorted@.len(),
                        sv == scored_view(sorted@),
                        xv == (x.0, x.1@),
                        forall|k: int| pos <= k < sv.len() ==> match_lt(xv, #[trigger] sv[k]),
                    decreases pos,
                {
                    pos = pos - 1;
                }
                proof {
                    lemma_insert_at(sv, xv, pos as int);
                }
                sorted.insert(pos, x);
                proof {
                    assert(scored_view(sorted@) =~= sv.insert(pos as int, xv));
                    assert(ps[j as int] == providers@[j as int]@);
                }
            },
            None => {},
        }
        j = j + 1;
    }
    let mut r: Vec<KnownProviderEntry> = Vec::new();
    let ghost sv = scored_view(sorted@);
    let mut k: usize = 0;
    while k < sorted.len()
        invariant
            k <= sorted@.len(),
            sv == scored_view(sorted@),
            r@.map_values(|e: KnownProviderEntry| e@) == sv.subrange(0, k as int).map_values(
                |m: (u8, KnownProviderView)| m.1,
            ),
        decreases sorted@.len() - k,
    {
        let ghost before = r@.map_values(|e: KnownProviderEntry| e@);
        let d = sorted[k].1.duplicate();
        proof {
            assert(sorted@[k as int].1@ == sv[k as int].1);
        }
        r.push(d);
        proof {
            assert(r@.map_values(|e: KnownProviderEntry| e@) =~= before.push(sv[k as int].1));
            assert(r@.map_values(|e: KnownProviderEntry| e@) =~= sv.subrange(0, k + 1).map_values(
                |m: (u8, KnownProviderView)| m.1,
            ));
        }
        k = k + 1;
    }
    proof {
        assert(sv.subrange(0, sv.len() as int) =~= sv);
    }
    r
}


/// Whether a connect draft names a provider of the catalogue or a custom one.
#[derive(Debug, Clone, Copy, PartialEq, Eq, Structural)]
pub enum ProviderConnectDraftMode {
    Known,
    Custom,
}

/// The prefilled form of the connect dialog.
#[derive(Debug)]
pub struct ProviderConnectDraft {
    pub mode: ProviderConnectDraftMode,
    pub provider_id: String,
    pub known_provider_id: Option<String>,
    pub name: Option<String>,
    pub base_url: Option<String>,
    pub protocol: Option<String>,
    pub env: Vec<String>,
    pub connected: bool,
    pub model_count: usize,
    pub supports_api_key_connect: bool,
}

/// The draft for a provider of the catalogue: its id, name, endpoint,
/// protocol, environment variables and counts, carried over as they are.
pub open spec fn known_draft_spec(d: ProviderConnectDraft, p: KnownProviderView) -> bool {
    &&& d.mode == ProviderConnectDraftMode::Known
    &&& d.provider_id@ == p.id
    &&& opt_view(d.known_provider_id) == Some(p.id)
    &&& opt_view(d.name) == Some(p.name)
    &&& opt_view(d.base_url) == p.base_url
    &&& opt_view(d.protocol) == p.protocol
    &&& d.env.deep_view() == p.env
    &&& d.connected == p.connected
    &&& d.model_count == p.model_count
    &&& d.supports_api_key_connect == p.supports_api_key_connect
}

/// The draft for a provider the catalogue does not know: the trimmed query as
/// its id, OpenAI Chat Completions as its protocol, nothing else filled in.
pub open spec fn custom_draft_spec(d: ProviderConnectDraft, query: Seq<char>) -> bool {
    &&& d.mode == ProviderConnectDraftMode::Custom
    &&& d.provider_id@ == trim(query)
    &&& d.known_provider_id is None
    &&& d.name is None
    &&& d.base_url is None
    &&& opt_view(d.protocol) == Some("openai-chat"@)
    &&& d.env@.len() == 0
    &&& !d.connected
    &&& d.model_count == 0
    &&& d.supports_api_key_connect
}

/// The draft for a provider of the catalogue.
pub fn connect_draft_from_known_provider(provider: &KnownProviderEntry) -> (d: ProviderConnectDraft)
    ensures
        known_draft_spec(d, provider@),
{
    ProviderConnectDraft {
        mode: ProviderConnectDraftMode::Known,
        provider_id: provider.id.clone(),
        known_provider_id: Some(provider.id.clone()),
        name: Some(provider.name.clone()),
        base_url: clone_opt(&provider.base_url),
        protocol: clone_opt(&provider.protocol),
        env: clone_strings(&provider.env),
        connected: provider.connected,
        model_count: provider.model_count,
        supports_api_key_connect: provider.supports_api_key_connect,
    }
}

/// The draft for a provider that the catalogue does not know.
pub fn connect_draft_from_custom_query(query: &str) -> (d: ProviderConnectDraft)
    ensures
        custom_draft_spec(d, query@),
{
    ProviderConnectDraft {
        mode: ProviderConnectDraftMode::Custom,
        provider_id: trim_str(query),
        known_provider_id: None,
        name: None,
        base_url: None,
        protocol: Some(owned("openai-chat")),
        env: Vec::new(),
        connected: false,
        model_count: 0,
        supports_api_key_connect: true,
    }
}

/// The answer to a connect-dialog search.
#[derive(Debug)]
pub struct ResolveProviderConnectResponse {
    pub query: String,
    pub suggested_mode: ProviderConnectDraftMode,
    pub exact_match: bool,
    pub matches: Vec<KnownProviderEntry>,
    pub draft: ProviderConnectDraft,
    pub custom_draft: ProviderConnectDraft,
}

/// The answer to a connect-dialog search for `query` among the providers of
/// the catalogue: the ranked matches, a draft for the best match or, with no
/// match, for a custom provider, and whether the best match's id is the query
/// itself, ignoring ASCII case.
pub fn resolve_provider_connect(known: &[KnownProviderEntry], query: &str) -> (r:
    ResolveProviderConnectResponse)
    ensures
        r.query@ == trim(query@),
        r.matches@.map_values(|e: KnownProviderEntry| e@) == resolve_matches_spec(
            known@.map_values(|e: KnownProviderEntry| e@),
            trim(query@),
        ),
        r.exact_match == (r.matches@.len() > 0 && eq_ignore_case(r.matches@[0].id@, trim(query@))),
        r.matches@.len() > 0 ==> known_draft_spec(r.draft, r.matches@[0]@),
        r.matches@.len() == 0 ==> custom_draft_spec(r.draft, trim(query@)),
        r.suggested_mode == r.draft.mode,
        custom_draft_spec(r.custom_draft, trim(query@)),
{
    let q = trim_str(query);
    let matches = resolve_known_provider_matches(known, q.as_str());
    let (exact_match, draft) = if matches.len() > 0 {
        (
            str_eq_ignore_case(matches[0].id.as_str(), q.as_str()),
            connect_draft_from_known_provider(&matches[0]),
        )
    } else {
        (false, connect_draft_from_custom_query(q.as_str()))
    };
    proof {
        if matches@.len() > 0 {
            assert(matches@.map_values(|e: KnownProviderEntry| e@)[0] == matches@[0]@);
        }
        assert(trim(trim(query@)) == trim(query@)) by {
            crate::text::lemma_trim_idempotent(query@);
        }
    }
    let custom_draft = connect_draft_from_custom_query(q.as_str());
    ResolveProviderConnectResponse {
        query: q,
        suggested_mode: draft.mode,
        exact_match,
        matches,
        draft,
        custom_draft,
    }
}

/// Whether a provider id names the Anthropic-compatible protocol family: its
/// lowered id contains `anthropic`.
pub fn is_anthropic_protocol_family(provider_id: &str) -> (b: bool)
    ensures
        b == contains_run(lower(provider_id@), "anthropic"@),
{
    let p = lower_str(provider_id);
    contains_str(p.as_str(), "anthropic")
}

/// The reasoning variants offered for a catalogue model that declares none:
/// none when the model does not reason, `high`/`max` for the Anthropic family
/// and for Google models (by provider or a `gemini` model id), and
/// `low`/`medium`/`high` otherwise.
pub open spec fn synthetic_variants_spec(provider_id: Seq<char>, model_id: Seq<char>, reasoning: bool) -> Seq<
    Seq<char>,
> {
    let provider = lower(provider_id);
    let model = lower(model_id);
    if !reasoning {
        Seq::empty()
    } else if contains_run(provider, "anthropic"@) {
        seq!["high"@, "max"@]
    } else if contains_run(provider, "google"@) || contains_run(provider, "vertex"@) || contains_run(
        model,
        "gemini"@,
    ) {
        seq!["high"@, "max"@]
    } else {
        seq!["low"@, "medium"@, "high"@]
    }
}

/// The reasoning variants offered for a catalogue model that declares none.
pub fn synthetic_variant_names(provider_id: &str, model_id: &str, reasoning: bool) -> (r: Vec<String>)
    ensures
        r.deep_view() == synthetic_variants_spec(provider_id@, model_id@, reasoning),
{
    let mut r: Vec<String> = Vec::new();
    if !reasoning {
        proof {
            assert(r.deep_view() =~= Seq::<Seq<char>>::empty());
        }
        return r;
    }
    let provider = lower_str(provider_id);
    let model = lower_str(model_id);
    if contains_str(provider.as_str(), "anthropic") || contains_str(provider.as_str(), "google")
        || contains_str(provider.as_str(), "vertex") || contains_str(model.as_str(), "gemini") {
        r.push(owned("high"));
        r.push(owned("max"));
        proof {
            assert(r.deep_view() =~= seq!["high"@, "max"@]);
        }
    } else {
        r.push(owned("low"));
        r.push(owned("medium"));
        r.push(owned("high"));
        proof {
            assert(r.deep_view() =~= seq!["low"@, "medium"@, "high"@]);
        }
    }
    r
}

/// The state of a provider on the management page: `connected` when its
/// runtime is up, `needs-auth` when configured without credentials, `saved`
/// when it has credentials, and `configured` otherwise.
pub open spec fn managed_status_spec(connected: bool, configured: bool, has_auth: bool) -> Seq<char> {
    if connected {
        "connected"@
    } else if configured && !has_auth {
        "needs-auth"@
    } else if has_auth {
        "saved"@
    } else {
        "configured"@
    }
}

/// The state of a provider on the management page.
pub fn managed_provider_status(connected: bool, configured: bool, has_auth: bool) -> (r: &'static str)
    ensures
        r@ == managed_status_spec(connected, configured, has_auth),
{
    if connected {
        "connected"
    } else if configured && !has_auth {
        "needs-auth"
    } else if has_auth {
        "saved"
    } else {
        "configured"
    }
}

/// The kind of stored credentials of a provider.
#[derive(Debug, Clone, Copy, PartialEq, Eq, Structural)]
pub enum AuthKind {
    Api,
    OAuth,
    WellKnown,
}

/// The name of the kind of stored credentials, if any.
pub fn managed_provider_auth_type(auth: Option<AuthKind>) -> (r: Option<String>)
    ensures
        opt_view(r) == match auth {
            Some(AuthKind::Api) => Some("api"@),
            Some(AuthKind::OAuth) => Some("oauth"@),
            Some(AuthKind::WellKnown) => Some("wellknown"@),
            None => None::<Seq<char>>,
        },
{
    match auth {
        Some(AuthKind::Api) => Some(owned("api")),
        Some(AuthKind::OAuth) => Some(owned("oauth")),
        Some(AuthKind::WellKnown) => Some(owned("wellknown")),
        None => None,
    }
}

/// The trimmed value, or nothing when it is blank.
pub open spec fn non_blank(value: Seq<char>) -> Option<Seq<char>> {
    if trim(value).len() == 0 {
        None
    } else {
        Some(trim(value))
    }
}

/// The trimmed value, or nothing when it is blank.
pub fn normalized_subject_id(value: &str) -> (r: Option<String>)
    ensures
        opt_view(r) == non_blank(value@),
{
    let t = trim_str(value);
    if t.as_str().unicode_len() == 0 {
        None
    } else {
        Some(t)
    }
}

/// Why a provider profile could not be resolved.
#[derive(Debug, Clone)]
pub enum ProviderProfileError {
    UnsupportedValue { field: String },
    MissingField(String),
    InvalidConfig(String),
    InvalidCombination(String),
}

/// Why a provider descriptor could not be built.
#[derive(Debug, Clone)]
pub enum ProviderDescriptorError {
    MissingProviderId,
    InvalidProfile(ProviderProfileError),
}

/// The profile field that an error names, when it is one of the profile's own
/// fields.
pub open spec fn profile_error_field_spec(e: ProviderProfileError) -> Option<Seq<char>> {
    match e {
        ProviderProfileError::UnsupportedValue { field } | ProviderProfileError::MissingField(
            field,
        ) => {
            let f = field@;
            if f == "api_style"@ || f == "api_shape"@ || f == "transport"@ || f == "usage_shape"@
                || f == "quirks"@ {
                Some(f)
            } else {
                None
            }
        },
        _ => None,
    }
}

/// The profile field that an error names, when it is one of the profile's own
/// fields.
pub fn provider_profile_error_field(error: &ProviderProfileError) -> (r: Option<String>)
    ensures
        opt_view(r) == profile_error_field_spec(*error),
{
    match error {
        ProviderProfileError::UnsupportedValue { field } | ProviderProfileError::MissingField(field) => {
            let f = field.as_str();
            if str_eq(f, "api_style") || str_eq(f, "api_shape") || str_eq(f, "transport") || str_eq(
                f,
                "usage_shape",
            ) || str_eq(f, "quirks") {
                Some(owned(f))
            } else {
                None
            }
        },
        _ => None,
    }
}

/// The configuration path that a profile error points at: `provider`, or
/// `provider.<id>` for a non-blank id, followed by `.<field>` when the error
/// names a profile field.
pub open spec fn profile_validation_path_spec(provider_id: Seq<char>, e: ProviderDescriptorError) -> Seq<
    char,
> {
    let id = trim(provider_id);
    let root = if id.len() == 0 {
        "provider"@
    } else {
        "provider"@ + seq!['.'] + id
    };
    match e {
        ProviderDescriptorError::MissingProviderId => root,
        ProviderDescriptorError::InvalidProfile(pe) => match profile_error_field_spec(pe) {
            Some(f) => root + seq!['.'] + f,
            None => root,
        },
    }
}

/// The configuration path that a profile error points at.
pub fn provider_profile_validation_path(provider_id: &str, error: &ProviderDescriptorError) -> (r:
    String)
    ensures
        r@ == profile_validation_path_spec(provider_id@, *error),
{
    let id = trim_str(provider_id);
    let mut root = owned("provider");
    if id.as_str().unicode_len() > 0 {
        crate::text::push_char(&mut root, '.');
        root.append(id.as_str());
    }
    match error {
        ProviderDescriptorError::MissingProviderId => root,
        ProviderDescriptorError::InvalidProfile(pe) => match provider_profile_error_field(pe) {
            Some(f) => {
                crate::text::push_char(&mut root, '.');
                root.append(f.as_str());
                root
            },
            None => root,
        },
    }
}


/// The trimmed provider id of a request path, refused when blank.
pub fn require_provider_id(id: &str) -> (r: Result<String, ApiError>)
    ensures
        match r {
            Ok(p) => p@ == trim(id@) && trim(id@).len() > 0,
            Err(e) => trim(id@).len() == 0 && e.is_bad_request("provider id is required"@),
        },
{
    let t = trim_str(id);
    if t.as_str().unicode_len() == 0 {
        Err(ApiError::BadRequest(owned("provider id is required")))
    } else {
        Ok(t)
    }
}

/// The test that an entry is not `id`.
pub open spec fn other_than(id: Seq<char>) -> spec_fn(Seq<char>) -> bool {
    |x: Seq<char>| x != id
}

/// The disabled-provider list after disabling (`disabled`) or re-enabling a
/// provider: disabling adds the id unless it is listed, re-enabling removes
/// every entry equal to it.
pub open spec fn disabled_list_spec(list: Seq<Seq<char>>, id: Seq<char>, disabled: bool) -> Seq<Seq<char>> {
    if disabled {
        if list.contains(id) {
            list
        } else {
            list.push(id)
        }
    } else {
        list.filter(other_than(id))
    }
}

/// Disables or re-enables a provider in the disabled-provider list.
pub fn set_provider_disabled(list: &mut Vec<String>, provider_id: &str, disabled: bool)
    ensures
        final(list).deep_view() == disabled_list_spec(old(list).deep_view(), provider_id@, disabled),
{
    let ghost l0 = list.deep_view();
    if disabled {
        let mut i: usize = 0;
        while i < list.len()
            invariant
                disabled,
                i <= list@.len(),
                l0 == list.deep_view(),
                forall|k: int| 0 <= k < i ==> l0[k] != provider_id@,
            decreases list@.len() - i,
        {
            if str_eq(list[i].as_str(), provider_id) {
                proof {
                    assert(l0[i as int] == provider_id@);
                    assert(l0.contains(provider_id@));
                    assert(list.deep_view() == disabled_list_spec(l0, provider_id@, disabled));
                }
                return;
            }
            i = i + 1;
        }
        list.push(owned(provider_id));
        proof {
            assert(!l0.contains(provider_id@));
            assert(list.deep_view() =~= l0.push(provider_id@));
        }
    } else {
        let mut kept: Vec<String> = Vec::new();
        let mut i: usize = 0;
        proof {
            assert(l0.subrange(0, 0).filter(other_than(provider_id@)) =~= Seq::<Seq<char>>::empty());
            assert(kept.deep_view() =~= Seq::<Seq<char>>::empty());
        }
        while i < list.len()
            invariant
                i <= list@.len(),
                l0 == list.deep_view(),
                kept.deep_view() == l0.subrange(0, i as int).filter(other_than(provider_id@)),
            decreases list@.len() - i,
        {
            let ghost k0 = kept.deep_view();
            proof {
                reveal(Seq::filter);
                assert(l0.subrange(0, i + 1).drop_last() =~= l0.subrange(0, i as int));
                assert(list@[i as int]@ == l0[i as int]);
            }
            if !str_eq(list[i].as_str(), provider_id) {
                kept.push(list[i].clone());
                proof {
                    assert(kept.deep_view() =~= k0.push(l0[i as int]));
                }
            }
            i = i + 1;
        }
        proof {
            assert(l0.subrange(0, l0.len() as int) =~= l0);
            assert(kept.deep_view() == disabled_list_spec(l0, provider_id@, disabled));
        }
        *list = kept;
    }
}

/// After a provider is disabled it is listed exactly as often as before when
/// it was listed, and once more otherwise; after it is re-enabled it is not
/// listed; doing either twice is the same as doing it once.
pub proof fn lemma_disabled_list(list: Seq<Seq<char>>, id: Seq<char>)
    ensures
        disabled_list_spec(list, id, true).contains(id),
        !disabled_list_spec(list, id, false).contains(id),
        disabled_list_spec(disabled_list_spec(list, id, true), id, true) == disabled_list_spec(list, id, true),
        disabled_list_spec(disabled_list_spec(list, id, false), id, false) == disabled_list_spec(list, id, false),
        !disabled_list_spec(disabled_list_spec(list, id, true), id, false).contains(id),
{
    let p = other_than(id);
    let d = disabled_list_spec(list, id, true);
    if !list.contains(id) {
        assert(d[d.len() - 1] == id);
    }
    let e = list.filter(p);
    list.filter_lemma(p);
    assert(forall|k: int| 0 <= k < e.len() ==> p(#[trigger] e[k]));
    if e.contains(id) {
        let k = choose|k: int| 0 <= k < e.len() && e[k] == id;
        assert(p(e[k]));
    }
    lemma_filter_all_true(e, p);
    let d2 = d.filter(p);
    d.filter_lemma(p);
    if d2.contains(id) {
        let k = choose|k: int| 0 <= k < d2.len() && d2[k] == id;
        assert(p(d2[k]));
    }
}

proof fn lemma_filter_all_true(s: Seq<Seq<char>>, p: spec_fn(Seq<char>) -> bool)
    requires
        forall|k: int| 0 <= k < s.len() ==> p(#[trigger] s[k]),
    ensures
        s.filter(p) == s,
    decreases s.len(),
{
    reveal(Seq::filter);
    if s.len() > 0 {
        lemma_filter_all_true(s.drop_last(), p);
        assert(p(s[s.len() - 1]));
        assert(s.drop_last().push(s.last()) =~= s);
    } else {
        assert(s.filter(p) =~= s);
    }
}


/// A request to connect a provider with an API key, and optionally an
/// endpoint with its wire protocol.
#[derive(Debug, Clone)]
pub struct ConnectProviderRequest {
    pub provider_id: String,
    pub api_key: String,
    pub base_url: Option<String>,
    pub protocol: Option<String>,
}

/// A validated connect request: trimmed id and key, and the endpoint with the
/// profile of its protocol when one was given.
#[derive(Debug)]
pub struct ConnectPlan {
    pub provider_id: String,
    pub api_key: String,
    pub endpoint: Option<(String, ConnectProtocolProfile)>,
}

/// The endpoint given with a request, checked: both or neither of base URL and
/// protocol, a non-blank base URL, and one of the three supported protocols.
pub open spec fn endpoint_check(base_url: Option<Seq<char>>, protocol: Option<Seq<char>>) -> Result<
    Option<(Seq<char>, (Seq<char>, Seq<char>, Seq<char>, Seq<char>, Seq<char>))>,
    Seq<char>,
> {
    match (base_url, protocol) {
        (Some(b), Some(p)) => if trim(b).len() == 0 {
            Err("base_url is required"@)
        } else {
            match protocol_profile_spec(trim(p)) {
                Some(f) => Ok(Some((trim(b), f))),
                None => Err("Invalid protocol: "@ + trim(p)),
            }
        },
        (None, None) => Ok(None),
        _ => Err("base_url and protocol must be provided together"@),
    }
}

fn check_endpoint(base_url: &Option<String>, protocol: &Option<String>) -> (r: Result<
    Option<(String, ConnectProtocolProfile)>,
    ApiError,
>)
    ensures
        match r {
            Ok(None) => endpoint_check(opt_view(*base_url), opt_view(*protocol)) == Ok::<
                Option<(Seq<char>, (Seq<char>, Seq<char>, Seq<char>, Seq<char>, Seq<char>))>,
                Seq<char>,
            >(None),
            Ok(Some((b, p))) => endpoint_check(opt_view(*base_url), opt_view(*protocol)) == Ok::<
                Option<(Seq<char>, (Seq<char>, Seq<char>, Seq<char>, Seq<char>, Seq<char>))>,
                Seq<char>,
            >(Some((b@, profile_fields(p)))),
            Err(e) => e is BadRequest && endpoint_check(opt_view(*base_url), opt_view(*protocol))
                == Err::<
                Option<(Seq<char>, (Seq<char>, Seq<char>, Seq<char>, Seq<char>, Seq<char>))>,
                Seq<char>,
            >(e.message()),
        },
{
    match (base_url, protocol) {
        (Some(b), Some(p)) => {
            let b = trim_str(b.as_str());
            let p = trim_str(p.as_str());
            if b.as_str().unicode_len() == 0 {
                return Err(ApiError::BadRequest(owned("base_url is required")));
            }
            match connect_protocol_profile(p.as_str()) {
                Some(profile) => Ok(Some((b, profile))),
                None => Err(ApiError::BadRequest(crate::text::cat("Invalid protocol: ", p.as_str()))),
            }
        },
        (None, None) => Ok(None),
        _ => Err(ApiError::BadRequest(owned("base_url and protocol must be provided together"))),
    }
}

/// Checks a connect request: a non-blank provider id and API key, then the
/// endpoint, in that order; the first failed check is the error.
pub fn validate_connect_request(req: &ConnectProviderRequest) -> (r: Result<ConnectPlan, ApiError>)
    ensures
        match r {
            Ok(plan) => {
                &&& plan.provider_id@ == trim(req.provider_id@)
                &&& plan.provider_id@.len() > 0
                &&& plan.api_key@ == trim(req.api_key@)
                &&& plan.api_key@.len() > 0
                &&& endpoint_check(opt_view(req.base_url), opt_view(req.protocol)) == Ok::<
                    Option<(Seq<char>, (Seq<char>, Seq<char>, Seq<char>, Seq<char>, Seq<char>))>,
                    Seq<char>,
                >(
                    match plan.endpoint {
                        Some((b, p)) => Some((b@, profile_fields(p))),
                        None => None,
                    },
                )
            },
            Err(e) => e is BadRequest && if trim(req.provider_id@).len() == 0 {
                e.message() == "provider_id is required"@
            } else if trim(req.api_key@).len() == 0 {
                e.message() == "api_key is required"@
            } else {
                endpoint_check(opt_view(req.base_url), opt_view(req.protocol)) == Err::<
                    Option<(Seq<char>, (Seq<char>, Seq<char>, Seq<char>, Seq<char>, Seq<char>))>,
                    Seq<char>,
                >(e.message())
            },
        },
{
    let provider_id = trim_str(req.provider_id.as_str());
    let api_key = trim_str(req.api_key.as_str());
    if provider_id.as_str().unicode_len() == 0 {
        return Err(ApiError::BadRequest(owned("provider_id is required")));
    }
    if api_key.as_str().unicode_len() == 0 {
        return Err(ApiError::BadRequest(owned("api_key is required")));
    }
    let endpoint = check_endpoint(&req.base_url, &req.protocol)?;
    Ok(ConnectPlan { provider_id, api_key, endpoint })
}

/// The fields of a provider's configuration that connecting and updating it
/// write.
#[derive(Debug, Clone)]
pub struct ProviderEndpointConfig {
    pub id: Option<String>,
    pub name: Option<String>,
    pub base_url: Option<String>,
    pub npm: Option<String>,
    pub api_style: Option<String>,
    pub api_shape: Option<String>,
    pub transport: Option<String>,
    pub usage_shape: Option<String>,
}

/// Writes a protocol's profile into a provider's configuration.
pub fn apply_connect_protocol_profile(provider: &mut ProviderEndpointConfig, profile: ConnectProtocolProfile)
    ensures
        opt_view(final(provider).npm) == Some(profile.npm@),
        opt_view(final(provider).api_style) == Some(profile.api_style@),
        opt_view(final(provider).api_shape) == Some(profile.api_shape@),
        opt_view(final(provider).transport) == Some(profile.transport@),
        opt_view(final(provider).usage_shape) == Some(profile.usage_shape@),
        final(provider).id == old(provider).id,
        final(provider).name == old(provider).name,
        final(provider).base_url == old(provider).base_url,
{
    provider.npm = Some(owned(profile.npm));
    provider.api_style = Some(owned(profile.api_style));
    provider.api_shape = Some(profile.api_shape.to_owned());
    provider.transport = Some(owned(profile.transport));
    provider.usage_shape = Some(owned(profile.usage_shape));
}

/// Writes a connected endpoint into a provider's configuration: the provider's
/// name becomes its id when the name is missing or blank, and the id, base URL
/// and profile are set.
pub fn apply_connect_endpoint(
    provider: &mut ProviderEndpointConfig,
    provider_id: &str,
    base_url: &str,
    profile: ConnectProtocolProfile,
)
    ensures
        opt_view(final(provider).name) == (match opt_view(old(provider).name) {
            Some(n) => if trim(n).len() == 0 {
                Some(provider_id@)
            } else {
                Some(n)
            },
            None => Some(provider_id@),
        }),
        opt_view(final(provider).id) == Some(provider_id@),
        opt_view(final(provider).base_url) == Some(base_url@),
        opt_view(final(provider).npm) == Some(profile.npm@),
        opt_view(final(provider).api_style) == Some(profile.api_style@),
        opt_view(final(provider).api_shape) == Some(profile.api_shape@),
        opt_view(final(provider).transport) == Some(profile.transport@),
        opt_view(final(provider).usage_shape) == Some(profile.usage_shape@),
{
    let blank = match &provider.name {
        Some(n) => trim_str(n.as_str()).as_str().unicode_len() == 0,
        None => true,
    };
    if blank {
        provider.name = Some(owned(provider_id));
    }
    provider.id = Some(owned(provider_id));
    provider.base_url = Some(owned(base_url));
    apply_connect_protocol_profile(provider, profile);
}

/// A request to rename a provider and optionally move it to another endpoint.
#[derive(Debug, Clone)]
pub struct UpdateProviderRequest {
    pub name: Option<String>,
    pub base_url: Option<String>,
    pub protocol: Option<String>,
}

/// Applies an update request to a provider's configuration. A given name is
/// trimmed, and a blank one clears the name; an endpoint is checked as for a
/// connect request and then written with its profile.
pub fn apply_update_provider(provider: &mut ProviderEndpointConfig, provider_id: &str, req: &UpdateProviderRequest) -> (r:
    Result<(), ApiError>)
    ensures
        match r {
            Ok(()) => {
                &&& opt_view(final(provider).name) == match opt_view(req.name) {
                    Some(n) => non_blank(n),
                    None => opt_view(old(provider).name),
                }
                &&& match endpoint_check(opt_view(req.base_url), opt_view(req.protocol)) {
                    Ok(Some((b, f))) => {
                        &&& opt_view(final(provider).id) == Some(provider_id@)
                        &&& opt_view(final(provider).base_url) == Some(b)
                        &&& (opt_view(final(provider).npm), opt_view(final(provider).api_style))
                            == (Some(f.0), Some(f.1))
                        &&& (opt_view(final(provider).api_shape), opt_view(final(provider).transport))
                            == (Some(f.2), Some(f.3))
                        &&& opt_view(final(provider).usage_shape) == Some(f.4)
                    },
                    Ok(None) => {
                        &&& final(provider).id == old(provider).id
                        &&& final(provider).base_url == old(provider).base_url
                        &&& final(provider).npm == old(provider).npm
                        &&& final(provider).api_style == old(provider).api_style
                        &&& final(provider).api_shape == old(provider).api_shape
                        &&& final(provider).transport == old(provider).transport
                        &&& final(provider).usage_shape == old(provider).usage_shape
                    },
                    Err(_) => false,
                }
            },
            Err(e) => e is BadRequest && endpoint_check(opt_view(req.base_url), opt_view(req.protocol))
                == Err::<
                Option<(Seq<char>, (Seq<char>, Seq<char>, Seq<char>, Seq<char>, Seq<char>))>,
                Seq<char>,
            >(e.message()) && *final(provider) == *old(provider),
        },
{
    let endpoint = check_endpoint(&req.base_url, &req.protocol)?;
    match &req.name {
        Some(n) => {
            provider.name = normalized_subject_id(n.as_str());
        },
        None => {},
    }
    match endpoint {
        Some((b, profile)) => {
            provider.id = Some(owned(provider_id));
            provider.base_url = Some(b);
            apply_connect_protocol_profile(provider, profile);
        },
        None => {},
    }
    Ok(())
}

/// What to do for a connection test: probe an endpoint with a protocol, or
/// answer at once that nothing can be probed.
#[derive(Debug)]
pub enum ConnectionTestPlan {
    Probe { base_url: String, protocol: String },
    FailFast(String),
}

/// The target of a connection test: the configured base URL when not blank,
/// else the catalogue's; the configured protocol, else the protocol of the
/// catalogue's SDK package. Without a base URL the test fails at once; without
/// a supported protocol the request is refused.
pub fn plan_connection_test(
    configured_base_url: &Option<String>,
    catalog_api: &Option<String>,
    configured_protocol: &Option<String>,
    catalog_npm: &Option<String>,
) -> (r: Result<ConnectionTestPlan, ApiError>)
    ensures
        ({
            let base = match opt_view(*configured_base_url) {
                Some(b) => if trim(b).len() > 0 {
                    Some(b)
                } else {
                    opt_view(*catalog_api)
                },
                None => opt_view(*catalog_api),
            };
            let protocol = match opt_view(*configured_protocol) {
                Some(p) => Some(p),
                None => match opt_view(*catalog_npm) {
                    Some(n) => npm_protocol_spec(n),
                    None => None,
                },
            };
            match r {
                Ok(ConnectionTestPlan::FailFast(m)) => base is None && m@
                    == "no base_url configured for this provider"@,
                Ok(ConnectionTestPlan::Probe { base_url, protocol: p }) => base == Some(base_url@)
                    && protocol == Some(p@),
                Err(e) => base is Some && protocol is None && e.is_bad_request(
                    "provider protocol is missing or unsupported; choose openai-responses, openai-chat, or anthropic"@,
                ),
            }
        }),
{
    let base = match configured_base_url {
        Some(b) => if trim_str(b.as_str()).as_str().unicode_len() > 0 {
            Some(b.clone())
        } else {
            clone_opt(catalog_api)
        },
        None => clone_opt(catalog_api),
    };
    let base_url = match base {
        Some(b) => b,
        None => return Ok(ConnectionTestPlan::FailFast(owned("no base_url configured for this provider"))),
    };
    let protocol = match configured_protocol {
        Some(p) => Some(p.clone()),
        None => match catalog_npm {
            Some(n) => match catalog_wire_protocol(n.as_str()) {
                Some(p) => Some(owned(p)),
                None => None,
            },
            None => None,
        },
    };
    match protocol {
        Some(p) => Ok(ConnectionTestPlan::Probe { base_url, protocol: p }),
        None => Err(ApiError::BadRequest(owned(
            "provider protocol is missing or unsupported; choose openai-responses, openai-chat, or anthropic",
        ))),
    }
}


/// The providers of the catalogue.
#[derive(Debug)]
pub struct KnownProvidersResponse {
    pub providers: Vec<KnownProviderEntry>,
}

/// What the connect dialog offers: the providers of the catalogue and the
/// supported wire protocols.
#[derive(Debug)]
pub struct ProviderConnectSchemaResponse {
    pub providers: Vec<KnownProviderEntry>,
    pub protocols: Vec<ConnectProtocolOption>,
}

/// The connect schema for the given catalogue providers.
pub fn provider_connect_schema(providers: Vec<KnownProviderEntry>) -> (r: ProviderConnectSchemaResponse)
    ensures
        r.providers@ == providers@,
        r.protocols@.len() == 3,
        r.protocols@[0].id@ == "openai-responses"@,
        r.protocols@[1].id@ == "openai-chat"@,
        r.protocols@[2].id@ == "anthropic"@,
{
    ProviderConnectSchemaResponse { providers, protocols: connect_protocol_options() }
}

/// A search of the connect dialog.
#[derive(Debug, Clone)]
pub struct ResolveProviderConnectRequest {
    pub query: String,
}

/// One way a plugin can authenticate a provider.
#[derive(Debug, Clone)]
pub struct AuthMethodInfo {
    pub name: String,
    pub description: String,
}

/// Which authentication method of a provider to start.
#[derive(Debug, Clone, Copy)]
pub struct OAuthAuthorizeRequest {
    pub method: usize,
}

/// How the user completes an authorization: automatically or by pasting a code.
#[derive(Debug, Clone, Copy, PartialEq, Eq, Structural)]
pub enum AuthMethodType {
    Auto,
    Code,
}

/// The name of an authorization method type: `auto` or `code`.
pub fn auth_method_type_name(t: AuthMethodType) -> (r: String)
    ensures
        r@ == match t {
            AuthMethodType::Auto => "auto"@,
            AuthMethodType::Code => "code"@,
        },
{
    match t {
        AuthMethodType::Auto => owned("auto"),
        AuthMethodType::Code => owned("code"),
    }
}

/// Where and how to authorize a provider.
#[derive(Debug, Clone)]
pub struct OAuthAuthorizeResponse {
    pub url: String,
    pub method_type: String,
    pub instructions: String,
}

/// The answer of an authorization callback.
#[derive(Debug, Clone)]
pub struct OAuthCallbackRequest {
    pub method: usize,
    pub code: Option<String>,
}

/// Whether to disable or re-enable a provider.
#[derive(Debug, Clone, Copy)]
pub struct SetProviderDisabledRequest {
    pub disabled: bool,
}

/// The outcome of a provider connection test.
#[derive(Debug, Clone)]
pub struct TestProviderConnectionResponse {
    pub ok: bool,
    pub status: Option<u16>,
    pub latency_ms: u128,
    pub error: Option<String>,
}

/// A connection test that failed before any request was made.
pub fn connection_test_fail_fast(error: String) -> (r: TestProviderConnectionResponse)
    ensures
        !r.ok,
        r.status is None,
        r.latency_ms == 0,
        opt_view(r.error) == Some(error@),
{
    TestProviderConnectionResponse { ok: false, status: None, latency_ms: 0, error: Some(error) }
}

} // verus!

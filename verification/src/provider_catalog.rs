//! The model listing of the provider endpoints: how what the catalogue, the
//! configuration and the connected providers say of a model is merged, and
//! how reasoning variants are looked up. Prices are carried as the type `C`,
//! which nothing here inspects.

use vstd::prelude::*;
use crate::text::{opt_view, text_listed};
use crate::text::{owned, str_eq, str_lt, seq_lt, trim, trim_str, sort_strings, sort_texts, lemma_insert_sorted_at, lemma_seq_lt_transitive, lemma_seq_lt_total, lemma_seq_lt_asymmetric};
use crate::provider::{
    ModelCapabilityInfo, fill_capabilities, override_capabilities, merge_fill_missing_capabilities,
    merge_override_capabilities, synthetic_variant_names, synthetic_variants_spec,
    CatalogModelCapabilities, ConfiguredModelCapabilities, capability_info_from_catalog,
    capability_info_from_runtime, capability_info_from_config, catalog_caps_spec, runtime_caps_spec,
    config_caps_spec,
};
use crate::command_args::clone_strings;
use crate::text_map::TextMap;
use crate::provider::{npm_protocol_spec, catalog_wire_protocol, display_name_spec, provider_display_name};
use crate::text::unicode_lower;
use crate::text::to_lowercase;

verus! {

/// A model as the provider endpoints list it.
pub struct ModelInfo<C> {
    pub id: String,
    pub name: String,
    pub provider: String,
    /// True only when this exact provider/model pair is served by a
    /// connected provider.
    pub available: bool,
    pub variants: Vec<String>,
    pub context_window: Option<u64>,
    pub max_output_tokens: Option<u64>,
    pub cost_per_million_input: Option<C>,
    pub cost_per_million_output: Option<C>,
    pub capabilities: Option<ModelCapabilityInfo>,
}

/// The model of a listed model.
pub struct ModelView<C> {
    pub id: Seq<char>,
    pub name: Seq<char>,
    pub provider: Seq<char>,
    pub available: bool,
    pub variants: Seq<Seq<char>>,
    pub context_window: Option<u64>,
    pub max_output_tokens: Option<u64>,
    pub cost_in: Option<C>,
    pub cost_out: Option<C>,
    pub capabilities: Option<ModelCapabilityInfo>,
}

impl<C> View for ModelInfo<C> {
    type V = ModelView<C>;

    open spec fn view(&self) -> ModelView<C> {
        ModelView {
            id: self.id@,
            name: self.name@,
            provider: self.provider@,
            available: self.available,
            variants: self.variants.deep_view(),
            context_window: self.context_window,
            max_output_tokens: self.max_output_tokens,
            cost_in: self.cost_per_million_input,
            cost_out: self.cost_per_million_output,
            capabilities: self.capabilities,
        }
    }
}

/// `target`, or `incoming` where `target` is unknown.
pub open spec fn fill_opt<T>(target: Option<T>, incoming: Option<T>) -> Option<T> {
    match target {
        Some(t) => Some(t),
        None => incoming,
    }
}

/// `incoming` where it is known, else `target`.
pub open spec fn over_opt<T>(target: Option<T>, incoming: Option<T>) -> Option<T> {
    match incoming {
        Some(i) => Some(i),
        None => target,
    }
}

fn fill_missing<T>(target: &mut Option<T>, incoming: Option<T>)
    ensures
        *final(target) == fill_opt(*old(target), incoming),
{
    if target.is_none() {
        *target = incoming;
    }
}

fn override_with<T>(target: &mut Option<T>, incoming: Option<T>)
    ensures
        *final(target) == over_opt(*old(target), incoming),
{
    if incoming.is_some() {
        *target = incoming;
    }
}

/// The capabilities after merging known ones in, each side's unknowns
/// filled from the other (`fill`) or the incoming ones winning (`!fill`).
pub open spec fn merge_caps(
    existing: Option<ModelCapabilityInfo>,
    incoming: Option<ModelCapabilityInfo>,
    fill: bool,
) -> Option<ModelCapabilityInfo> {
    match incoming {
        None => existing,
        Some(i) => match existing {
            None => Some(i),
            Some(e) => Some(
                if fill {
                    fill_capabilities(e, i)
                } else {
                    override_capabilities(e, i)
                },
            ),
        },
    }
}

fn merge_capabilities(existing: &mut Option<ModelCapabilityInfo>, incoming: Option<ModelCapabilityInfo>, fill: bool)
    ensures
        *final(existing) == merge_caps(*old(existing), incoming, fill),
{
    match incoming {
        None => {},
        Some(i) => match existing {
            Some(e) => {
                if fill {
                    merge_fill_missing_capabilities(e, &i);
                } else {
                    merge_override_capabilities(e, &i);
                }
            },
            None => {
                *existing = Some(i);
            },
        },
    }
}

/// What the catalogue adds to a listed model: a name where it has a blank
/// one, variants where it has none, and every other unknown filled.
pub open spec fn catalog_merge<C>(e: ModelView<C>, i: ModelView<C>) -> ModelView<C> {
    ModelView {
        name: if trim(e.name).len() == 0 {
            i.name
        } else {
            e.name
        },
        variants: if e.variants.len() == 0 && i.variants.len() > 0 {
            i.variants
        } else {
            e.variants
        },
        context_window: fill_opt(e.context_window, i.context_window),
        max_output_tokens: fill_opt(e.max_output_tokens, i.max_output_tokens),
        cost_in: fill_opt(e.cost_in, i.cost_in),
        cost_out: fill_opt(e.cost_out, i.cost_out),
        capabilities: merge_caps(e.capabilities, i.capabilities, true),
        ..e
    }
}

/// What a connected provider adds to a listed model: it becomes available,
/// takes the provider's name and variants (when it gives any), and every
/// other unknown is filled.
pub open spec fn runtime_merge<C>(e: ModelView<C>, i: ModelView<C>) -> ModelView<C> {
    ModelView {
        available: true,
        name: i.name,
        variants: if i.variants.len() > 0 {
            i.variants
        } else {
            e.variants
        },
        context_window: fill_opt(e.context_window, i.context_window),
        max_output_tokens: fill_opt(e.max_output_tokens, i.max_output_tokens),
        cost_in: fill_opt(e.cost_in, i.cost_in),
        cost_out: fill_opt(e.cost_out, i.cost_out),
        capabilities: merge_caps(e.capabilities, i.capabilities, true),
        ..e
    }
}

/// What the configuration adds to a listed model: its name, its variants
/// (when it gives any), and every value it states.
pub open spec fn config_merge<C>(e: ModelView<C>, i: ModelView<C>) -> ModelView<C> {
    ModelView {
        name: i.name,
        variants: if i.variants.len() > 0 {
            i.variants
        } else {
            e.variants
        },
        context_window: over_opt(e.context_window, i.context_window),
        max_output_tokens: over_opt(e.max_output_tokens, i.max_output_tokens),
        cost_in: over_opt(e.cost_in, i.cost_in),
        cost_out: over_opt(e.cost_out, i.cost_out),
        capabilities: merge_caps(e.capabilities, i.capabilities, false),
        ..e
    }
}

/// Every value the configuration states of a model wins over what the
/// listing held (context window, output limit, both costs, and the name);
/// a value it leaves unstated keeps what the listing held.
pub proof fn lemma_configuration_values_win<C>(e: ModelView<C>, i: ModelView<C>)
    ensures
        ({
            let m = merge_from(ModelSource::Config, e, i);
            &&& (i.context_window matches Some(x) ==> m.context_window == Some(x))
            &&& (i.context_window is None ==> m.context_window == e.context_window)
            &&& (i.max_output_tokens matches Some(x) ==> m.max_output_tokens == Some(x))
            &&& (i.max_output_tokens is None ==> m.max_output_tokens == e.max_output_tokens)
            &&& (i.cost_in matches Some(x) ==> m.cost_in == Some(x))
            &&& (i.cost_in is None ==> m.cost_in == e.cost_in)
            &&& (i.cost_out matches Some(x) ==> m.cost_out == Some(x))
            &&& (i.cost_out is None ==> m.cost_out == e.cost_out)
            &&& m.name == i.name
            &&& m.id == e.id
        }),
{
    reveal(merge_from);
}

/// The catalogue and a connected provider only fill gaps: a value the
/// listing already holds is kept, and an unknown one takes theirs.
pub proof fn lemma_catalog_and_runtime_only_fill<C>(e: ModelView<C>, i: ModelView<C>)
    ensures
        forall|source: ModelSource|
            source != ModelSource::Config ==> {
                let m = #[trigger] merge_from(source, e, i);
                &&& (e.context_window matches Some(x) ==> m.context_window == Some(x))
                &&& (e.context_window is None ==> m.context_window == i.context_window)
                &&& (e.max_output_tokens matches Some(x) ==> m.max_output_tokens == Some(x))
                &&& (e.max_output_tokens is None ==> m.max_output_tokens == i.max_output_tokens)
                &&& (e.cost_in matches Some(x) ==> m.cost_in == Some(x))
                &&& (e.cost_in is None ==> m.cost_in == i.cost_in)
                &&& (e.cost_out matches Some(x) ==> m.cost_out == Some(x))
                &&& (e.cost_out is None ==> m.cost_out == i.cost_out)
            },
{
    reveal(merge_from);
}

/// Merges what the catalogue says of a model into the listed model.
pub fn merge_catalog_model_info<C>(existing: &mut ModelInfo<C>, incoming: ModelInfo<C>)
    ensures
        final(existing)@ == catalog_merge(old(existing)@, incoming@),
{
    let ghost inc = incoming@;
    if trim_str(existing.name.as_str()).as_str().unicode_len() == 0 {
        existing.name = incoming.name;
    }
    if existing.variants.len() == 0 && incoming.variants.len() > 0 {
        existing.variants = incoming.variants;
    }
    fill_missing(&mut existing.context_window, incoming.context_window);
    fill_missing(&mut existing.max_output_tokens, incoming.max_output_tokens);
    fill_missing(&mut existing.cost_per_million_input, incoming.cost_per_million_input);
    fill_missing(&mut existing.cost_per_million_output, incoming.cost_per_million_output);
    merge_capabilities(&mut existing.capabilities, incoming.capabilities, true);
}

/// Merges what a connected provider says of a model into the listed model.
pub fn merge_runtime_model_info<C>(existing: &mut ModelInfo<C>, incoming: ModelInfo<C>)
    ensures
        final(existing)@ == runtime_merge(old(existing)@, incoming@),
{
    existing.available = true;
    existing.name = incoming.name;
    if incoming.variants.len() > 0 {
        existing.variants = incoming.variants;
    }
    fill_missing(&mut existing.context_window, incoming.context_window);
    fill_missing(&mut existing.max_output_tokens, incoming.max_output_tokens);
    fill_missing(&mut existing.cost_per_million_input, incoming.cost_per_million_input);
    fill_missing(&mut existing.cost_per_million_output, incoming.cost_per_million_output);
    merge_capabilities(&mut existing.capabilities, incoming.capabilities, true);
}

/// Merges what the configuration says of a model into the listed model.
pub fn merge_config_model_info<C>(existing: &mut ModelInfo<C>, incoming: ModelInfo<C>)
    ensures
        final(existing)@ == config_merge(old(existing)@, incoming@),
{
    existing.name = incoming.name;
    if incoming.variants.len() > 0 {
        existing.variants = incoming.variants;
    }
    override_with(&mut existing.context_window, incoming.context_window);
    override_with(&mut existing.max_output_tokens, incoming.max_output_tokens);
    override_with(&mut existing.cost_per_million_input, incoming.cost_per_million_input);
    override_with(&mut existing.cost_per_million_output, incoming.cost_per_million_output);
    merge_capabilities(&mut existing.capabilities, incoming.capabilities, false);
}

/// Which source a model's listing entry is merged from.
#[derive(Debug, Clone, Copy, PartialEq, Eq, Structural)]
pub enum ModelSource {
    Catalog,
    Runtime,
    Config,
}

/// The listed model after merging in what `source` says of it.
#[verifier::opaque]
pub open spec fn merge_from<C>(source: ModelSource, e: ModelView<C>, i: ModelView<C>) -> ModelView<C> {
    match source {
        ModelSource::Catalog => catalog_merge(e, i),
        ModelSource::Runtime => runtime_merge(e, i),
        ModelSource::Config => config_merge(e, i),
    }
}

/// The models of a list, as models.
pub open spec fn models_view<C>(v: Seq<ModelInfo<C>>) -> Seq<ModelView<C>> {
    v.map_values(|m: ModelInfo<C>| m@)
}

/// The position of the first model with id `id`, if any.
pub open spec fn model_index<C>(models: Seq<ModelView<C>>, id: Seq<char>) -> Option<int> {
    if exists|i: int| 0 <= i < models.len() && (#[trigger] models[i]).id == id {
        Some(choose|i: int| 0 <= i < models.len() && models[i].id == id && forall|j: int|
            0 <= j < i ==> models[j].id != id)
    } else {
        None
    }
}

/// A provider's models after a model from `source` is entered: merged into
/// the model of its id, or added at the end.
#[verifier::opaque]
pub open spec fn upsert_spec<C>(models: Seq<ModelView<C>>, m: ModelView<C>, source: ModelSource) -> Seq<
    ModelView<C>,
> {
    match model_index(models, m.id) {
        Some(i) => models.update(i, merge_from(source, models[i], m)),
        None => models.push(m),
    }
}

fn merge_by_source<C>(cur: &mut ModelInfo<C>, model: ModelInfo<C>, source: ModelSource)
    ensures
        final(cur)@ == merge_from(source, old(cur)@, model@),
{
    proof {
        reveal(merge_from);
    }
    match source {
        ModelSource::Catalog => merge_catalog_model_info(cur, model),
        ModelSource::Runtime => merge_runtime_model_info(cur, model),
        ModelSource::Config => merge_config_model_info(cur, model),
    }
}

pub(crate) fn find_model<C>(models: &Vec<ModelInfo<C>>, id: &str) -> (r: Option<usize>)
    ensures
        r matches Some(i) ==> i < models@.len() && models@[i as int].id@ == id@,
        r matches Some(i) ==> model_index(models_view(models@), id@) == Some(i as int),
        r is None ==> model_index(models_view(models@), id@) is None,
{
    let ghost mv = models_view(models@);
    let mut i: usize = 0;
    while i < models.len()
        invariant
            i <= models@.len(),
            mv == models_view(models@),
            forall|j: int| 0 <= j < i ==> mv[j].id != id@,
        decreases models.len() - i,
    {
        if str_eq(models[i].id.as_str(), id) {
            proof {
                assert(mv[i as int].id == id@);
                let w = choose|k: int| 0 <= k < mv.len() && mv[k].id == id@ && forall|j: int|
                    0 <= j < k ==> mv[j].id != id@;
                if w < i {
                    assert(mv[w].id != id@);
                }
                if w > i {
                    assert(mv[i as int].id != id@);
                }
            }
            return Some(i);
        }
        i = i + 1;
    }
    None
}

/// Enters a model from `source` into a provider's models.
pub fn upsert_model_info<C>(models: &mut Vec<ModelInfo<C>>, model: ModelInfo<C>, source: ModelSource)
    ensures
        models_view(final(models)@) == upsert_spec(models_view(old(models)@), model@, source),
{
    let ghost raw = models@;
    let ghost mv = model@;
    match find_model(models, model.id.as_str()) {
        Some(i) => {
            let mut cur = models.remove(i);
            let ghost cv = cur@;
            merge_by_source(&mut cur, model, source);
            let ghost nc = cur;
            models.insert(i, cur);
            proof {
                assert(models@ =~= raw.update(i as int, nc));
                lemma_upsert_found(raw, i as int, nc, mv, source);
            }
        },
        None => {
            let ghost m = model;
            models.push(model);
            proof {
                lemma_upsert_new(raw, m, source);
            }
        },
    }
}

proof fn lemma_upsert_found<C>(raw: Seq<ModelInfo<C>>, i: int, nc: ModelInfo<C>, m: ModelView<C>, source: ModelSource)
    requires
        0 <= i < raw.len(),
        model_index(models_view(raw), m.id) == Some(i),
        nc@ == merge_from(source, raw[i]@, m),
    ensures
        models_view(raw.update(i, nc)) == upsert_spec(models_view(raw), m, source),
{
    reveal(upsert_spec);
    assert(models_view(raw.update(i, nc)) =~= models_view(raw).update(i, nc@));
}

proof fn lemma_upsert_new<C>(raw: Seq<ModelInfo<C>>, m: ModelInfo<C>, source: ModelSource)
    requires
        model_index(models_view(raw), m@.id) is None,
    ensures
        models_view(raw.push(m)) == upsert_spec(models_view(raw), m@, source),
{
    reveal(upsert_spec);
    assert(models_view(raw.push(m)) =~= models_view(raw).push(m@));
}

/// Models by provider, each provider once, in the order first entered.
pub struct ModelTable<C> {
    pub providers: Vec<(String, Vec<ModelInfo<C>>)>,
}

/// The models of a table, by provider.
pub open spec fn table_view<C>(t: Seq<(String, Vec<ModelInfo<C>>)>) -> Seq<(Seq<char>, Seq<ModelView<C>>)> {
    t.map_values(|e: (String, Vec<ModelInfo<C>>)| (e.0@, models_view(e.1@)))
}

/// The position of provider `id` in a table, if any.
pub open spec fn provider_index<C>(t: Seq<(Seq<char>, Seq<ModelView<C>>)>, id: Seq<char>) -> Option<int> {
    if exists|i: int| 0 <= i < t.len() && (#[trigger] t[i]).0 == id {
        Some(choose|i: int| 0 <= i < t.len() && t[i].0 == id && forall|j: int| 0 <= j < i ==> t[j].0 != id)
    } else {
        None
    }
}

/// A table after a provider's model from `source` is entered.
pub open spec fn table_upsert_spec<C>(
    t: Seq<(Seq<char>, Seq<ModelView<C>>)>,
    provider_id: Seq<char>,
    m: ModelView<C>,
    source: ModelSource,
) -> Seq<(Seq<char>, Seq<ModelView<C>>)> {
    match provider_index(t, provider_id) {
        Some(j) => t.update(j, (t[j].0, upsert_spec(t[j].1, m, source))),
        None => t.push((provider_id, seq![m])),
    }
}

/// A table with an empty entry for a provider it does not hold yet.
pub open spec fn table_touch_spec<C>(t: Seq<(Seq<char>, Seq<ModelView<C>>)>, provider_id: Seq<char>) -> Seq<
    (Seq<char>, Seq<ModelView<C>>),
> {
    match provider_index(t, provider_id) {
        Some(j) => t,
        None => t.push((provider_id, Seq::empty())),
    }
}

proof fn lemma_table_upsert_found<C>(
    raw: Seq<(String, Vec<ModelInfo<C>>)>,
    j: int,
    ne: (String, Vec<ModelInfo<C>>),
    provider_id: Seq<char>,
    m: ModelView<C>,
    source: ModelSource,
)
    requires
        0 <= j < raw.len(),
        provider_index(table_view(raw), provider_id) == Some(j),
        ne.0@ == raw[j].0@,
        models_view(ne.1@) == upsert_spec(models_view(raw[j].1@), m, source),
    ensures
        table_view(raw.update(j, ne)) == table_upsert_spec(table_view(raw), provider_id, m, source),
{
    assert(table_view(raw.update(j, ne)) =~= table_view(raw).update(
        j,
        (table_view(raw)[j].0, upsert_spec(table_view(raw)[j].1, m, source)),
    ));
}

proof fn lemma_table_upsert_new<C>(
    raw: Seq<(String, Vec<ModelInfo<C>>)>,
    ne: (String, Vec<ModelInfo<C>>),
    provider_id: Seq<char>,
    m: ModelView<C>,
    source: ModelSource,
)
    requires
        provider_index(table_view(raw), provider_id) is None,
        ne.0@ == provider_id,
        models_view(ne.1@) == seq![m],
    ensures
        table_view(raw.push(ne)) == table_upsert_spec(table_view(raw), provider_id, m, source),
{
    assert(table_view(raw.push(ne)) =~= table_view(raw).push((provider_id, seq![m])));
}

impl<C> ModelTable<C> {
    /// A table with no provider.
    pub fn new() -> (t: Self)
        ensures
            t.providers@.len() == 0,
    {
        ModelTable { providers: Vec::new() }
    }

    fn find_provider(&self, id: &str) -> (r: Option<usize>)
        ensures
            r matches Some(i) ==> i < self.providers@.len() && self.providers@[i as int].0@ == id@,
            r matches Some(i) ==> provider_index(table_view(self.providers@), id@) == Some(i as int),
            r is None ==> provider_index(table_view(self.providers@), id@) is None,
    {
        let ghost tv = table_view(self.providers@);
        let mut i: usize = 0;
        while i < self.providers.len()
            invariant
                i <= self.providers@.len(),
                tv == table_view(self.providers@),
                forall|j: int| 0 <= j < i ==> tv[j].0 != id@,
            decreases self.providers.len() - i,
        {
            if str_eq(self.providers[i].0.as_str(), id) {
                proof {
                    assert(tv[i as int].0 == id@);
                    let w = choose|k: int| 0 <= k < tv.len() && tv[k].0 == id@ && forall|j: int|
                        0 <= j < k ==> tv[j].0 != id@;
                    if w < i {
                        assert(tv[w].0 != id@);
                    }
                    if w > i {
                        assert(tv[i as int].0 != id@);
                    }
                }
                return Some(i);
            }
            i = i + 1;
        }
        None
    }

    /// Enters a provider's model from `source`.
    pub fn upsert(&mut self, provider_id: &str, model: ModelInfo<C>, source: ModelSource)
        ensures
            table_view(final(self).providers@) == table_upsert_spec(
                table_view(old(self).providers@),
                provider_id@,
                model@,
                source,
            ),
    {
        let ghost raw = self.providers@;
        let ghost mv = model@;
        match self.find_provider(provider_id) {
            Some(j) => {
                let mut entry = self.providers.remove(j);
                let ghost old_models = entry.1@;
                upsert_model_info(&mut entry.1, model, source);
                let ghost ne = entry;
                self.providers.insert(j, entry);
                proof {
                    assert(self.providers@ =~= raw.update(j as int, ne));
                    lemma_table_upsert_found(raw, j as int, ne, provider_id@, mv, source);
                }
            },
            None => {
                let mut models: Vec<ModelInfo<C>> = Vec::new();
                models.push(model);
                proof {
                    assert(models_view(models@) =~= seq![mv]);
                }
                self.providers.push((owned(provider_id), models));
                proof {
                    lemma_table_upsert_new(raw, self.providers@.last(), provider_id@, mv, source);
                    assert(self.providers@ =~= raw.push(self.providers@.last()));
                }
            },
        }
    }

    /// Gives a provider an empty entry, unless it has one.
    pub fn touch(&mut self, provider_id: &str)
        ensures
            table_view(final(self).providers@) == table_touch_spec(
                table_view(old(self).providers@),
                provider_id@,
            ),
    {
        let ghost before = table_view(self.providers@);
        match self.find_provider(provider_id) {
            Some(_) => {},
            None => {
                let models: Vec<ModelInfo<C>> = Vec::new();
                proof {
                    assert(models_view(models@) =~= Seq::<ModelView<C>>::empty());
                }
                self.providers.push((owned(provider_id), models));
                proof {
                    assert(table_view(self.providers@) =~= before.push((provider_id@, Seq::empty())));
                }
            },
        }
    }
}

/// `s` with `x` placed after every model whose id does not order after its
/// own.
pub open spec fn insert_by_id<C>(s: Seq<ModelView<C>>, x: ModelView<C>) -> Seq<ModelView<C>>
    decreases s.len(),
{
    if s.len() == 0 {
        seq![x]
    } else if seq_lt(x.id, s.last().id) {
        insert_by_id(s.drop_last(), x).push(s.last())
    } else {
        s.push(x)
    }
}

/// The models in ascending order of id, equal ids in their original order.
pub open spec fn sort_by_id<C>(s: Seq<ModelView<C>>) -> Seq<ModelView<C>>
    decreases s.len(),
{
    if s.len() == 0 {
        Seq::empty()
    } else {
        insert_by_id(sort_by_id(s.drop_last()), s.last())
    }
}

proof fn lemma_insert_by_id_at<C>(s: Seq<ModelView<C>>, x: ModelView<C>, pos: int)
    requires
        0 <= pos <= s.len(),
        forall|k: int| pos <= k < s.len() ==> seq_lt(x.id, (#[trigger] s[k]).id),
        pos == 0 || !seq_lt(x.id, s[pos - 1].id),
    ensures
        insert_by_id(s, x) == s.insert(pos, x),
    decreases s.len(),
{
    if s.len() == pos {
        if s.len() == 0 {
            assert(s.insert(pos, x) =~= seq![x]);
        } else {
            assert(s.insert(pos, x) =~= s.push(x));
        }
    } else {
        lemma_insert_by_id_at(s.drop_last(), x, pos);
        assert(s.drop_last().insert(pos, x).push(s.last()) =~= s.insert(pos, x));
    }
}

/// Orders models by id.
pub fn sort_models_by_id<C>(models: Vec<ModelInfo<C>>) -> (r: Vec<ModelInfo<C>>)
    ensures
        models_view(r@) == sort_by_id(models_view(models@)),
{
    let ghost orig = models_view(models@);
    let n = models.len();
    let mut rest = models;
    let mut out: Vec<ModelInfo<C>> = Vec::new();
    let mut k: usize = 0;
    proof {
        assert(orig.subrange(0, 0) =~= Seq::<ModelView<C>>::empty());
        assert(models_view(out@) =~= Seq::<ModelView<C>>::empty());
    }
    while k < n
        invariant
            n == orig.len(),
            k <= n,
            models_view(rest@) == orig.subrange(k as int, n as int),
            models_view(out@) == sort_by_id(orig.subrange(0, k as int)),
        decreases n - k,
    {
        proof {
            assert(orig.subrange(0, k + 1).drop_last() =~= orig.subrange(0, k as int));
            assert(models_view(rest@).len() == rest@.len());
            assert(models_view(rest@)[0] == orig[k as int]);
        }
        let ghost rv = models_view(rest@);
        let x = rest.remove(0);
        proof {
            assert(models_view(rest@) =~= rv.drop_first());
            assert(rv.drop_first() =~= orig.subrange(k + 1, n as int));
        }
        let ghost ov = models_view(out@);
        let mut pos = out.len();
        while pos > 0 && str_lt(x.id.as_str(), out[pos - 1].id.as_str())
            invariant
                pos <= out@.len(),
                ov == models_view(out@),
                forall|q: int| pos <= q < ov.len() ==> seq_lt(x.id@, (#[trigger] ov[q]).id),
            decreases pos,
        {
            pos = pos - 1;
        }
        let ghost xv = x@;
        proof {
            lemma_insert_by_id_at(ov, xv, pos as int);
        }
        out.insert(pos, x);
        proof {
            assert(models_view(out@) =~= ov.insert(pos as int, xv));
        }
        k = k + 1;
    }
    proof {
        assert(orig.subrange(0, n as int) =~= orig);
    }
    out
}

/// The reasoning variants of each catalogue model, by provider and model.
pub struct VariantLookup {
    pub providers: Vec<(String, Vec<(String, Vec<String>)>)>,
}

/// The content of a variant lookup.
pub open spec fn lookup_view(l: Seq<(String, Vec<(String, Vec<String>)>)>) -> Seq<
    (Seq<char>, Seq<(Seq<char>, Seq<Seq<char>>)>),
> {
    l.map_values(
        |p: (String, Vec<(String, Vec<String>)>)|
            (p.0@, p.1@.map_values(|m: (String, Vec<String>)| (m.0@, m.1.deep_view()))),
    )
}

/// The variants listed under `key` in the first entry with that key, or
/// none.
pub open spec fn first_under<V>(s: Seq<(Seq<char>, V)>, key: Seq<char>) -> Option<V> {
    if exists|i: int| 0 <= i < s.len() && (#[trigger] s[i]).0 == key {
        Some(
            s[choose|i: int| 0 <= i < s.len() && s[i].0 == key && forall|j: int| 0 <= j < i ==> s[j].0 != key].1,
        )
    } else {
        None
    }
}

/// The variants the lookup holds for a provider's model, or none.
pub open spec fn variants_lookup_spec(
    l: Seq<(Seq<char>, Seq<(Seq<char>, Seq<Seq<char>>)>)>,
    provider_id: Seq<char>,
    model_id: Seq<char>,
) -> Seq<Seq<char>> {
    match first_under(l, provider_id) {
        Some(models) => match first_under(models, model_id) {
            Some(v) => v,
            None => Seq::empty(),
        },
        None => Seq::empty(),
    }
}

/// The variants the lookup holds for a provider's model, or none.
pub fn variants_for_model(lookup: &VariantLookup, provider_id: &str, model_id: &str) -> (r: Vec<String>)
    ensures
        r.deep_view() == variants_lookup_spec(lookup_view(lookup.providers@), provider_id@, model_id@),
{
    let ghost lv = lookup_view(lookup.providers@);
    let mut i: usize = 0;
    while i < lookup.providers.len()
        invariant
            i <= lookup.providers@.len(),
            lv == lookup_view(lookup.providers@),
            forall|j: int| 0 <= j < i ==> lv[j].0 != provider_id@,
        decreases lookup.providers.len() - i,
    {
        if str_eq(lookup.providers[i].0.as_str(), provider_id) {
            proof {
                assert(lv[i as int].0 == provider_id@);
                let w = choose|k: int| 0 <= k < lv.len() && lv[k].0 == provider_id@ && forall|j: int|
                    0 <= j < k ==> lv[j].0 != provider_id@;
                if w < i {
                    assert(lv[w].0 != provider_id@);
                }
                if w > i {
                    assert(lv[i as int].0 != provider_id@);
                }
                assert(w == i);
            }
            let models = &lookup.providers[i].1;
            let ghost mvs = lv[i as int].1;
            proof {
                assert(mvs == models@.map_values(|m: (String, Vec<String>)| (m.0@, m.1.deep_view())));
                assert(first_under(lv, provider_id@) == Some(mvs));
            }
            let mut k: usize = 0;
            while k < models.len()
                invariant
                    k <= models@.len(),
                    mvs == models@.map_values(|m: (String, Vec<String>)| (m.0@, m.1.deep_view())),
                    first_under(lv, provider_id@) == Some(mvs),
                    lv == lookup_view(lookup.providers@),
                    forall|j: int| 0 <= j < k ==> mvs[j].0 != model_id@,
                decreases models.len() - k,
            {
                if str_eq(models[k].0.as_str(), model_id) {
                    proof {
                        assert(mvs[k as int].0 == model_id@);
                        let w = choose|q: int| 0 <= q < mvs.len() && mvs[q].0 == model_id@ && forall|j: int|
                            0 <= j < q ==> mvs[j].0 != model_id@;
                        if w < k {
                            assert(mvs[w].0 != model_id@);
                        }
                        if w > k {
                            assert(mvs[k as int].0 != model_id@);
                        }
                        assert(w == k);
                        assert(mvs[k as int].1 == models@[k as int].1.deep_view());
                        assert(first_under(mvs, model_id@) == Some(mvs[k as int].1));
                        assert(first_under(lv, provider_id@) == Some(mvs));
                    }
                    return clone_strings(&models[k].1);
                }
                k = k + 1;
            }
            let r: Vec<String> = Vec::new();
            assert(r.deep_view() =~= Seq::<Seq<char>>::empty());
            assert(first_under(lv, provider_id@) == Some(mvs));
            return r;
        }
        i = i + 1;
    }
    let r: Vec<String> = Vec::new();
    assert(r.deep_view() =~= Seq::<Seq<char>>::empty());
    r
}

/// The variants listed for a catalogue model: those it declares, else the
/// reasoning variants that fit its provider, in ascending order.
pub open spec fn model_variants_spec(declared: Seq<Seq<char>>, provider_id: Seq<char>, model_id: Seq<char>, reasoning: bool) -> Seq<
    Seq<char>,
> {
    sort_texts(
        if declared.len() > 0 {
            declared
        } else {
            synthetic_variants_spec(provider_id, model_id, reasoning)
        },
    )
}

/// The variants listed for a catalogue model.
pub fn model_variant_list(declared: &Vec<String>, provider_id: &str, model_id: &str, reasoning: bool) -> (r: Vec<String>)
    ensures
        r.deep_view() == model_variants_spec(declared.deep_view(), provider_id@, model_id@, reasoning),
{
    let names = if declared.len() > 0 {
        clone_strings(declared)
    } else {
        synthetic_variant_names(provider_id, model_id, reasoning)
    };
    sort_strings(&names)
}

/// What the variant lookup reads of a catalogue model.
pub struct CatalogModelVariants {
    pub id: String,
    pub declared_variants: Vec<String>,
    pub reasoning: bool,
}

/// The catalogue models of a provider.
pub struct CatalogProviderModels {
    pub id: String,
    pub models: Vec<CatalogModelVariants>,
}

/// The lookup for a catalogue: for each provider and model, in catalogue
/// order, its listed variants.
pub fn build_model_variant_lookup(catalog: &Vec<CatalogProviderModels>) -> (r: VariantLookup)
    ensures
        r.providers@.len() == catalog@.len(),
        forall|i: int|
            0 <= i < catalog@.len() ==> (#[trigger] r.providers@[i]).0@ == catalog@[i].id@
                && r.providers@[i].1@.len() == catalog@[i].models@.len() && forall|k: int|
                0 <= k < catalog@[i].models@.len() ==> (#[trigger] r.providers@[i].1@[k]).0@
                    == catalog@[i].models@[k].id@ && r.providers@[i].1@[k].1.deep_view()
                    == model_variants_spec(
                    catalog@[i].models@[k].declared_variants.deep_view(),
                    catalog@[i].id@,
                    catalog@[i].models@[k].id@,
                    catalog@[i].models@[k].reasoning,
                ),
{
    let mut providers: Vec<(String, Vec<(String, Vec<String>)>)> = Vec::new();
    let mut i: usize = 0;
    while i < catalog.len()
        invariant
            i <= catalog@.len(),
            providers@.len() == i,
            forall|a: int|
                0 <= a < i ==> (#[trigger] providers@[a]).0@ == catalog@[a].id@
                    && providers@[a].1@.len() == catalog@[a].models@.len() && forall|k: int|
                    0 <= k < catalog@[a].models@.len() ==> (#[trigger] providers@[a].1@[k]).0@
                        == catalog@[a].models@[k].id@ && providers@[a].1@[k].1.deep_view()
                        == model_variants_spec(
                        catalog@[a].models@[k].declared_variants.deep_view(),
                        catalog@[a].id@,
                        catalog@[a].models@[k].id@,
                        catalog@[a].models@[k].reasoning,
                    ),
        decreases catalog.len() - i,
    {
        let p = &catalog[i];
        let mut models: Vec<(String, Vec<String>)> = Vec::new();
        let mut k: usize = 0;
        while k < p.models.len()
            invariant
                k <= p.models@.len(),
                models@.len() == k,
                forall|b: int|
                    0 <= b < k ==> (#[trigger] models@[b]).0@ == p.models@[b].id@ && models@[b].1.deep_view()
                        == model_variants_spec(
                        p.models@[b].declared_variants.deep_view(),
                        p.id@,
                        p.models@[b].id@,
                        p.models@[b].reasoning,
                    ),
            decreases p.models.len() - k,
        {
            let m = &p.models[k];
            let v = model_variant_list(&m.declared_variants, p.id.as_str(), m.id.as_str(), m.reasoning);
            models.push((owned(m.id.as_str()), v));
            k = k + 1;
        }
        providers.push((owned(p.id.as_str()), models));
        i = i + 1;
    }
    VariantLookup { providers }
}

/// The variants listed for a configured model on the provider listings: those
/// it declares, in ascending order, else the catalogue's.
pub fn configured_variants_sorted(
    declared: &Vec<String>,
    lookup: &VariantLookup,
    provider_id: &str,
    model_id: &str,
) -> (r: Vec<String>)
    ensures
        r.deep_view() == (if declared@.len() > 0 {
            sort_texts(declared.deep_view())
        } else {
            variants_lookup_spec(lookup_view(lookup.providers@), provider_id@, model_id@)
        }),
{
    if declared.len() > 0 {
        sort_strings(declared)
    } else {
        variants_for_model(lookup, provider_id, model_id)
    }
}

/// The variants listed for a configured model on the configuration listing:
/// those it declares, as declared, else the catalogue's.
pub fn configured_variants_as_declared(
    declared: &Vec<String>,
    lookup: &VariantLookup,
    provider_id: &str,
    model_id: &str,
) -> (r: Vec<String>)
    ensures
        r.deep_view() == (if declared@.len() > 0 {
            declared.deep_view()
        } else {
            variants_lookup_spec(lookup_view(lookup.providers@), provider_id@, model_id@)
        }),
{
    if declared.len() > 0 {
        clone_strings(declared)
    } else {
        variants_for_model(lookup, provider_id, model_id)
    }
}

/// What the model catalogue says of a model.
pub struct CatalogModel<C> {
    pub id: String,
    pub name: String,
    pub context: u64,
    pub output: u64,
    pub cost_input: Option<C>,
    pub cost_output: Option<C>,
    pub capabilities: CatalogModelCapabilities,
}

/// A catalogue model as listed: not available, with its catalogue limits,
/// prices and capabilities.
pub open spec fn catalog_model_view<C>(provider_id: Seq<char>, m: CatalogModel<C>, variants: Seq<Seq<char>>) -> ModelView<C> {
    ModelView {
        id: m.id@,
        name: m.name@,
        provider: provider_id,
        available: false,
        variants: variants,
        context_window: Some(m.context),
        max_output_tokens: Some(m.output),
        cost_in: m.cost_input,
        cost_out: m.cost_output,
        capabilities: catalog_caps_spec(m.capabilities),
    }
}

/// Lists a catalogue model.
pub fn catalog_model_info<C: Copy>(provider_id: &str, model: &CatalogModel<C>, variants: Vec<String>) -> (r: ModelInfo<C>)
    ensures
        r@ == catalog_model_view(provider_id@, *model, variants.deep_view()),
{
    ModelInfo {
        id: owned(model.id.as_str()),
        name: owned(model.name.as_str()),
        provider: owned(provider_id),
        available: false,
        variants,
        context_window: Some(model.context),
        max_output_tokens: Some(model.output),
        cost_per_million_input: model.cost_input,
        cost_per_million_output: model.cost_output,
        capabilities: capability_info_from_catalog(&model.capabilities),
    }
}

/// What a connected provider says of a model it serves.
pub struct RuntimeModel<C> {
    pub id: String,
    pub name: String,
    pub provider: String,
    pub context_window: u64,
    pub max_output_tokens: u64,
    pub cost_input: C,
    pub cost_output: C,
    pub supports_tools: bool,
    pub supports_vision: bool,
}

/// A served model as listed: available, with the provider's limits, prices
/// and capabilities.
pub open spec fn runtime_model_view<C>(m: RuntimeModel<C>, variants: Seq<Seq<char>>) -> ModelView<C> {
    ModelView {
        id: m.id@,
        name: m.name@,
        provider: m.provider@,
        available: true,
        variants: variants,
        context_window: Some(m.context_window),
        max_output_tokens: Some(m.max_output_tokens),
        cost_in: Some(m.cost_input),
        cost_out: Some(m.cost_output),
        capabilities: runtime_caps_spec(m.supports_tools, m.supports_vision),
    }
}

/// Lists a served model.
pub fn runtime_model_info<C: Copy>(model: &RuntimeModel<C>, variants: Vec<String>) -> (r: ModelInfo<C>)
    ensures
        r@ == runtime_model_view(*model, variants.deep_view()),
{
    ModelInfo {
        id: owned(model.id.as_str()),
        name: owned(model.name.as_str()),
        provider: owned(model.provider.as_str()),
        available: true,
        variants,
        context_window: Some(model.context_window),
        max_output_tokens: Some(model.max_output_tokens),
        cost_per_million_input: Some(model.cost_input),
        cost_per_million_output: Some(model.cost_output),
        capabilities: capability_info_from_runtime(model.supports_tools, model.supports_vision),
    }
}

/// What the configuration says of a model.
pub struct ConfiguredModel<C> {
    pub name: Option<String>,
    pub model: Option<String>,
    pub declared_variants: Vec<String>,
    pub context: Option<u64>,
    pub output: Option<u64>,
    pub cost_input: Option<C>,
    pub cost_output: Option<C>,
    pub capabilities: ConfiguredModelCapabilities,
}


/// A configured model as listed under `model_id`: not available, named as
/// configured or by its id, with the configured limits, prices and
/// capabilities.
pub open spec fn configured_model_view<C>(
    provider_id: Seq<char>,
    model_id: Seq<char>,
    m: ConfiguredModel<C>,
    variants: Seq<Seq<char>>,
) -> ModelView<C> {
    ModelView {
        id: model_id,
        name: match opt_view(m.name) {
            Some(n) => n,
            None => model_id,
        },
        provider: provider_id,
        available: false,
        variants: variants,
        context_window: m.context,
        max_output_tokens: m.output,
        cost_in: m.cost_input,
        cost_out: m.cost_output,
        capabilities: config_caps_spec(m.capabilities),
    }
}

/// Lists a configured model under `model_id`.
pub fn configured_model_info<C: Copy>(
    provider_id: &str,
    model_id: &str,
    model: &ConfiguredModel<C>,
    variants: Vec<String>,
) -> (r: ModelInfo<C>)
    ensures
        r@ == configured_model_view(provider_id@, model_id@, *model, variants.deep_view()),
{
    ModelInfo {
        id: owned(model_id),
        name: match &model.name {
            Some(n) => owned(n.as_str()),
            None => owned(model_id),
        },
        provider: owned(provider_id),
        available: false,
        variants,
        context_window: model.context,
        max_output_tokens: model.output,
        cost_per_million_input: model.cost_input,
        cost_per_million_output: model.cost_output,
        capabilities: capability_info_from_config(&model.capabilities),
    }
}

/// The id a configured model is listed under: its `model`, else its key.
pub open spec fn configured_model_id(key: Seq<char>, m: Option<Seq<char>>) -> Seq<char> {
    match m {
        Some(x) => x,
        None => key,
    }
}

/// A provider of the model catalogue: its id, name, API endpoint, SDK
/// package and models.
pub struct CatalogProvider<C> {
    pub id: String,
    pub name: String,
    pub api: Option<String>,
    pub npm: Option<String>,
    pub env: Vec<String>,
    pub models: Vec<CatalogModel<C>>,
}

/// A configured provider: its name, SDK package, endpoint, the wire protocol
/// its profile resolves to (if it does), and its models by key.
pub struct ConfiguredProvider<C> {
    pub name: Option<String>,
    pub npm: Option<String>,
    pub base_url: Option<String>,
    pub wire_protocol: Option<String>,
    pub models: Vec<(String, ConfiguredModel<C>)>,
}

/// What the provider listing has gathered: display names, endpoints and wire
/// protocols by provider, and the models by provider.
pub struct ListingModel<C> {
    pub names: Map<Seq<char>, Seq<char>>,
    pub bases: Map<Seq<char>, Seq<char>>,
    pub protocols: Map<Seq<char>, Seq<char>>,
    pub table: Seq<(Seq<char>, Seq<ModelView<C>>)>,
}

/// `m`, with `v` under `k` unless `k` is there already.
pub open spec fn or_insert(m: Map<Seq<char>, Seq<char>>, k: Seq<char>, v: Seq<char>) -> Map<Seq<char>, Seq<char>> {
    if m.dom().contains(k) {
        m
    } else {
        m.insert(k, v)
    }
}

/// A table after a provider's catalogue models are entered, in order.
pub open spec fn enter_catalog_models<C>(
    t: Seq<(Seq<char>, Seq<ModelView<C>>)>,
    provider_id: Seq<char>,
    ms: Seq<CatalogModel<C>>,
    lv: Seq<(Seq<char>, Seq<(Seq<char>, Seq<Seq<char>>)>)>,
) -> Seq<(Seq<char>, Seq<ModelView<C>>)>
    decreases ms.len(),
{
    if ms.len() == 0 {
        t
    } else {
        let m = ms.last();
        table_upsert_spec(
            enter_catalog_models(t, provider_id, ms.drop_last(), lv),
            provider_id,
            catalog_model_view(provider_id, m, variants_lookup_spec(lv, provider_id, m.id@)),
            ModelSource::Catalog,
        )
    }
}

/// The listing after a catalogue provider is taken in: one whose SDK package
/// maps to no supported wire protocol is left out; otherwise its display
/// name, endpoint (when not blank) and protocol are recorded unless already
/// known, and its models entered.
#[verifier::opaque]
pub open spec fn catalog_step<C>(
    st: ListingModel<C>,
    p: CatalogProvider<C>,
    lv: Seq<(Seq<char>, Seq<(Seq<char>, Seq<Seq<char>>)>)>,
) -> ListingModel<C> {
    match p.npm {
        None => st,
        Some(npm) => match npm_protocol_spec(npm@) {
            None => st,
            Some(proto) => ListingModel {
                names: or_insert(st.names, p.id@, display_name_spec(p.id@, p.name@)),
                bases: match p.api {
                    Some(a) => if trim(a@).len() > 0 {
                        or_insert(st.bases, p.id@, a@)
                    } else {
                        st.bases
                    },
                    None => st.bases,
                },
                protocols: or_insert(st.protocols, p.id@, proto),
                table: enter_catalog_models(table_touch_spec(st.table, p.id@), p.id@, p.models@, lv),
            },
        },
    }
}

/// A table after a provider's configured models are entered, in order.
pub open spec fn enter_configured_models<C>(
    t: Seq<(Seq<char>, Seq<ModelView<C>>)>,
    provider_id: Seq<char>,
    ms: Seq<(String, ConfiguredModel<C>)>,
    lv: Seq<(Seq<char>, Seq<(Seq<char>, Seq<Seq<char>>)>)>,
) -> Seq<(Seq<char>, Seq<ModelView<C>>)>
    decreases ms.len(),
{
    if ms.len() == 0 {
        t
    } else {
        let (key, m) = ms.last();
        let id = configured_model_id(key@, opt_view(m.model));
        let variants = if m.declared_variants@.len() > 0 {
            sort_texts(m.declared_variants.deep_view())
        } else {
            variants_lookup_spec(lv, provider_id, id)
        };
        table_upsert_spec(
            enter_configured_models(t, provider_id, ms.drop_last(), lv),
            provider_id,
            configured_model_view(provider_id, id, m, variants),
            ModelSource::Config,
        )
    }
}

/// The listing after a configured provider is taken in: a non-blank
/// configured name replaces the display name (else the id is the name unless
/// one is known), a non-empty endpoint and a resolved protocol replace the
/// known ones, and its models are entered.
#[verifier::opaque]
pub open spec fn configured_step<C>(
    st: ListingModel<C>,
    id: Seq<char>,
    p: ConfiguredProvider<C>,
    lv: Seq<(Seq<char>, Seq<(Seq<char>, Seq<Seq<char>>)>)>,
) -> ListingModel<C> {
    ListingModel {
        names: match opt_view(p.name) {
            Some(n) => if trim(n).len() > 0 {
                st.names.insert(id, display_name_spec(id, n))
            } else {
                or_insert(st.names, id, display_name_spec(id, id))
            },
            None => or_insert(st.names, id, display_name_spec(id, id)),
        },
        bases: match opt_view(p.base_url) {
            Some(b) => if b.len() > 0 {
                st.bases.insert(id, b)
            } else {
                st.bases
            },
            None => st.bases,
        },
        protocols: match opt_view(p.wire_protocol) {
            Some(w) => st.protocols.insert(id, w),
            None => st.protocols,
        },
        table: enter_configured_models(table_touch_spec(st.table, id), id, p.models@, lv),
    }
}

/// The listing after a served model is taken in: its provider is named by
/// its id unless already named, and the model entered.
#[verifier::opaque]
pub open spec fn runtime_step<C>(
    st: ListingModel<C>,
    m: RuntimeModel<C>,
    lv: Seq<(Seq<char>, Seq<(Seq<char>, Seq<Seq<char>>)>)>,
) -> ListingModel<C> {
    ListingModel {
        names: or_insert(st.names, m.provider@, m.provider@),
        table: table_upsert_spec(
            table_touch_spec(st.table, m.provider@),
            m.provider@,
            runtime_model_view(m, variants_lookup_spec(lv, m.provider@, m.id@)),
            ModelSource::Runtime,
        ),
        ..st
    }
}

/// The listing being gathered.
pub struct ProviderListing<C> {
    names: TextMap,
    bases: TextMap,
    protocols: TextMap,
    table: ModelTable<C>,
}

fn enter_catalog_models_exec<C: Copy>(
    table: &mut ModelTable<C>,
    id: &str,
    models: &Vec<CatalogModel<C>>,
    lookup: &VariantLookup,
)
    ensures
        table_view(final(table).providers@) == enter_catalog_models(
            table_view(old(table).providers@),
            id@,
            models@,
            lookup_view(lookup.providers@),
        ),
{
    let ghost t0 = table_view(table.providers@);
    let ghost lv = lookup_view(lookup.providers@);
    let mut k: usize = 0;
    while k < models.len()
        invariant
            k <= models@.len(),
            lv == lookup_view(lookup.providers@),
            table_view(table.providers@) == enter_catalog_models(t0, id@, models@.subrange(0, k as int), lv),
        decreases models.len() - k,
    {
        proof {
            assert(models@.subrange(0, k + 1).drop_last() =~= models@.subrange(0, k as int));
        }
        let m = &models[k];
        let variants = variants_for_model(lookup, id, m.id.as_str());
        let info = catalog_model_info(id, m, variants);
        table.upsert(id, info, ModelSource::Catalog);
        k = k + 1;
    }
    proof {
        assert(models@.subrange(0, models@.len() as int) =~= models@);
    }
}

fn enter_configured_models_exec<C: Copy>(
    table: &mut ModelTable<C>,
    id: &str,
    models: &Vec<(String, ConfiguredModel<C>)>,
    lookup: &VariantLookup,
)
    ensures
        table_view(final(table).providers@) == enter_configured_models(
            table_view(old(table).providers@),
            id@,
            models@,
            lookup_view(lookup.providers@),
        ),
{
    let ghost t0 = table_view(table.providers@);
    let ghost lv = lookup_view(lookup.providers@);
    let mut k: usize = 0;
    while k < models.len()
        invariant
            k <= models@.len(),
            lv == lookup_view(lookup.providers@),
            table_view(table.providers@) == enter_configured_models(t0, id@, models@.subrange(0, k as int), lv),
        decreases models.len() - k,
    {
        proof {
            assert(models@.subrange(0, k + 1).drop_last() =~= models@.subrange(0, k as int));
        }
        let key = &models[k].0;
        let m = &models[k].1;
        let model_id = match &m.model {
            Some(x) => owned(x.as_str()),
            None => owned(key.as_str()),
        };
        let variants = configured_variants_sorted(&m.declared_variants, lookup, id, model_id.as_str());
        let info = configured_model_info(id, model_id.as_str(), m, variants);
        table.upsert(id, info, ModelSource::Config);
        k = k + 1;
    }
    proof {
        assert(models@.subrange(0, models@.len() as int) =~= models@);
    }
}

fn or_insert_exec(m: &mut TextMap, k: &str, v: &str)
    requires
        old(m).wf(),
    ensures
        final(m).wf(),
        final(m).view() == or_insert(old(m).view(), k@, v@),
{
    if !m.contains_key(k) {
        m.insert(k, owned(v));
    }
}

impl<C: Copy> ProviderListing<C> {
    /// What has been gathered.
    pub closed spec fn model(&self) -> ListingModel<C> {
        ListingModel {
            names: self.names.view(),
            bases: self.bases.view(),
            protocols: self.protocols.view(),
            table: table_view(self.table.providers@),
        }
    }

    /// The listing's own invariant.
    pub closed spec fn wf(&self) -> bool {
        self.names.wf() && self.bases.wf() && self.protocols.wf()
    }

    /// A listing with nothing gathered.
    pub fn new() -> (l: Self)
        ensures
            l.wf(),
            l.model() == empty_listing::<C>(),
    {
        let l = ProviderListing {
            names: TextMap::new(),
            bases: TextMap::new(),
            protocols: TextMap::new(),
            table: ModelTable::new(),
        };
        assert(table_view(l.table.providers@) =~= Seq::<(Seq<char>, Seq<ModelView<C>>)>::empty());
        l
    }

    /// Takes in a catalogue provider, as `catalog_step` says.
    pub fn add_catalog_provider(&mut self, p: &CatalogProvider<C>, lookup: &VariantLookup)
        requires
            old(self).wf(),
        ensures
            final(self).wf(),
            final(self).model() == catalog_step(old(self).model(), *p, lookup_view(lookup.providers@)),
    {
        proof {
            reveal(catalog_step);
        }
        let npm = match &p.npm {
            None => return,
            Some(n) => n.as_str(),
        };
        let proto = match catalog_wire_protocol(npm) {
            None => return,
            Some(x) => x,
        };
        let id = p.id.as_str();
        let display = provider_display_name(id, p.name.as_str());
        or_insert_exec(&mut self.names, id, display.as_str());
        match &p.api {
            Some(a) => {
                if trim_str(a.as_str()).as_str().unicode_len() > 0 {
                    or_insert_exec(&mut self.bases, id, a.as_str());
                }
            },
            None => {},
        }
        or_insert_exec(&mut self.protocols, id, proto);
        self.table.touch(id);
        enter_catalog_models_exec(&mut self.table, id, &p.models, lookup);
    }

    /// Takes in a configured provider, as `configured_step` says.
    pub fn add_configured_provider(&mut self, id: &str, p: &ConfiguredProvider<C>, lookup: &VariantLookup)
        requires
            old(self).wf(),
        ensures
            final(self).wf(),
            final(self).model() == configured_step(old(self).model(), id@, *p, lookup_view(lookup.providers@)),
    {
        proof {
            reveal(configured_step);
        }
        match &p.name {
            Some(n) => {
                if trim_str(n.as_str()).as_str().unicode_len() > 0 {
                    let display = provider_display_name(id, n.as_str());
                    self.names.insert(id, display);
                } else {
                    let display = provider_display_name(id, id);
                    or_insert_exec(&mut self.names, id, display.as_str());
                }
            },
            None => {
                let display = provider_display_name(id, id);
                or_insert_exec(&mut self.names, id, display.as_str());
            },
        }
        match &p.base_url {
            Some(b) => {
                if b.as_str().unicode_len() > 0 {
                    self.bases.insert(id, owned(b.as_str()));
                }
            },
            None => {},
        }
        match &p.wire_protocol {
            Some(w) => {
                self.protocols.insert(id, owned(w.as_str()));
            },
            None => {},
        }
        self.table.touch(id);
        enter_configured_models_exec(&mut self.table, id, &p.models, lookup);
    }

    /// Takes in a served model, as `runtime_step` says.
    pub fn add_runtime_model(&mut self, m: &RuntimeModel<C>, lookup: &VariantLookup)
        requires
            old(self).wf(),
        ensures
            final(self).wf(),
            final(self).model() == runtime_step(old(self).model(), *m, lookup_view(lookup.providers@)),
    {
        proof {
            reveal(runtime_step);
        }
        let pid = m.provider.as_str();
        or_insert_exec(&mut self.names, pid, pid);
        self.table.touch(pid);
        let variants = variants_for_model(lookup, pid, m.id.as_str());
        let info = runtime_model_info(m, variants);
        self.table.upsert(pid, info, ModelSource::Runtime);
    }
}

/// Whether key `a` orders before key `b`: by rank, then by text.
pub open spec fn key_lt(a: (u8, Seq<char>), b: (u8, Seq<char>)) -> bool {
    a.0 < b.0 || (a.0 == b.0 && seq_lt(a.1, b.1))
}

/// The keys and items of a keyed list.
pub open spec fn keyed_view<T: View>(v: Seq<((u8, String), T)>) -> Seq<((u8, Seq<char>), T::V)> {
    v.map_values(|e: ((u8, String), T)| ((e.0.0, e.0.1@), e.1@))
}

/// `s` with `x` placed after every entry whose key does not order after its
/// own.
pub open spec fn insert_keyed<V>(s: Seq<((u8, Seq<char>), V)>, x: ((u8, Seq<char>), V)) -> Seq<((u8, Seq<char>), V)>
    decreases s.len(),
{
    if s.len() == 0 {
        seq![x]
    } else if key_lt(x.0, s.last().0) {
        insert_keyed(s.drop_last(), x).push(s.last())
    } else {
        s.push(x)
    }
}

/// The entries in ascending order of key, equal keys in their original
/// order.
pub open spec fn sort_keyed_spec<V>(s: Seq<((u8, Seq<char>), V)>) -> Seq<((u8, Seq<char>), V)>
    decreases s.len(),
{
    if s.len() == 0 {
        Seq::empty()
    } else {
        insert_keyed(sort_keyed_spec(s.drop_last()), s.last())
    }
}

proof fn lemma_insert_keyed_at<V>(s: Seq<((u8, Seq<char>), V)>, x: ((u8, Seq<char>), V), pos: int)
    requires
        0 <= pos <= s.len(),
        forall|k: int| pos <= k < s.len() ==> key_lt(x.0, (#[trigger] s[k]).0),
        pos == 0 || !key_lt(x.0, s[pos - 1].0),
    ensures
        insert_keyed(s, x) == s.insert(pos, x),
    decreases s.len(),
{
    if s.len() == pos {
        if s.len() == 0 {
            assert(s.insert(pos, x) =~= seq![x]);
        } else {
            assert(s.insert(pos, x) =~= s.push(x));
        }
    } else {
        lemma_insert_keyed_at(s.drop_last(), x, pos);
        assert(s.drop_last().insert(pos, x).push(s.last()) =~= s.insert(pos, x));
    }
}

proof fn lemma_key_lt_transitive(a: (u8, Seq<char>), b: (u8, Seq<char>), c: (u8, Seq<char>))
    requires
        key_lt(a, b),
        key_lt(b, c),
    ensures
        key_lt(a, c),
{
    if a.0 == b.0 && b.0 == c.0 {
        lemma_seq_lt_transitive(a.1, b.1, c.1);
    }
}

proof fn lemma_key_lt_asymmetric(a: (u8, Seq<char>), b: (u8, Seq<char>))
    ensures
        !(key_lt(a, b) && key_lt(b, a)),
{
    lemma_seq_lt_asymmetric(a.1, b.1);
}

proof fn lemma_key_lt_total(a: (u8, Seq<char>), b: (u8, Seq<char>))
    requires
        a != b,
    ensures
        key_lt(a, b) || key_lt(b, a),
{
    if a.0 == b.0 {
        if a.1 == b.1 {
            assert(a == b);
        }
        lemma_seq_lt_total(a.1, b.1);
    }
}

/// The entries are in ascending order of key.
pub open spec fn keyed_sorted<V>(s: Seq<((u8, Seq<char>), V)>) -> bool {
    forall|i: int, j: int| 0 <= i < j < s.len() ==> !key_lt((#[trigger] s[j]).0, (#[trigger] s[i]).0)
}

proof fn lemma_insert_keyed_bound<V>(s: Seq<((u8, Seq<char>), V)>, x: ((u8, Seq<char>), V), b: (u8, Seq<char>))
    requires
        forall|i: int| 0 <= i < s.len() ==> !key_lt(b, (#[trigger] s[i]).0),
        !key_lt(b, x.0),
    ensures
        insert_keyed(s, x).len() == s.len() + 1,
        forall|i: int| 0 <= i < insert_keyed(s, x).len() ==> !key_lt(b, (#[trigger] insert_keyed(s, x)[i]).0),
    decreases s.len(),
{
    if s.len() > 0 && key_lt(x.0, s.last().0) {
        lemma_insert_keyed_bound(s.drop_last(), x, b);
        let r = insert_keyed(s, x);
        let p = insert_keyed(s.drop_last(), x);
        assert forall|i: int| 0 <= i < r.len() implies !key_lt(b, (#[trigger] r[i]).0) by {
            if i < p.len() {
                assert(r[i] == p[i]);
            } else {
                assert(r[i] == s.last());
            }
        }
    } else if s.len() > 0 {
        let r = insert_keyed(s, x);
        assert forall|i: int| 0 <= i < r.len() implies !key_lt(b, (#[trigger] r[i]).0) by {
            if i < s.len() {
                assert(r[i] == s[i]);
            }
        }
    }
}

proof fn lemma_insert_keyed_sorted<V>(s: Seq<((u8, Seq<char>), V)>, x: ((u8, Seq<char>), V))
    requires
        keyed_sorted(s),
    ensures
        keyed_sorted(insert_keyed(s, x)),
        insert_keyed(s, x).len() == s.len() + 1,
    decreases s.len(),
{
    if s.len() == 0 {
    } else if key_lt(x.0, s.last().0) {
        let l = s.last();
        let p = insert_keyed(s.drop_last(), x);
        lemma_insert_keyed_sorted(s.drop_last(), x);
        lemma_key_lt_asymmetric(x.0, l.0);
        assert forall|i: int| 0 <= i < s.drop_last().len() implies !key_lt(l.0, (#[trigger] s.drop_last()[i]).0) by {
            assert(s.drop_last()[i] == s[i]);
            assert(!key_lt(s[s.len() - 1].0, s[i].0));
        }
        lemma_insert_keyed_bound(s.drop_last(), x, l.0);
        let r = insert_keyed(s, x);
        assert(r == p.push(l));
        assert forall|i: int, j: int| 0 <= i < j < r.len() implies !key_lt((#[trigger] r[j]).0, (#[trigger] r[i]).0) by {
            if j < p.len() {
                assert(r[i] == p[i] && r[j] == p[j]);
            } else {
                assert(r[j] == l);
                assert(r[i] == p[i]);
            }
        }
    } else {
        let l = s.last();
        let r = s.push(x);
        assert forall|i: int, j: int| 0 <= i < j < r.len() implies !key_lt((#[trigger] r[j]).0, (#[trigger] r[i]).0) by {
            if j < s.len() {
                assert(r[i] == s[i] && r[j] == s[j]);
            } else {
                assert(r[j] == x);
                assert(r[i] == s[i]);
                if key_lt(x.0, s[i].0) {
                    if i == s.len() - 1 {
                        assert(s[i] == l);
                    } else {
                        assert(!key_lt(s[s.len() - 1].0, s[i].0));
                        if x.0 == l.0 {
                            assert(key_lt(l.0, s[i].0));
                        } else {
                            lemma_key_lt_total(x.0, l.0);
                            lemma_key_lt_transitive(l.0, x.0, s[i].0);
                        }
                    }
                }
            }
        }
    }
}

proof fn lemma_insert_keyed_members<V>(s: Seq<((u8, Seq<char>), V)>, x: ((u8, Seq<char>), V))
    ensures
        forall|k: int| 0 <= k < insert_keyed(s, x).len() ==> #[trigger] insert_keyed(s, x)[k] == x || s.contains(
            insert_keyed(s, x)[k],
        ),
    decreases s.len(),
{
    if s.len() > 0 && key_lt(x.0, s.last().0) {
        lemma_insert_keyed_members(s.drop_last(), x);
        let r = insert_keyed(s, x);
        let p = insert_keyed(s.drop_last(), x);
        assert forall|k: int| 0 <= k < r.len() implies #[trigger] r[k] == x || s.contains(r[k]) by {
            if k < p.len() {
                assert(r[k] == p[k]);
                if r[k] != x {
                    let w = choose|w: int| 0 <= w < s.drop_last().len() && s.drop_last()[w] == p[k];
                    assert(s[w] == r[k]);
                }
            } else {
                assert(r[k] == s[s.len() - 1]);
            }
        }
    } else if s.len() > 0 {
        let r = insert_keyed(s, x);
        assert forall|k: int| 0 <= k < r.len() implies #[trigger] r[k] == x || s.contains(r[k]) by {
            if k < s.len() {
                assert(r[k] == s[k]);
            }
        }
    }
}

/// Every entry that ordering by key gives is one of the entries ordered.
pub proof fn lemma_sort_keyed_members<V>(s: Seq<((u8, Seq<char>), V)>)
    ensures
        forall|k: int| 0 <= k < sort_keyed_spec(s).len() ==> s.contains(#[trigger] sort_keyed_spec(s)[k]),
    decreases s.len(),
{
    if s.len() > 0 {
        let p = s.drop_last();
        lemma_sort_keyed_members(p);
        lemma_insert_keyed_members(sort_keyed_spec(p), s.last());
        let r = sort_keyed_spec(s);
        assert forall|k: int| 0 <= k < r.len() implies s.contains(#[trigger] r[k]) by {
            if r[k] == s.last() {
                assert(s[s.len() - 1] == r[k]);
            } else {
                let q = sort_keyed_spec(p);
                let w = choose|w: int| 0 <= w < q.len() && q[w] == r[k];
                let v = choose|v: int| 0 <= v < p.len() && p[v] == q[w];
                assert(s[v] == r[k]);
            }
        }
    }
}

/// Ordering by key gives the entries in ascending order of key, all of them.
pub proof fn lemma_sort_keyed_sorted<V>(s: Seq<((u8, Seq<char>), V)>)
    ensures
        keyed_sorted(sort_keyed_spec(s)),
        sort_keyed_spec(s).len() == s.len(),
    decreases s.len(),
{
    if s.len() > 0 {
        lemma_sort_keyed_sorted(s.drop_last());
        lemma_insert_keyed_sorted(sort_keyed_spec(s.drop_last()), s.last());
    }
}

fn key_lt_exec(a: &(u8, String), b: &(u8, String)) -> (r: bool)
    ensures
        r == key_lt((a.0, a.1@), (b.0, b.1@)),
{
    a.0 < b.0 || (a.0 == b.0 && str_lt(a.1.as_str(), b.1.as_str()))
}

/// Orders entries by key, keeping the order of equal keys.
pub fn sort_keyed<T: View>(items: Vec<((u8, String), T)>) -> (r: Vec<((u8, String), T)>)
    ensures
        keyed_view(r@) == sort_keyed_spec(keyed_view(items@)),
{
    let ghost orig = keyed_view(items@);
    let n = items.len();
    let mut rest = items;
    let mut out: Vec<((u8, String), T)> = Vec::new();
    let mut k: usize = 0;
    proof {
        assert(orig.subrange(0, 0) =~= Seq::<((u8, Seq<char>), T::V)>::empty());
        assert(keyed_view(out@) =~= Seq::<((u8, Seq<char>), T::V)>::empty());
    }
    while k < n
        invariant
            n == orig.len(),
            k <= n,
            keyed_view(rest@) == orig.subrange(k as int, n as int),
            keyed_view(out@) == sort_keyed_spec(orig.subrange(0, k as int)),
        decreases n - k,
    {
        proof {
            assert(orig.subrange(0, k + 1).drop_last() =~= orig.subrange(0, k as int));
            assert(keyed_view(rest@).len() == rest@.len());
            assert(keyed_view(rest@)[0] == orig[k as int]);
        }
        let ghost rv = keyed_view(rest@);
        let x = rest.remove(0);
        proof {
            assert(keyed_view(rest@) =~= rv.drop_first());
            assert(rv.drop_first() =~= orig.subrange(k + 1, n as int));
        }
        let ghost ov = keyed_view(out@);
        let ghost xv = ((x.0.0, x.0.1@), x.1@);
        let mut pos = out.len();
        while pos > 0 && key_lt_exec(&x.0, &out[pos - 1].0)
            invariant
                pos <= out@.len(),
                ov == keyed_view(out@),
                xv == ((x.0.0, x.0.1@), x.1@),
                forall|q: int| pos <= q < ov.len() ==> key_lt(xv.0, (#[trigger] ov[q]).0),
            decreases pos,
        {
            pos = pos - 1;
        }
        proof {
            lemma_insert_keyed_at(ov, xv, pos as int);
        }
        out.insert(pos, x);
        proof {
            assert(keyed_view(out@) =~= ov.insert(pos as int, xv));
        }
        k = k + 1;
    }
    proof {
        assert(orig.subrange(0, n as int) =~= orig);
    }
    out
}

/// A provider as the provider listing shows it.
pub struct ProviderInfo<C> {
    pub id: String,
    pub name: String,
    pub base_url: Option<String>,
    pub protocol: Option<String>,
    pub disabled: bool,
    pub models: Vec<ModelInfo<C>>,
}

/// The model of a listed provider.
pub struct ProviderView<C> {
    pub id: Seq<char>,
    pub name: Seq<char>,
    pub base_url: Option<Seq<char>>,
    pub protocol: Option<Seq<char>>,
    pub disabled: bool,
    pub models: Seq<ModelView<C>>,
}

impl<C> View for ProviderInfo<C> {
    type V = ProviderView<C>;

    open spec fn view(&self) -> ProviderView<C> {
        ProviderView {
            id: self.id@,
            name: self.name@,
            base_url: opt_view(self.base_url),
            protocol: opt_view(self.protocol),
            disabled: self.disabled,
            models: models_view(self.models@),
        }
    }
}

/// The value under `k`, if any.
pub open spec fn map_get(m: Map<Seq<char>, Seq<char>>, k: Seq<char>) -> Option<Seq<char>> {
    if m.dom().contains(k) {
        Some(m[k])
    } else {
        None
    }
}

/// How a gathered provider is shown: named by its display name (else its
/// id), with its endpoint and protocol if known, whether it is disabled, and
/// its models in order of id.
pub open spec fn provider_view_spec<C>(
    st: ListingModel<C>,
    e: (Seq<char>, Seq<ModelView<C>>),
    disabled: Seq<Seq<char>>,
) -> ProviderView<C> {
    ProviderView {
        id: e.0,
        name: match map_get(st.names, e.0) {
            Some(n) => n,
            None => e.0,
        },
        base_url: map_get(st.bases, e.0),
        protocol: map_get(st.protocols, e.0),
        disabled: disabled.contains(e.0),
        models: sort_by_id(e.1),
    }
}

/// The listed providers before they are ordered by name, each with its
/// lower-cased name as key.
pub open spec fn keyed_providers<C>(st: ListingModel<C>, disabled: Seq<Seq<char>>) -> Seq<((u8, Seq<char>), ProviderView<C>)> {
    st.table.map_values(
        |e: (Seq<char>, Seq<ModelView<C>>)|
            ((0u8, unicode_lower(provider_view_spec(st, e, disabled).name)), provider_view_spec(st, e, disabled)),
    )
}


impl<C: Copy> ProviderListing<C> {
    /// The providers gathered, ordered by their lower-cased names.
    pub fn into_providers(self, disabled: &Vec<String>) -> (r: Vec<ProviderInfo<C>>)
        requires
            self.wf(),
        ensures
            r@.map_values(|p: ProviderInfo<C>| p@) == sort_keyed_spec(keyed_providers(self.model(), disabled.deep_view())).map_values(
                |e: ((u8, Seq<char>), ProviderView<C>)| e.1,
            ),
    {
        let ghost st = self.model();
        let ProviderListing { names, bases, protocols, table } = self;
        let mut entries = table.providers;
        let ghost tv = table_view(entries@);
        let n = entries.len();
        let mut keyed: Vec<((u8, String), ProviderInfo<C>)> = Vec::new();
        let mut k: usize = 0;
        proof {
            assert(keyed_view(keyed@) =~= keyed_providers(st, disabled.deep_view()).subrange(0, 0));
        }
        while k < n
            invariant
                n == tv.len(),
                k <= n,
                names.wf() && bases.wf() && protocols.wf(),
                st.names == names.view() && st.bases == bases.view() && st.protocols == protocols.view(),
                st.table == tv,
                table_view(entries@) == tv.subrange(k as int, n as int),
                keyed_view(keyed@) == keyed_providers(st, disabled.deep_view()).subrange(0, k as int),
            decreases n - k,
        {
            proof {
                assert(table_view(entries@).len() == entries@.len());
                assert(table_view(entries@)[0] == tv[k as int]);
            }
            let ghost ev = table_view(entries@);
            let (id, models) = entries.remove(0);
            proof {
                assert(table_view(entries@) =~= ev.drop_first());
                assert(ev.drop_first() =~= tv.subrange(k + 1, n as int));
            }
            let name = match names.get(id.as_str()) {
                Some(x) => x,
                None => owned(id.as_str()),
            };
            let base_url = bases.get(id.as_str());
            let protocol = protocols.get(id.as_str());
            let dis = text_listed(disabled, id.as_str());
            let sorted = sort_models_by_id(models);
            let key = to_lowercase(name.as_str());
            let info = ProviderInfo { id, name, base_url, protocol, disabled: dis, models: sorted };
            let ghost before = keyed_view(keyed@);
            let ghost iv = ((0u8, key@), info@);
            keyed.push(((0u8, key), info));
            proof {
                assert(keyed_view(keyed@) =~= before.push(iv));
                assert(iv == keyed_providers(st, disabled.deep_view())[k as int]);
                assert(keyed_providers(st, disabled.deep_view()).subrange(0, k + 1) =~= keyed_providers(
                    st,
                    disabled.deep_view(),
                ).subrange(0, k as int).push(iv));
            }
            k = k + 1;
        }
        proof {
            assert(keyed_providers(st, disabled.deep_view()).subrange(0, n as int) =~= keyed_providers(
                st,
                disabled.deep_view(),
            ));
        }
        let sorted = sort_keyed(keyed);
        let ghost sv = keyed_view(sorted@);
        let mut out: Vec<ProviderInfo<C>> = Vec::new();
        let mut rest = sorted;
        let m = rest.len();
        let mut i: usize = 0;
        proof {
            assert(out@.map_values(|p: ProviderInfo<C>| p@) =~= sv.subrange(0, 0).map_values(
                |e: ((u8, Seq<char>), ProviderView<C>)| e.1,
            ));
        }
        while i < m
            invariant
                m == sv.len(),
                i <= m,
                keyed_view(rest@) == sv.subrange(i as int, m as int),
                out@.map_values(|p: ProviderInfo<C>| p@) == sv.subrange(0, i as int).map_values(
                    |e: ((u8, Seq<char>), ProviderView<C>)| e.1,
                ),
            decreases m - i,
        {
            proof {
                assert(keyed_view(rest@).len() == rest@.len());
                assert(keyed_view(rest@)[0] == sv[i as int]);
            }
            let ghost rv = keyed_view(rest@);
            let (_, info) = rest.remove(0);
            proof {
                assert(keyed_view(rest@) =~= rv.drop_first());
                assert(rv.drop_first() =~= sv.subrange(i + 1, m as int));
            }
            let ghost before = out@.map_values(|p: ProviderInfo<C>| p@);
            let ghost iv = info@;
            out.push(info);
            proof {
                assert(out@.map_values(|p: ProviderInfo<C>| p@) =~= before.push(iv));
                assert(sv.subrange(0, i + 1).map_values(|e: ((u8, Seq<char>), ProviderView<C>)| e.1) =~= sv.subrange(
                    0,
                    i as int,
                ).map_values(|e: ((u8, Seq<char>), ProviderView<C>)| e.1).push(sv[i as int].1));
            }
            i = i + 1;
        }
        proof {
            assert(sv.subrange(0, m as int) =~= sv);
        }
        out
    }
}

/// The listing after the catalogue is taken in, provider by provider.
pub open spec fn catalog_fold<C>(
    st: ListingModel<C>,
    ps: Seq<CatalogProvider<C>>,
    lv: Seq<(Seq<char>, Seq<(Seq<char>, Seq<Seq<char>>)>)>,
) -> ListingModel<C>
    decreases ps.len(),
{
    if ps.len() == 0 {
        st
    } else {
        catalog_step(catalog_fold(st, ps.drop_last(), lv), ps.last(), lv)
    }
}

/// The listing after the configured providers are taken in.
pub open spec fn configured_fold<C>(
    st: ListingModel<C>,
    ps: Seq<(String, ConfiguredProvider<C>)>,
    lv: Seq<(Seq<char>, Seq<(Seq<char>, Seq<Seq<char>>)>)>,
) -> ListingModel<C>
    decreases ps.len(),
{
    if ps.len() == 0 {
        st
    } else {
        configured_step(configured_fold(st, ps.drop_last(), lv), ps.last().0@, ps.last().1, lv)
    }
}

/// The listing after the served models are taken in.
pub open spec fn runtime_fold<C>(
    st: ListingModel<C>,
    ms: Seq<RuntimeModel<C>>,
    lv: Seq<(Seq<char>, Seq<(Seq<char>, Seq<Seq<char>>)>)>,
) -> ListingModel<C>
    decreases ms.len(),
{
    if ms.len() == 0 {
        st
    } else {
        runtime_step(runtime_fold(st, ms.drop_last(), lv), ms.last(), lv)
    }
}

/// Nothing gathered.
pub open spec fn empty_listing<C>() -> ListingModel<C> {
    ListingModel {
        names: Map::empty(),
        bases: Map::empty(),
        protocols: Map::empty(),
        table: Seq::empty(),
    }
}

/// The provider listing: the catalogue's providers, then the configured
/// ones, then the served models, each source in turn overriding or filling
/// in what the earlier ones said.
pub open spec fn provider_listing_spec<C>(
    catalog: Seq<CatalogProvider<C>>,
    configured: Seq<(String, ConfiguredProvider<C>)>,
    runtime: Seq<RuntimeModel<C>>,
    lv: Seq<(Seq<char>, Seq<(Seq<char>, Seq<Seq<char>>)>)>,
) -> ListingModel<C> {
    runtime_fold(configured_fold(catalog_fold(empty_listing(), catalog, lv), configured, lv), runtime, lv)
}

impl<C: Copy> ProviderListing<C> {
    /// Takes in the catalogue, provider by provider.
    pub fn add_catalog(&mut self, catalog: &Vec<CatalogProvider<C>>, lookup: &VariantLookup)
        requires
            old(self).wf(),
        ensures
            final(self).wf(),
            final(self).model() == catalog_fold(old(self).model(), catalog@, lookup_view(lookup.providers@)),
    {
        let ghost s0 = self.model();
        let ghost lv = lookup_view(lookup.providers@);
        let mut i: usize = 0;
        while i < catalog.len()
            invariant
                i <= catalog@.len(),
                self.wf(),
                lv == lookup_view(lookup.providers@),
                self.model() == catalog_fold(s0, catalog@.subrange(0, i as int), lv),
            decreases catalog.len() - i,
        {
            proof {
                assert(catalog@.subrange(0, i + 1).drop_last() =~= catalog@.subrange(0, i as int));
            }
            self.add_catalog_provider(&catalog[i], lookup);
            i = i + 1;
        }
        proof {
            assert(catalog@.subrange(0, catalog@.len() as int) =~= catalog@);
        }
    }

    /// Takes in the configured providers.
    pub fn add_configured(&mut self, configured: &Vec<(String, ConfiguredProvider<C>)>, lookup: &VariantLookup)
        requires
            old(self).wf(),
        ensures
            final(self).wf(),
            final(self).model() == configured_fold(old(self).model(), configured@, lookup_view(lookup.providers@)),
    {
        let ghost s0 = self.model();
        let ghost lv = lookup_view(lookup.providers@);
        let mut i: usize = 0;
        while i < configured.len()
            invariant
                i <= configured@.len(),
                self.wf(),
                lv == lookup_view(lookup.providers@),
                self.model() == configured_fold(s0, configured@.subrange(0, i as int), lv),
            decreases configured.len() - i,
        {
            proof {
                assert(configured@.subrange(0, i + 1).drop_last() =~= configured@.subrange(0, i as int));
            }
            self.add_configured_provider(configured[i].0.as_str(), &configured[i].1, lookup);
            i = i + 1;
        }
        proof {
            assert(configured@.subrange(0, configured@.len() as int) =~= configured@);
        }
    }

    /// Takes in the served models.
    pub fn add_runtime(&mut self, runtime: &Vec<RuntimeModel<C>>, lookup: &VariantLookup)
        requires
            old(self).wf(),
        ensures
            final(self).wf(),
            final(self).model() == runtime_fold(old(self).model(), runtime@, lookup_view(lookup.providers@)),
    {
        let ghost s0 = self.model();
        let ghost lv = lookup_view(lookup.providers@);
        let mut i: usize = 0;
        while i < runtime.len()
            invariant
                i <= runtime@.len(),
                self.wf(),
                lv == lookup_view(lookup.providers@),
                self.model() == runtime_fold(s0, runtime@.subrange(0, i as int), lv),
            decreases runtime.len() - i,
        {
            proof {
                assert(runtime@.subrange(0, i + 1).drop_last() =~= runtime@.subrange(0, i as int));
            }
            self.add_runtime_model(&runtime[i], lookup);
            i = i + 1;
        }
        proof {
            assert(runtime@.subrange(0, runtime@.len() as int) =~= runtime@);
        }
    }
}

/// The first available model of each provider that has one, by provider id.
pub open spec fn available_defaults<C>(ps: Seq<ProviderView<C>>) -> Seq<(Seq<char>, Seq<char>)>
    decreases ps.len(),
{
    if ps.len() == 0 {
        Seq::empty()
    } else {
        let p = ps.last();
        available_defaults(ps.drop_last()) + if exists|j: int| 0 <= j < p.models.len() && (#[trigger] p.models[j]).available {
            seq![(p.id, p.models[choose|j: int| 0 <= j < p.models.len() && p.models[j].available && forall|q: int| 0 <= q < j ==> !p.models[q].available].id)]
        } else {
            Seq::empty()
        }
    }
}

/// What the provider listing endpoint answers: every provider ordered by
/// name, the default model of each provider (its first available model), and
/// the connected providers in order.
pub struct ProviderListResponse<C> {
    pub all: Vec<ProviderInfo<C>>,
    pub default_model: Vec<(String, String)>,
    pub connected: Vec<String>,
}

fn first_available<C>(p: &ProviderInfo<C>) -> (r: Option<usize>)
    ensures
        match r {
            Some(j) => j < p.models@.len() && p.models@[j as int].available && forall|q: int| 0 <= q < j ==> !p.models@[q].available,
            None => forall|q: int| 0 <= q < p.models@.len() ==> !p.models@[q].available,
        },
{
    let mut j: usize = 0;
    while j < p.models.len()
        invariant
            j <= p.models@.len(),
            forall|q: int| 0 <= q < j ==> !p.models@[q].available,
        decreases p.models.len() - j,
    {
        if p.models[j].available {
            return Some(j);
        }
        j = j + 1;
    }
    None
}

/// The first available model of each provider that has one.
pub fn default_models<C>(ps: &Vec<ProviderInfo<C>>) -> (r: Vec<(String, String)>)
    ensures
        r@.map_values(|e: (String, String)| (e.0@, e.1@)) == available_defaults(ps@.map_values(|p: ProviderInfo<C>| p@)),
{
    let ghost pv = ps@.map_values(|p: ProviderInfo<C>| p@);
    let mut out: Vec<(String, String)> = Vec::new();
    let mut i: usize = 0;
    proof {
        assert(out@.map_values(|e: (String, String)| (e.0@, e.1@)) =~= available_defaults(pv.subrange(0, 0)));
    }
    while i < ps.len()
        invariant
            i <= ps@.len(),
            pv == ps@.map_values(|p: ProviderInfo<C>| p@),
            out@.map_values(|e: (String, String)| (e.0@, e.1@)) == available_defaults(pv.subrange(0, i as int)),
        decreases ps.len() - i,
    {
        proof {
            assert(pv.subrange(0, i + 1).drop_last() =~= pv.subrange(0, i as int));
            assert(pv[i as int] == ps@[i as int]@);
        }
        let ghost before = out@.map_values(|e: (String, String)| (e.0@, e.1@));
        let p = &ps[i];
        let ghost pm = pv[i as int].models;
        match first_available(p) {
            Some(j) => {
                proof {
                    assert(pm[j as int] == p.models@[j as int]@);
                    let w = choose|q: int| 0 <= q < pm.len() && pm[q].available && forall|t: int| 0 <= t < q ==> !pm[t].available;
                    assert(pm[j as int].available);
                    if w < j {
                        assert(pm[w] == p.models@[w]@);
                    }
                    if w > j {
                        assert(!pm[j as int].available);
                    }
                }
                let e = (owned(p.id.as_str()), owned(p.models[j].id.as_str()));
                out.push(e);
                proof {
                    assert(out@.map_values(|e: (String, String)| (e.0@, e.1@)) =~= before.push((p.id@, p.models@[j as int].id@)));
                }
            },
            None => {
                proof {
                    assert forall|q: int| 0 <= q < pm.len() implies !(#[trigger] pm[q]).available by {
                        assert(pm[q] == p.models@[q]@);
                    }
                    assert(before + Seq::<(Seq<char>, Seq<char>)>::empty() =~= before);
                }
            },
        }
        i = i + 1;
    }
    proof {
        assert(pv.subrange(0, pv.len() as int) =~= pv);
    }
    out
}

/// Builds the provider listing from the catalogue, the configured providers
/// and the served models, with the catalogue's variant lookup, the connected
/// providers' ids and the disabled ones.
pub fn list_providers<C: Copy>(
    catalog: &Vec<CatalogProvider<C>>,
    configured: &Vec<(String, ConfiguredProvider<C>)>,
    runtime: &Vec<RuntimeModel<C>>,
    lookup: &VariantLookup,
    connected_ids: &Vec<String>,
    disabled: &Vec<String>,
) -> (r: ProviderListResponse<C>)
    ensures
        ({
            let st = provider_listing_spec(catalog@, configured@, runtime@, lookup_view(lookup.providers@));
            let all = sort_keyed_spec(keyed_providers(st, disabled.deep_view())).map_values(
                |e: ((u8, Seq<char>), ProviderView<C>)| e.1,
            );
            &&& r.all@.map_values(|p: ProviderInfo<C>| p@) == all
            &&& r.default_model@.map_values(|e: (String, String)| (e.0@, e.1@)) == available_defaults(all)
            &&& r.connected.deep_view() == sort_texts(connected_ids.deep_view())
        }),
{
    let mut listing: ProviderListing<C> = ProviderListing::new();
    listing.add_catalog(catalog, lookup);
    listing.add_configured(configured, lookup);
    listing.add_runtime(runtime, lookup);
    let all = listing.into_providers(disabled);
    let default_model = default_models(&all);
    let connected = sort_strings(connected_ids);
    ProviderListResponse { all, default_model, connected }
}

} // verus!

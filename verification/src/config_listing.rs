//! The provider listing of the configuration endpoint: the served models
//! first, then the configured ones, each provider with its models ordered
//! by id and its first model as the default.

use vstd::prelude::*;
use crate::text::opt_view;
use crate::text::{owned, str_eq};
use crate::text_map::TextMap;
use crate::provider_catalog::{
    ModelInfo, ModelView, ModelSource, models_view, sort_by_id, sort_models_by_id, ModelTable, table_view,
    table_upsert_spec, table_touch_spec, or_insert, map_get, VariantLookup, lookup_view, variants_lookup_spec,
    variants_for_model, configured_variants_as_declared, ConfiguredModel, configured_model_view, configured_model_info,
    configured_model_id, RuntimeModel, runtime_model_view, runtime_model_info, ConfiguredProvider,
};

verus! {

/// What the listing has gathered: provider names, and models by provider.
pub struct ConfigListingModel<C> {
    pub names: Map<Seq<char>, Seq<char>>,
    pub table: Seq<(Seq<char>, Seq<ModelView<C>>)>,
}

/// The listing after the served models are taken in, in turn: each names
/// its provider by its id unless already named, and is entered.
pub open spec fn config_runtime_fold<C>(
    st: ConfigListingModel<C>,
    rs: Seq<RuntimeModel<C>>,
    lv: Seq<(Seq<char>, Seq<(Seq<char>, Seq<Seq<char>>)>)>,
) -> ConfigListingModel<C>
    decreases rs.len(),
{
    if rs.len() == 0 {
        st
    } else {
        let prev = config_runtime_fold(st, rs.drop_last(), lv);
        let m = rs.last();
        ConfigListingModel {
            names: or_insert(prev.names, m.provider@, m.provider@),
            table: table_upsert_spec(
                prev.table,
                m.provider@,
                runtime_model_view(m, variants_lookup_spec(lv, m.provider@, m.id@)),
                ModelSource::Runtime,
            ),
        }
    }
}

/// The variants of a configured model on this listing: those it declares,
/// as declared, else the catalogue's.
pub open spec fn declared_or_lookup<C>(
    m: ConfiguredModel<C>,
    provider_id: Seq<char>,
    id: Seq<char>,
    lv: Seq<(Seq<char>, Seq<(Seq<char>, Seq<Seq<char>>)>)>,
) -> Seq<Seq<char>> {
    if m.declared_variants@.len() > 0 {
        m.declared_variants.deep_view()
    } else {
        variants_lookup_spec(lv, provider_id, id)
    }
}

/// A provider's models after its configured models are entered, in turn.
pub open spec fn config_models_fold<C>(
    t: Seq<(Seq<char>, Seq<ModelView<C>>)>,
    provider_id: Seq<char>,
    ms: Seq<(String, ConfiguredModel<C>)>,
    lv: Seq<(Seq<char>, Seq<(Seq<char>, Seq<Seq<char>>)>)>,
) -> Seq<(Seq<char>, Seq<ModelView<C>>)>
    decreases ms.len(),
{
    if ms.len() == 0 {
        t
    } else {
        let key = ms.last().0;
        let m = ms.last().1;
        let id = configured_model_id(key@, opt_view(m.model));
        table_upsert_spec(
            config_models_fold(t, provider_id, ms.drop_last(), lv),
            provider_id,
            configured_model_view(provider_id, id, m, declared_or_lookup(m, provider_id, id, lv)),
            ModelSource::Config,
        )
    }
}

/// The listing after the configured providers are taken in, in turn: each
/// is named by its configured name (else its id) unless already named, is
/// listed, and its models are entered.
pub open spec fn config_configured_fold<C>(
    st: ConfigListingModel<C>,
    ps: Seq<(String, ConfiguredProvider<C>)>,
    lv: Seq<(Seq<char>, Seq<(Seq<char>, Seq<Seq<char>>)>)>,
) -> ConfigListingModel<C>
    decreases ps.len(),
{
    if ps.len() == 0 {
        st
    } else {
        let prev = config_configured_fold(st, ps.drop_last(), lv);
        let id = ps.last().0@;
        let p = ps.last().1;
        ConfigListingModel {
            names: or_insert(
                prev.names,
                id,
                match opt_view(p.name) {
                    Some(n) => n,
                    None => id,
                },
            ),
            table: config_models_fold(table_touch_spec(prev.table, id), id, p.models@, lv),
        }
    }
}

/// A provider of the configuration listing: its id, name and models.
pub struct ConfigProviderInfo<C> {
    pub id: String,
    pub name: String,
    pub models: Vec<ModelInfo<C>>,
}

/// A listed provider's id, name and models.
pub open spec fn config_provider_view<C>(p: ConfigProviderInfo<C>) -> (Seq<char>, Seq<char>, Seq<ModelView<C>>) {
    (p.id@, p.name@, models_view(p.models@))
}

/// The providers listed from what was gathered: each in the order first
/// entered, named as gathered (else by its id), its models ordered by id.
pub open spec fn config_providers_spec<C>(st: ConfigListingModel<C>) -> Seq<(Seq<char>, Seq<char>, Seq<ModelView<C>>)> {
    st.table.map_values(
        |e: (Seq<char>, Seq<ModelView<C>>)|
            (
                e.0,
                match map_get(st.names, e.0) {
                    Some(n) => n,
                    None => e.0,
                },
                sort_by_id(e.1),
            ),
    )
}

/// The default model of each provider that has models: its first.
pub open spec fn config_defaults_spec<C>(ps: Seq<(Seq<char>, Seq<char>, Seq<ModelView<C>>)>) -> Seq<(Seq<char>, Seq<char>)>
    decreases ps.len(),
{
    if ps.len() == 0 {
        Seq::empty()
    } else {
        let prev = config_defaults_spec(ps.drop_last());
        let p = ps.last();
        if p.2.len() > 0 {
            prev.push((p.0, p.2[0].id))
        } else {
            prev
        }
    }
}

/// The configuration listing of providers and their default models.
pub struct ConfigProvidersResponse<C> {
    pub providers: Vec<ConfigProviderInfo<C>>,
    pub default_model: Vec<(String, String)>,
}

fn take_runtime<C: Copy>(names: &mut TextMap, table: &mut ModelTable<C>, runtime: &Vec<RuntimeModel<C>>, lookup: &VariantLookup)
    requires
        old(names).wf(),
    ensures
        final(names).wf(),
        ({
            let st = config_runtime_fold(
                ConfigListingModel { names: old(names).view(), table: table_view(old(table).providers@) },
                runtime@,
                lookup_view(lookup.providers@),
            );
            final(names).view() == st.names && table_view(final(table).providers@) == st.table
        }),
{
    let ghost st0 = ConfigListingModel { names: names.view(), table: table_view(table.providers@) };
    let ghost lv = lookup_view(lookup.providers@);
    let mut i: usize = 0;
    proof {
        assert(runtime@.subrange(0, 0) =~= Seq::<RuntimeModel<C>>::empty());
    }
    while i < runtime.len()
        invariant
            i <= runtime@.len(),
            names.wf(),
            lv == lookup_view(lookup.providers@),
            ({
                let st = config_runtime_fold(st0, runtime@.subrange(0, i as int), lv);
                names.view() == st.names && table_view(table.providers@) == st.table
            }),
        decreases runtime@.len() - i,
    {
        proof {
            let sub = runtime@.subrange(0, i + 1);
            assert(sub.drop_last() =~= runtime@.subrange(0, i as int));
            assert(sub.last() == runtime@[i as int]);
        }
        let m = &runtime[i];
        if !names.contains_key(m.provider.as_str()) {
            names.insert(m.provider.as_str(), owned(m.provider.as_str()));
        }
        let variants = variants_for_model(lookup, m.provider.as_str(), m.id.as_str());
        let info = runtime_model_info(m, variants);
        table.upsert(m.provider.as_str(), info, ModelSource::Runtime);
        i = i + 1;
    }
    proof {
        assert(runtime@.subrange(0, runtime@.len() as int) =~= runtime@);
    }
}

fn take_configured_models<C: Copy>(
    table: &mut ModelTable<C>,
    provider_id: &str,
    ms: &Vec<(String, ConfiguredModel<C>)>,
    lookup: &VariantLookup,
)
    ensures
        table_view(final(table).providers@) == config_models_fold(
            table_view(old(table).providers@),
            provider_id@,
            ms@,
            lookup_view(lookup.providers@),
        ),
{
    let ghost t0 = table_view(table.providers@);
    let ghost lv = lookup_view(lookup.providers@);
    let mut i: usize = 0;
    proof {
        assert(ms@.subrange(0, 0) =~= Seq::<(String, ConfiguredModel<C>)>::empty());
    }
    while i < ms.len()
        invariant
            i <= ms@.len(),
            lv == lookup_view(lookup.providers@),
            table_view(table.providers@) == config_models_fold(t0, provider_id@, ms@.subrange(0, i as int), lv),
        decreases ms@.len() - i,
    {
        proof {
            let sub = ms@.subrange(0, i + 1);
            assert(sub.drop_last() =~= ms@.subrange(0, i as int));
            assert(sub.last() == ms@[i as int]);
        }
        let key = &ms[i].0;
        let m = &ms[i].1;
        let id = match &m.model {
            Some(x) => owned(x.as_str()),
            None => owned(key.as_str()),
        };
        let variants = configured_variants_as_declared(&m.declared_variants, lookup, provider_id, id.as_str());
        let info = configured_model_info(provider_id, id.as_str(), m, variants);
        table.upsert(provider_id, info, ModelSource::Config);
        i = i + 1;
    }
    proof {
        assert(ms@.subrange(0, ms@.len() as int) =~= ms@);
    }
}

fn take_configured<C: Copy>(
    names: &mut TextMap,
    table: &mut ModelTable<C>,
    configured: &Vec<(String, ConfiguredProvider<C>)>,
    lookup: &VariantLookup,
)
    requires
        old(names).wf(),
    ensures
        final(names).wf(),
        ({
            let st = config_configured_fold(
                ConfigListingModel { names: old(names).view(), table: table_view(old(table).providers@) },
                configured@,
                lookup_view(lookup.providers@),
            );
            final(names).view() == st.names && table_view(final(table).providers@) == st.table
        }),
{
    let ghost st0 = ConfigListingModel { names: names.view(), table: table_view(table.providers@) };
    let ghost lv = lookup_view(lookup.providers@);
    let mut i: usize = 0;
    proof {
        assert(configured@.subrange(0, 0) =~= Seq::<(String, ConfiguredProvider<C>)>::empty());
    }
    while i < configured.len()
        invariant
            i <= configured@.len(),
            names.wf(),
            lv == lookup_view(lookup.providers@),
            ({
                let st = config_configured_fold(st0, configured@.subrange(0, i as int), lv);
                names.view() == st.names && table_view(table.providers@) == st.table
            }),
        decreases configured@.len() - i,
    {
        proof {
            let sub = configured@.subrange(0, i + 1);
            assert(sub.drop_last() =~= configured@.subrange(0, i as int));
            assert(sub.last() == configured@[i as int]);
        }
        let id = configured[i].0.as_str();
        let p = &configured[i].1;
        if !names.contains_key(id) {
            let name = match &p.name {
                Some(n) => owned(n.as_str()),
                None => owned(id),
            };
            names.insert(id, name);
        }
        table.touch(id);
        take_configured_models(table, id, &p.models, lookup);
        i = i + 1;
    }
    proof {
        assert(configured@.subrange(0, configured@.len() as int) =~= configured@);
    }
}

/// The gathered listing of served then configured providers.
pub open spec fn config_listing_spec<C>(
    runtime: Seq<RuntimeModel<C>>,
    configured: Seq<(String, ConfiguredProvider<C>)>,
    lv: Seq<(Seq<char>, Seq<(Seq<char>, Seq<Seq<char>>)>)>,
) -> ConfigListingModel<C> {
    config_configured_fold(
        config_runtime_fold(ConfigListingModel { names: Map::empty(), table: Seq::empty() }, runtime, lv),
        configured,
        lv,
    )
}

/// The configuration listing of providers: the served models, then the
/// configured providers and their models, with each provider's default
/// model.
pub fn get_config_providers<C: Copy>(
    runtime: &Vec<RuntimeModel<C>>,
    configured: &Vec<(String, ConfiguredProvider<C>)>,
    lookup: &VariantLookup,
) -> (r: ConfigProvidersResponse<C>)
    ensures
        ({
            let ps = config_providers_spec(config_listing_spec(runtime@, configured@, lookup_view(lookup.providers@)));
            &&& r.providers@.map_values(|p: ConfigProviderInfo<C>| config_provider_view(p)) == ps
            &&& r.default_model@.map_values(|e: (String, String)| (e.0@, e.1@)) == config_defaults_spec(ps)
        }),
{
    let mut names = TextMap::new();
    let mut table: ModelTable<C> = ModelTable::new();
    proof {
        assert(table_view(table.providers@) =~= Seq::<(Seq<char>, Seq<ModelView<C>>)>::empty());
    }
    take_runtime(&mut names, &mut table, runtime, lookup);
    take_configured(&mut names, &mut table, configured, lookup);
    let ghost st = ConfigListingModel { names: names.view(), table: table_view(table.providers@) };
    let ghost ps = config_providers_spec(st);
    let entries = table.providers;
    let ghost ev = table_view(entries@);
    let n = entries.len();
    let mut rest = entries;
    let mut providers: Vec<ConfigProviderInfo<C>> = Vec::new();
    let mut defaults: Vec<(String, String)> = Vec::new();
    let mut k: usize = 0;
    proof {
        assert(ps.subrange(0, 0) =~= Seq::<(Seq<char>, Seq<char>, Seq<ModelView<C>>)>::empty());
    }
    while k < n
        invariant
            n == ev.len(),
            k <= n,
            names.wf(),
            names.view() == st.names,
            ev == st.table,
            ps == config_providers_spec(st),
            table_view(rest@) == ev.subrange(k as int, n as int),
            providers@.map_values(|p: ConfigProviderInfo<C>| config_provider_view(p)) == ps.subrange(0, k as int),
            defaults@.map_values(|e: (String, String)| (e.0@, e.1@)) == config_defaults_spec(ps.subrange(0, k as int)),
        decreases n - k,
    {
        proof {
            assert(table_view(rest@).len() == rest@.len());
            assert(table_view(rest@)[0] == ev[k as int]);
        }
        let ghost rv = rest@;
        let (id, models) = rest.remove(0);
        proof {
            assert(table_view(rest@) =~= table_view(rv).drop_first());
            assert(table_view(rv).drop_first() =~= ev.subrange(k + 1, n as int));
        }
        let name = match names.get(id.as_str()) {
            Some(v) => v,
            None => owned(id.as_str()),
        };
        let sorted = sort_models_by_id(models);
        let info = ConfigProviderInfo { id, name, models: sorted };
        let ghost iv = config_provider_view(info);
        proof {
            assert(iv == ps[k as int]);
        }
        let ghost dbefore = defaults@.map_values(|e: (String, String)| (e.0@, e.1@));
        if info.models.len() > 0 {
            let d = (owned(info.id.as_str()), owned(info.models[0].id.as_str()));
            defaults.push(d);
            proof {
                assert(defaults@.map_values(|e: (String, String)| (e.0@, e.1@)) =~= dbefore.push(
                    (iv.0, iv.2[0].id),
                ));
            }
        }
        let ghost pbefore = providers@.map_values(|p: ConfigProviderInfo<C>| config_provider_view(p));
        providers.push(info);
        proof {
            let sub = ps.subrange(0, k + 1);
            assert(sub.drop_last() =~= ps.subrange(0, k as int));
            assert(sub.last() == iv);
            assert(providers@.map_values(|p: ConfigProviderInfo<C>| config_provider_view(p)) =~= pbefore.push(iv));
        }
        k = k + 1;
    }
    proof {
        assert(ps.subrange(0, n as int) =~= ps);
    }
    ConfigProvidersResponse { providers, default_model: defaults }
}

} // verus!

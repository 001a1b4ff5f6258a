//! The provider management listing: each provider that has credentials or a
//! configuration, with its state, its configured and served models, and its
//! place in the listing.

use vstd::prelude::*;
use crate::text::{opt_view, copy_opt, text_listed};
use crate::text::{owned, str_eq, trim, trim_str, sort_texts, seq_lt, unicode_lower, to_lowercase};
use crate::provider::{AuthKind, managed_status_spec, managed_provider_status, managed_provider_auth_type};
use crate::provider_catalog::{
    ModelInfo, ModelView, ModelSource, models_view, model_index, upsert_spec, upsert_model_info, find_model,
    sort_by_id, sort_models_by_id, VariantLookup, lookup_view, variants_lookup_spec, configured_variants_sorted,
    ConfiguredModel, configured_model_view, configured_model_info, configured_model_id, RuntimeModel,
    runtime_model_view, runtime_model_info, CatalogProvider, ConfiguredProvider, variants_for_model,
    key_lt, keyed_view, sort_keyed_spec, sort_keyed, first_under, keyed_sorted, lemma_sort_keyed_sorted,
    lemma_sort_keyed_members,
};
use crate::command_args::clone_strings;
use crate::provider::modality_contains;

verus! {

/// A provider's models after `m` is put in: replacing the model of its id,
/// or added at the end.
pub open spec fn put_spec<C>(models: Seq<ModelView<C>>, m: ModelView<C>) -> Seq<ModelView<C>> {
    match model_index(models, m.id) {
        Some(i) => models.update(i, m),
        None => models.push(m),
    }
}

/// Puts a model into a provider's models, replacing the model of its id.
pub fn put_model_info<C>(models: &mut Vec<ModelInfo<C>>, model: ModelInfo<C>)
    ensures
        models_view(final(models)@) == put_spec(models_view(old(models)@), model@),
{
    let ghost raw = models@;
    let ghost m = model;
    match find_model(models, model.id.as_str()) {
        Some(i) => {
            models.set(i, model);
            proof {
                assert(models_view(models@) =~= models_view(raw).update(i as int, m@));
            }
        },
        None => {
            models.push(model);
            proof {
                assert(models_view(models@) =~= models_view(raw).push(m@));
            }
        },
    }
}

/// The variants of a configured model: those it declares, in ascending
/// order, else the catalogue's.
pub open spec fn configured_variants_spec<C>(
    m: ConfiguredModel<C>,
    provider_id: Seq<char>,
    id: Seq<char>,
    lv: Seq<(Seq<char>, Seq<(Seq<char>, Seq<Seq<char>>)>)>,
) -> Seq<Seq<char>> {
    if m.declared_variants@.len() > 0 {
        sort_texts(m.declared_variants.deep_view())
    } else {
        variants_lookup_spec(lv, provider_id, id)
    }
}

/// A provider's configured models, each put in under its id in turn.
pub open spec fn managed_configured_models<C>(
    provider_id: Seq<char>,
    ms: Seq<(String, ConfiguredModel<C>)>,
    lv: Seq<(Seq<char>, Seq<(Seq<char>, Seq<Seq<char>>)>)>,
) -> Seq<ModelView<C>>
    decreases ms.len(),
{
    if ms.len() == 0 {
        Seq::empty()
    } else {
        let key = ms.last().0;
        let m = ms.last().1;
        let id = configured_model_id(key@, opt_view(m.model));
        put_spec(
            managed_configured_models(provider_id, ms.drop_last(), lv),
            configured_model_view(provider_id, id, m, configured_variants_spec(m, provider_id, id, lv)),
        )
    }
}

/// `models` after the served models of the provider are merged in, in turn.
pub open spec fn managed_runtime_models<C>(
    models: Seq<ModelView<C>>,
    provider_id: Seq<char>,
    rs: Seq<RuntimeModel<C>>,
    lv: Seq<(Seq<char>, Seq<(Seq<char>, Seq<Seq<char>>)>)>,
) -> Seq<ModelView<C>>
    decreases rs.len(),
{
    if rs.len() == 0 {
        models
    } else {
        let prev = managed_runtime_models(models, provider_id, rs.drop_last(), lv);
        let m = rs.last();
        if m.provider@ == provider_id {
            upsert_spec(prev, runtime_model_view(m, variants_lookup_spec(lv, provider_id, m.id@)), ModelSource::Runtime)
        } else {
            prev
        }
    }
}

/// The models listed for a managed provider: its configured models, merged
/// with the models it serves, ordered by id.
pub open spec fn managed_models_spec<C>(
    provider_id: Seq<char>,
    configured: Seq<(String, ConfiguredModel<C>)>,
    runtime: Seq<RuntimeModel<C>>,
    lv: Seq<(Seq<char>, Seq<(Seq<char>, Seq<Seq<char>>)>)>,
) -> Seq<ModelView<C>> {
    sort_by_id(managed_runtime_models(managed_configured_models(provider_id, configured, lv), provider_id, runtime, lv))
}

fn enter_configured<C: Copy>(
    provider_id: &str,
    configured: &Vec<(String, ConfiguredModel<C>)>,
    lookup: &VariantLookup,
) -> (r: Vec<ModelInfo<C>>)
    ensures
        models_view(r@) == managed_configured_models(provider_id@, configured@, lookup_view(lookup.providers@)),
{
    let ghost lv = lookup_view(lookup.providers@);
    let mut models: Vec<ModelInfo<C>> = Vec::new();
    let mut i: usize = 0;
    proof {
        assert(configured@.subrange(0, 0) =~= Seq::<(String, ConfiguredModel<C>)>::empty());
        assert(models_view(models@) =~= Seq::<ModelView<C>>::empty());
    }
    while i < configured.len()
        invariant
            i <= configured@.len(),
            lv == lookup_view(lookup.providers@),
            models_view(models@) == managed_configured_models(provider_id@, configured@.subrange(0, i as int), lv),
        decreases configured@.len() - i,
    {
        let key = &configured[i].0;
        let m = &configured[i].1;
        let id = match &m.model {
            Some(x) => owned(x.as_str()),
            None => owned(key.as_str()),
        };
        let variants = configured_variants_sorted(&m.declared_variants, lookup, provider_id, id.as_str());
        let info = configured_model_info(provider_id, id.as_str(), m, variants);
        put_model_info(&mut models, info);
        proof {
            let sub = configured@.subrange(0, i + 1);
            assert(sub.drop_last() =~= configured@.subrange(0, i as int));
            assert(sub.last() == configured@[i as int]);
        }
        i = i + 1;
    }
    proof {
        assert(configured@.subrange(0, configured@.len() as int) =~= configured@);
    }
    models
}

fn enter_runtime<C: Copy>(
    models: &mut Vec<ModelInfo<C>>,
    provider_id: &str,
    runtime: &Vec<RuntimeModel<C>>,
    lookup: &VariantLookup,
)
    ensures
        models_view(final(models)@) == managed_runtime_models(
            models_view(old(models)@),
            provider_id@,
            runtime@,
            lookup_view(lookup.providers@),
        ),
{
    let ghost lv = lookup_view(lookup.providers@);
    let ghost start = models_view(models@);
    let mut i: usize = 0;
    proof {
        assert(runtime@.subrange(0, 0) =~= Seq::<RuntimeModel<C>>::empty());
    }
    while i < runtime.len()
        invariant
            i <= runtime@.len(),
            lv == lookup_view(lookup.providers@),
            models_view(models@) == managed_runtime_models(start, provider_id@, runtime@.subrange(0, i as int), lv),
        decreases runtime@.len() - i,
    {
        let m = &runtime[i];
        proof {
            let sub = runtime@.subrange(0, i + 1);
            assert(sub.drop_last() =~= runtime@.subrange(0, i as int));
            assert(sub.last() == runtime@[i as int]);
        }
        if str_eq(m.provider.as_str(), provider_id) {
            let variants = variants_for_model(lookup, provider_id, m.id.as_str());
            let info = runtime_model_info(m, variants);
            upsert_model_info(models, info, ModelSource::Runtime);
        }
        i = i + 1;
    }
    proof {
        assert(runtime@.subrange(0, runtime@.len() as int) =~= runtime@);
    }
}

/// The models listed for a managed provider, as `managed_models_spec` says.
pub fn managed_models<C: Copy>(
    provider_id: &str,
    configured: &Vec<(String, ConfiguredModel<C>)>,
    runtime: &Vec<RuntimeModel<C>>,
    lookup: &VariantLookup,
) -> (r: Vec<ModelInfo<C>>)
    ensures
        models_view(r@) == managed_models_spec(provider_id@, configured@, runtime@, lookup_view(lookup.providers@)),
{
    let mut models = enter_configured(provider_id, configured, lookup);
    enter_runtime(&mut models, provider_id, runtime, lookup);
    sort_models_by_id(models)
}


/// A provider as the management listing shows it.
pub struct ManagedProviderInfo<C> {
    pub id: String,
    pub name: String,
    pub status: String,
    pub connected: bool,
    pub has_auth: bool,
    pub auth_type: Option<String>,
    pub configured: bool,
    pub known: bool,
    pub disabled: bool,
    pub env: Vec<String>,
    pub known_model_count: usize,
    pub base_url: Option<String>,
    pub protocol: Option<String>,
    pub models: Vec<ModelInfo<C>>,
}

impl<C> View for ManagedProviderInfo<C> {
    type V = ManagedProviderInfo<C>;

    open spec fn view(&self) -> ManagedProviderInfo<C> {
        *self
    }
}

/// The name a managed provider is shown under: its configured name where
/// that is not blank, else the catalogue's, else its id.
pub open spec fn managed_name_spec(id: Seq<char>, configured_name: Option<Seq<char>>, known_name: Option<Seq<char>>) -> Seq<char> {
    let from_config = match configured_name {
        Some(n) => trim(n).len() > 0,
        None => false,
    };
    if from_config {
        configured_name->0
    } else {
        match known_name {
            Some(k) => k,
            None => id,
        }
    }
}

/// The name a managed provider is shown under.
pub fn managed_provider_name(id: &str, configured_name: Option<&str>, known_name: Option<&str>) -> (r: String)
    ensures
        r@ == managed_name_spec(
            id@,
            match configured_name {
                Some(n) => Some(n@),
                None => None,
            },
            match known_name {
                Some(k) => Some(k@),
                None => None,
            },
        ),
{
    if let Some(n) = configured_name {
        if trim_str(n).as_str().unicode_len() > 0 {
            return owned(n);
        }
    }
    match known_name {
        Some(k) => owned(k),
        None => owned(id),
    }
}

/// The configured models of a provider, none where it is not configured.
pub open spec fn configured_models_of<C>(configured: Option<ConfiguredProvider<C>>) -> Seq<(String, ConfiguredModel<C>)> {
    match configured {
        Some(p) => p.models@,
        None => Seq::empty(),
    }
}

/// What the management listing shows of provider `id`, from its
/// configuration and catalogue entry where it has them, the served models,
/// whether it is connected, its stored credentials and whether it is
/// disabled.
pub open spec fn managed_info_holds<C>(
    r: ManagedProviderInfo<C>,
    id: Seq<char>,
    configured: Option<ConfiguredProvider<C>>,
    known: Option<CatalogProvider<C>>,
    runtime: Seq<RuntimeModel<C>>,
    lv: Seq<(Seq<char>, Seq<(Seq<char>, Seq<Seq<char>>)>)>,
    connected: bool,
    auth: Option<AuthKind>,
    disabled: bool,
) -> bool {
    &&& r.id@ == id
    &&& r.name@ == managed_name_spec(
        id,
        match configured {
            Some(p) => opt_view(p.name),
            None => None,
        },
        match known {
            Some(k) => Some(k.name@),
            None => None,
        },
    )
    &&& r.status@ == managed_status_spec(connected, configured is Some, auth is Some)
    &&& r.connected == connected
    &&& r.has_auth == auth is Some
    &&& opt_view(r.auth_type) == match auth {
        Some(AuthKind::Api) => Some("api"@),
        Some(AuthKind::OAuth) => Some("oauth"@),
        Some(AuthKind::WellKnown) => Some("wellknown"@),
        None => None::<Seq<char>>,
    }
    &&& r.configured == configured is Some
    &&& r.known == known is Some
    &&& r.disabled == disabled
    &&& r.env.deep_view() == match known {
        Some(k) => k.env.deep_view(),
        None => Seq::empty(),
    }
    &&& r.known_model_count == match known {
        Some(k) => k.models@.len(),
        None => 0,
    }
    &&& opt_view(r.base_url) == match configured {
        Some(p) => opt_view(p.base_url),
        None => None,
    }
    &&& opt_view(r.protocol) == match configured {
        Some(p) => opt_view(p.wire_protocol),
        None => None,
    }
    &&& models_view(r.models@) == managed_models_spec(id, configured_models_of(configured), runtime, lv)
}


/// What the management listing shows of provider `id`, as
/// `managed_info_holds` says.
pub fn managed_provider_info<C: Copy>(
    id: &str,
    configured: Option<&ConfiguredProvider<C>>,
    known: Option<&CatalogProvider<C>>,
    runtime: &Vec<RuntimeModel<C>>,
    lookup: &VariantLookup,
    connected: bool,
    auth: Option<AuthKind>,
    disabled: bool,
) -> (r: ManagedProviderInfo<C>)
    ensures
        managed_info_holds(
            r,
            id@,
            match configured {
                Some(p) => Some(*p),
                None => None,
            },
            match known {
                Some(k) => Some(*k),
                None => None,
            },
            runtime@,
            lookup_view(lookup.providers@),
            connected,
            auth,
            disabled,
        ),
{
    let configured_name: Option<&str> = match configured {
        Some(p) => match &p.name {
            Some(n) => Some(n.as_str()),
            None => None,
        },
        None => None,
    };
    let known_name: Option<&str> = match known {
        Some(k) => Some(k.name.as_str()),
        None => None,
    };
    let name = managed_provider_name(id, configured_name, known_name);
    let status = owned(managed_provider_status(connected, configured.is_some(), auth.is_some()));
    let no_models: Vec<(String, ConfiguredModel<C>)> = Vec::new();
    let models = match configured {
        Some(p) => managed_models(id, &p.models, runtime, lookup),
        None => {
            proof {
                assert(no_models@ =~= Seq::<(String, ConfiguredModel<C>)>::empty());
            }
            managed_models(id, &no_models, runtime, lookup)
        },
    };
    let env = match known {
        Some(k) => clone_strings(&k.env),
        None => {
            let e: Vec<String> = Vec::new();
            proof {
                assert(e.deep_view() =~= Seq::<Seq<char>>::empty());
            }
            e
        },
    };
    ManagedProviderInfo {
        id: owned(id),
        name,
        status,
        connected,
        has_auth: auth.is_some(),
        auth_type: managed_provider_auth_type(auth),
        configured: configured.is_some(),
        known: known.is_some(),
        disabled,
        env,
        known_model_count: match known {
            Some(k) => k.models.len(),
            None => 0,
        },
        base_url: match configured {
            Some(p) => copy_opt(&p.base_url),
            None => None,
        },
        protocol: match configured {
            Some(p) => copy_opt(&p.wire_protocol),
            None => None,
        },
        models,
    }
}

/// The rank of a managed provider in the listing: connected ones first,
/// and among equals those with credentials first.
pub open spec fn managed_rank(connected: bool, has_auth: bool) -> u8 {
    if connected {
        if has_auth { 0u8 } else { 1u8 }
    } else {
        if has_auth { 2u8 } else { 3u8 }
    }
}

/// The key a managed provider is ordered by: its rank, then its name in
/// lower case.
pub open spec fn managed_key<C>(p: ManagedProviderInfo<C>) -> (u8, Seq<char>) {
    (managed_rank(p.connected, p.has_auth), unicode_lower(p.name@))
}

/// The managed providers in listing order: connected first, then those with
/// credentials, then by name ignoring case; equals keep their order.
pub open spec fn sort_managed_spec<C>(ps: Seq<ManagedProviderInfo<C>>) -> Seq<ManagedProviderInfo<C>> {
    sort_keyed_spec(ps.map_values(|p: ManagedProviderInfo<C>| (managed_key(p), p))).map_values(
        |e: ((u8, Seq<char>), ManagedProviderInfo<C>)| e.1,
    )
}

/// Orders managed providers for the listing.
pub fn sort_managed_providers<C>(ps: Vec<ManagedProviderInfo<C>>) -> (r: Vec<ManagedProviderInfo<C>>)
    ensures
        r@ == sort_managed_spec(ps@),
{
    let ghost orig = ps@;
    let n = ps.len();
    let mut rest = ps;
    let mut keyed: Vec<((u8, String), ManagedProviderInfo<C>)> = Vec::new();
    let mut k: usize = 0;
    while k < n
        invariant
            n == orig.len(),
            k <= n,
            rest@ == orig.subrange(k as int, n as int),
            keyed_view(keyed@) == orig.subrange(0, k as int).map_values(
                |p: ManagedProviderInfo<C>| (managed_key(p), p),
            ),
        decreases n - k,
    {
        let ghost rv = rest@;
        let p = rest.remove(0);
        proof {
            assert(rest@ =~= rv.drop_first());
            assert(rv.drop_first() =~= orig.subrange(k + 1, n as int));
        }
        proof {
            assert(rv[0] == orig[k as int]);
        }
        let rank: u8 = if p.connected {
            if p.has_auth { 0u8 } else { 1u8 }
        } else {
            if p.has_auth { 2u8 } else { 3u8 }
        };
        let key = to_lowercase(p.name.as_str());
        let ghost before = keyed_view(keyed@);
        let ghost entry = (managed_key(p), p);
        proof {
            assert(rank == managed_rank(p.connected, p.has_auth));
            assert(key@ == unicode_lower(p.name@));
            assert(p@ == p);
        }
        keyed.push(((rank, key), p));
        proof {
            assert(keyed_view(keyed@) =~= before.push(entry));
            assert(keyed_view(keyed@) =~= orig.subrange(0, k + 1).map_values(
                |p: ManagedProviderInfo<C>| (managed_key(p), p),
            ));
        }
        k = k + 1;
    }
    proof {
        assert(orig.subrange(0, n as int) =~= orig);
    }
    let sorted = sort_keyed(keyed);
    let ghost sv = keyed_view(sorted@);
    let m = sorted.len();
    let mut rest2 = sorted;
    let mut out: Vec<ManagedProviderInfo<C>> = Vec::new();
    let mut j: usize = 0;
    while j < m
        invariant
            m == sv.len(),
            j <= m,
            keyed_view(rest2@) == sv.subrange(j as int, m as int),
            out@ == sv.subrange(0, j as int).map_values(|e: ((u8, Seq<char>), ManagedProviderInfo<C>)| e.1),
        decreases m - j,
    {
        let ghost rv = rest2@;
        proof {
            assert(keyed_view(rest2@).len() == rest2@.len());
        }
        let e = rest2.remove(0);
        proof {
            assert(keyed_view(rest2@) =~= keyed_view(rv).drop_first());
            assert(keyed_view(rv)[0] == sv[j as int]);
        }
        out.push(e.1);
        proof {
            assert(out@ =~= sv.subrange(0, j + 1).map_values(|e: ((u8, Seq<char>), ManagedProviderInfo<C>)| e.1));
        }
        j = j + 1;
    }
    proof {
        assert(sv.subrange(0, m as int) =~= sv);
    }
    out
}


/// The management listing puts connected providers first; among providers
/// equally connected, those with credentials first; and among providers of
/// the same standing, names in ascending order ignoring case. No provider is
/// lost or added.
pub proof fn lemma_managed_listing_order<C>(ps: Seq<ManagedProviderInfo<C>>)
    ensures
        ({
            let r = sort_managed_spec(ps);
            &&& r.len() == ps.len()
            &&& forall|k: int| 0 <= k < r.len() ==> ps.contains(#[trigger] r[k])
            &&& forall|i: int, j: int|
                0 <= i < j < r.len() && (#[trigger] r[j]).connected ==> (#[trigger] r[i]).connected
            &&& forall|i: int, j: int|
                0 <= i < j < r.len() && (#[trigger] r[i]).connected == (#[trigger] r[j]).connected && r[j].has_auth
                    ==> r[i].has_auth
            &&& forall|i: int, j: int|
                0 <= i < j < r.len() && (#[trigger] r[i]).connected == (#[trigger] r[j]).connected && r[i].has_auth
                    == r[j].has_auth ==> !seq_lt(unicode_lower(r[j].name@), unicode_lower(r[i].name@))
        }),
{
    let m = ps.map_values(|p: ManagedProviderInfo<C>| (managed_key(p), p));
    let sorted = sort_keyed_spec(m);
    lemma_sort_keyed_sorted(m);
    lemma_sort_keyed_members(m);
    let r = sort_managed_spec(ps);
    assert(r == sorted.map_values(|e: ((u8, Seq<char>), ManagedProviderInfo<C>)| e.1));
    assert forall|k: int| 0 <= k < sorted.len() implies (#[trigger] sorted[k]).0 == managed_key(sorted[k].1)
        && ps.contains(sorted[k].1) by {
        assert(m.contains(sorted[k]));
        let w = choose|w: int| 0 <= w < m.len() && m[w] == sorted[k];
        assert(m[w] == (managed_key(ps[w]), ps[w]));
    }
    assert forall|k: int| 0 <= k < r.len() implies ps.contains(#[trigger] r[k]) by {
        assert(r[k] == sorted[k].1);
    }
    assert forall|i: int, j: int| 0 <= i < j < r.len() implies ({
        let a = #[trigger] r[i];
        let b = #[trigger] r[j];
        &&& b.connected ==> a.connected
        &&& a.connected == b.connected && b.has_auth ==> a.has_auth
        &&& a.connected == b.connected && a.has_auth == b.has_auth ==> !seq_lt(unicode_lower(b.name@), unicode_lower(a.name@))
    }) by {
        assert(r[i] == sorted[i].1 && r[j] == sorted[j].1);
        assert(sorted[i].0 == managed_key(sorted[i].1));
        assert(sorted[j].0 == managed_key(sorted[j].1));
        assert(!key_lt(sorted[j].0, sorted[i].0));
    }
}

/// Entries keyed by text, with their keys as texts.
pub open spec fn keyed_seq<V>(s: Seq<(String, V)>) -> Seq<(Seq<char>, V)> {
    s.map_values(|e: (String, V)| (e.0@, e.1))
}

/// The catalogue providers keyed by id.
pub open spec fn known_seq<C>(s: Seq<CatalogProvider<C>>) -> Seq<(Seq<char>, CatalogProvider<C>)> {
    s.map_values(|p: CatalogProvider<C>| (p.id@, p))
}

proof fn lemma_first_at<V>(s: Seq<(Seq<char>, V)>, key: Seq<char>, i: int)
    requires
        0 <= i < s.len(),
        s[i].0 == key,
        forall|j: int| 0 <= j < i ==> s[j].0 != key,
    ensures
        first_under(s, key) == Some(s[i].1),
{
    let w = choose|k: int| 0 <= k < s.len() && s[k].0 == key && forall|j: int| 0 <= j < k ==> s[j].0 != key;
    if w < i {
        assert(s[w].0 != key);
    }
    if w > i {
        assert(s[i].0 != key);
    }
}

/// The position of the first entry under `key`.
pub fn find_key<V>(s: &Vec<(String, V)>, key: &str) -> (r: Option<usize>)
    ensures
        r matches Some(i) ==> i < s@.len() && first_under(keyed_seq(s@), key@) == Some(s@[i as int].1),
        r is None ==> first_under(keyed_seq(s@), key@) is None,
{
    let ghost ks = keyed_seq(s@);
    let mut i: usize = 0;
    while i < s.len()
        invariant
            i <= s@.len(),
            ks == keyed_seq(s@),
            forall|j: int| 0 <= j < i ==> ks[j].0 != key@,
        decreases s@.len() - i,
    {
        if str_eq(s[i].0.as_str(), key) {
            proof {
                lemma_first_at(ks, key@, i as int);
            }
            return Some(i);
        }
        i = i + 1;
    }
    None
}

fn find_known<C>(s: &Vec<CatalogProvider<C>>, id: &str) -> (r: Option<usize>)
    ensures
        r matches Some(i) ==> i < s@.len() && first_under(known_seq(s@), id@) == Some(s@[i as int]),
        r is None ==> first_under(known_seq(s@), id@) is None,
{
    let ghost ks = known_seq(s@);
    let mut i: usize = 0;
    while i < s.len()
        invariant
            i <= s@.len(),
            ks == known_seq(s@),
            forall|j: int| 0 <= j < i ==> ks[j].0 != id@,
        decreases s@.len() - i,
    {
        if str_eq(s[i].id.as_str(), id) {
            proof {
                lemma_first_at(ks, id@, i as int);
            }
            return Some(i);
        }
        i = i + 1;
    }
    None
}

/// `s` with `x` added at the end unless it holds it already.
pub open spec fn add_once(s: Seq<Seq<char>>, x: Seq<char>) -> Seq<Seq<char>> {
    if s.contains(x) {
        s
    } else {
        s.push(x)
    }
}

/// `s` with each of `xs` added in turn, once.
pub open spec fn add_all_once(s: Seq<Seq<char>>, xs: Seq<Seq<char>>) -> Seq<Seq<char>>
    decreases xs.len(),
{
    if xs.len() == 0 {
        s
    } else {
        add_once(add_all_once(s, xs.drop_last()), xs.last())
    }
}

/// The providers of the management listing: each one with stored
/// credentials, then each configured one, once.
pub open spec fn managed_ids_spec<A, P>(auths: Seq<(String, A)>, configured: Seq<(String, P)>) -> Seq<Seq<char>> {
    add_all_once(
        add_all_once(Seq::empty(), auths.map_values(|e: (String, A)| e.0@)),
        configured.map_values(|e: (String, P)| e.0@),
    )
}

fn add_keys_once<V>(ids: &mut Vec<String>, s: &Vec<(String, V)>)
    ensures
        final(ids).deep_view() == add_all_once(old(ids).deep_view(), s@.map_values(|e: (String, V)| e.0@)),
{
    let ghost start = ids.deep_view();
    let ghost keys = s@.map_values(|e: (String, V)| e.0@);
    let mut i: usize = 0;
    proof {
        assert(keys.subrange(0, 0) =~= Seq::<Seq<char>>::empty());
    }
    while i < s.len()
        invariant
            i <= s@.len(),
            keys == s@.map_values(|e: (String, V)| e.0@),
            ids.deep_view() == add_all_once(start, keys.subrange(0, i as int)),
        decreases s@.len() - i,
    {
        proof {
            assert(keys.subrange(0, i + 1).drop_last() =~= keys.subrange(0, i as int));
            assert(keys.subrange(0, i + 1).last() == s@[i as int].0@);
        }
        if !text_listed(ids, s[i].0.as_str()) {
            let ghost before = ids.deep_view();
            ids.push(owned(s[i].0.as_str()));
            proof {
                assert(ids.deep_view() =~= before.push(s@[i as int].0@));
            }
        }
        i = i + 1;
    }
    proof {
        assert(keys.subrange(0, s@.len() as int) =~= keys);
    }
}

/// The providers of the management listing, as `managed_ids_spec` says.
pub fn managed_provider_ids<A, P>(auths: &Vec<(String, A)>, configured: &Vec<(String, P)>) -> (r: Vec<String>)
    ensures
        r.deep_view() == managed_ids_spec(auths@, configured@),
{
    let mut ids: Vec<String> = Vec::new();
    proof {
        assert(ids.deep_view() =~= Seq::<Seq<char>>::empty());
    }
    add_keys_once(&mut ids, auths);
    add_keys_once(&mut ids, configured);
    ids
}

/// Whether `infos` is what the management listing shows of each of `ids`.
pub open spec fn managed_infos_hold<C>(
    infos: Seq<ManagedProviderInfo<C>>,
    ids: Seq<Seq<char>>,
    catalog: Seq<CatalogProvider<C>>,
    configured: Seq<(String, ConfiguredProvider<C>)>,
    auths: Seq<(String, AuthKind)>,
    runtime: Seq<RuntimeModel<C>>,
    connected_ids: Seq<Seq<char>>,
    disabled: Seq<Seq<char>>,
    lv: Seq<(Seq<char>, Seq<(Seq<char>, Seq<Seq<char>>)>)>,
) -> bool {
    &&& infos.len() == ids.len()
    &&& forall|i: int|
        0 <= i < ids.len() ==> #[trigger] managed_info_holds(
            infos[i],
            ids[i],
            first_under(keyed_seq(configured), ids[i]),
            first_under(known_seq(catalog), ids[i]),
            runtime,
            lv,
            connected_ids.contains(ids[i]),
            first_under(keyed_seq(auths), ids[i]),
            disabled.contains(ids[i]),
        )
}

/// The management listing: each provider with credentials or a
/// configuration, shown from its configuration, its catalogue entry, the
/// served models, whether it is connected, its credentials and whether it is
/// disabled, in listing order.
pub fn list_managed_providers<C: Copy>(
    catalog: &Vec<CatalogProvider<C>>,
    configured: &Vec<(String, ConfiguredProvider<C>)>,
    auths: &Vec<(String, AuthKind)>,
    runtime: &Vec<RuntimeModel<C>>,
    connected_ids: &Vec<String>,
    disabled: &Vec<String>,
    lookup: &VariantLookup,
) -> (r: Vec<ManagedProviderInfo<C>>)
    ensures
        exists|infos: Seq<ManagedProviderInfo<C>>|
            {
                &&& managed_infos_hold(
                    infos,
                    managed_ids_spec(auths@, configured@),
                    catalog@,
                    configured@,
                    auths@,
                    runtime@,
                    connected_ids.deep_view(),
                    disabled.deep_view(),
                    lookup_view(lookup.providers@),
                )
                &&& r@ == sort_managed_spec(infos)
            },
{
    let ids = managed_provider_ids(auths, configured);
    let ghost idv = ids.deep_view();
    let ghost lv = lookup_view(lookup.providers@);
    let mut infos: Vec<ManagedProviderInfo<C>> = Vec::new();
    let mut i: usize = 0;
    while i < ids.len()
        invariant
            i <= ids@.len(),
            idv == ids.deep_view(),
            idv == managed_ids_spec(auths@, configured@),
            lv == lookup_view(lookup.providers@),
            managed_infos_hold(
                infos@,
                idv.subrange(0, i as int),
                catalog@,
                configured@,
                auths@,
                runtime@,
                connected_ids.deep_view(),
                disabled.deep_view(),
                lv,
            ),
        decreases ids@.len() - i,
    {
        let id = ids[i].as_str();
        let cfg: Option<&ConfiguredProvider<C>> = match find_key(configured, id) {
            Some(k) => Some(&configured[k].1),
            None => None,
        };
        let known: Option<&CatalogProvider<C>> = match find_known(catalog, id) {
            Some(k) => Some(&catalog[k]),
            None => None,
        };
        let auth: Option<AuthKind> = match find_key(auths, id) {
            Some(k) => Some(auths[k].1),
            None => None,
        };
        let connected = text_listed(connected_ids, id);
        let is_disabled = text_listed(disabled, id);
        let info = managed_provider_info(id, cfg, known, runtime, lookup, connected, auth, is_disabled);
        let ghost before = infos@;
        infos.push(info);
        proof {
            let sub = idv.subrange(0, i + 1);
            assert(sub[i as int] == idv[i as int]);
            assert forall|j: int| 0 <= j < sub.len() implies #[trigger] managed_info_holds(
                infos@[j],
                sub[j],
                first_under(keyed_seq(configured@), sub[j]),
                first_under(known_seq(catalog@), sub[j]),
                runtime@,
                lv,
                connected_ids.deep_view().contains(sub[j]),
                first_under(keyed_seq(auths@), sub[j]),
                disabled.deep_view().contains(sub[j]),
            ) by {
                if j < i {
                    assert(sub[j] == idv.subrange(0, i as int)[j]);
                    assert(infos@[j] == before[j]);
                }
            }
        }
        i = i + 1;
    }
    proof {
        assert(idv.subrange(0, ids@.len() as int) =~= idv);
    }
    let ghost all = infos@;
    let r = sort_managed_providers(infos);
    proof {
        assert(managed_infos_hold(
            all,
            managed_ids_spec(auths@, configured@),
            catalog@,
            configured@,
            auths@,
            runtime@,
            connected_ids.deep_view(),
            disabled.deep_view(),
            lookup_view(lookup.providers@),
        ));
    }
    r
}

} // verus!

//! The catalogue providers the connect dialog offers: each with a wire
//! protocol the server speaks, with what the configuration says of it in
//! place of the catalogue, ordered by name.

use vstd::prelude::*;
use crate::text::opt_view;
use crate::text::{owned, unicode_lower, to_lowercase};
use crate::provider::{
    KnownProviderEntry, KnownProviderView, npm_protocol_spec, catalog_wire_protocol, display_name_spec,
    provider_display_name, clone_opt,
};
use crate::provider_catalog::{
    CatalogProvider, ConfiguredProvider, first_under, sort_keyed_spec, sort_keyed, keyed_view,
};
use crate::command_args::clone_strings;
use crate::managed_provider::{keyed_seq, find_key};
use crate::text::text_listed;

verus! {

/// The entry the dialog offers for a catalogue provider, if it offers one:
/// the configured SDK package and endpoint in place of the catalogue's, and
/// the configured wire protocol, else the one the package stands for; a
/// provider with neither is not offered.
pub open spec fn known_entry_spec<C>(p: CatalogProvider<C>, configured: Option<ConfiguredProvider<C>>, connected: bool) -> Option<
    KnownProviderView,
> {
    let npm = match configured {
        Some(c) => match opt_view(c.npm) {
            Some(n) => Some(n),
            None => opt_view(p.npm),
        },
        None => opt_view(p.npm),
    };
    let from_config = match configured {
        Some(c) => opt_view(c.wire_protocol),
        None => None,
    };
    let protocol = match from_config {
        Some(w) => Some(w),
        None => match npm {
            Some(n) => npm_protocol_spec(n),
            None => None,
        },
    };
    match protocol {
        None => None,
        Some(w) => Some(
            KnownProviderView {
                id: p.id@,
                name: display_name_spec(p.id@, p.name@),
                env: p.env.deep_view(),
                model_count: p.models@.len() as usize,
                connected,
                base_url: match configured {
                    Some(c) => match opt_view(c.base_url) {
                        Some(b) => Some(b),
                        None => opt_view(p.api),
                    },
                    None => opt_view(p.api),
                },
                protocol: Some(w),
                npm,
                supports_api_key_connect: true,
            },
        ),
    }
}

/// The entry the dialog offers for a catalogue provider, as
/// `known_entry_spec` says.
pub fn known_provider_entry<C>(p: &CatalogProvider<C>, configured: Option<&ConfiguredProvider<C>>, connected: bool) -> (r:
    Option<KnownProviderEntry>)
    ensures
        match r {
            Some(e) => known_entry_spec(
                *p,
                match configured {
                    Some(c) => Some(*c),
                    None => None,
                },
                connected,
            ) == Some(e@),
            None => known_entry_spec(
                *p,
                match configured {
                    Some(c) => Some(*c),
                    None => None,
                },
                connected,
            ) is None,
        },
{
    let npm: Option<String> = match configured {
        Some(c) => match &c.npm {
            Some(n) => Some(owned(n.as_str())),
            None => clone_opt(&p.npm),
        },
        None => clone_opt(&p.npm),
    };
    let from_config: Option<String> = match configured {
        Some(c) => clone_opt(&c.wire_protocol),
        None => None,
    };
    let protocol: String = match from_config {
        Some(w) => w,
        None => match &npm {
            Some(n) => match catalog_wire_protocol(n.as_str()) {
                Some(w) => owned(w),
                None => return None,
            },
            None => return None,
        },
    };
    let base_url: Option<String> = match configured {
        Some(c) => match &c.base_url {
            Some(b) => Some(owned(b.as_str())),
            None => clone_opt(&p.api),
        },
        None => clone_opt(&p.api),
    };
    Some(
        KnownProviderEntry {
            id: owned(p.id.as_str()),
            name: provider_display_name(p.id.as_str(), p.name.as_str()),
            env: clone_strings(&p.env),
            model_count: p.models.len(),
            connected,
            base_url,
            protocol: Some(protocol),
            npm,
            supports_api_key_connect: true,
        },
    )
}

/// The entries offered for the catalogue's providers, in catalogue order,
/// each keyed by its name in lower case.
pub open spec fn known_keyed_spec<C>(
    catalog: Seq<CatalogProvider<C>>,
    configured: Seq<(String, ConfiguredProvider<C>)>,
    connected_ids: Seq<Seq<char>>,
) -> Seq<((u8, Seq<char>), KnownProviderView)>
    decreases catalog.len(),
{
    if catalog.len() == 0 {
        Seq::empty()
    } else {
        let prev = known_keyed_spec(catalog.drop_last(), configured, connected_ids);
        let p = catalog.last();
        match known_entry_spec(p, first_under(keyed_seq(configured), p.id@), connected_ids.contains(p.id@)) {
            Some(e) => prev.push(((0u8, unicode_lower(e.name)), e)),
            None => prev,
        }
    }
}

/// The providers the connect dialog offers: each catalogue provider with a
/// wire protocol, as `known_entry_spec` says, with the first configuration
/// under its id and whether a connected provider serves it, ordered by name
/// ignoring case.
pub fn known_provider_entries<C>(
    catalog: &Vec<CatalogProvider<C>>,
    configured: &Vec<(String, ConfiguredProvider<C>)>,
    connected_ids: &Vec<String>,
) -> (r: Vec<KnownProviderEntry>)
    ensures
        r@.map_values(|e: KnownProviderEntry| e@) == sort_keyed_spec(
            known_keyed_spec(catalog@, configured@, connected_ids.deep_view()),
        ).map_values(|e: ((u8, Seq<char>), KnownProviderView)| e.1),
{
    let mut keyed: Vec<((u8, String), KnownProviderEntry)> = Vec::new();
    let mut i: usize = 0;
    proof {
        assert(catalog@.subrange(0, 0) =~= Seq::<CatalogProvider<C>>::empty());
        assert(keyed_view(keyed@) =~= Seq::<((u8, Seq<char>), KnownProviderView)>::empty());
    }
    while i < catalog.len()
        invariant
            i <= catalog@.len(),
            keyed_view(keyed@) == known_keyed_spec(catalog@.subrange(0, i as int), configured@, connected_ids.deep_view()),
        decreases catalog@.len() - i,
    {
        proof {
            let sub = catalog@.subrange(0, i + 1);
            assert(sub.drop_last() =~= catalog@.subrange(0, i as int));
            assert(sub.last() == catalog@[i as int]);
        }
        let p = &catalog[i];
        let cfg: Option<&ConfiguredProvider<C>> = match find_key(configured, p.id.as_str()) {
            Some(k) => Some(&configured[k].1),
            None => None,
        };
        let connected = text_listed(connected_ids, p.id.as_str());
        match known_provider_entry(p, cfg, connected) {
            Some(e) => {
                let key = to_lowercase(e.name.as_str());
                let ghost before = keyed_view(keyed@);
                let ghost ev = e@;
                keyed.push(((0u8, key), e));
                proof {
                    assert(keyed_view(keyed@) =~= before.push(((0u8, unicode_lower(ev.name)), ev)));
                }
            },
            None => {},
        }
        i = i + 1;
    }
    proof {
        assert(catalog@.subrange(0, catalog@.len() as int) =~= catalog@);
    }
    let sorted = sort_keyed(keyed);
    let ghost sv = keyed_view(sorted@);
    let m = sorted.len();
    let mut rest = sorted;
    let mut out: Vec<KnownProviderEntry> = Vec::new();
    let mut j: usize = 0;
    while j < m
        invariant
            m == sv.len(),
            j <= m,
            keyed_view(rest@) == sv.subrange(j as int, m as int),
            out@.map_values(|e: KnownProviderEntry| e@) == sv.subrange(0, j as int).map_values(
                |e: ((u8, Seq<char>), KnownProviderView)| e.1,
            ),
        decreases m - j,
    {
        let ghost rv = rest@;
        proof {
            assert(keyed_view(rest@).len() == rest@.len());
        }
        let e = rest.remove(0);
        proof {
            assert(keyed_view(rest@) =~= keyed_view(rv).drop_first());
            assert(keyed_view(rv)[0] == sv[j as int]);
        }
        let ghost before = out@.map_values(|e: KnownProviderEntry| e@);
        let ghost ev = e.1@;
        out.push(e.1);
        proof {
            assert(out@.map_values(|e: KnownProviderEntry| e@) =~= before.push(ev));
            assert(sv.subrange(0, j + 1).map_values(|e: ((u8, Seq<char>), KnownProviderView)| e.1) =~= sv.subrange(
                0,
                j as int,
            ).map_values(|e: ((u8, Seq<char>), KnownProviderView)| e.1).push(sv[j as int].1));
        }
        j = j + 1;
    }
    proof {
        assert(sv.subrange(0, m as int) =~= sv);
    }
    out
}

} // verus!

//! The models.dev catalog: where it is read from, which of its providers is the configured one, and
//! which models that provider offers.

use vstd::prelude::*;
use vstd::string::*;

use crate::manager::ManagerView;
use crate::manager::ModelsManager;
use crate::model::infos;
use crate::model::ModelInfo;
use crate::model::ModelInfoView;
use crate::order::first_where;
use crate::order::in_order;
use crate::order::law_first_where;
use crate::order::law_sorted_texts;
use crate::order::law_sorting_forgets_the_order;
use crate::order::lemma_filter_members;
use crate::order::lemma_filter_push;
use crate::order::lemma_first_where_is;
use crate::order::lemma_first_where_none;
use crate::order::sort_texts;
use crate::order::sorted_texts;
use crate::outside::parse_url_host;
use crate::outside::url_host;
use crate::provider_catalog::has_slug;
use crate::provider_catalog::law_provider_entries;
use crate::provider_catalog::provider_entries;
use crate::provider_catalog::slugs_distinct;
use crate::text::char_is_ascii_alnum;
use crate::text::chars_of;
use crate::text::ends_with;
use crate::text::is_ascii_alnum;
use crate::text::join2;
use crate::text::lower_char;
use crate::text::lower_of;
use crate::text::lower_text;
use crate::text::only;
use crate::text::opt_text;
use crate::text::same_text;
use crate::text::space;
use crate::text::split_on;
use crate::text::split_text;
use crate::text::text_le;
use crate::text::texts;
use crate::text::to_lower;
use crate::text::trim;
use crate::text::trim_by;
use crate::text::trim_char;
use crate::text::trim_end_by;
use crate::text::trim_end_char;
use crate::text::trim_start_by;
use crate::wire::dev_catalog;
use crate::wire::dev_deprecated;
use crate::wire::dev_models;
use crate::wire::dev_picker_enabled;
use crate::wire::resolved_id;
use crate::wire::DevModelView;
use crate::wire::DevProviderView;
use crate::wire::ModelsDevEntry;
use crate::wire::ModelsDevProvider;

verus! {

/// Where the catalog is read from unless something else is configured.
pub const DEFAULT_MODELS_DEV_CATALOG_URL: &'static str = "https://models.dev/api.json";

/// `input` in small letters, with a dash for each run of characters that are no ASCII letter or
/// digit.
pub open spec fn dashed(input: Seq<char>) -> Seq<char>
    decreases input.len(),
{
    if input.len() == 0 {
        Seq::empty()
    } else {
        let front = dashed(input.drop_last());
        let c = input.last();
        if is_ascii_alnum(c) {
            front.push(lower_char(c))
        } else if front.len() > 0 && front.last() == '-' {
            front
        } else {
            front.push('-')
        }
    }
}

/// The key of a provider name: its words in small letters with single dashes between them.
pub open spec fn provider_key(input: Seq<char>) -> Seq<char> {
    trim_by(dashed(input), only('-'))
}

/// Whether `azure` and `openai` are words of the key next to each other.
pub open spec fn names_azure_openai(key: Seq<char>) -> bool {
    let words = split_on(key, '-');
    exists|i: int|
        0 <= i < words.len() - 1 && #[trigger] words[i] == "azure"@ && words[i + 1] == "openai"@
}

/// The ids under which the models.dev catalog may list the configured provider, the likelier first.
pub open spec fn provider_aliases(m: ManagerView) -> Seq<Seq<char>> {
    let key = provider_key(m.provider.name);
    if (names_azure_openai(key) || m.provider.azure_responses_wire) && key != "azure"@ {
        seq![key, "azure"@]
    } else {
        seq![key]
    }
}

/// The host in a URL, in small letters.
pub open spec fn host_of(url: Seq<char>) -> Option<Seq<char>> {
    match url_host(url) {
        Some(host) => Some(lower_text(host)),
        None => None,
    }
}

/// The host in an optional URL, in small letters.
pub open spec fn host_of_opt(url: Option<Seq<char>>) -> Option<Seq<char>> {
    match url {
        Some(url) => host_of(url),
        None => None,
    }
}

/// The hosts of the providers of a catalog.
pub open spec fn catalog_hosts(catalog: Seq<(Seq<char>, DevProviderView)>) -> Seq<
    Option<Seq<char>>,
> {
    catalog.map_values(|e: (Seq<char>, DevProviderView)| host_of_opt(e.1.api))
}

/// The position of the provider listed under the first alias that is listed at all.
pub open spec fn by_aliases(
    catalog: Seq<(Seq<char>, DevProviderView)>,
    aliases: Seq<Seq<char>>,
) -> Option<int>
    decreases aliases.len(),
{
    if aliases.len() == 0 {
        None
    } else {
        match first_where(catalog, |e: (Seq<char>, DevProviderView)| e.0 == aliases[0]) {
            Some(i) => Some(i),
            None => by_aliases(catalog, aliases.drop_first()),
        }
    }
}

/// The position of the first provider whose own name has one of the aliases as its key.
pub open spec fn by_name(
    catalog: Seq<(Seq<char>, DevProviderView)>,
    aliases: Seq<Seq<char>>,
) -> Option<int> {
    first_where(
        catalog,
        |e: (Seq<char>, DevProviderView)| aliases.contains(provider_key(e.1.name)),
    )
}

/// Being the given host.
pub open spec fn is_host(host: Option<Seq<char>>) -> spec_fn(Option<Seq<char>>) -> bool {
    |h: Option<Seq<char>>| h == host
}

/// The position of `host`, where it occurs exactly once.
pub open spec fn by_host(hosts: Seq<Option<Seq<char>>>, host: Option<Seq<char>>) -> Option<int> {
    if host is Some && hosts.filter(is_host(host)).len() == 1 {
        first_where(hosts, is_host(host))
    } else {
        None
    }
}

/// The position of the configured provider: by id, else by name, else by host.
pub open spec fn selected_provider(
    catalog: Seq<(Seq<char>, DevProviderView)>,
    aliases: Seq<Seq<char>>,
    hosts: Seq<Option<Seq<char>>>,
    host: Option<Seq<char>>,
) -> Option<int> {
    match by_aliases(catalog, aliases) {
        Some(i) => Some(i),
        None => match by_name(catalog, aliases) {
            Some(i) => Some(i),
            None => by_host(hosts, host),
        },
    }
}

/// The models that a provider offers, under their ids: neither deprecated nor kept from the picker,
/// and with an id.
pub open spec fn offers(models: Seq<(Seq<char>, DevModelView)>) -> Seq<(Seq<char>, DevModelView)>
    decreases models.len(),
{
    if models.len() == 0 {
        Seq::empty()
    } else {
        let front = offers(models.drop_last());
        let (key, m) = models.last();
        if dev_deprecated(m) || !dev_picker_enabled(m) {
            front
        } else {
            match resolved_id(m, key) {
                Some(id) => front.push((id, m)),
                None => front,
            }
        }
    }
}

/// The last model offered under `id`.
pub open spec fn last_offer(all: Seq<(Seq<char>, DevModelView)>, id: Seq<char>) -> Option<
    DevModelView,
>
    decreases all.len(),
{
    if all.len() == 0 {
        None
    } else if all.last().0 == id {
        Some(all.last().1)
    } else {
        last_offer(all.drop_last(), id)
    }
}

/// `m` under the name that models.dev gives it, where that is not blank.
pub open spec fn renamed(
    m: ModelInfoView,
    all: Seq<(Seq<char>, DevModelView)>,
) -> ModelInfoView {
    match last_offer(all, m.slug) {
        Some(d) => match d.name {
            Some(name) => if trim_by(name, space()).len() > 0 {
                ModelInfoView { display_name: name, ..m }
            } else {
                m
            },
            None => m,
        },
        None => m,
    }
}

/// The ids of the models that a provider offers, in lexicographic order.
pub open spec fn offered_ids(all: Seq<(Seq<char>, DevModelView)>) -> Seq<Seq<char>> {
    sorted_texts(all.map_values(|o: (Seq<char>, DevModelView)| o.0))
}

/// The catalog entries for the models that a provider offers.
pub open spec fn dev_entries(
    provider: DevProviderView,
    bundled: Seq<ModelInfoView>,
    fallback: ModelInfoView,
) -> Seq<ModelInfoView> {
    let all = offers(provider.models);
    provider_entries(offered_ids(all), bundled, fallback).map_values(
        |m: ModelInfoView| renamed(m, all),
    )
}

/// Where the catalog is read from: what is configured, with the file name added where it is missing.
pub open spec fn catalog_url(configured: Option<Seq<char>>) -> Seq<char> {
    let raw = match configured {
        Some(url) => url,
        None => DEFAULT_MODELS_DEV_CATALOG_URL@,
    };
    let trimmed = trim_by(raw, space());
    if trimmed.len() == 0 {
        DEFAULT_MODELS_DEV_CATALOG_URL@
    } else if ".json"@.is_suffix_of(trimmed) {
        trimmed
    } else {
        trim_end_by(trimmed, only('/')) + "/api.json"@
    }
}

/// What is configured: the override, else what the environment says.
pub open spec fn configured_url(m: ManagerView) -> Option<Seq<char>> {
    match m.models_dev_api_url_override {
        Some(url) => Some(url),
        None => m.models_dev_api_url_env,
    }
}

impl ModelsManager {
    /// The key of a provider name.
    pub fn normalize_provider_key(input: &str) -> (r: String)
        ensures
            r@ == provider_key(input@),
    {
        let chars = chars_of(input);
        let mut out = String::new();
        let mut last_was_dash = false;
        let mut i: usize = 0;
        assert(out@ =~= dashed(input@.take(0)));
        while i < chars.len()
            invariant
                i <= chars@.len(),
                chars@ == input@,
                out@ == dashed(input@.take(i as int)),
                last_was_dash == (out@.len() > 0 && out@.last() == '-'),
            decreases chars@.len() - i,
        {
            proof {
                assert(input@.take(i + 1).drop_last() =~= input@.take(i as int));
                assert(input@.take(i + 1).last() == input@[i as int]);
            }
            let c: char = chars[i];
            if char_is_ascii_alnum(c) {
                out.push(lower_of(c));
                last_was_dash = false;
            } else if !last_was_dash {
                out.push('-');
                last_was_dash = true;
            }
            i = i + 1;
        }
        assert(input@.take(i as int) =~= input@);
        trim_char(out.as_str(), '-').to_string()
    }

    /// The host in a URL, in small letters.
    pub fn extract_host_from_url(input: &str) -> (r: Option<String>)
        ensures
            opt_text(r) == host_of(input@),
    {
        match parse_url_host(input) {
            Some(host) => Some(to_lower(host.as_str())),
            None => None,
        }
    }

    /// The URL of the models.dev catalog.
    pub fn models_dev_api_url(&self) -> (r: String)
        ensures
            r@ == catalog_url(configured_url(self@)),
    {
        let raw = match &self.models_dev_api_url_override {
            Some(url) => url.as_str(),
            None => match &self.models_dev_api_url_env {
                Some(url) => url.as_str(),
                None => DEFAULT_MODELS_DEV_CATALOG_URL,
            },
        };
        let trimmed = trim(raw);
        if trimmed.is_empty() {
            return DEFAULT_MODELS_DEV_CATALOG_URL.to_string();
        }
        if ends_with(trimmed, ".json") {
            trimmed.to_string()
        } else {
            join2(trim_end_char(trimmed, '/'), "/api.json")
        }
    }

    /// The ids under which the models.dev catalog may list the configured provider.
    pub fn models_dev_provider_aliases(&self) -> (r: Vec<String>)
        ensures
            texts(r@) == provider_aliases(self@),
    {
        let key = Self::normalize_provider_key(self.provider.name.as_str());
        let words = split_text(key.as_str(), '-');
        let mut azure_named = false;
        let mut i: usize = 1;
        while i < words.len()
            invariant
                1 <= i,
                words@.len() >= 1,
                i <= words@.len(),
                texts(words@) == split_on(key@, '-'),
                azure_named == exists|j: int|
                    0 <= j < i - 1 && #[trigger] split_on(key@, '-')[j] == "azure"@ && split_on(
                        key@,
                        '-',
                    )[j + 1] == "openai"@,
            decreases words@.len() - i,
        {
            let ghost w = split_on(key@, '-');
            proof {
                assert(w[i - 1] == words@[i - 1]@);
                assert(w[i as int] == words@[i as int]@);
            }
            if same_text(words[i - 1].as_str(), "azure") && same_text(words[i].as_str(), "openai") {
                assert(w[i - 1] == "azure"@ && w[i - 1 + 1] == "openai"@);
                azure_named = true;
            }
            i = i + 1;
        }
        assert(azure_named == names_azure_openai(key@));
        let extra = (azure_named || self.provider.azure_responses_wire) && !same_text(
            key.as_str(),
            "azure",
        );
        let mut aliases: Vec<String> = Vec::new();
        aliases.push(key);
        if extra {
            aliases.push("azure".to_string());
        }
        assert(texts(aliases@) =~= provider_aliases(self@));
        aliases
    }

    /// The position of the configured provider in a catalog whose hosts are known: listed under one
    /// of the aliases, else named like one of them, else alone in having the provider's host.
    pub fn select_models_dev_provider(
        catalog: &Vec<ModelsDevEntry>,
        aliases: &Vec<String>,
        hosts: &Vec<Option<String>>,
        provider_host: &Option<String>,
    ) -> (r: Option<usize>)
        ensures
            match r {
                Some(i) => selected_provider(
                    dev_catalog(catalog@),
                    texts(aliases@),
                    hosts@.map_values(|h: Option<String>| opt_text(h)),
                    opt_text(*provider_host),
                ) == Some(i as int),
                None => selected_provider(
                    dev_catalog(catalog@),
                    texts(aliases@),
                    hosts@.map_values(|h: Option<String>| opt_text(h)),
                    opt_text(*provider_host),
                ) is None,
            },
    {
        let ghost cat = dev_catalog(catalog@);
        let ghost names = texts(aliases@);
        let mut a: usize = 0;
        assert(names.skip(0) =~= names);
        while a < aliases.len()
            invariant
                a <= aliases@.len(),
                cat == dev_catalog(catalog@),
                names == texts(aliases@),
                by_aliases(cat, names) == by_aliases(cat, names.skip(a as int)),
            decreases aliases@.len() - a,
        {
            let alias = aliases[a].as_str();
            let ghost listed = |e: (Seq<char>, DevProviderView)| e.0 == names.skip(a as int)[0];
            proof {
                assert(names.skip(a as int)[0] == alias@);
                assert(names.skip(a as int).drop_first() =~= names.skip(a + 1));
            }
            let mut i: usize = 0;
            while i < catalog.len()
                invariant
                    i <= catalog@.len(),
                    cat == dev_catalog(catalog@),
                    a < names.len(),
                    by_aliases(cat, names) == by_aliases(cat, names.skip(a as int)),
                    names == texts(aliases@),
                    names.skip(a as int)[0] == alias@,
                    names.skip(a as int).drop_first() == names.skip(a + 1),
                    listed == (|e: (Seq<char>, DevProviderView)| e.0 == names.skip(a as int)[0]),
                    forall|j: int| 0 <= j < i ==> !listed(#[trigger] cat[j]),
                decreases catalog@.len() - i,
            {
                assert(cat[i as int].0 == catalog@[i as int].id@);
                if same_text(catalog[i].id.as_str(), alias) {
                    proof {
                        assert(listed(cat[i as int]));
                        lemma_first_where_is(cat, listed, i as int);
                    }
                    return Some(i);
                }
                i = i + 1;
            }
            proof {
                lemma_first_where_none(cat, listed);
            }
            a = a + 1;
        }
        let ghost named = |e: (Seq<char>, DevProviderView)| names.contains(provider_key(e.1.name));
        let mut i: usize = 0;
        while i < catalog.len()
            invariant
                i <= catalog@.len(),
                cat == dev_catalog(catalog@),
                names == texts(aliases@),
                by_aliases(cat, names) is None,
                named == (|e: (Seq<char>, DevProviderView)| names.contains(provider_key(e.1.name))),
                forall|j: int| 0 <= j < i ==> !named(#[trigger] cat[j]),
            decreases catalog@.len() - i,
        {
            let key = Self::normalize_provider_key(catalog[i].provider.name.as_str());
            assert(key@ == provider_key(cat[i as int].1.name));
            let mut b: usize = 0;
            while b < aliases.len()
                invariant
                    b <= aliases@.len(),
                    i < catalog@.len(),
                    cat == dev_catalog(catalog@),
                    names == texts(aliases@),
                    by_aliases(cat, names) is None,
                    key@ == provider_key(cat[i as int].1.name),
                    named == (|e: (Seq<char>, DevProviderView)|
                        names.contains(provider_key(e.1.name))),
                    forall|j: int| 0 <= j < i ==> !named(#[trigger] cat[j]),
                    forall|j: int| 0 <= j < b ==> #[trigger] names[j] != key@,
                decreases aliases@.len() - b,
            {
                assert(names[b as int] == aliases@[b as int]@);
                if same_text(aliases[b].as_str(), key.as_str()) {
                    proof {
                        assert(names.contains(key@));
                        assert(named(cat[i as int]));
                        lemma_first_where_is(cat, named, i as int);
                    }
                    return Some(i);
                }
                b = b + 1;
            }
            assert(!named(cat[i as int]));
            i = i + 1;
        }
        proof {
            lemma_first_where_none(cat, named);
        }
        let host = match provider_host {
            Some(host) => host.as_str(),
            None => {
                return None;
            },
        };
        let ghost all = hosts@.map_values(|h: Option<String>| opt_text(h));
        let ghost same = is_host(opt_text(*provider_host));
        let mut count: usize = 0;
        let mut first: usize = 0;
        let mut k: usize = 0;
        proof {
            reveal(Seq::filter);
            assert(all.take(0).filter(same).len() == 0);
        }
        while k < hosts.len()
            invariant
                k <= hosts@.len(),
                count <= k,
                all == hosts@.map_values(|h: Option<String>| opt_text(h)),
                same == is_host(opt_text(*provider_host)),
                opt_text(*provider_host) == Some(host@),
                all.take(k as int).filter(same).len() == count,
                count > 0 ==> first < k && same(all[first as int]) && forall|j: int|
                    0 <= j < first ==> !same(#[trigger] all[j]),
                count == 0 ==> forall|j: int| 0 <= j < k ==> !same(#[trigger] all[j]),
            decreases hosts@.len() - k,
        {
            proof {
                assert(all.take(k + 1) =~= all.take(k as int).push(all[k as int]));
                lemma_filter_push(all.take(k as int), all[k as int], same);
                assert(all[k as int] == opt_text(hosts@[k as int]));
            }
            let hit = match &hosts[k] {
                Some(h) => same_text(h.as_str(), host),
                None => false,
            };
            assert(hit == same(all[k as int]));
            if hit {
                if count == 0 {
                    first = k;
                }
                count = count + 1;
            }
            k = k + 1;
        }
        assert(all.take(k as int) =~= all);
        if count == 1 {
            proof {
                lemma_first_where_is(all, same, first as int);
            }
            Some(first)
        } else {
            None
        }
    }

    /// The position of the configured provider in the models.dev catalog.
    pub fn match_models_dev_provider(&self, catalog: &Vec<ModelsDevEntry>) -> (r: Option<usize>)
        ensures
            match r {
                Some(i) => selected_provider(
                    dev_catalog(catalog@),
                    provider_aliases(self@),
                    catalog_hosts(dev_catalog(catalog@)),
                    host_of_opt(self@.provider.base_url),
                ) == Some(i as int),
                None => selected_provider(
                    dev_catalog(catalog@),
                    provider_aliases(self@),
                    catalog_hosts(dev_catalog(catalog@)),
                    host_of_opt(self@.provider.base_url),
                ) is None,
            },
    {
        let ghost cat = dev_catalog(catalog@);
        let aliases = self.models_dev_provider_aliases();
        let mut hosts: Vec<Option<String>> = Vec::new();
        let mut i: usize = 0;
        while i < catalog.len()
            invariant
                i <= catalog@.len(),
                cat == dev_catalog(catalog@),
                hosts@.len() == i,
                forall|j: int|
                    0 <= j < i ==> opt_text(#[trigger] hosts@[j]) == host_of_opt(cat[j].1.api),
            decreases catalog@.len() - i,
        {
            let host = match &catalog[i].provider.api {
                Some(api) => Self::extract_host_from_url(api.as_str()),
                None => None,
            };
            assert(opt_text(host) == host_of_opt(cat[i as int].1.api));
            hosts.push(host);
            i = i + 1;
        }
        assert(hosts@.map_values(|h: Option<String>| opt_text(h)) =~= catalog_hosts(cat));
        let provider_host = match &self.provider.base_url {
            Some(url) => Self::extract_host_from_url(url.as_str()),
            None => None,
        };
        Self::select_models_dev_provider(catalog, &aliases, &hosts, &provider_host)
    }

    /// The catalog entries for the models that a models.dev provider offers.
    pub fn map_models_dev_provider(&self, provider: &ModelsDevProvider) -> (r: Vec<ModelInfo>)
        ensures
            infos(r@) == dev_entries(provider@, self@.bundled_models, self@.fallback_metadata),
    {
        let ghost src = provider@.models;
        let mut ids: Vec<String> = Vec::new();
        let mut places: Vec<usize> = Vec::new();
        let mut i: usize = 0;
        assert(offers(src.take(0)) =~= Seq::empty());
        while i < provider.models.len()
            invariant
                i <= provider.models@.len(),
                src == dev_models(provider.models@),
                ids@.len() == places@.len(),
                offers(src.take(i as int)).len() == ids@.len(),
                forall|j: int|
                    0 <= j < places@.len() ==> #[trigger] places@[j] < provider.models@.len(),
                forall|j: int|
                    0 <= j < ids@.len() ==> #[trigger] offers(src.take(i as int))[j] == (
                        ids@[j]@,
                        provider.models@[places@[j] as int].model@,
                    ),
            decreases provider.models@.len() - i,
        {
            let model = &provider.models[i].model;
            let ghost front = offers(src.take(i as int));
            proof {
                assert(src.take(i + 1).drop_last() =~= src.take(i as int));
                assert(src.take(i + 1).last() == src[i as int]);
                assert(src[i as int] == (provider.models@[i as int].key@, model@));
            }
            if !model.is_deprecated() && model.is_picker_enabled() {
                if let Some(id) = model.resolved_id(provider.models[i].key.as_str()) {
                    ids.push(id);
                    places.push(i);
                }
            }
            i = i + 1;
        }
        assert(src.take(i as int) =~= src);
        let ghost all = offers(src);
        let ghost keys = all.map_values(|o: (Seq<char>, DevModelView)| o.0);
        let wanted = ids.clone();
        proof {
            assert(wanted@ =~= ids@);
            assert(texts(wanted@) =~= keys);
        }
        let sorted = sort_texts(wanted);
        let mut mapped = self.map_provider_model_ids(sorted);
        let ghost base = infos(mapped@);
        let n = mapped.len();
        let mut k: usize = 0;
        while k < n
            invariant
                k <= n,
                n == mapped@.len(),
                base.len() == n,
                ids@.len() == places@.len(),
                all.len() == ids@.len(),
                forall|j: int|
                    0 <= j < places@.len() ==> #[trigger] places@[j] < provider.models@.len(),
                forall|j: int|
                    0 <= j < ids@.len() ==> #[trigger] all[j] == (
                        ids@[j]@,
                        provider.models@[places@[j] as int].model@,
                    ),
                forall|j: int| 0 <= j < k ==> #[trigger] mapped@[j]@ == renamed(base[j], all),
                forall|j: int| k <= j < n ==> #[trigger] mapped@[j]@ == base[j],
            decreases n - k,
        {
            let ghost slug = base[k as int].slug;
            assert(mapped@[k as int]@ == base[k as int]);
            let mut at: usize = ids.len();
            assert(all.take(at as int) =~= all);
            while at > 0 && !same_text(ids[at - 1].as_str(), mapped[k].slug.as_str())
                invariant
                    at <= ids@.len(),
                    k < n,
                    n == mapped@.len(),
                    mapped@[k as int].slug@ == slug,
                    ids@.len() == places@.len(),
                    all.len() == ids@.len(),
                    forall|j: int|
                        0 <= j < places@.len() ==> #[trigger] places@[j] < provider.models@.len(),
                    forall|j: int|
                        0 <= j < ids@.len() ==> #[trigger] all[j] == (
                            ids@[j]@,
                            provider.models@[places@[j] as int].model@,
                        ),
                    last_offer(all, slug) == last_offer(all.take(at as int), slug),
                decreases at,
            {
                proof {
                    assert(all.take(at as int).last() == all[at - 1]);
                    assert(all.take(at as int).drop_last() =~= all.take(at - 1));
                }
                at = at - 1;
            }
            if at > 0 {
                proof {
                    assert(all.take(at as int).last() == all[at - 1]);
                }
                let model = &provider.models[places[at - 1]].model;
                assert(last_offer(all, slug) == Some(model@));
                if let Some(name) = &model.name {
                    if !trim(name.as_str()).is_empty() {
                        mapped[k].display_name = name.clone();
                    }
                }
            }
            proof {
                assert(mapped@[k as int]@ == renamed(base[k as int], all));
            }
            k = k + 1;
        }
        assert(infos(mapped@) =~= base.map_values(|m: ModelInfoView| renamed(m, all)));
        mapped
    }
}

/// Whether a character may stand in a word of a key.
pub open spec fn is_key_char(c: char) -> bool {
    '0' <= c <= '9' || 'a' <= c <= 'z'
}

/// Whether `s` is made of small letters, digits and single dashes.
pub open spec fn is_dashed(s: Seq<char>) -> bool {
    &&& forall|i: int| 0 <= i < s.len() ==> is_key_char(#[trigger] s[i]) || s[i] == '-'
    &&& forall|i: int, j: int|
        0 <= i < s.len() && j == i + 1 && j < s.len() && #[trigger] s[i] == '-'
            ==> #[trigger] s[j] != '-'
}

/// Whether `s` is made of words of small letters and digits, with single dashes between them.
pub open spec fn is_key(s: Seq<char>) -> bool {
    &&& is_dashed(s)
    &&& s.len() > 0 ==> s[0] != '-' && s.last() != '-'
}

proof fn lemma_dashed_shape(input: Seq<char>)
    ensures
        is_dashed(dashed(input)),
    decreases input.len(),
{
    if input.len() > 0 {
        lemma_dashed_shape(input.drop_last());
    }
}

proof fn lemma_dashed_stays(s: Seq<char>)
    requires
        is_dashed(s),
    ensures
        dashed(s) == s,
    decreases s.len(),
{
    if s.len() > 0 {
        let front = s.drop_last();
        assert forall|i: int, j: int|
            0 <= i < front.len() && j == i + 1 && j < front.len() && #[trigger] front[i]
                == '-' implies #[trigger] front[j] != '-' by {
            assert(s[i] == '-');
            assert(s[j] != '-');
        }
        assert forall|i: int| 0 <= i < front.len() implies is_key_char(#[trigger] front[i])
            || front[i] == '-' by {
            assert(s[i] == front[i]);
        }
        lemma_dashed_stays(front);
        if front.len() > 0 {
            assert(front.last() == s[front.len() - 1]);
            assert(s[front.len() as int] == s.last());
        }
        assert(is_key_char(s[s.len() - 1]) || s[s.len() - 1] == '-');
        assert(front.push(s.last()) =~= s);
    } else {
        assert(dashed(s) =~= s);
    }
}

proof fn lemma_trim_start_dash(s: Seq<char>)
    requires
        is_dashed(s),
    ensures
        is_dashed(trim_start_by(s, only('-'))),
        trim_start_by(s, only('-')).len() > 0 ==> trim_start_by(s, only('-'))[0] != '-',
    decreases s.len(),
{
    if s.len() > 0 && s[0] == '-' {
        let rest = s.drop_first();
        assert forall|i: int, j: int|
            0 <= i < rest.len() && j == i + 1 && j < rest.len() && #[trigger] rest[i]
                == '-' implies #[trigger] rest[j] != '-' by {
            assert(s[i + 1] == '-');
            assert(s[j + 1] != '-');
        }
        assert forall|i: int| 0 <= i < rest.len() implies is_key_char(#[trigger] rest[i])
            || rest[i] == '-' by {
            assert(s[i + 1] == rest[i]);
        }
        lemma_trim_start_dash(rest);
    }
}

proof fn lemma_trim_end_dash(s: Seq<char>)
    requires
        is_dashed(s),
        s.len() > 0 ==> s[0] != '-',
    ensures
        is_key(trim_end_by(s, only('-'))),
    decreases s.len(),
{
    if s.len() > 0 && s.last() == '-' {
        let rest = s.drop_last();
        assert forall|i: int, j: int|
            0 <= i < rest.len() && j == i + 1 && j < rest.len() && #[trigger] rest[i]
                == '-' implies #[trigger] rest[j] != '-' by {
            assert(s[i] == '-');
            assert(s[j] != '-');
        }
        assert forall|i: int| 0 <= i < rest.len() implies is_key_char(#[trigger] rest[i])
            || rest[i] == '-' by {
            assert(s[i] == rest[i]);
        }
        lemma_trim_end_dash(rest);
    }
}

/// A key is made of words of small letters and digits, with single dashes between them.
pub proof fn law_provider_key_shape(input: Seq<char>)
    ensures
        is_key(provider_key(input)),
{
    lemma_dashed_shape(input);
    lemma_trim_start_dash(dashed(input));
    lemma_trim_end_dash(trim_start_by(dashed(input), only('-')));
}

/// Whether each character of `key` stands for the one at its place in `input`: a letter or digit for
/// an ASCII letter or digit of any case, a dash for any other character. The places rise, next to
/// each other where no dash comes between, and no letter or digit of `input` is left out.
pub open spec fn stands_for(key: Seq<char>, input: Seq<char>, places: Seq<int>) -> bool {
    &&& places.len() == key.len()
    &&& forall|k: int| 0 <= k < key.len() ==> 0 <= #[trigger] places[k] < input.len()
    &&& forall|k: int|
        0 <= k < key.len() && #[trigger] key[k] != '-' ==> is_ascii_alnum(input[places[k]])
            && key[k] == lower_char(input[places[k]])
    &&& forall|k: int|
        0 <= k < key.len() && #[trigger] key[k] == '-' ==> !is_ascii_alnum(input[places[k]])
    &&& forall|k: int, l: int|
        0 <= k < l < key.len() ==> #[trigger] places[k] < #[trigger] places[l]
    &&& forall|k: int, l: int|
        0 <= k && l == k + 1 && l < key.len() && #[trigger] key[k] != '-' && #[trigger] key[l]
            != '-' ==> places[l] == places[k] + 1
    &&& forall|i: int|
        0 <= i < input.len() && is_ascii_alnum(#[trigger] input[i]) ==> exists|k: int|
            0 <= k < key.len() && #[trigger] places[k] == i
}

/// Whether every dash of `key` has a letter or digit on either side.
pub open spec fn dashes_join(key: Seq<char>) -> bool {
    forall|k: int|
        0 <= k < key.len() && #[trigger] key[k] == '-' ==> 0 < k < key.len() - 1 && key[k - 1]
            != '-' && key[k + 1] != '-'
}

/// The places in `input` of the characters of its dashed form.
spec fn dashed_places(input: Seq<char>) -> Seq<int>
    decreases input.len(),
{
    if input.len() == 0 {
        Seq::empty()
    } else {
        let front = dashed_places(input.drop_last());
        let before = dashed(input.drop_last());
        if !is_ascii_alnum(input.last()) && before.len() > 0 && before.last() == '-' {
            front
        } else {
            front.push(input.len() - 1)
        }
    }
}

proof fn lemma_dashed_stands_for(input: Seq<char>)
    ensures
        stands_for(dashed(input), input, dashed_places(input)),
        input.len() > 0 ==> dashed(input).len() > 0 && (dashed(input).last() == '-'
            <==> !is_ascii_alnum(input.last())),
        input.len() > 0 && is_ascii_alnum(input.last()) ==> dashed_places(input).last()
            == input.len() - 1,
    decreases input.len(),
{
    let key = dashed(input);
    let places = dashed_places(input);
    if input.len() > 0 {
        let short = input.drop_last();
        let front = dashed(short);
        let spots = dashed_places(short);
        let n = front.len() as int;
        lemma_dashed_stands_for(short);
        assert forall|k: int| 0 <= k < n implies {
            &&& #[trigger] places[k] == spots[k]
            &&& key[k] == front[k]
            &&& input[places[k]] == short[spots[k]]
        } by {}
        assert forall|i: int|
            0 <= i < input.len() && is_ascii_alnum(#[trigger] input[i]) implies exists|k: int|
            0 <= k < key.len() && #[trigger] places[k] == i by {
            if i < short.len() {
                assert(is_ascii_alnum(short[i]));
                let k = choose|k: int| 0 <= k < front.len() && #[trigger] spots[k] == i;
                assert(places[k] == i);
            } else {
                assert(places[n] == i);
            }
        }
        assert forall|k: int|
            0 <= k < key.len() && #[trigger] key[k] != '-' implies is_ascii_alnum(input[places[k]])
            && key[k] == lower_char(input[places[k]]) by {
            if k < n {
                assert(front[k] != '-');
                assert(places[k] == spots[k]);
            }
        }
        assert forall|k: int| 0 <= k < key.len() && #[trigger] key[k] == '-' implies
            !is_ascii_alnum(input[places[k]]) by {
            if k < n {
                assert(front[k] == '-');
                assert(places[k] == spots[k]);
            }
        }
        assert forall|k: int, l: int|
            0 <= k && l == k + 1 && l < key.len() && #[trigger] key[k] != '-' && #[trigger] key[l]
                != '-' implies places[l] == places[k] + 1 by {
            assert(places[k] == spots[k]);
            assert(front[k] != '-');
            if l < n {
                assert(places[l] == spots[l]);
                assert(front[l] != '-');
            } else {
                assert(front.last() == front[n - 1]);
                assert(spots.last() == spots[n - 1]);
            }
        }
        assert forall|k: int, l: int| 0 <= k < l < key.len() implies #[trigger] places[k]
            < #[trigger] places[l] by {
            assert(places[k] == spots[k]);
            if l < n {
                assert(places[l] == spots[l]);
            }
        }
    }
}

proof fn lemma_trim_start_stands_for(key: Seq<char>, input: Seq<char>, places: Seq<int>) -> (r: Seq<
    int,
>)
    requires
        stands_for(key, input, places),
    ensures
        stands_for(trim_start_by(key, only('-')), input, r),
    decreases key.len(),
{
    if key.len() > 0 && key[0] == '-' {
        let rest = key.drop_first();
        let left = places.drop_first();
        assert forall|k: int| 0 <= k < rest.len() implies {
            &&& #[trigger] left[k] == places[k + 1]
            &&& rest[k] == key[k + 1]
        } by {}
        assert forall|i: int|
            0 <= i < input.len() && is_ascii_alnum(#[trigger] input[i]) implies exists|k: int|
            0 <= k < rest.len() && #[trigger] left[k] == i by {
            let k = choose|k: int| 0 <= k < key.len() && #[trigger] places[k] == i;
            assert(k != 0) by {
                assert(key[0] == '-');
            }
            assert(left[k - 1] == i);
        }
        assert forall|k: int|
            0 <= k < rest.len() && #[trigger] rest[k] != '-' implies is_ascii_alnum(input[left[k]])
            && rest[k] == lower_char(input[left[k]]) by {
            assert(key[k + 1] != '-');
        }
        assert forall|k: int| 0 <= k < rest.len() && #[trigger] rest[k] == '-' implies
            !is_ascii_alnum(input[left[k]]) by {
            assert(key[k + 1] == '-');
        }
        assert forall|k: int, l: int|
            0 <= k && l == k + 1 && l < rest.len() && #[trigger] rest[k] != '-' && #[trigger] rest[l]
                != '-' implies left[l] == left[k] + 1 by {
            assert(key[k + 1] != '-' && key[l + 1] != '-');
        }
        lemma_trim_start_stands_for(rest, input, left)
    } else {
        places
    }
}

proof fn lemma_trim_end_stands_for(key: Seq<char>, input: Seq<char>, places: Seq<int>) -> (r: Seq<
    int,
>)
    requires
        stands_for(key, input, places),
    ensures
        stands_for(trim_end_by(key, only('-')), input, r),
    decreases key.len(),
{
    if key.len() > 0 && key.last() == '-' {
        let rest = key.drop_last();
        let left = places.drop_last();
        assert forall|k: int| 0 <= k < rest.len() implies {
            &&& #[trigger] left[k] == places[k]
            &&& rest[k] == key[k]
        } by {}
        assert forall|i: int|
            0 <= i < input.len() && is_ascii_alnum(#[trigger] input[i]) implies exists|k: int|
            0 <= k < rest.len() && #[trigger] left[k] == i by {
            let k = choose|k: int| 0 <= k < key.len() && #[trigger] places[k] == i;
            assert(k != key.len() - 1) by {
                assert(key[key.len() - 1] == '-');
            }
            assert(left[k] == i);
        }
        assert forall|k: int|
            0 <= k < rest.len() && #[trigger] rest[k] != '-' implies is_ascii_alnum(input[left[k]])
            && rest[k] == lower_char(input[left[k]]) by {
            assert(key[k] != '-');
        }
        assert forall|k: int| 0 <= k < rest.len() && #[trigger] rest[k] == '-' implies
            !is_ascii_alnum(input[left[k]]) by {
            assert(key[k] == '-');
        }
        assert forall|k: int, l: int|
            0 <= k && l == k + 1 && l < rest.len() && #[trigger] rest[k] != '-' && #[trigger] rest[l]
                != '-' implies left[l] == left[k] + 1 by {
            assert(key[k] != '-' && key[l] != '-');
        }
        lemma_trim_end_stands_for(rest, input, left)
    } else {
        places
    }
}

/// A key is the ASCII letters and digits of the input, all of them, in small letters and in order,
/// with a dash between two exactly where other characters stood between them.
pub proof fn law_provider_key_spells_the_input(input: Seq<char>)
    ensures
        dashes_join(provider_key(input)),
        exists|places: Seq<int>| stands_for(provider_key(input), input, places),
{
    let key = provider_key(input);
    lemma_dashed_stands_for(input);
    let from_start = lemma_trim_start_stands_for(dashed(input), input, dashed_places(input));
    let both = lemma_trim_end_stands_for(
        trim_start_by(dashed(input), only('-')),
        input,
        from_start,
    );
    assert(stands_for(key, input, both));
    law_provider_key_shape(input);
    assert forall|k: int| 0 <= k < key.len() && #[trigger] key[k] == '-' implies 0 < k < key.len()
        - 1 && key[k - 1] != '-' && key[k + 1] != '-' by {
        assert(key.last() == key[key.len() - 1]);
        if key[k - 1] == '-' {
            assert(key[k] != '-');
        }
    }
}

/// Of two spellings of one input, the first `n` characters of one are those of the other.
proof fn lemma_spellings_agree(
    input: Seq<char>,
    key: Seq<char>,
    places: Seq<int>,
    own: Seq<char>,
    spots: Seq<int>,
    n: int,
)
    requires
        dashes_join(key),
        dashes_join(own),
        stands_for(key, input, places),
        stands_for(own, input, spots),
        0 <= n <= key.len(),
    ensures
        n <= own.len(),
        forall|k: int|
            0 <= k < n ==> (#[trigger] key[k]) == own[k] && (key[k] != '-' ==> places[k]
                == spots[k]),
    decreases n,
{
    if n > 0 {
        let k = n - 1;
        lemma_spellings_agree(input, key, places, own, spots, k);
        if key[k] == '-' {
            assert(key[k - 1] != '-' && key[k + 1] != '-');
            assert(key[k - 1] == own[k - 1] && places[k - 1] == spots[k - 1]);
            assert(places[k - 1] < places[k] && places[k] < places[k + 1]);
            assert(is_ascii_alnum(input[places[k + 1]]));
            let far = choose|far: int| 0 <= far < own.len() && #[trigger] spots[far] == places[k + 1];
            assert(far >= k) by {
                if far < k - 1 {
                    assert(spots[far] < spots[k - 1]);
                }
            }
            if own[k] != '-' {
                assert(spots[k] == spots[k - 1] + 1);
                assert(is_ascii_alnum(input[spots[k]]));
                let j = choose|j: int| 0 <= j < key.len() && #[trigger] places[j] == spots[k];
                if j < k - 1 {
                    assert(places[j] < places[k - 1]);
                } else if j > k {
                    assert(places[k] < places[j]);
                }
                assert(j == k);
                assert(false);
            }
        } else {
            assert(is_ascii_alnum(input[places[k]]));
            let there = choose|there: int|
                0 <= there < own.len() && #[trigger] spots[there] == places[k];
            assert(own[there] != '-');
            if k == 0 {
                assert(own[0] != '-');
                assert(is_ascii_alnum(input[spots[0]]));
                let back = choose|back: int| 0 <= back < key.len() && #[trigger] places[back] == spots[0];
                if there > 0 {
                    assert(spots[0] < spots[there]);
                }
                if back > 0 {
                    assert(places[0] < places[back]);
                }
            } else if key[k - 1] != '-' {
                assert(key[k - 1] == own[k - 1] && places[k - 1] == spots[k - 1]);
                assert(places[k] == places[k - 1] + 1);
                if there < k - 1 {
                    assert(spots[there] < spots[k - 1]);
                }
                if there > k {
                    assert(spots[k - 1] < spots[k] && spots[k] < spots[there]);
                }
                assert(there == k);
            } else {
                assert(key[k - 2] != '-');
                assert(key[k - 1] == own[k - 1]);
                assert(own[k] != '-');
                assert(key[k - 2] == own[k - 2] && places[k - 2] == spots[k - 2]);
                assert(places[k - 2] < places[k]);
                if there < k - 2 {
                    assert(spots[there] < spots[k - 2]);
                }
                assert(there >= k);
                assert(is_ascii_alnum(input[spots[k]]));
                let back = choose|back: int| 0 <= back < key.len() && #[trigger] places[back] == spots[k];
                assert(key[back] != '-');
                assert(spots[k - 2] < spots[k]);
                if back < k - 2 {
                    assert(places[back] < places[k - 2]);
                }
                assert(back >= k);
                if there > k {
                    assert(spots[k] < spots[there]);
                }
                if back > k {
                    assert(places[k] < places[back]);
                }
            }
        }
    }
}

/// No other text is a key of the input in that sense.
pub proof fn law_spelling_decides_the_key(
    input: Seq<char>,
    key: Seq<char>,
    places: Seq<int>,
)
    requires
        dashes_join(key),
        stands_for(key, input, places),
    ensures
        key == provider_key(input),
{
    law_provider_key_spells_the_input(input);
    let own = provider_key(input);
    let spots = choose|spots: Seq<int>| stands_for(own, input, spots);
    lemma_spellings_agree(input, key, places, own, spots, key.len() as int);
    lemma_spellings_agree(input, own, spots, key, places, own.len() as int);
    assert(key =~= own);
}

/// A key is its own key.
pub proof fn law_provider_key_idempotent(input: Seq<char>)
    ensures
        provider_key(provider_key(input)) == provider_key(input),
{
    law_provider_key_shape(input);
    lemma_dashed_stays(provider_key(input));
}

/// Two names that differ in the case of ASCII letters alone have one key.
pub proof fn law_provider_key_ignores_case(a: Seq<char>, b: Seq<char>)
    requires
        lower_text(a) == lower_text(b),
    ensures
        provider_key(a) == provider_key(b),
{
    lemma_dashed_lower(a);
    lemma_dashed_lower(b);
}

proof fn lemma_dashed_lower(s: Seq<char>)
    ensures
        dashed(lower_text(s)) == dashed(s),
    decreases s.len(),
{
    if s.len() > 0 {
        lemma_dashed_lower(s.drop_last());
        assert(lower_text(s).drop_last() =~= lower_text(s.drop_last()));
        assert(lower_text(s).last() == lower_char(s.last()));
    } else {
        assert(lower_text(s) =~= s);
    }
}

/// The catalog is read from a JSON file.
pub proof fn law_catalog_url_is_json(configured: Option<Seq<char>>)
    ensures
        ".json"@.is_suffix_of(catalog_url(configured)),
{
    reveal_strlit(".json");
    reveal_strlit("/api.json");
    reveal_strlit("https://models.dev/api.json");
    let url = catalog_url(configured);
    assert(".json"@ =~= url.subrange(url.len() - 5, url.len() as int));
}

proof fn lemma_two_kept<A>(s: Seq<A>, keep: spec_fn(A) -> bool, i: int, j: int)
    requires
        0 <= i < j < s.len(),
        keep(s[i]),
        keep(s[j]),
    ensures
        s.filter(keep).len() >= 2,
    decreases s.len(),
{
    let short = s.drop_last();
    assert(short.push(s.last()) =~= s);
    lemma_filter_push(short, s.last(), keep);
    if j < short.len() {
        assert(short[i] == s[i] && short[j] == s[j]);
        lemma_two_kept(short, keep, i, j);
    } else {
        lemma_filter_members(short, keep);
        assert(short[i] == s[i]);
        assert(short.contains(s[i]));
        assert(short.filter(keep).contains(s[i]));
    }
}

proof fn lemma_by_aliases(catalog: Seq<(Seq<char>, DevProviderView)>, aliases: Seq<Seq<char>>)
    ensures
        match by_aliases(catalog, aliases) {
            Some(i) => 0 <= i < catalog.len() && aliases.contains(catalog[i].0),
            None => forall|i: int|
                0 <= i < catalog.len() ==> !aliases.contains((#[trigger] catalog[i]).0),
        },
    decreases aliases.len(),
{
    if aliases.len() > 0 {
        let listed = |e: (Seq<char>, DevProviderView)| e.0 == aliases[0];
        let rest = aliases.drop_first();
        law_first_where(catalog, listed);
        lemma_by_aliases(catalog, rest);
        assert forall|t: Seq<char>| #[trigger] aliases.contains(t) <==> t == aliases[0]
            || rest.contains(t) by {
            if aliases.contains(t) {
                let k = choose|k: int| 0 <= k < aliases.len() && aliases[k] == t;
                if k > 0 {
                    assert(rest[k - 1] == t);
                }
            }
            if rest.contains(t) {
                let k = choose|k: int| 0 <= k < rest.len() && rest[k] == t;
                assert(aliases[k + 1] == t);
            }
        }
        if by_aliases(catalog, aliases) is None {
            assert forall|i: int| 0 <= i < catalog.len() implies !aliases.contains(
                (#[trigger] catalog[i]).0,
            ) by {
                assert(!listed(catalog[i]));
            }
        }
    }
}

/// A selected provider is listed under one of the aliases, or named like one of them, or is the
/// only one with the provider's host. None is selected only where there is no such provider.
pub proof fn law_selected_provider(
    catalog: Seq<(Seq<char>, DevProviderView)>,
    aliases: Seq<Seq<char>>,
    hosts: Seq<Option<Seq<char>>>,
    host: Option<Seq<char>>,
)
    requires
        hosts.len() == catalog.len(),
    ensures
        match selected_provider(catalog, aliases, hosts, host) {
            Some(i) => {
                &&& 0 <= i < catalog.len()
                &&& {
                    ||| aliases.contains(catalog[i].0)
                    ||| aliases.contains(provider_key(catalog[i].1.name))
                    ||| host is Some && hosts[i] == host && forall|j: int|
                        0 <= j < hosts.len() && j != i ==> #[trigger] hosts[j] != host
                }
            },
            None => {
                &&& forall|i: int|
                    0 <= i < catalog.len() ==> !aliases.contains((#[trigger] catalog[i]).0)
                        && !aliases.contains(provider_key(catalog[i].1.name))
                &&& host is Some ==> hosts.filter(is_host(host)).len() != 1
            },
        },
{
    let named = |e: (Seq<char>, DevProviderView)| aliases.contains(provider_key(e.1.name));
    lemma_by_aliases(catalog, aliases);
    law_first_where(catalog, named);
    law_first_where(hosts, is_host(host));
    if by_aliases(catalog, aliases) is None {
        if by_name(catalog, aliases) is None {
            match by_host(hosts, host) {
                Some(i) => {
                    assert forall|j: int| 0 <= j < hosts.len() && j != i implies #[trigger] hosts[j]
                        != host by {
                        if hosts[j] == host {
                            if i < j {
                                lemma_two_kept(hosts, is_host(host), i, j);
                            } else {
                                lemma_two_kept(hosts, is_host(host), j, i);
                            }
                        }
                    }
                },
                None => {
                    assert forall|i: int| 0 <= i < catalog.len() implies !aliases.contains(
                        (#[trigger] catalog[i]).0,
                    ) && !aliases.contains(provider_key(catalog[i].1.name)) by {
                        assert(!named(catalog[i]));
                    }
                    if host is Some && hosts.filter(is_host(host)).len() == 1 {
                        lemma_filter_members(hosts, is_host(host));
                        let only_one = hosts.filter(is_host(host));
                        assert(only_one.contains(only_one[0]));
                        assert(hosts.contains(only_one[0]));
                        let k = choose|k: int| 0 <= k < hosts.len() && hosts[k] == only_one[0];
                        assert(is_host(host)(hosts[k]));
                    }
                },
            }
        }
    }
}

/// Whether a model of a provider is offered under `id`.
pub open spec fn offered_as(entry: (Seq<char>, DevModelView), id: Seq<char>) -> bool {
    &&& !dev_deprecated(entry.1)
    &&& dev_picker_enabled(entry.1)
    &&& resolved_id(entry.1, entry.0) == Some(id)
}

proof fn lemma_offers(models: Seq<(Seq<char>, DevModelView)>, id: Seq<char>)
    ensures
        offers(models).map_values(|o: (Seq<char>, DevModelView)| o.0).contains(id) <==> exists|
            i: int,
        |
            0 <= i < models.len() && offered_as(#[trigger] models[i], id),
    decreases models.len(),
{
    let all = offers(models).map_values(|o: (Seq<char>, DevModelView)| o.0);
    if models.len() > 0 {
        let short = models.drop_last();
        let before = offers(short).map_values(|o: (Seq<char>, DevModelView)| o.0);
        let last = models.last();
        lemma_offers(short, id);
        assert(models[models.len() - 1] == last);
        if before.contains(id) {
            let k = choose|k: int| 0 <= k < before.len() && before[k] == id;
            assert(all[k] == id);
            let i = choose|i: int| 0 <= i < short.len() && offered_as(#[trigger] short[i], id);
            assert(offered_as(models[i], id));
        }
        if offered_as(last, id) {
            assert(all[all.len() - 1] == id);
        }
        if all.contains(id) {
            let k = choose|k: int| 0 <= k < all.len() && all[k] == id;
            if k < before.len() {
                assert(before[k] == id);
            } else {
                assert(offered_as(last, id));
            }
        }
        if exists|i: int| 0 <= i < models.len() && offered_as(#[trigger] models[i], id) {
            let i = choose|i: int| 0 <= i < models.len() && offered_as(#[trigger] models[i], id);
            if i < short.len() {
                assert(offered_as(short[i], id));
            }
        }
    }
}

proof fn lemma_entries_in_order(
    ids: Seq<Seq<char>>,
    bundled: Seq<ModelInfoView>,
    fallback: ModelInfoView,
)
    requires
        in_order(ids),
    ensures
        forall|i: int, j: int|
            0 <= i < j < provider_entries(ids, bundled, fallback).len() ==> text_le(
                (#[trigger] provider_entries(ids, bundled, fallback)[i]).slug,
                (#[trigger] provider_entries(ids, bundled, fallback)[j]).slug,
            ),
    decreases ids.len(),
{
    let entries = provider_entries(ids, bundled, fallback);
    if ids.len() > 0 {
        let short = ids.drop_last();
        let front = provider_entries(short, bundled, fallback);
        assert(in_order(short)) by {
            assert forall|i: int, j: int| 0 <= i < j < short.len() implies text_le(
                #[trigger] short[i],
                #[trigger] short[j],
            ) by {
                assert(text_le(ids[i], ids[j]));
            }
        }
        lemma_entries_in_order(short, bundled, fallback);
        law_provider_entries(short, bundled, fallback);
        if !short.contains(ids.last()) {
            assert forall|i: int, j: int| 0 <= i < j < entries.len() implies text_le(
                (#[trigger] entries[i]).slug,
                (#[trigger] entries[j]).slug,
            ) by {
                assert(entries[i] == front[i]);
                if j == front.len() {
                    assert(has_slug(front, front[i].slug));
                    assert(short.contains(front[i].slug));
                    let k = choose|k: int| 0 <= k < short.len() && short[k] == front[i].slug;
                    assert(ids[k] == front[i].slug);
                    assert(text_le(ids[k], ids[ids.len() - 1]));
                } else {
                    assert(entries[j] == front[j]);
                }
            }
        }
    }
}

/// The catalog entries for a models.dev provider are those of the models that it offers: neither
/// deprecated nor kept from the picker. There is one for each id, and they come in the
/// lexicographic order of their ids.
pub proof fn law_dev_entries(
    provider: DevProviderView,
    bundled: Seq<ModelInfoView>,
    fallback: ModelInfoView,
)
    ensures
        ({
            let entries = dev_entries(provider, bundled, fallback);
            &&& slugs_distinct(entries)
            &&& forall|id: Seq<char>| #[trigger]
                has_slug(entries, id) <==> exists|i: int|
                    0 <= i < provider.models.len() && offered_as(
                        #[trigger] provider.models[i],
                        id,
                    )
            &&& forall|i: int, j: int|
                0 <= i < j < entries.len() ==> text_le(
                    (#[trigger] entries[i]).slug,
                    (#[trigger] entries[j]).slug,
                )
        }),
{
    broadcast use vstd::seq_lib::group_to_multiset_ensures;

    let all = offers(provider.models);
    let keys = all.map_values(|o: (Seq<char>, DevModelView)| o.0);
    let ids = offered_ids(all);
    let base = provider_entries(ids, bundled, fallback);
    let entries = dev_entries(provider, bundled, fallback);
    law_sorted_texts(keys);
    law_provider_entries(ids, bundled, fallback);
    lemma_entries_in_order(ids, bundled, fallback);
    assert forall|i: int| 0 <= i < entries.len() implies (#[trigger] entries[i]).slug
        == base[i].slug by {}
    assert forall|id: Seq<char>| #[trigger] has_slug(entries, id) <==> exists|i: int|
        0 <= i < provider.models.len() && offered_as(#[trigger] provider.models[i], id) by {
        lemma_offers(provider.models, id);
        assert(ids.to_multiset().count(id) == keys.to_multiset().count(id));
        assert(ids.contains(id) <==> keys.contains(id));
        if has_slug(entries, id) {
            let i = choose|i: int| 0 <= i < entries.len() && (#[trigger] entries[i]).slug == id;
            assert(base[i].slug == id);
            assert(has_slug(base, id));
        }
        if has_slug(base, id) {
            let i = choose|i: int| 0 <= i < base.len() && (#[trigger] base[i]).slug == id;
            assert(entries[i].slug == id);
        }
    }
    assert forall|i: int, j: int| 0 <= i < j < entries.len() implies (#[trigger] entries[i]).slug
        != (#[trigger] entries[j]).slug by {
        assert(base[i].slug != base[j].slug);
    }
    assert forall|i: int, j: int| 0 <= i < j < entries.len() implies text_le(
        (#[trigger] entries[i]).slug,
        (#[trigger] entries[j]).slug,
    ) by {
        assert(text_le(base[i].slug, base[j].slug));
    }
}

/// Whether no two providers of a catalog have one id.
pub open spec fn ids_once(catalog: Seq<(Seq<char>, DevProviderView)>) -> bool {
    forall|i: int, j: int|
        0 <= i < j < catalog.len() ==> (#[trigger] catalog[i]).0 != (#[trigger] catalog[j]).0
}

/// The provider that is listed under the provider's own key is selected, wherever it stands in the
/// catalog and whatever else would match.
pub proof fn law_own_id_wins(
    catalog: Seq<(Seq<char>, DevProviderView)>,
    aliases: Seq<Seq<char>>,
    hosts: Seq<Option<Seq<char>>>,
    host: Option<Seq<char>>,
    i: int,
)
    requires
        ids_once(catalog),
        0 <= i < catalog.len(),
        aliases.len() > 0,
        catalog[i].0 == aliases[0],
    ensures
        selected_provider(catalog, aliases, hosts, host) == Some(i),
{
    let listed = |e: (Seq<char>, DevProviderView)| e.0 == aliases[0];
    law_first_where(catalog, listed);
    assert(listed(catalog[i]));
}

/// Whether no id is offered by two models.
pub open spec fn offered_once(models: Seq<(Seq<char>, DevModelView)>) -> bool {
    forall|i: int, j: int, id: Seq<char>|
        0 <= i < models.len() && 0 <= j < models.len() && #[trigger] offered_as(models[i], id)
            && #[trigger] offered_as(models[j], id) ==> i == j
}

proof fn lemma_offered_keys_distinct(models: Seq<(Seq<char>, DevModelView)>)
    requires
        offered_once(models),
    ensures
        offers(models).map_values(|o: (Seq<char>, DevModelView)| o.0).no_duplicates(),
    decreases models.len(),
{
    let keys = offers(models).map_values(|o: (Seq<char>, DevModelView)| o.0);
    if models.len() > 0 {
        let short = models.drop_last();
        let before = offers(short).map_values(|o: (Seq<char>, DevModelView)| o.0);
        let last = models.last();
        assert(offered_once(short)) by {
            assert forall|i: int, j: int, id: Seq<char>|
                0 <= i < short.len() && 0 <= j < short.len() && #[trigger] offered_as(
                    short[i],
                    id,
                ) && #[trigger] offered_as(short[j], id) implies i == j by {
                assert(offered_as(models[i], id));
                assert(offered_as(models[j], id));
            }
        }
        lemma_offered_keys_distinct(short);
        match resolved_id(last.1, last.0) {
            Some(id) => {
                if offered_as(last, id) {
                    lemma_offers(short, id);
                    assert(!before.contains(id)) by {
                        if before.contains(id) {
                            let i = choose|i: int|
                                0 <= i < short.len() && offered_as(#[trigger] short[i], id);
                            assert(offered_as(models[i], id));
                            assert(offered_as(models[models.len() - 1], id));
                        }
                    }
                    assert(keys =~= before.push(id));
                } else {
                    assert(keys =~= before);
                }
            },
            None => {
                assert(keys =~= before);
            },
        }
    }
}

proof fn lemma_last_offer(models: Seq<(Seq<char>, DevModelView)>, id: Seq<char>)
    ensures
        match last_offer(offers(models), id) {
            Some(d) => exists|i: int|
                0 <= i < models.len() && offered_as(#[trigger] models[i], id) && models[i].1 == d,
            None => forall|i: int|
                0 <= i < models.len() ==> !offered_as(#[trigger] models[i], id),
        },
    decreases models.len(),
{
    if models.len() > 0 {
        let short = models.drop_last();
        let last = models.last();
        lemma_last_offer(short, id);
        assert(models[models.len() - 1] == last);
        if offered_as(last, id) {
            assert(offers(models).last() == (id, last.1));
        } else {
            if offers(models).len() > offers(short).len() {
                assert(offers(models).drop_last() =~= offers(short));
            }
            assert(last_offer(offers(models), id) == last_offer(offers(short), id));
            match last_offer(offers(short), id) {
                Some(d) => {
                    let i = choose|i: int|
                        0 <= i < short.len() && offered_as(#[trigger] short[i], id) && short[i].1
                            == d;
                    assert(offered_as(models[i], id) && models[i].1 == d);
                },
                None => {
                    assert forall|i: int| 0 <= i < models.len() implies !offered_as(
                        #[trigger] models[i],
                        id,
                    ) by {
                        if i < short.len() {
                            assert(!offered_as(short[i], id));
                        }
                    }
                },
            }
        }
    }
}

/// The order in which the table of a provider's models is walked does not matter, as long as no id
/// is offered by two of them.
pub proof fn law_walk_order_does_not_matter(
    name: Seq<char>,
    api: Option<Seq<char>>,
    one: Seq<(Seq<char>, DevModelView)>,
    other: Seq<(Seq<char>, DevModelView)>,
    bundled: Seq<ModelInfoView>,
    fallback: ModelInfoView,
)
    requires
        forall|e: (Seq<char>, DevModelView)| #[trigger] one.contains(e) <==> other.contains(e),
        offered_once(one),
        offered_once(other),
    ensures
        dev_entries(DevProviderView { name, api, models: one }, bundled, fallback) == dev_entries(
            DevProviderView { name, api, models: other },
            bundled,
            fallback,
        ),
{
    let keys_a = offers(one).map_values(|o: (Seq<char>, DevModelView)| o.0);
    let keys_b = offers(other).map_values(|o: (Seq<char>, DevModelView)| o.0);
    lemma_offered_keys_distinct(one);
    lemma_offered_keys_distinct(other);
    assert forall|id: Seq<char>| #[trigger] keys_a.contains(id) <==> keys_b.contains(id) by {
        lemma_offers(one, id);
        lemma_offers(other, id);
        if keys_a.contains(id) {
            let i = choose|i: int| 0 <= i < one.len() && offered_as(#[trigger] one[i], id);
            assert(one.contains(one[i]));
            assert(other.contains(one[i]));
            let j = choose|j: int| 0 <= j < other.len() && other[j] == one[i];
            assert(offered_as(other[j], id));
        }
        if keys_b.contains(id) {
            let j = choose|j: int| 0 <= j < other.len() && offered_as(#[trigger] other[j], id);
            assert(other.contains(other[j]));
            assert(one.contains(other[j]));
            let i = choose|i: int| 0 <= i < one.len() && one[i] == other[j];
            assert(offered_as(one[i], id));
        }
    }
    law_sorting_forgets_the_order(keys_a, keys_b);
    let base = provider_entries(offered_ids(offers(one)), bundled, fallback);
    assert forall|m: ModelInfoView| #[trigger] renamed(m, offers(one)) == renamed(
        m,
        offers(other),
    ) by {
        let id = m.slug;
        lemma_last_offer(one, id);
        lemma_last_offer(other, id);
        match last_offer(offers(one), id) {
            Some(d) => {
                let i = choose|i: int|
                    0 <= i < one.len() && offered_as(#[trigger] one[i], id) && one[i].1 == d;
                assert(one.contains(one[i]));
                let j = choose|j: int| 0 <= j < other.len() && other[j] == one[i];
                assert(offered_as(other[j], id));
                let e = last_offer(offers(other), id)->0;
                let k = choose|k: int|
                    0 <= k < other.len() && offered_as(#[trigger] other[k], id) && other[k].1 == e;
                assert(j == k);
            },
            None => {
                if last_offer(offers(other), id) is Some {
                    let e = last_offer(offers(other), id)->0;
                    let k = choose|k: int|
                        0 <= k < other.len() && offered_as(#[trigger] other[k], id) && other[k].1
                            == e;
                    assert(other.contains(other[k]));
                    assert(one.contains(other[k]));
                    let i = choose|i: int| 0 <= i < one.len() && one[i] == other[k];
                    assert(offered_as(one[i], id));
                }
            },
        }
    }
    assert(base.map_values(|m: ModelInfoView| renamed(m, offers(one))) =~= base.map_values(
        |m: ModelInfoView| renamed(m, offers(other)),
    ));
}

} // verus!

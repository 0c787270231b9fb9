//! What the listings of providers and of models.dev promise of the catalog that comes of them.

use vstd::prelude::*;
use vstd::string::*;

use crate::exchange_laws::lemma_slashes_cut;
use crate::exchange_laws::slashes;
use crate::lookup::model_info;
use crate::manager::ManagerView;
use crate::model::ModelInfoView;
use crate::model::ModelVisibility;
use crate::models_dev::by_aliases;
use crate::models_dev::catalog_hosts;
use crate::models_dev::catalog_url;
use crate::models_dev::configured_url;
use crate::models_dev::dev_entries;
use crate::models_dev::host_of;
use crate::models_dev::host_of_opt;
use crate::models_dev::is_host;
use crate::models_dev::last_offer;
use crate::models_dev::offered_ids;
use crate::models_dev::offers;
use crate::models_dev::provider_aliases;
use crate::models_dev::provider_key;
use crate::models_dev::selected_provider;
use crate::order::lemma_filter_push;
use crate::order::lemma_first_where_is;
use crate::order::lemma_first_where_none;
use crate::order::sorted_texts;
use crate::outside::url_host;
use crate::provider_catalog::authoritative;
use crate::provider_catalog::compat_ids;
use crate::provider_catalog::merged;
use crate::provider_catalog::provider_entries;
use crate::provider_catalog::provider_entry;
use crate::provider_catalog::tags_ids;
use crate::provider_catalog::with_models;
use crate::text::is_space;
use crate::text::lower_text;
use crate::text::only;
use crate::text::opt_text;
use crate::text::space;
use crate::text::split_on;
use crate::text::texts;
use crate::text::trim_by;
use crate::text::trim_end_by;
use crate::text::trim_start_by;
use crate::text_laws::law_trim_slashes;
use crate::wire::compat_entries;
use crate::wire::dev_catalog;
use crate::wire::dev_deprecated;
use crate::wire::dev_models;
use crate::wire::dev_picker_enabled;
use crate::wire::is_responses_endpoint;
use crate::wire::option_flag;
use crate::wire::resolved_id;
use crate::wire::serves_responses;
use crate::wire::tags_entries;
use crate::wire::CompatView;
use crate::wire::DevModelView;
use crate::wire::DevProviderView;
use crate::wire::ModelsDevEntry;
use crate::wire::ModelsDevModel;
use crate::wire::ModelsDevModelEntry;
use crate::wire::ModelsDevProvider;
use crate::wire::OllamaTagsModel;
use crate::wire::OpenAiCompatModel;
use crate::wire::OptionValue;
use crate::wire::TagsView;

verus! {

/// A listed model has what the lookup of its id gives, in every field but these: it is named by its
/// id where it has no name to show, is shown, can be used with an API key, has its place in the
/// listing as its priority and is not marked as a fallback.
pub proof fn law_listed_model(
    index: int,
    id: Seq<char>,
    bundled: Seq<ModelInfoView>,
    fallback: ModelInfoView,
)
    requires
        index >= 0,
    ensures
        ({
            let entry = provider_entry(index, id, bundled, fallback);
            let found = model_info(id, bundled, fallback);
            &&& entry == (ModelInfoView {
                slug: id,
                display_name: entry.display_name,
                visibility: ModelVisibility::List,
                supported_in_api: true,
                priority: entry.priority,
                used_fallback_model_metadata: false,
                ..found
            })
            &&& found.display_name.len() > 0 ==> entry.display_name == found.display_name
            &&& found.display_name.len() == 0 ==> entry.display_name == id
            &&& index < 0x8000_0000 ==> entry.priority == index
            &&& index >= 0x8000_0000 ==> entry.priority == 0x7fff_ffff
        }),
{
}

/// Whether an endpoint is the Responses endpoint, whatever slashes stand at its end.
pub open spec fn ends_in_responses(endpoint: Seq<char>) -> bool {
    exists|stem: Seq<char>, n: nat| endpoint == #[trigger] (stem + "/responses"@ + slashes(n))
}

/// Whether an entry names no endpoints, or the Responses endpoint among others.
pub open spec fn names_responses(m: CompatView) -> bool {
    m.supported_endpoints.len() == 0 || exists|i: int|
        0 <= i < m.supported_endpoints.len() && ends_in_responses(
            #[trigger] m.supported_endpoints[i],
        )
}

/// The Responses endpoint is told by the end of its path, whatever slashes follow.
pub proof fn law_responses_endpoint(endpoint: Seq<char>)
    ensures
        is_responses_endpoint(endpoint) <==> ends_in_responses(endpoint),
{
    let t = trim_end_by(endpoint, only('/'));
    reveal_strlit("/responses");
    law_trim_slashes(endpoint);
    if is_responses_endpoint(endpoint) {
        let stem = t.take(t.len() - 10);
        let n = (endpoint.len() - t.len()) as nat;
        assert(t =~= stem + "/responses"@);
        assert(endpoint =~= stem + "/responses"@ + slashes(n));
    }
    if ends_in_responses(endpoint) {
        let (stem, n) = choose|stem: Seq<char>, n: nat|
            endpoint == #[trigger] (stem + "/responses"@ + slashes(n));
        let path = stem + "/responses"@;
        assert(path.last() == 's');
        lemma_slashes_cut(path, n);
        assert(path.subrange(path.len() - 10, path.len() as int) =~= "/responses"@);
    }
}

/// A model can be reached through the Responses endpoint where the server names that endpoint or
/// none at all.
pub proof fn law_serves_responses(m: CompatView)
    ensures
        serves_responses(m) <==> names_responses(m),
{
    assert forall|i: int| 0 <= i < m.supported_endpoints.len() implies is_responses_endpoint(
        #[trigger] m.supported_endpoints[i],
    ) == ends_in_responses(m.supported_endpoints[i]) by {
        law_responses_endpoint(m.supported_endpoints[i]);
    }
}

proof fn lemma_filter_twice<A>(
    s: Seq<A>,
    p: spec_fn(A) -> bool,
    q: spec_fn(A) -> bool,
    both: spec_fn(A) -> bool,
)
    requires
        forall|a: A| #[trigger] both(a) == (p(a) && q(a)),
    ensures
        s.filter(p).filter(q) == s.filter(both),
    decreases s.len(),
{
    reveal(Seq::filter);
    if s.len() > 0 {
        let short = s.drop_last();
        let a = s.last();
        lemma_filter_twice(short, p, q, both);
        assert(short.push(a) =~= s);
        lemma_filter_push(short, a, p);
        lemma_filter_push(short, a, both);
        lemma_filter_push(short.filter(p), a, q);
        assert(both(a) == (p(a) && q(a)));
    } else {
        assert(s.filter(p).filter(q) =~= s.filter(both));
    }
}

/// An OpenAI-compatible listing gives the ids of the models that may be shown: first those that can
/// be reached through the Responses endpoint, then the others, each in the order of the listing.
pub proof fn law_compat_order(entries: Seq<CompatView>)
    ensures
        ({
            let first = entries.filter(
                |m: CompatView| m.model_picker_enabled != Some(false) && names_responses(m),
            );
            let second = entries.filter(
                |m: CompatView| m.model_picker_enabled != Some(false) && !names_responses(m),
            );
            let ids = compat_ids(entries);
            &&& ids.len() == first.len() + second.len()
            &&& forall|i: int| 0 <= i < first.len() ==> #[trigger] ids[i] == first[i].id
            &&& forall|i: int|
                0 <= i < second.len() ==> #[trigger] ids[first.len() + i] == second[i].id
        }),
{
    let shown = |m: CompatView| m.model_picker_enabled != Some(false);
    let serves = |m: CompatView| serves_responses(m);
    let lacks = |m: CompatView| !serves_responses(m);
    let p = |m: CompatView| m.model_picker_enabled != Some(false) && names_responses(m);
    let q = |m: CompatView| m.model_picker_enabled != Some(false) && !names_responses(m);
    assert forall|m: CompatView| #[trigger] p(m) == (shown(m) && serves(m)) by {
        law_serves_responses(m);
    }
    assert forall|m: CompatView| #[trigger] q(m) == (shown(m) && lacks(m)) by {
        law_serves_responses(m);
    }
    lemma_filter_twice(entries, shown, serves, p);
    lemma_filter_twice(entries, shown, lacks, q);
}

/// An Ollama listing gives the names of the models that may be shown, in its order: one more entry
/// gives one more name, unless the server says that it may not be shown.
pub proof fn law_tags_order(entries: Seq<TagsView>, m: TagsView)
    ensures
        tags_ids(Seq::empty()) == Seq::<Seq<char>>::empty(),
        m.model_picker_enabled == Some(false) ==> tags_ids(entries.push(m)) == tags_ids(entries),
        m.model_picker_enabled != Some(false) ==> tags_ids(entries.push(m)) == tags_ids(
            entries,
        ).push(m.name),
{
    let shown = |m: TagsView| m.model_picker_enabled != Some(false);
    let name_of = |m: TagsView| m.name;
    let kept = entries.filter(shown);
    lemma_filter_push(entries, m, shown);
    reveal(Seq::filter);
    assert(kept.push(m).map_values(name_of) =~= kept.map_values(name_of).push(m.name));
    assert(Seq::<TagsView>::empty().filter(shown).map_values(name_of) =~= Seq::empty());
}

/// One more model that is put in a catalog takes the place of the first entry with its slug, or
/// comes behind the others where there is none.
pub proof fn law_model_is_put_in(
    base: Seq<ModelInfoView>,
    models: Seq<ModelInfoView>,
    m: ModelInfoView,
    i: int,
)
    ensures
        merged(base, Seq::empty()) == base,
        ({
            let before = merged(base, models);
            let after = merged(base, models.push(m));
            &&& 0 <= i < before.len() && before[i].slug == m.slug && (forall|j: int|
                0 <= j < i ==> (#[trigger] before[j]).slug != m.slug) ==> after == before.update(
                i,
                m,
            )
            &&& (forall|j: int| 0 <= j < before.len() ==> (#[trigger] before[j]).slug != m.slug)
                ==> after == before.push(m)
        }),
{
    let before = merged(base, models);
    let same = |e: ModelInfoView| e.slug == m.slug;
    assert(models.push(m).drop_last() =~= models);
    if 0 <= i < before.len() && before[i].slug == m.slug && (forall|j: int|
        0 <= j < i ==> (#[trigger] before[j]).slug != m.slug) {
        assert forall|j: int| 0 <= j < i implies !same(#[trigger] before[j]) by {}
        lemma_first_where_is(before, same, i);
    }
    if forall|j: int| 0 <= j < before.len() ==> (#[trigger] before[j]).slug != m.slug {
        assert forall|j: int| 0 <= j < before.len() implies !same(#[trigger] before[j]) by {}
        lemma_first_where_none(before, same);
    }
}

/// Models that come in replace the catalog where the provider lists its own models: GitHub Copilot, a
/// local server, and any provider but OpenAI. For OpenAI they are put in the bundled catalog. Nothing
/// else changes.
pub proof fn law_models_come_in(m: ManagerView, models: Seq<ModelInfoView>)
    ensures
        authoritative(m) <==> m.provider.github_copilot || m.provider.local_oss
            || !m.provider.openai,
        m.provider.github_copilot || m.provider.local_oss || !m.provider.openai ==> with_models(
            m,
            models,
        ) == (ManagerView { remote_models: models, ..m }),
        !m.provider.github_copilot && !m.provider.local_oss && m.provider.openai ==> with_models(
            m,
            models,
        ) == (ManagerView { remote_models: merged(m.bundled_models, models), ..m }),
{
}

/// The id of a model of models.dev is its own, else its key, without white space around it. A blank
/// one is none, also where the key is not blank.
pub proof fn law_resolved_id(m: DevModelView, own: Seq<char>, key: Seq<char>)
    ensures
        m.id == Some(own) && trim_by(own, space()).len() > 0 ==> resolved_id(m, key) == Some(
            trim_by(own, space()),
        ),
        m.id == Some(own) && trim_by(own, space()).len() == 0 ==> resolved_id(m, key) is None,
        m.id is None && trim_by(key, space()).len() > 0 ==> resolved_id(m, key) == Some(
            trim_by(key, space()),
        ),
        m.id is None && trim_by(key, space()).len() == 0 ==> resolved_id(m, key) is None,
{
}

proof fn lemma_option_flag(options: Seq<(Seq<char>, OptionValue)>, key: Seq<char>, i: int)
    requires
        0 <= i < options.len(),
        options[i].0 == key,
        forall|j: int| 0 <= j < i ==> (#[trigger] options[j]).0 != key,
    ensures
        option_flag(options, key) == match options[i].1 {
            OptionValue::Bool(b) => Some(b),
            OptionValue::Other => None,
        },
    decreases options.len(),
{
    if i > 0 {
        let rest = options.drop_first();
        assert(options[0].0 != key);
        assert forall|j: int| 0 <= j < i - 1 implies (#[trigger] rest[j]).0 != key by {
            assert(options[j + 1].0 != key);
        }
        lemma_option_flag(rest, key, i - 1);
    }
}

proof fn lemma_no_option(options: Seq<(Seq<char>, OptionValue)>, key: Seq<char>)
    requires
        forall|j: int| 0 <= j < options.len() ==> (#[trigger] options[j]).0 != key,
    ensures
        option_flag(options, key) is None,
    decreases options.len(),
{
    if options.len() > 0 {
        let rest = options.drop_first();
        assert(options[0].0 != key);
        assert forall|j: int| 0 <= j < rest.len() implies (#[trigger] rest[j]).0 != key by {
            assert(options[j + 1].0 != key);
        }
        lemma_no_option(rest, key);
    }
}

/// A model of models.dev may be shown as its own flag says. Without one, the first option under
/// `model_picker_enabled` says it where it is a boolean; else the model may be shown.
pub proof fn law_dev_model_is_shown(m: DevModelView, i: int)
    ensures
        m.model_picker_enabled == Some(true) ==> dev_picker_enabled(m),
        m.model_picker_enabled == Some(false) ==> !dev_picker_enabled(m),
        m.model_picker_enabled is None && 0 <= i < m.options.len() && m.options[i].0
            == "model_picker_enabled"@ && (forall|j: int|
            0 <= j < i ==> (#[trigger] m.options[j]).0 != "model_picker_enabled"@) ==> (
        dev_picker_enabled(m) <==> m.options[i].1 != OptionValue::Bool(false)),
        m.model_picker_enabled is None && (forall|j: int|
            0 <= j < m.options.len() ==> (#[trigger] m.options[j]).0 != "model_picker_enabled"@)
            ==> dev_picker_enabled(m),
{
    let key = "model_picker_enabled"@;
    if 0 <= i < m.options.len() && m.options[i].0 == key && (forall|j: int|
        0 <= j < i ==> (#[trigger] m.options[j]).0 != key) {
        lemma_option_flag(m.options, key, i);
    }
    if forall|j: int| 0 <= j < m.options.len() ==> (#[trigger] m.options[j]).0 != key {
        lemma_no_option(m.options, key);
    }
}

/// A model of models.dev is deprecated where its status spells that word, in letters of any case, and
/// only there.
pub proof fn law_dev_model_is_deprecated(m: DevModelView)
    ensures
        dev_deprecated(m) <==> m.status is Some && lower_text(m.status->0) == "deprecated"@,
{
    reveal_strlit("deprecated");
    assert(lower_text("deprecated"@) =~= "deprecated"@);
}

/// One more model of a provider is offered, under its id, unless it is deprecated, may not be shown
/// or has no id.
pub proof fn law_offers(models: Seq<(Seq<char>, DevModelView)>, key: Seq<char>, m: DevModelView)
    ensures
        offers(Seq::empty()) == Seq::<(Seq<char>, DevModelView)>::empty(),
        dev_deprecated(m) || !dev_picker_enabled(m) || resolved_id(m, key) is None ==> offers(
            models.push((key, m)),
        ) == offers(models),
        !dev_deprecated(m) && dev_picker_enabled(m) && resolved_id(m, key) is Some ==> offers(
            models.push((key, m)),
        ) == offers(models).push((resolved_id(m, key)->0, m)),
{
    assert(models.push((key, m)).drop_last() =~= models);
}

proof fn lemma_last_offer_is(all: Seq<(Seq<char>, DevModelView)>, id: Seq<char>, j: int)
    requires
        0 <= j < all.len(),
        all[j].0 == id,
        forall|l: int| j < l < all.len() ==> (#[trigger] all[l]).0 != id,
    ensures
        last_offer(all, id) == Some(all[j].1),
    decreases all.len(),
{
    if j < all.len() - 1 {
        let short = all.drop_last();
        assert(all[all.len() - 1].0 != id);
        assert forall|l: int| j < l < short.len() implies (#[trigger] short[l]).0 != id by {
            assert(all[l].0 != id);
        }
        lemma_last_offer_is(short, id, j);
    }
}

/// The entries for a provider of models.dev are those of a listing of the ids that it offers, sorted,
/// in every field but the name to show: that is the name which the last model offered under the id
/// has at models.dev, unless it is blank or missing.
pub proof fn law_dev_names(
    provider: DevProviderView,
    bundled: Seq<ModelInfoView>,
    fallback: ModelInfoView,
    k: int,
    j: int,
)
    ensures
        ({
            let all = offers(provider.models);
            let ids = sorted_texts(all.map_values(|o: (Seq<char>, DevModelView)| o.0));
            let listed = provider_entries(ids, bundled, fallback);
            let entries = dev_entries(provider, bundled, fallback);
            &&& entries.len() == listed.len()
            &&& 0 <= k < entries.len() ==> entries[k] == (ModelInfoView {
                display_name: entries[k].display_name,
                ..listed[k]
            })
            &&& 0 <= k < entries.len() && 0 <= j < all.len() && all[j].0 == listed[k].slug && (
            forall|l: int| j < l < all.len() ==> (#[trigger] all[l]).0 != listed[k].slug) ==> {
                let name = all[j].1.name;
                entries[k].display_name == if name is Some && trim_by(name->0, space()).len() > 0 {
                    name->0
                } else {
                    listed[k].display_name
                }
            }
        }),
{
    let all = offers(provider.models);
    let listed = provider_entries(offered_ids(all), bundled, fallback);
    if 0 <= k < listed.len() && 0 <= j < all.len() && all[j].0 == listed[k].slug && (forall|l: int|
        j < l < all.len() ==> (#[trigger] all[l]).0 != listed[k].slug) {
        lemma_last_offer_is(all, listed[k].slug, j);
    }
}

/// The models.dev catalog lists the provider under the key of its name. A provider whose key has the
/// words `azure` and `openai` next to each other, or that speaks Azure's protocol, may be listed as
/// `azure` too.
pub proof fn law_aliases(m: ManagerView)
    ensures
        ({
            let key = provider_key(m.provider.name);
            let words = split_on(key, '-');
            let azure = m.provider.azure_responses_wire || exists|i: int|
                0 <= i && i + 1 < words.len() && #[trigger] words[i] == "azure"@ && words[i + 1]
                    == "openai"@;
            let aliases = provider_aliases(m);
            &&& aliases.len() >= 1 && aliases[0] == key
            &&& azure && key != "azure"@ ==> aliases.len() == 2 && aliases[1] == "azure"@
            &&& !azure || key == "azure"@ ==> aliases.len() == 1
        }),
{
    let key = provider_key(m.provider.name);
    let words = split_on(key, '-');
    if exists|i: int|
        0 <= i && i + 1 < words.len() && #[trigger] words[i] == "azure"@ && words[i + 1]
            == "openai"@ {
        let i = choose|i: int|
            0 <= i && i + 1 < words.len() && #[trigger] words[i] == "azure"@ && words[i + 1]
                == "openai"@;
        assert(0 <= i < words.len() - 1 && words[i] == "azure"@);
    }
}

/// Hosts are compared in small letters; what has no host has none.
pub proof fn law_hosts(
    url: Seq<char>,
    catalog: Seq<(Seq<char>, DevProviderView)>,
    i: int,
)
    ensures
        host_of_opt(None) is None,
        host_of_opt(Some(url)) == host_of(url),
        url_host(url) is None ==> host_of(url) is None,
        url_host(url) is Some ==> host_of(url) == Some(lower_text(url_host(url)->0)),
        catalog_hosts(catalog).len() == catalog.len(),
        0 <= i < catalog.len() && catalog[i].1.api is None ==> catalog_hosts(catalog)[i] is None,
        0 <= i < catalog.len() && catalog[i].1.api is Some ==> catalog_hosts(catalog)[i] == host_of(
            catalog[i].1.api->0,
        ),
{
}

/// Whether no provider of a catalog is listed under one of the aliases.
pub open spec fn not_listed(
    catalog: Seq<(Seq<char>, DevProviderView)>,
    aliases: Seq<Seq<char>>,
) -> bool {
    forall|i: int| 0 <= i < catalog.len() ==> !aliases.contains((#[trigger] catalog[i]).0)
}

/// Whether no provider of a catalog has a name with one of the aliases as its key.
pub open spec fn not_named(
    catalog: Seq<(Seq<char>, DevProviderView)>,
    aliases: Seq<Seq<char>>,
) -> bool {
    forall|i: int|
        0 <= i < catalog.len() ==> !aliases.contains(
            provider_key((#[trigger] catalog[i]).1.name),
        )
}

proof fn lemma_by_alias_is(
    catalog: Seq<(Seq<char>, DevProviderView)>,
    aliases: Seq<Seq<char>>,
    a: int,
    i: int,
)
    requires
        0 <= a < aliases.len(),
        0 <= i < catalog.len(),
        catalog[i].0 == aliases[a],
        forall|j: int| 0 <= j < i ==> (#[trigger] catalog[j]).0 != aliases[a],
        forall|b: int, j: int|
            0 <= b < a && 0 <= j < catalog.len() ==> (#[trigger] catalog[j]).0 != (
            #[trigger] aliases[b]),
    ensures
        by_aliases(catalog, aliases) == Some(i),
    decreases aliases.len(),
{
    let listed = |e: (Seq<char>, DevProviderView)| e.0 == aliases[0];
    if a == 0 {
        lemma_first_where_is(catalog, listed, i);
    } else {
        assert forall|j: int| 0 <= j < catalog.len() implies !listed(#[trigger] catalog[j]) by {
            assert(catalog[j].0 != aliases[0]);
        }
        lemma_first_where_none(catalog, listed);
        let rest = aliases.drop_first();
        assert(rest[a - 1] == aliases[a]);
        assert forall|b: int, j: int| 0 <= b < a - 1 && 0 <= j < catalog.len() implies (
        #[trigger] catalog[j]).0 != (#[trigger] rest[b]) by {
            assert(catalog[j].0 != aliases[b + 1]);
        }
        lemma_by_alias_is(catalog, rest, a - 1, i);
    }
}

proof fn lemma_by_no_alias(catalog: Seq<(Seq<char>, DevProviderView)>, aliases: Seq<Seq<char>>)
    requires
        not_listed(catalog, aliases),
    ensures
        by_aliases(catalog, aliases) is None,
    decreases aliases.len(),
{
    if aliases.len() > 0 {
        let listed = |e: (Seq<char>, DevProviderView)| e.0 == aliases[0];
        let rest = aliases.drop_first();
        assert forall|j: int| 0 <= j < catalog.len() implies !listed(#[trigger] catalog[j]) by {
            if catalog[j].0 == aliases[0] {
                assert(aliases.contains(catalog[j].0));
            }
        }
        lemma_first_where_none(catalog, listed);
        assert forall|i: int| 0 <= i < catalog.len() implies !rest.contains(
            (#[trigger] catalog[i]).0,
        ) by {
            if rest.contains(catalog[i].0) {
                let k = choose|k: int| 0 <= k < rest.len() && rest[k] == catalog[i].0;
                assert(aliases[k + 1] == catalog[i].0);
            }
        }
        lemma_by_no_alias(catalog, rest);
    }
}

/// A provider that is listed under an alias is the one, where no earlier alias is listed; of several
/// under one alias, the first.
pub proof fn law_listed_id_is_first(
    catalog: Seq<(Seq<char>, DevProviderView)>,
    aliases: Seq<Seq<char>>,
    hosts: Seq<Option<Seq<char>>>,
    host: Option<Seq<char>>,
    a: int,
    i: int,
)
    requires
        0 <= a < aliases.len(),
        0 <= i < catalog.len(),
        catalog[i].0 == aliases[a],
        forall|j: int| 0 <= j < i ==> (#[trigger] catalog[j]).0 != aliases[a],
        forall|b: int, j: int|
            0 <= b < a && 0 <= j < catalog.len() ==> (#[trigger] catalog[j]).0 != (
            #[trigger] aliases[b]),
    ensures
        selected_provider(catalog, aliases, hosts, host) == Some(i),
{
    lemma_by_alias_is(catalog, aliases, a, i);
}

/// Where no alias is listed, the first provider whose name has one of them as its key is the one.
pub proof fn law_name_comes_next(
    catalog: Seq<(Seq<char>, DevProviderView)>,
    aliases: Seq<Seq<char>>,
    hosts: Seq<Option<Seq<char>>>,
    host: Option<Seq<char>>,
    i: int,
)
    requires
        not_listed(catalog, aliases),
        0 <= i < catalog.len(),
        aliases.contains(provider_key(catalog[i].1.name)),
        forall|j: int|
            0 <= j < i ==> !aliases.contains(provider_key((#[trigger] catalog[j]).1.name)),
    ensures
        selected_provider(catalog, aliases, hosts, host) == Some(i),
{
    let named = |e: (Seq<char>, DevProviderView)| aliases.contains(provider_key(e.1.name));
    lemma_by_no_alias(catalog, aliases);
    assert forall|j: int| 0 <= j < i implies !named(#[trigger] catalog[j]) by {}
    lemma_first_where_is(catalog, named, i);
}

proof fn lemma_none_kept<A>(s: Seq<A>, keep: spec_fn(A) -> bool)
    requires
        forall|j: int| 0 <= j < s.len() ==> !keep(#[trigger] s[j]),
    ensures
        s.filter(keep).len() == 0,
    decreases s.len(),
{
    reveal(Seq::filter);
    if s.len() > 0 {
        let short = s.drop_last();
        assert forall|j: int| 0 <= j < short.len() implies !keep(#[trigger] short[j]) by {
            assert(!keep(s[j]));
        }
        lemma_none_kept(short, keep);
        assert(!keep(s[s.len() - 1]));
    }
}

proof fn lemma_some_kept<A>(s: Seq<A>, keep: spec_fn(A) -> bool, i: int)
    requires
        0 <= i < s.len(),
        keep(s[i]),
    ensures
        s.filter(keep).len() >= 1,
        (forall|j: int| 0 <= j < s.len() && j != i ==> !keep(#[trigger] s[j])) ==> s.filter(
            keep,
        ).len() == 1,
        (exists|j: int| 0 <= j < s.len() && j != i && keep(#[trigger] s[j])) ==> s.filter(
            keep,
        ).len() >= 2,
    decreases s.len(),
{
    reveal(Seq::filter);
    let short = s.drop_last();
    let last = s.len() - 1;
    if i == last {
        if forall|j: int| 0 <= j < s.len() && j != i ==> !keep(#[trigger] s[j]) {
            assert forall|j: int| 0 <= j < short.len() implies !keep(#[trigger] short[j]) by {
                assert(!keep(s[j]));
            }
            lemma_none_kept(short, keep);
        }
        if exists|j: int| 0 <= j < s.len() && j != i && keep(#[trigger] s[j]) {
            let j = choose|j: int| 0 <= j < s.len() && j != i && keep(#[trigger] s[j]);
            assert(keep(short[j]));
            lemma_some_kept(short, keep, j);
        }
    } else {
        assert(keep(short[i]));
        lemma_some_kept(short, keep, i);
        if forall|j: int| 0 <= j < s.len() && j != i ==> !keep(#[trigger] s[j]) {
            assert forall|j: int| 0 <= j < short.len() && j != i implies !keep(
                #[trigger] short[j],
            ) by {
                assert(!keep(s[j]));
            }
            assert(!keep(s[last]));
        }
        if exists|j: int| 0 <= j < s.len() && j != i && keep(#[trigger] s[j]) {
            let j = choose|j: int| 0 <= j < s.len() && j != i && keep(#[trigger] s[j]);
            if j != last {
                assert(keep(short[j]));
            }
        }
    }
}

/// Where neither ids nor names tell the provider, the only one with its host is the one. Where there
/// is no such one, or more than one, none is.
pub proof fn law_host_comes_last(
    catalog: Seq<(Seq<char>, DevProviderView)>,
    aliases: Seq<Seq<char>>,
    hosts: Seq<Option<Seq<char>>>,
    host: Seq<char>,
    i: int,
)
    requires
        not_listed(catalog, aliases),
        not_named(catalog, aliases),
    ensures
        selected_provider(catalog, aliases, hosts, None) is None,
        0 <= i < hosts.len() && hosts[i] == Some(host) && (forall|j: int|
            0 <= j < hosts.len() && j != i ==> #[trigger] hosts[j] != Some(host))
            ==> selected_provider(catalog, aliases, hosts, Some(host)) == Some(i),
        0 <= i < hosts.len() && hosts[i] == Some(host) && (exists|j: int|
            0 <= j < hosts.len() && j != i && #[trigger] hosts[j] == Some(host))
            ==> selected_provider(catalog, aliases, hosts, Some(host)) is None,
        (forall|j: int| 0 <= j < hosts.len() ==> #[trigger] hosts[j] != Some(host))
            ==> selected_provider(catalog, aliases, hosts, Some(host)) is None,
{
    let named = |e: (Seq<char>, DevProviderView)| aliases.contains(provider_key(e.1.name));
    let keep = is_host(Some(host));
    lemma_by_no_alias(catalog, aliases);
    assert forall|j: int| 0 <= j < catalog.len() implies !named(#[trigger] catalog[j]) by {}
    lemma_first_where_none(catalog, named);
    if 0 <= i < hosts.len() && hosts[i] == Some(host) {
        assert(keep(hosts[i]));
        lemma_some_kept(hosts, keep, i);
        if forall|j: int| 0 <= j < hosts.len() && j != i ==> #[trigger] hosts[j] != Some(host) {
            assert forall|j: int| 0 <= j < hosts.len() && j != i implies !keep(
                #[trigger] hosts[j],
            ) by {}
            lemma_first_where_is(hosts, keep, i);
        }
        if exists|j: int| 0 <= j < hosts.len() && j != i && #[trigger] hosts[j] == Some(host) {
            let j = choose|j: int|
                0 <= j < hosts.len() && j != i && #[trigger] hosts[j] == Some(host);
            assert(keep(hosts[j]));
        }
    }
    if forall|j: int| 0 <= j < hosts.len() ==> #[trigger] hosts[j] != Some(host) {
        assert forall|j: int| 0 <= j < hosts.len() implies !keep(#[trigger] hosts[j]) by {}
        lemma_none_kept(hosts, keep);
    }
}

proof fn lemma_kept_by_trimming(s: Seq<char>)
    requires
        s.len() > 0,
        !is_space(s[0]),
        !is_space(s.last()),
    ensures
        trim_by(s, space()) == s,
{
    assert(!space()(s[0]));
    assert(!space()(s.last()));
    assert(trim_start_by(s, space()) == s);
    assert(trim_end_by(s, space()) == s);
}

proof fn lemma_public_address()
    ensures
        trim_by("https://models.dev/api.json"@, space()) == "https://models.dev/api.json"@,
        ".json"@.is_suffix_of("https://models.dev/api.json"@),
        "https://models.dev/api.json"@.len() > 0,
{
    let public = "https://models.dev/api.json"@;
    assert(public.len() == 27 && public[0] == 'h' && public.last() == 'n') by {
        reveal_strlit("https://models.dev/api.json");
    }
    lemma_kept_by_trimming(public);
    assert(".json"@.is_suffix_of(public)) by {
        reveal_strlit("https://models.dev/api.json");
        reveal_strlit(".json");
        assert(public.subrange(22, 27) =~= ".json"@);
    }
}

/// The catalog of models.dev is read from its public address where nothing, or something blank, is
/// configured. An address that names a JSON file is taken without the white space around it; to any
/// other the file name is added, with one slash before it.
pub proof fn law_catalog_address(configured: Seq<char>, stem: Seq<char>, n: nat)
    ensures
        catalog_url(None) == "https://models.dev/api.json"@,
        trim_by(configured, space()).len() == 0 ==> catalog_url(Some(configured))
            == "https://models.dev/api.json"@,
        ".json"@.is_suffix_of(trim_by(configured, space())) ==> catalog_url(Some(configured))
            == trim_by(configured, space()),
        trim_by(configured, space()).len() > 0 && trim_by(configured, space()) == stem + slashes(n)
            && (stem.len() == 0 || stem.last() != '/') && !".json"@.is_suffix_of(
            trim_by(configured, space()),
        ) ==> catalog_url(Some(configured)) == stem + "/api.json"@,
{
    lemma_public_address();
    assert(".json"@.len() > 0) by {
        reveal_strlit(".json");
    }
    if stem.len() == 0 || stem.last() != '/' {
        lemma_slashes_cut(stem, n);
    }
}

/// What was set for this catalog goes before what the environment says.
pub proof fn law_configured_address(m: ManagerView)
    ensures
        m.models_dev_api_url_override is Some ==> configured_url(m)
            == m.models_dev_api_url_override,
        m.models_dev_api_url_override is None ==> configured_url(m) == m.models_dev_api_url_env,
{
}

/// Listings are seen with all that they hold.
pub proof fn law_listing_views(
    c: OpenAiCompatModel,
    t: OllamaTagsModel,
    d: ModelsDevModel,
    p: ModelsDevProvider,
    cs: Seq<OpenAiCompatModel>,
    ts: Seq<OllamaTagsModel>,
    ms: Seq<ModelsDevModelEntry>,
    es: Seq<ModelsDevEntry>,
)
    ensures
        c@.id == c.id@,
        c@.model_picker_enabled == c.model_picker_enabled,
        c@.supported_endpoints == texts(c.supported_endpoints@),
        t@.name == t.name@,
        t@.model_picker_enabled == t.model_picker_enabled,
        d@.id == opt_text(d.id),
        d@.name == opt_text(d.name),
        d@.status == opt_text(d.status),
        d@.model_picker_enabled == d.model_picker_enabled,
        d@.options.len() == d.options@.len(),
        forall|i: int|
            0 <= i < d.options@.len() ==> (#[trigger] d@.options[i]).0 == d.options@[i].key@
                && d@.options[i].1 == d.options@[i].value,
        p@.name == p.name@,
        p@.api == opt_text(p.api),
        p@.models == dev_models(p.models@),
        compat_entries(cs).len() == cs.len(),
        forall|i: int| 0 <= i < cs.len() ==> #[trigger] compat_entries(cs)[i] == cs[i]@,
        tags_entries(ts).len() == ts.len(),
        forall|i: int| 0 <= i < ts.len() ==> #[trigger] tags_entries(ts)[i] == ts[i]@,
        dev_models(ms).len() == ms.len(),
        forall|i: int|
            0 <= i < ms.len() ==> (#[trigger] dev_models(ms)[i]).0 == ms[i].key@ && dev_models(
                ms,
            )[i].1 == ms[i].model@,
        dev_catalog(es).len() == es.len(),
        forall|i: int|
            0 <= i < es.len() ==> (#[trigger] dev_catalog(es)[i]).0 == es[i].id@ && dev_catalog(
                es,
            )[i].1 == es[i].provider@,
{
}

} // verus!

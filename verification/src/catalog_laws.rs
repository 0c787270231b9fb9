//! What the lookup of metadata, the picker and the choice of a model promise, over the entries of
//! the catalog.

use vstd::prelude::*;
use vstd::string::*;

use crate::cache::opt_entry;
use crate::cache::CachedModels;
use crate::lookup::is_longest_prefix;
use crate::lookup::is_namespaced_at;
use crate::lookup::is_word;
use crate::lookup::law_longest_prefix;
use crate::lookup::law_longest_prefix_unique;
use crate::lookup::law_namespace_is_stripped;
use crate::lookup::longest_prefix;
use crate::lookup::metadata_candidate;
use crate::lookup::model_info;
use crate::lookup::namespaced_suffix;
use crate::lookup::opt_info;
use crate::lookup::suffix_match;
use crate::manager::outcome;
use crate::manager::AuthMode;
use crate::manager::CatalogMode;
use crate::manager::CodexErr;
use crate::manager::CodexErrView;
use crate::manager::CollaborationModesConfig;
use crate::manager::ManagerView;
use crate::manager::ModelProviderInfo;
use crate::manager::ModelsManager;
use crate::manager::ProviderView;
use crate::model::infos;
use crate::model::levels;
use crate::model::presets;
use crate::model::ModelInfo;
use crate::model::ModelInfoView;
use crate::model::ModelPreset;
use crate::model::ModelPresetView;
use crate::order::first_where;
use crate::order::law_first_where;
use crate::order::lemma_filter_push;
use crate::picker::available;
use crate::picker::by_priority;
use crate::picker::first_shown;
use crate::picker::law_by_priority_is_a_stable_sort;
use crate::picker::law_exactly_one_default;
use crate::picker::preset_of;
use crate::picker::usable;
use crate::picker::with_default;
use crate::session::default_model;
use crate::session::is_for;
use crate::session::is_marked;
use crate::session::listed;
use crate::session::needs_refresh;
use crate::session::opt_infos;
use crate::session::preferred;
use crate::session::scope_key;
use crate::session::set_up;
use crate::session::Surroundings;
use crate::session::SurroundingsView;
use crate::text::opt_text;
use crate::text::texts;

verus! {

/// Whether candidate `i` has the longest slug that begins the name, and is the first with that slug.
pub open spec fn best_for(name: Seq<char>, candidates: Seq<ModelInfoView>, i: int) -> bool {
    &&& 0 <= i < candidates.len()
    &&& candidates[i].slug.is_prefix_of(name)
    &&& forall|j: int|
        0 <= j < candidates.len() && (#[trigger] candidates[j]).slug.is_prefix_of(name)
            ==> candidates[j].slug.len() <= candidates[i].slug.len()
    &&& forall|j: int| 0 <= j < i ==> (#[trigger] candidates[j]).slug != candidates[i].slug
}

/// Whether no slug of a candidate begins the name.
pub open spec fn none_for(name: Seq<char>, candidates: Seq<ModelInfoView>) -> bool {
    forall|j: int|
        0 <= j < candidates.len() ==> !(#[trigger] candidates[j]).slug.is_prefix_of(name)
}

/// Whether `s` is one or more ASCII letters, digits and underscores.
pub open spec fn is_namespace(s: Seq<char>) -> bool {
    &&& s.len() > 0
    &&& forall|i: int|
        0 <= i < s.len() ==> 'a' <= #[trigger] s[i] <= 'z' || 'A' <= s[i] <= 'Z' || '0' <= s[i]
            <= '9' || s[i] == '_'
}

/// Whether the text has no slash.
pub open spec fn no_slash(s: Seq<char>) -> bool {
    forall|i: int| 0 <= i < s.len() ==> #[trigger] s[i] != '/'
}

proof fn lemma_best_is_longest(name: Seq<char>, candidates: Seq<ModelInfoView>, i: int)
    requires
        best_for(name, candidates, i),
    ensures
        longest_prefix(name, candidates) == Some(candidates[i]),
{
    assert forall|j: int|
        0 <= j < candidates.len() && #[trigger] candidates[j].slug.is_prefix_of(name) implies {
        &&& candidates[j].slug.len() <= candidates[i].slug.len()
        &&& j < i ==> candidates[j].slug.len() < candidates[i].slug.len()
    } by {
        if j < i && candidates[j].slug.len() == candidates[i].slug.len() {
            assert(candidates[j].slug =~= candidates[i].slug);
        }
    }
    assert(is_longest_prefix(name, candidates, i));
    let k = choose|k: int| is_longest_prefix(name, candidates, k);
    law_longest_prefix_unique(name, candidates, i, k);
}

/// A name has the metadata of the candidate with the longest slug that begins it, in every field but
/// the slug, which is the name, and the mark of the fallback, which is off.
pub proof fn law_prefix_gives_the_metadata(
    name: Seq<char>,
    candidates: Seq<ModelInfoView>,
    fallback: ModelInfoView,
    i: int,
)
    requires
        best_for(name, candidates, i),
    ensures
        longest_prefix(name, candidates) == Some(candidates[i]),
        metadata_candidate(name, candidates) == Some(candidates[i]),
        model_info(name, candidates, fallback) == (ModelInfoView {
            slug: name,
            used_fallback_model_metadata: false,
            ..candidates[i]
        }),
{
    lemma_best_is_longest(name, candidates, i);
}

/// Where no slug begins a name with a namespace, it has the metadata of the candidate with the
/// longest slug that begins what follows the namespace, again in every field but those two.
pub proof fn law_namespaced_name_gives_the_metadata(
    namespace: Seq<char>,
    name: Seq<char>,
    candidates: Seq<ModelInfoView>,
    fallback: ModelInfoView,
    i: int,
)
    requires
        is_namespace(namespace),
        no_slash(name),
        none_for(namespace.push('/') + name, candidates),
        best_for(name, candidates, i),
    ensures
        ({
            let model = namespace.push('/') + name;
            &&& suffix_match(model, candidates) == Some(candidates[i])
            &&& metadata_candidate(model, candidates) == Some(candidates[i])
            &&& model_info(model, candidates, fallback) == (ModelInfoView {
                slug: model,
                used_fallback_model_metadata: false,
                ..candidates[i]
            })
        }),
{
    let model = namespace.push('/') + name;
    assert forall|j: int| 0 <= j < namespace.len() implies is_word(#[trigger] namespace[j]) by {}
    law_namespace_is_stripped(namespace, name);
    lemma_best_is_longest(name, candidates, i);
    law_longest_prefix(model, candidates);
}

/// A name that no slug begins, neither as it is nor behind a namespace, has the fallback metadata
/// under its name, marked as such.
pub proof fn law_unknown_name_gives_the_fallback(
    model: Seq<char>,
    candidates: Seq<ModelInfoView>,
    fallback: ModelInfoView,
)
    requires
        none_for(model, candidates),
        forall|namespace: Seq<char>, name: Seq<char>|
            is_namespace(namespace) && no_slash(name) && model == #[trigger] (namespace.push('/')
                + name) ==> none_for(name, candidates),
    ensures
        longest_prefix(model, candidates) is None,
        suffix_match(model, candidates) is None,
        metadata_candidate(model, candidates) is None,
        model_info(model, candidates, fallback) == (ModelInfoView {
            slug: model,
            used_fallback_model_metadata: true,
            ..fallback
        }),
{
    law_longest_prefix(model, candidates);
    if namespaced_suffix(model) is Some {
        let k = choose|k: int| is_namespaced_at(model, k);
        let namespace = model.take(k);
        let name = model.skip(k + 1);
        assert(namespaced_suffix(model) == Some(name));
        assert(model =~= namespace.push('/') + name);
        assert(is_namespace(namespace)) by {
            assert forall|i: int| 0 <= i < namespace.len() implies 'a' <= #[trigger] namespace[i]
                <= 'z' || 'A' <= namespace[i] <= 'Z' || '0' <= namespace[i] <= '9' || namespace[i]
                == '_' by {
                assert(is_word(model[i]));
            }
        }
        assert(no_slash(name)) by {
            assert forall|i: int| 0 <= i < name.len() implies #[trigger] name[i] != '/' by {
                assert(model[k + 1 + i] != '/');
            }
        }
        assert(none_for(name, candidates));
        law_longest_prefix(name, candidates);
    }
}

/// Behind a namespace, the candidate with the longest slug that begins the rest of the name is found,
/// whatever begins the whole name; where no slug begins the rest, none is.
pub proof fn law_suffix_match(
    namespace: Seq<char>,
    name: Seq<char>,
    candidates: Seq<ModelInfoView>,
    i: int,
)
    requires
        is_namespace(namespace),
        no_slash(name),
    ensures
        best_for(name, candidates, i) ==> suffix_match(namespace.push('/') + name, candidates)
            == Some(candidates[i]),
        none_for(name, candidates) ==> suffix_match(namespace.push('/') + name, candidates) is None,
{
    assert forall|j: int| 0 <= j < namespace.len() implies is_word(#[trigger] namespace[j]) by {}
    law_namespace_is_stripped(namespace, name);
    if best_for(name, candidates, i) {
        lemma_best_is_longest(name, candidates, i);
    }
    law_longest_prefix(name, candidates);
}

/// A name without exactly one slash behind a namespace is not looked up by its suffix.
pub proof fn law_suffix_needs_a_namespace(model: Seq<char>, candidates: Seq<ModelInfoView>)
    requires
        forall|namespace: Seq<char>, name: Seq<char>|
            is_namespace(namespace) && no_slash(name) ==> model != #[trigger] (namespace.push('/')
                + name),
    ensures
        suffix_match(model, candidates) is None,
{
    if namespaced_suffix(model) is Some {
        let k = choose|k: int| is_namespaced_at(model, k);
        let namespace = model.take(k);
        let name = model.skip(k + 1);
        assert(model =~= namespace.push('/') + name);
        assert forall|i: int| 0 <= i < namespace.len() implies 'a' <= #[trigger] namespace[i]
            <= 'z' || 'A' <= namespace[i] <= 'Z' || '0' <= namespace[i] <= '9' || namespace[i]
            == '_' by {
            assert(is_word(model[i]));
        }
        assert forall|i: int| 0 <= i < name.len() implies #[trigger] name[i] != '/' by {
            assert(model[k + 1 + i] != '/');
        }
        assert(is_namespace(namespace) && no_slash(name));
    }
}

/// The models in order of priority: no priority value is followed by a smaller one, and those of one
/// value are the given ones, in their order.
pub proof fn law_priority_order(models: Seq<ModelInfoView>, value: i32)
    ensures
        by_priority(models).len() == models.len(),
        forall|i: int, j: int|
            0 <= i < j < models.len() ==> (#[trigger] by_priority(models)[i]).priority <= (
            #[trigger] by_priority(models)[j]).priority,
        by_priority(models).filter(|m: ModelInfoView| m.priority == value) == models.filter(
            |m: ModelInfoView| m.priority == value,
        ),
{
    law_by_priority_is_a_stable_sort(models);
    assert(crate::picker::of_priority(by_priority(models), value) == crate::picker::of_priority(
        models,
        value,
    ));
}

/// The models that the sign-in allows, in order of priority: all of them with ChatGPT, those that
/// the API serves without it.
pub open spec fn allowed(models: Seq<ModelInfoView>, chatgpt: bool) -> Seq<ModelInfoView> {
    by_priority(models).filter(|m: ModelInfoView| chatgpt || m.supported_in_api)
}

/// Whether `d` is the place of the default: the first model whose visibility is that of a listed
/// one, else the first model.
pub open spec fn is_default_place(models: Seq<ModelInfoView>, d: int) -> bool {
    &&& 0 <= d < models.len()
    &&& models[d].visibility is List ==> forall|j: int|
        0 <= j < d ==> !((#[trigger] models[j]).visibility is List)
    &&& !(models[d].visibility is List) ==> d == 0 && forall|j: int|
        0 <= j < models.len() ==> !((#[trigger] models[j]).visibility is List)
}

proof fn lemma_filter_of_map(
    models: Seq<ModelInfoView>,
    f: spec_fn(ModelInfoView) -> ModelPresetView,
    q: spec_fn(ModelPresetView) -> bool,
    p: spec_fn(ModelInfoView) -> bool,
)
    requires
        forall|m: ModelInfoView| #[trigger] p(m) == q(f(m)),
    ensures
        models.map_values(f).filter(q) == models.filter(p).map_values(f),
    decreases models.len(),
{
    reveal(Seq::filter);
    if models.len() > 0 {
        let short = models.drop_last();
        let m = models.last();
        lemma_filter_of_map(short, f, q, p);
        assert(short.push(m) =~= models);
        assert(models.map_values(f) =~= short.map_values(f).push(f(m)));
        lemma_filter_push(short.map_values(f), f(m), q);
        lemma_filter_push(short, m, p);
        assert(p(m) == q(f(m)));
        assert(short.filter(p).push(m).map_values(f) =~= short.filter(p).map_values(f).push(f(m)));
    } else {
        assert(models.map_values(f).filter(q) =~= models.filter(p).map_values(f));
    }
}

/// The picker list has one entry for each model that the sign-in allows, in order of priority, with
/// what the model says of itself. An entry is shown exactly where the visibility of its model is that
/// of a listed one, whatever the API serves. The one default is the first shown, else the first.
pub proof fn law_picker_entries(models: Seq<ModelInfoView>, chatgpt: bool)
    ensures
        ({
            let list = available(models, chatgpt);
            let kept = allowed(models, chatgpt);
            &&& list.len() == kept.len()
            &&& forall|k: int|
                0 <= k < list.len() ==> {
                    &&& (#[trigger] list[k]).model == kept[k].slug
                    &&& list[k].display_name == kept[k].display_name
                    &&& list[k].description == kept[k].description
                    &&& list[k].default_reasoning_level == kept[k].default_reasoning_level
                    &&& list[k].supported_reasoning_levels == kept[k].supported_reasoning_levels
                    &&& list[k].supported_in_api == kept[k].supported_in_api
                    &&& list[k].show_in_picker <==> kept[k].visibility is List
                }
            &&& list.len() > 0 ==> exists|d: int|
                #[trigger] is_default_place(kept, d) && forall|k: int|
                    0 <= k < list.len() ==> ((#[trigger] list[k]).is_default <==> k == d)
        }),
{
    let list = available(models, chatgpt);
    let kept = allowed(models, chatgpt);
    let sorted = by_priority(models);
    let f = |m: ModelInfoView| preset_of(m);
    let q = |p: ModelPresetView| chatgpt || p.supported_in_api;
    let p = |m: ModelInfoView| chatgpt || m.supported_in_api;
    lemma_filter_of_map(sorted, f, q, p);
    let all = usable(sorted.map_values(f), chatgpt);
    assert(all == kept.map_values(f));
    assert forall|k: int| 0 <= k < list.len() implies {
        &&& (#[trigger] list[k]).model == kept[k].slug
        &&& list[k].show_in_picker == (kept[k].visibility is List)
    } by {
        assert(all[k] == preset_of(kept[k]));
    }
    law_exactly_one_default(models, chatgpt);
    if list.len() > 0 {
        let d = crate::picker::default_position(list) as int;
        assert(list[d].show_in_picker == (kept[d].visibility is List));
        if kept[d].visibility is List {
            assert forall|j: int| 0 <= j < d implies !((#[trigger] kept[j]).visibility is List) by {
                assert(!list[j].show_in_picker);
            }
        } else {
            assert forall|j: int| 0 <= j < kept.len() implies !(
            (#[trigger] kept[j]).visibility is List) by {
                assert(!list[j].show_in_picker);
            }
        }
        assert(is_default_place(kept, d));
    }
}

/// The entry of a model says what the model says of itself; it is shown exactly where the model is a
/// listed one, and not yet marked.
pub proof fn law_preset(m: ModelInfoView)
    ensures
        preset_of(m).model == m.slug,
        preset_of(m).display_name == m.display_name,
        preset_of(m).description == m.description,
        preset_of(m).default_reasoning_level == m.default_reasoning_level,
        preset_of(m).supported_reasoning_levels == m.supported_reasoning_levels,
        preset_of(m).supported_in_api == m.supported_in_api,
        preset_of(m).show_in_picker <==> m.visibility is List,
        !preset_of(m).is_default,
{
}

/// With ChatGPT every entry may be used; without it, one more entry may be used exactly where the
/// API serves its model.
pub proof fn law_usable_entries(all: Seq<ModelPresetView>, p: ModelPresetView, chatgpt: bool)
    ensures
        usable(Seq::empty(), chatgpt) == Seq::<ModelPresetView>::empty(),
        usable(all.push(p), chatgpt) == if chatgpt || p.supported_in_api {
            usable(all, chatgpt).push(p)
        } else {
            usable(all, chatgpt)
        },
{
    let keep = |p: ModelPresetView| chatgpt || p.supported_in_api;
    lemma_filter_push(all, p, keep);
    reveal(Seq::filter);
    assert(Seq::<ModelPresetView>::empty().filter(keep) =~= Seq::empty());
}

/// Marking touches the marks alone: exactly one entry is marked, the first shown or else the first.
pub proof fn law_marking(all: Seq<ModelPresetView>)
    ensures
        with_default(all).len() == all.len(),
        all.len() > 0 ==> exists|d: int|
            0 <= d < all.len() && (all[d].show_in_picker || d == 0) && (forall|j: int|
                0 <= j < d ==> !(#[trigger] all[j]).show_in_picker) && (!all[d].show_in_picker
                ==> forall|j: int| 0 <= j < all.len() ==> !(#[trigger] all[j]).show_in_picker) && (
            forall|k: int|
                0 <= k < all.len() ==> (#[trigger] with_default(all)[k]) == (ModelPresetView {
                    is_default: k == d,
                    ..all[k]
                })),
{
    lemma_first_shown_place(all);
    if all.len() > 0 {
        let d = crate::picker::default_position(all) as int;
        assert forall|k: int| 0 <= k < all.len() implies (#[trigger] with_default(all)[k]) == (
        ModelPresetView { is_default: k == d, ..all[k] }) by {}
        assert(all[d].show_in_picker || d == 0);
    }
}

proof fn lemma_first_shown_place(all: Seq<ModelPresetView>)
    ensures
        first_shown(all) <= all.len(),
        forall|j: int| 0 <= j < first_shown(all) ==> !(#[trigger] all[j]).show_in_picker,
        first_shown(all) < all.len() ==> all[first_shown(all) as int].show_in_picker,
    decreases all.len(),
{
    if all.len() > 0 && !all[0].show_in_picker {
        let rest = all.drop_first();
        lemma_first_shown_place(rest);
        assert forall|j: int| 0 <= j < first_shown(all) implies !(
        #[trigger] all[j]).show_in_picker by {
            if j > 0 {
                assert(all[j] == rest[j - 1]);
            }
        }
        if first_shown(all) < all.len() {
            assert(all[first_shown(all) as int] == rest[first_shown(rest) as int]);
        }
    }
}

/// The model to use without a request is the default one of those that the sign-in allows, and none
/// where it allows none. With a request it is the requested one, unless the provider lists its own
/// models, lists others only, and the sign-in allows any: then it is the default one.
pub proof fn law_model_to_use(m: ManagerView, wanted: Seq<char>)
    ensures
        ({
            let kept = allowed(m.remote_models, m.auth_mode == Some(AuthMode::Chatgpt));
            let own_list = m.provider.github_copilot || m.provider.local_oss || !m.provider.openai;
            let offered = exists|k: int| 0 <= k < kept.len() && (#[trigger] kept[k]).slug == wanted;
            &&& kept.len() == 0 ==> default_model(m, None) == Seq::<char>::empty()
            &&& kept.len() > 0 ==> exists|d: int|
                #[trigger] is_default_place(kept, d) && default_model(m, None) == kept[d].slug
            &&& !own_list || offered || kept.len() == 0 ==> default_model(m, Some(wanted)) == wanted
            &&& own_list && !offered && kept.len() > 0 ==> default_model(m, Some(wanted))
                == default_model(m, None)
        }),
{
    let chatgpt = m.auth_mode == Some(AuthMode::Chatgpt);
    let kept = allowed(m.remote_models, chatgpt);
    let list = available(m.remote_models, chatgpt);
    assert(list == listed(m));
    law_picker_entries(m.remote_models, chatgpt);
    law_first_where(list, is_marked());
    law_first_where(list, is_for(wanted));
    let offered = exists|k: int| 0 <= k < kept.len() && (#[trigger] kept[k]).slug == wanted;
    assert(offered == (first_where(list, is_for(wanted)) is Some)) by {
        if offered {
            let k = choose|k: int| 0 <= k < kept.len() && (#[trigger] kept[k]).slug == wanted;
            assert(list[k].model == wanted);
            assert(is_for(wanted)(list[k]));
        }
        match first_where(list, is_for(wanted)) {
            Some(k) => {
                assert(list[k].model == wanted);
                assert(kept[k].slug == wanted);
            },
            None => {},
        }
    }
    if kept.len() > 0 {
        let d = choose|d: int|
            #[trigger] is_default_place(kept, d) && forall|k: int|
                0 <= k < list.len() ==> ((#[trigger] list[k]).is_default <==> k == d);
        assert(is_marked()(list[d]));
        match first_where(list, is_marked()) {
            Some(k) => {
                assert(list[k].is_default);
                assert(k == d);
            },
            None => {},
        }
        assert(preferred(list) == Some(kept[d].slug)) by {
            assert(list[d].model == kept[d].slug);
        }
    }
}

/// The models of the active catalog are listed as the sign-in with ChatGPT, or without it, allows.
pub proof fn law_listed(m: ManagerView)
    ensures
        m.auth_mode == Some(AuthMode::Chatgpt) ==> listed(m) == available(m.remote_models, true),
        m.auth_mode != Some(AuthMode::Chatgpt) ==> listed(m) == available(m.remote_models, false),
{
}

/// Of a list of entries, the first marked one is preferred; where none is marked, the first one. An
/// empty list has none.
pub proof fn law_preferred(all: Seq<ModelPresetView>, i: int)
    ensures
        0 <= i < all.len() && all[i].is_default && (forall|j: int|
            0 <= j < i ==> !(#[trigger] all[j]).is_default) ==> preferred(all) == Some(all[i].model),
        all.len() > 0 && (forall|j: int| 0 <= j < all.len() ==> !(#[trigger] all[j]).is_default)
            ==> preferred(all) == Some(all[0].model),
        all.len() == 0 ==> preferred(all) is None,
{
    law_first_where(all, is_marked());
    if 0 <= i < all.len() && all[i].is_default {
        assert(is_marked()(all[i]));
    }
}

/// The catalog is refreshed before a model is chosen for a session that requests none, and before
/// any choice where the provider lists its own models.
pub proof fn law_choice_after_a_refresh(m: ManagerView, wanted: Seq<char>)
    ensures
        needs_refresh(m, None),
        needs_refresh(m, Some(wanted)) <==> m.provider.github_copilot || m.provider.local_oss
            || !m.provider.openai,
{
}

/// The scope of a cache entry names the provider, the base URL and the sign-in. The base URL is that
/// of the API, where there is one, else the configured one, else empty.
pub proof fn law_scope(m: ManagerView)
    ensures
        ({
            let head = "provider_name="@ + m.provider.name + ";base_url="@;
            let tail = if m.auth_mode is None {
                ";auth_mode=None"@
            } else if m.auth_mode == Some(AuthMode::ApiKey) {
                ";auth_mode=Some(ApiKey)"@
            } else {
                ";auth_mode=Some(Chatgpt)"@
            };
            &&& m.api_base_url is Ok ==> scope_key(m) == head + m.api_base_url->Ok_0 + tail
            &&& m.api_base_url is Err && m.provider.base_url is Some ==> scope_key(m) == head
                + m.provider.base_url->0 + tail
            &&& m.api_base_url is Err && m.provider.base_url is None ==> scope_key(m) == head + tail
        }),
{
    reveal_strlit(";auth_mode=");
    reveal_strlit("None");
    reveal_strlit("Some(ApiKey)");
    reveal_strlit("Some(Chatgpt)");
    reveal_strlit(";auth_mode=None");
    reveal_strlit(";auth_mode=Some(ApiKey)");
    reveal_strlit(";auth_mode=Some(Chatgpt)");
    assert(";auth_mode="@ + "None"@ =~= ";auth_mode=None"@);
    assert(";auth_mode="@ + "Some(ApiKey)"@ =~= ";auth_mode=Some(ApiKey)"@);
    assert(";auth_mode="@ + "Some(Chatgpt)"@ =~= ";auth_mode=Some(Chatgpt)"@);
    let head = "provider_name="@ + m.provider.name + ";base_url="@;
    let base = crate::session::scope_base_url(m);
    let words = crate::session::auth_words(m.auth_mode);
    assert(scope_key(m) =~= head + base + (";auth_mode="@ + words));
    assert(head + Seq::<char>::empty() =~= head);
}

/// A catalog that is given is the active one and stays; without one the bundled catalog is active and
/// may be refreshed. Nothing else depends on it, and there is no ETag yet.
pub proof fn law_set_up(
    s: SurroundingsView,
    given: Seq<ModelInfoView>,
    config: CollaborationModesConfig,
    provider: ProviderView,
)
    ensures
        ({
            let custom = set_up(s, Some(given), config, provider);
            let plain = set_up(s, None, config, provider);
            &&& custom.remote_models == given
            &&& custom.catalog_mode is Custom
            &&& plain.remote_models == s.bundled_models
            &&& plain.catalog_mode is Default
            &&& custom == (ManagerView {
                remote_models: given,
                catalog_mode: CatalogMode::Custom,
                ..plain
            })
            &&& plain.bundled_models == s.bundled_models
            &&& plain.fallback_metadata == s.fallback_metadata
            &&& plain.collaboration_modes_config == config
            &&& plain.auth_mode == s.auth_mode
            &&& plain.api_base_url == s.api_base_url
            &&& plain.etag is None
            &&& plain.provider == provider
            &&& plain.client_version == s.client_version
            &&& plain.cache_ttl == 300
            &&& plain.models_dev_api_url_override is None
            &&& plain.models_dev_api_url_env == s.models_dev_api_url
        }),
{
}

/// Metadata is seen with all that it holds.
pub proof fn law_model_info_view(m: ModelInfo)
    ensures
        m@.slug == m.slug@,
        m@.display_name == m.display_name@,
        m@.description == opt_text(m.description),
        m@.default_reasoning_level == opt_text(m.default_reasoning_level),
        m@.supported_reasoning_levels == levels(m.supported_reasoning_levels@),
        m@.shell_type == m.shell_type@,
        m@.visibility == m.visibility,
        m@.supported_in_api == m.supported_in_api,
        m@.priority == m.priority,
        m@.upgrade == opt_text(m.upgrade),
        m@.base_instructions == m.base_instructions@,
        m@.supports_reasoning_summaries == m.supports_reasoning_summaries,
        m@.support_verbosity == m.support_verbosity,
        m@.default_verbosity == opt_text(m.default_verbosity),
        m@.apply_patch_tool_type == opt_text(m.apply_patch_tool_type),
        m@.truncation_mode == m.truncation_policy.mode@,
        m@.truncation_limit == m.truncation_policy.limit,
        m@.supports_parallel_tool_calls == m.supports_parallel_tool_calls,
        m@.supports_image_detail_original == m.supports_image_detail_original,
        m@.context_window == m.context_window,
        m@.experimental_supported_tools == texts(m.experimental_supported_tools@),
        m@.used_fallback_model_metadata == m.used_fallback_model_metadata,
{
}

/// Picker entries, and sequences of entries, models and reasoning levels, are seen with all that they
/// hold.
pub proof fn law_preset_view(
    p: ModelPreset,
    ms: Seq<ModelInfo>,
    ps: Seq<ModelPreset>,
    ls: Seq<crate::model::ReasoningLevel>,
)
    ensures
        p@.model == p.model@,
        p@.display_name == p.display_name@,
        p@.description == opt_text(p.description),
        p@.default_reasoning_level == opt_text(p.default_reasoning_level),
        p@.supported_reasoning_levels == levels(p.supported_reasoning_levels@),
        p@.show_in_picker == p.show_in_picker,
        p@.supported_in_api == p.supported_in_api,
        p@.is_default == p.is_default,
        infos(ms).len() == ms.len(),
        forall|i: int| 0 <= i < ms.len() ==> #[trigger] infos(ms)[i] == ms[i]@,
        presets(ps).len() == ps.len(),
        forall|i: int| 0 <= i < ps.len() ==> #[trigger] presets(ps)[i] == ps[i]@,
        levels(ls).len() == ls.len(),
        forall|i: int|
            0 <= i < ls.len() ==> (#[trigger] levels(ls)[i]).effort == ls[i].effort@ && levels(
                ls,
            )[i].description == ls[i].description@,
{
}

/// What may be missing is seen exactly where it is there.
pub proof fn law_optional_views(
    m: ModelInfo,
    v: Vec<ModelInfo>,
    c: CachedModels,
    text: String,
    e: CodexErr,
)
    ensures
        opt_info(Some(m)) == Some(m@),
        opt_info(None) is None,
        opt_infos(Some(v)) == Some(infos(v@)),
        opt_infos(None) is None,
        opt_entry(Some(c)) == Some(c@),
        opt_entry(None) is None,
        outcome(Ok(text)) == Ok::<Seq<char>, CodexErrView>(text@),
        outcome(Err(e)) == Err::<Seq<char>, CodexErrView>(e@),
{
}

/// A manager, its provider and its surroundings are seen with all that they hold.
pub proof fn law_manager_view(m: ModelsManager, p: ModelProviderInfo, s: Surroundings)
    ensures
        m@.remote_models == infos(m.remote_models@),
        m@.bundled_models == infos(m.bundled_models@),
        m@.fallback_metadata == m.fallback_metadata@,
        m@.catalog_mode == m.catalog_mode,
        m@.collaboration_modes_config == m.collaboration_modes_config,
        m@.auth_mode == m.auth_mode,
        m@.etag == opt_text(m.etag),
        m@.provider == m.provider@,
        m@.client_version == m.client_version@,
        m@.cache_ttl == m.cache_ttl,
        m@.models_dev_api_url_override == opt_text(m.models_dev_api_url_override),
        m@.models_dev_api_url_env == opt_text(m.models_dev_api_url_env),
        match (m.api_base_url, m@.api_base_url) {
            (Ok(url), Ok(seen)) => url@ == seen,
            (Err(e), Err(seen)) => e@ == seen,
            _ => false,
        },
        p@.name == p.name@,
        p@.base_url == opt_text(p.base_url),
        p@.github_copilot == p.github_copilot,
        p@.local_oss == p.local_oss,
        p@.openai == p.openai,
        p@.azure_responses_wire == p.azure_responses_wire,
        s@.bundled_models == infos(s.bundled_models@),
        s@.fallback_metadata == s.fallback_metadata@,
        s@.auth_mode == s.auth_mode,
        s@.client_version == s.client_version@,
        s@.models_dev_api_url == opt_text(s.models_dev_api_url),
        match (s.api_base_url, s@.api_base_url) {
            (Ok(url), Ok(seen)) => url@ == seen,
            (Err(e), Err(seen)) => e@ == seen,
            _ => false,
        },
{
}

} // verus!

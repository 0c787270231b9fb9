//! Turning the listing of a provider into catalog entries.

use vstd::prelude::*;

use crate::lookup::fallback_for;
use crate::lookup::metadata_candidate;
use crate::lookup::model_info;
use crate::manager::ManagerView;
use crate::manager::ModelsManager;
use crate::model::infos;
use crate::model::ModelInfo;
use crate::model::ModelInfoView;
use crate::model::ModelVisibility;
use crate::order::first_where;
use crate::order::law_first_where;
use crate::order::lemma_filter_members;
use crate::order::lemma_filter_push;
use crate::order::lemma_first_where_is;
use crate::order::lemma_first_where_none;
use crate::picker::ascending;
use crate::picker::by_priority;
use crate::text::same_text;
use crate::text::texts;
use crate::wire::compat_entries;
use crate::wire::serves_responses;
use crate::wire::tags_entries;
use crate::wire::CompatView;
use crate::wire::OllamaTagsModel;
use crate::wire::OpenAiCompatModel;
use crate::wire::TagsView;

verus! {

/// Position `index` of a listing as a priority value.
pub open spec fn listing_priority(index: int) -> i32 {
    if index <= i32::MAX {
        index as i32
    } else {
        i32::MAX
    }
}

/// The catalog entry for the id at position `index` of a provider's listing. The bundled catalog
/// supplies the metadata where a model of it applies, else the fallback does.
pub open spec fn provider_entry(
    index: int,
    id: Seq<char>,
    bundled: Seq<ModelInfoView>,
    fallback: ModelInfoView,
) -> ModelInfoView {
    let base = match metadata_candidate(id, bundled) {
        Some(m) => m,
        None => fallback_for(fallback, id),
    };
    ModelInfoView {
        slug: id,
        display_name: if base.display_name.len() == 0 {
            id
        } else {
            base.display_name
        },
        visibility: ModelVisibility::List,
        supported_in_api: true,
        priority: listing_priority(index),
        used_fallback_model_metadata: false,
        ..base
    }
}

/// The catalog entries for a listing: one for each id, at its first occurrence.
pub open spec fn provider_entries(
    ids: Seq<Seq<char>>,
    bundled: Seq<ModelInfoView>,
    fallback: ModelInfoView,
) -> Seq<ModelInfoView>
    decreases ids.len(),
{
    if ids.len() == 0 {
        Seq::empty()
    } else {
        let front = provider_entries(ids.drop_last(), bundled, fallback);
        if ids.drop_last().contains(ids.last()) {
            front
        } else {
            front.push(provider_entry(ids.len() - 1, ids.last(), bundled, fallback))
        }
    }
}

/// The ids of an OpenAI-compatible listing that the picker may show; those that serve the Responses
/// endpoint come first, otherwise the order is kept.
pub open spec fn compat_ids(entries: Seq<CompatView>) -> Seq<Seq<char>> {
    let shown = entries.filter(|m: CompatView| m.model_picker_enabled != Some(false));
    let first = shown.filter(|m: CompatView| serves_responses(m));
    let second = shown.filter(|m: CompatView| !serves_responses(m));
    (first + second).map_values(|m: CompatView| m.id)
}

/// The names of an Ollama listing that the picker may show.
pub open spec fn tags_ids(entries: Seq<TagsView>) -> Seq<Seq<char>> {
    entries.filter(|m: TagsView| m.model_picker_enabled != Some(false)).map_values(
        |m: TagsView| m.name,
    )
}

/// `catalog` with `m` in place of the first entry of its slug, or behind the others where there is
/// none.
pub open spec fn upsert(catalog: Seq<ModelInfoView>, m: ModelInfoView) -> Seq<ModelInfoView> {
    match first_where(catalog, |e: ModelInfoView| e.slug == m.slug) {
        Some(i) => catalog.update(i, m),
        None => catalog.push(m),
    }
}

/// `base` with each of `models` put in, one after the other.
pub open spec fn merged(base: Seq<ModelInfoView>, models: Seq<ModelInfoView>) -> Seq<ModelInfoView>
    decreases models.len(),
{
    if models.len() == 0 {
        base
    } else {
        upsert(merged(base, models.drop_last()), models.last())
    }
}

/// Whether the provider itself says which models there are.
pub open spec fn authoritative(m: ManagerView) -> bool {
    m.provider.github_copilot || m.provider.local_oss || !m.provider.openai
}

/// The catalog after `models` have come in: these alone from an authoritative provider, otherwise
/// the bundled catalog with them put in.
pub open spec fn next_catalog(m: ManagerView, models: Seq<ModelInfoView>) -> Seq<ModelInfoView> {
    if authoritative(m) {
        models
    } else {
        merged(m.bundled_models, models)
    }
}

/// `m` after `models` have come in.
pub open spec fn with_models(m: ManagerView, models: Seq<ModelInfoView>) -> ManagerView {
    ManagerView { remote_models: next_catalog(m, models), ..m }
}

impl ModelsManager {
    /// Whether the provider itself says which models there are, so that no bundled model may be
    /// shown beside them.
    pub fn provider_catalog_is_authoritative(&self) -> (r: bool)
        ensures
            r == authoritative(self@),
    {
        self.provider.is_github_copilot_provider() || self.provider.is_local_oss_provider()
            || !self.provider.is_openai()
    }

    /// The catalog entries for the ids that a provider lists.
    pub fn map_provider_model_ids(&self, model_ids: Vec<String>) -> (r: Vec<ModelInfo>)
        ensures
            infos(r@) == provider_entries(
                texts(model_ids@),
                self@.bundled_models,
                self@.fallback_metadata,
            ),
    {
        let ghost ids = texts(model_ids@);
        let ghost bundled = self@.bundled_models;
        let ghost fallback = self@.fallback_metadata;
        let mut out: Vec<ModelInfo> = Vec::new();
        let mut i: usize = 0;
        assert(infos(out@) =~= provider_entries(ids.take(0), bundled, fallback));
        while i < model_ids.len()
            invariant
                i <= model_ids@.len(),
                ids == texts(model_ids@),
                bundled == self@.bundled_models,
                fallback == self@.fallback_metadata,
                infos(out@) == provider_entries(ids.take(i as int), bundled, fallback),
            decreases model_ids@.len() - i,
        {
            let id = model_ids[i].as_str();
            let mut seen = false;
            let mut j: usize = 0;
            while j < i
                invariant
                    j <= i < model_ids@.len(),
                    ids == texts(model_ids@),
                    id@ == ids[i as int],
                    seen == exists|k: int| 0 <= k < j && #[trigger] ids[k] == ids[i as int],
                decreases i - j,
            {
                assert(ids[j as int] == model_ids@[j as int]@);
                if same_text(model_ids[j].as_str(), id) {
                    seen = true;
                }
                j = j + 1;
            }
            let ghost now = ids.take(i + 1);
            proof {
                assert(now.drop_last() =~= ids.take(i as int));
                assert(now.last() == id@);
                assert(seen == now.drop_last().contains(id@)) by {
                    if seen {
                        let k = choose|k: int| 0 <= k < i && #[trigger] ids[k] == ids[i as int];
                        assert(ids.take(i as int)[k] == id@);
                    }
                    if ids.take(i as int).contains(id@) {
                        let k = choose|k: int|
                            0 <= k < ids.take(i as int).len() && ids.take(i as int)[k] == id@;
                        assert(ids[k] == ids[i as int]);
                    }
                }
            }
            if !seen {
                let mut candidate = match Self::find_metadata_candidate(
                    id,
                    self.bundled_models.as_slice(),
                ) {
                    Some(m) => m,
                    None => Self::model_info_from_slug(&self.fallback_metadata, id),
                };
                candidate.slug = id.to_string();
                if candidate.display_name.as_str().is_empty() {
                    candidate.display_name = id.to_string();
                }
                candidate.visibility = ModelVisibility::List;
                candidate.supported_in_api = true;
                candidate.priority = if i <= 0x7fff_ffff {
                    i as i32
                } else {
                    i32::MAX
                };
                candidate.used_fallback_model_metadata = false;
                let ghost before = out@;
                assert(candidate@ == provider_entry(i as int, id@, bundled, fallback));
                out.push(candidate);
                assert(infos(out@) =~= infos(before).push(candidate@));
            }
            i = i + 1;
        }
        assert(ids.take(i as int) =~= ids);
        out
    }

    /// The catalog entries for an OpenAI-compatible listing.
    pub fn map_openai_compat_models(&self, data: Vec<OpenAiCompatModel>) -> (r: Vec<ModelInfo>)
        ensures
            infos(r@) == provider_entries(
                compat_ids(compat_entries(data@)),
                self@.bundled_models,
                self@.fallback_metadata,
            ),
    {
        let ghost src = compat_entries(data@);
        let ghost shown = |m: CompatView| m.model_picker_enabled != Some(false);
        let ghost serves = |m: CompatView| serves_responses(m);
        let ghost lacks = |m: CompatView| !serves_responses(m);
        let ghost id_of = |m: CompatView| m.id;
        let mut first: Vec<String> = Vec::new();
        let mut second: Vec<String> = Vec::new();
        proof {
            reveal(Seq::filter);
            assert(texts(first@) =~= src.take(0).filter(shown).filter(serves).map_values(id_of));
            assert(texts(second@) =~= src.take(0).filter(shown).filter(lacks).map_values(id_of));
        }
        for m in it: data
            invariant
                compat_entries(it.seq()) == src,
                shown == (|m: CompatView| m.model_picker_enabled != Some(false)),
                serves == (|m: CompatView| serves_responses(m)),
                lacks == (|m: CompatView| !serves_responses(m)),
                id_of == (|m: CompatView| m.id),
                texts(first@) == src.take(it.index() as int).filter(shown).filter(
                    serves,
                ).map_values(id_of),
                texts(second@) == src.take(it.index() as int).filter(shown).filter(
                    lacks,
                ).map_values(id_of),
        {
            let ghost i = it.index() as int;
            let ghost kept = src.take(i).filter(shown);
            let ghost mv = m@;
            let ghost first_before = first@;
            let ghost second_before = second@;
            proof {
                assert(src[i] == m@);
                assert(src.take(i + 1) =~= src.take(i).push(m@));
                lemma_filter_push(src.take(i), m@, shown);
                lemma_filter_push(kept, m@, serves);
                lemma_filter_push(kept, m@, lacks);
            }
            if m.is_picker_enabled() {
                if m.supports_responses_endpoint() {
                    first.push(m.id);
                    proof {
                        let served = kept.filter(serves);
                        assert(texts(first@) =~= texts(first_before).push(mv.id));
                        assert(served.push(mv).map_values(id_of) =~= served.map_values(id_of).push(
                            mv.id,
                        ));
                    }
                } else {
                    second.push(m.id);
                    proof {
                        let lacking = kept.filter(lacks);
                        assert(texts(second@) =~= texts(second_before).push(mv.id));
                        assert(lacking.push(mv).map_values(id_of) =~= lacking.map_values(
                            id_of,
                        ).push(mv.id));
                    }
                }
            }
        }
        proof {
            assert(src.take(src.len() as int) =~= src);
            let all = src.filter(shown);
            assert((all.filter(serves) + all.filter(lacks)).map_values(id_of) =~= texts(first@)
                + texts(second@));
            assert(texts(first@ + second@) =~= texts(first@) + texts(second@));
            assert(texts(first@ + second@) == compat_ids(src));
        }
        first.append(&mut second);
        self.map_provider_model_ids(first)
    }

    /// The catalog entries for an Ollama listing.
    pub fn map_ollama_tags_models(&self, models: Vec<OllamaTagsModel>) -> (r: Vec<ModelInfo>)
        ensures
            infos(r@) == provider_entries(
                tags_ids(tags_entries(models@)),
                self@.bundled_models,
                self@.fallback_metadata,
            ),
    {
        let ghost src = tags_entries(models@);
        let ghost shown = |m: TagsView| m.model_picker_enabled != Some(false);
        let ghost name_of = |m: TagsView| m.name;
        let mut ids: Vec<String> = Vec::new();
        proof {
            reveal(Seq::filter);
            assert(texts(ids@) =~= src.take(0).filter(shown).map_values(name_of));
        }
        for m in it: models
            invariant
                tags_entries(it.seq()) == src,
                shown == (|m: TagsView| m.model_picker_enabled != Some(false)),
                name_of == (|m: TagsView| m.name),
                texts(ids@) == src.take(it.index() as int).filter(shown).map_values(name_of),
        {
            let ghost i = it.index() as int;
            let ghost kept = src.take(i).filter(shown);
            let ghost mv = m@;
            let ghost before = ids@;
            proof {
                assert(src[i] == m@);
                assert(src.take(i + 1) =~= src.take(i).push(m@));
                lemma_filter_push(src.take(i), m@, shown);
            }
            if m.is_picker_enabled() {
                ids.push(m.name);
                proof {
                    assert(texts(ids@) =~= texts(before).push(mv.name));
                    assert(kept.push(mv).map_values(name_of) =~= kept.map_values(name_of).push(
                        mv.name,
                    ));
                }
            }
        }
        proof {
            assert(src.take(src.len() as int) =~= src);
        }
        self.map_provider_model_ids(ids)
    }

    /// Replaces the active catalog by the one that follows from `models`.
    pub fn apply_remote_models(&mut self, models: Vec<ModelInfo>)
        ensures
            final(self)@ == with_models(old(self)@, infos(models@)),
    {
        if self.provider_catalog_is_authoritative() {
            self.remote_models = models;
            return;
        }
        let ghost src = infos(models@);
        let ghost base = self@.bundled_models;
        let mut existing = self.bundled_models.clone();
        proof {
            assert(infos(existing@) =~= base);
            assert(infos(existing@) == merged(base, src.take(0)));
        }
        for m in it: models
            invariant
                infos(it.seq()) == src,
                infos(existing@) == merged(base, src.take(it.index() as int)),
        {
            let ghost i = it.index() as int;
            let ghost before = existing@;
            let ghost has_slug = |e: ModelInfoView| e.slug == m@.slug;
            proof {
                assert(src[i] == m@);
                assert(src.take(i + 1).drop_last() =~= src.take(i));
                assert(src.take(i + 1).last() == m@);
            }
            let mut k: usize = 0;
            while k < existing.len() && !same_text(existing[k].slug.as_str(), m.slug.as_str())
                invariant
                    k <= existing@.len(),
                    existing@ == before,
                    has_slug == (|e: ModelInfoView| e.slug == m@.slug),
                    forall|j: int| 0 <= j < k ==> !has_slug(#[trigger] infos(before)[j]),
                decreases existing@.len() - k,
            {
                assert(infos(before)[k as int].slug == before[k as int].slug@);
                k = k + 1;
            }
            if k < existing.len() {
                proof {
                    assert(has_slug(infos(before)[k as int]));
                    lemma_first_where_is(infos(before), has_slug, k as int);
                    assert(infos(before.update(k as int, m)) =~= infos(before).update(
                        k as int,
                        m@,
                    ));
                }
                existing[k] = m;
            } else {
                proof {
                    lemma_first_where_none(infos(before), has_slug);
                    assert(infos(before.push(m)) =~= infos(before).push(m@));
                }
                existing.push(m);
            }
        }
        assert(src.take(src.len() as int) =~= src);
        self.remote_models = existing;
    }
}

/// Whether no two entries have one slug.
pub open spec fn slugs_distinct(models: Seq<ModelInfoView>) -> bool {
    forall|i: int, j: int|
        0 <= i < j < models.len() ==> (#[trigger] models[i]).slug != (#[trigger] models[j]).slug
}

/// Whether an entry has the slug.
pub open spec fn has_slug(models: Seq<ModelInfoView>, slug: Seq<char>) -> bool {
    exists|i: int| 0 <= i < models.len() && (#[trigger] models[i]).slug == slug
}

/// Being the given id.
pub open spec fn is_id(id: Seq<char>) -> spec_fn(Seq<char>) -> bool {
    |x: Seq<char>| x == id
}

/// Where an id of a listing stands there first.
pub open spec fn first_place(ids: Seq<Seq<char>>, id: Seq<char>) -> int {
    first_where(ids, is_id(id))->0
}

proof fn lemma_first_place_stays(ids: Seq<Seq<char>>, id: Seq<char>)
    requires
        ids.len() > 0,
    ensures
        ids.drop_last().contains(id) ==> first_place(ids, id) == first_place(ids.drop_last(), id)
            && 0 <= first_place(ids, id) < ids.len() - 1,
        !ids.drop_last().contains(id) && ids.last() == id ==> first_place(ids, id) == ids.len() - 1,
{
    let short = ids.drop_last();
    law_first_where(short, is_id(id));
    if short.contains(id) {
        let k = choose|k: int| 0 <= k < short.len() && short[k] == id;
        assert(is_id(id)(short[k]));
        let p = first_place(short, id);
        assert forall|j: int| 0 <= j < p implies !is_id(id)(#[trigger] ids[j]) by {
            assert(!is_id(id)(short[j]));
        }
        assert(ids[p] == short[p]);
        lemma_first_where_is(ids, is_id(id), p);
    } else if ids.last() == id {
        assert forall|j: int| 0 <= j < ids.len() - 1 implies !is_id(id)(#[trigger] ids[j]) by {
            if is_id(id)(ids[j]) {
                assert(short[j] == id);
            }
        }
        lemma_first_where_is(ids, is_id(id), ids.len() - 1);
    }
}

/// The entries of a listing are those of its ids, one for each. They come in the order in which the
/// ids first occur, each with that place as its priority, so that priorities rise strictly as long
/// as the places can be told. All are shown and usable with an API key.
pub proof fn law_provider_entries(
    ids: Seq<Seq<char>>,
    bundled: Seq<ModelInfoView>,
    fallback: ModelInfoView,
)
    ensures
        ({
            let entries = provider_entries(ids, bundled, fallback);
            &&& slugs_distinct(entries)
            &&& forall|id: Seq<char>| ids.contains(id) <==> #[trigger] has_slug(entries, id)
            &&& forall|i: int|
                0 <= i < entries.len() ==> (#[trigger] entries[i]) == provider_entry(
                    first_place(ids, entries[i].slug),
                    entries[i].slug,
                    bundled,
                    fallback,
                ) && 0 <= first_place(ids, entries[i].slug) < ids.len()
            &&& forall|i: int, j: int|
                0 <= i < j < entries.len() ==> first_place(ids, (#[trigger] entries[i]).slug)
                    < first_place(ids, (#[trigger] entries[j]).slug)
            &&& ids.len() <= i32::MAX ==> forall|i: int, j: int|
                0 <= i < j < entries.len() ==> (#[trigger] entries[i]).priority < (
                #[trigger] entries[j]).priority
            &&& ascending(entries)
            &&& forall|i: int|
                0 <= i < entries.len() ==> {
                    &&& (#[trigger] entries[i]).visibility == ModelVisibility::List
                    &&& entries[i].supported_in_api
                    &&& !entries[i].used_fallback_model_metadata
                    &&& (entries[i].display_name.len() == 0 ==> entries[i].slug.len() == 0)
                }
        }),
{
    let entries = provider_entries(ids, bundled, fallback);
    lemma_provider_entries(ids, bundled, fallback);
    assert forall|i: int, j: int| 0 <= i <= j < entries.len() implies entries[i].priority
        <= entries[j].priority by {
        if i < j {
            assert(first_place(ids, entries[i].slug) < first_place(ids, entries[j].slug));
        }
    }
    assert forall|i: int, j: int| 0 <= i < j < entries.len() && ids.len() <= i32::MAX implies (
    #[trigger] entries[i]).priority < (#[trigger] entries[j]).priority by {
        assert(first_place(ids, entries[i].slug) < first_place(ids, entries[j].slug));
    }
}

proof fn lemma_provider_entries(
    ids: Seq<Seq<char>>,
    bundled: Seq<ModelInfoView>,
    fallback: ModelInfoView,
)
    ensures
        ({
            let entries = provider_entries(ids, bundled, fallback);
            &&& slugs_distinct(entries)
            &&& forall|id: Seq<char>| ids.contains(id) <==> #[trigger] has_slug(entries, id)
            &&& forall|i: int|
                0 <= i < entries.len() ==> (#[trigger] entries[i]) == provider_entry(
                    first_place(ids, entries[i].slug),
                    entries[i].slug,
                    bundled,
                    fallback,
                ) && 0 <= first_place(ids, entries[i].slug) < ids.len()
            &&& forall|i: int, j: int|
                0 <= i < j < entries.len() ==> first_place(ids, (#[trigger] entries[i]).slug)
                    < first_place(ids, (#[trigger] entries[j]).slug)
        }),
    decreases ids.len(),
{
    let entries = provider_entries(ids, bundled, fallback);
    if ids.len() > 0 {
        let short = ids.drop_last();
        let front = provider_entries(short, bundled, fallback);
        let last = ids.last();
        let n = front.len() as int;
        lemma_provider_entries(short, bundled, fallback);
        assert(short.push(last) =~= ids);
        assert(ids.contains(last)) by {
            assert(ids[ids.len() - 1] == last);
        }
        assert forall|id: Seq<char>| ids.contains(id) <==> short.contains(id) || id == last by {
            if ids.contains(id) {
                let k = choose|k: int| 0 <= k < ids.len() && ids[k] == id;
                if k < short.len() {
                    assert(short[k] == id);
                }
            }
            if short.contains(id) {
                let k = choose|k: int| 0 <= k < short.len() && short[k] == id;
                assert(ids[k] == id);
            }
        }
        assert forall|i: int| 0 <= i < n implies {
            &&& (#[trigger] entries[i]) == front[i]
            &&& short.contains(front[i].slug)
            &&& first_place(ids, front[i].slug) == first_place(short, front[i].slug)
        } by {
            assert(entries[i] == front[i]);
            assert(has_slug(front, front[i].slug));
            lemma_first_place_stays(ids, front[i].slug);
        }
        lemma_first_place_stays(ids, last);
        if !short.contains(last) {
            assert(!has_slug(front, last));
            assert(entries[n].slug == last);
            assert forall|id: Seq<char>| ids.contains(id) <==> #[trigger] has_slug(
                entries,
                id,
            ) by {
                if has_slug(front, id) {
                    let i = choose|i: int| 0 <= i < front.len() && (#[trigger] front[i]).slug == id;
                    assert(entries[i].slug == id);
                }
                if has_slug(entries, id) && id != last {
                    let i = choose|i: int|
                        0 <= i < entries.len() && (#[trigger] entries[i]).slug == id;
                    assert(front[i].slug == id);
                }
            }
            assert forall|i: int, j: int| 0 <= i < j < entries.len() implies first_place(
                ids,
                (#[trigger] entries[i]).slug,
            ) < first_place(ids, (#[trigger] entries[j]).slug) by {
                assert(entries[i] == front[i]);
                if j < n {
                    assert(entries[j] == front[j]);
                } else {
                    lemma_first_place_stays(ids, front[i].slug);
                }
            }
            assert forall|i: int, j: int| 0 <= i < j < entries.len() implies (
            #[trigger] entries[i]).slug != (#[trigger] entries[j]).slug by {
                if j == n {
                    assert(front[i].slug != last);
                }
            }
        } else {
            assert(entries == front);
            assert forall|id: Seq<char>| ids.contains(id) <==> #[trigger] has_slug(
                entries,
                id,
            ) by {
                assert(ids.contains(id) <==> short.contains(id));
            }
            assert forall|i: int, j: int| 0 <= i < j < entries.len() implies first_place(
                ids,
                (#[trigger] entries[i]).slug,
            ) < first_place(ids, (#[trigger] entries[j]).slug) by {
                assert(entries[i] == front[i] && entries[j] == front[j]);
            }
        }
    } else {
        assert(entries =~= Seq::empty());
    }
}

/// A listed model has the metadata that a lookup of its id in the bundled catalog gives, but for
/// what the listing itself says.
pub proof fn law_listing_uses_the_lookup_rules(
    index: int,
    id: Seq<char>,
    bundled: Seq<ModelInfoView>,
    fallback: ModelInfoView,
)
    ensures
        ({
            let entry = provider_entry(index, id, bundled, fallback);
            entry == (ModelInfoView {
                display_name: entry.display_name,
                visibility: ModelVisibility::List,
                supported_in_api: true,
                priority: listing_priority(index),
                used_fallback_model_metadata: false,
                ..model_info(id, bundled, fallback)
            })
        }),
{
}

/// The picker keeps the entries of a listing in their order.
pub proof fn law_listing_order_is_kept(
    ids: Seq<Seq<char>>,
    bundled: Seq<ModelInfoView>,
    fallback: ModelInfoView,
)
    ensures
        by_priority(provider_entries(ids, bundled, fallback)) == provider_entries(
            ids,
            bundled,
            fallback,
        ),
{
    law_provider_entries(ids, bundled, fallback);
    lemma_sorted_stays(provider_entries(ids, bundled, fallback));
}

proof fn lemma_sorted_stays(models: Seq<ModelInfoView>)
    requires
        ascending(models),
    ensures
        by_priority(models) == models,
    decreases models.len(),
{
    if models.len() > 0 {
        let short = models.drop_last();
        assert forall|i: int, j: int| 0 <= i <= j < short.len() implies short[i].priority
            <= short[j].priority by {
            assert(models[i].priority <= models[j].priority);
        }
        lemma_sorted_stays(short);
        if short.len() > 0 {
            assert(models[short.len() - 1].priority <= models[short.len() as int].priority);
        }
        assert(short.push(models.last()) =~= models);
    }
}

/// An OpenAI-compatible listing gives the ids of the entries that the picker may show, and no
/// others.
pub proof fn law_compat_ids(entries: Seq<CompatView>, id: Seq<char>)
    ensures
        compat_ids(entries).contains(id) <==> exists|i: int|
            0 <= i < entries.len() && (#[trigger] entries[i]).id == id
                && entries[i].model_picker_enabled != Some(false),
{
    let may_show = |m: CompatView| m.model_picker_enabled != Some(false);
    let serves = |m: CompatView| serves_responses(m);
    let lacks = |m: CompatView| !serves_responses(m);
    let shown = entries.filter(may_show);
    let first = shown.filter(serves);
    let second = shown.filter(lacks);
    let both = first + second;
    let ids = compat_ids(entries);
    lemma_filter_members(entries, may_show);
    lemma_filter_members(shown, serves);
    lemma_filter_members(shown, lacks);
    if ids.contains(id) {
        let k = choose|k: int| 0 <= k < ids.len() && ids[k] == id;
        let m = both[k];
        if k < first.len() {
            assert(first[k] == m);
            assert(first.contains(m));
        } else {
            assert(second[k - first.len()] == m);
            assert(second.contains(m));
        }
        assert(shown.contains(m));
        let i = choose|i: int| 0 <= i < entries.len() && entries[i] == m;
        assert(entries[i].id == id);
    }
    if exists|i: int|
        0 <= i < entries.len() && (#[trigger] entries[i]).id == id
            && entries[i].model_picker_enabled != Some(false) {
        let i = choose|i: int|
            0 <= i < entries.len() && (#[trigger] entries[i]).id == id
                && entries[i].model_picker_enabled != Some(false);
        let m = entries[i];
        assert(entries.contains(m));
        assert(shown.contains(m));
        if serves_responses(m) {
            assert(first.contains(m));
            let k = choose|k: int| 0 <= k < first.len() && first[k] == m;
            assert(both[k] == m);
            assert(ids[k] == id);
        } else {
            assert(second.contains(m));
            let k = choose|k: int| 0 <= k < second.len() && second[k] == m;
            assert(both[first.len() + k] == m);
            assert(ids[first.len() + k] == id);
        }
    }
}

proof fn lemma_upsert(catalog: Seq<ModelInfoView>, m: ModelInfoView)
    ensures
        ({
            let next = upsert(catalog, m);
            &&& catalog.len() <= next.len()
            &&& forall|i: int|
                0 <= i < catalog.len() ==> (#[trigger] next[i]).slug == catalog[i].slug
            &&& next.contains(m)
            &&& forall|i: int|
                0 <= i < next.len() ==> (#[trigger] next[i]) == m || catalog.contains(next[i])
            &&& slugs_distinct(catalog) ==> slugs_distinct(next)
            &&& forall|x: ModelInfoView| #[trigger]
                catalog.contains(x) && x.slug != m.slug ==> next.contains(x)
        }),
{
    let same = |e: ModelInfoView| e.slug == m.slug;
    let next = upsert(catalog, m);
    law_first_where(catalog, same);
    match first_where(catalog, same) {
        Some(i) => {
            assert(next[i] == m);
            assert forall|k: int| 0 <= k < next.len() implies (#[trigger] next[k]) == m
                || catalog.contains(next[k]) by {
                if k != i {
                    assert(next[k] == catalog[k]);
                }
            }
            assert forall|x: ModelInfoView| #[trigger]
                catalog.contains(x) && x.slug != m.slug implies next.contains(x) by {
                let k = choose|k: int| 0 <= k < catalog.len() && catalog[k] == x;
                assert(next[k] == x);
            }
        },
        None => {
            assert(next[catalog.len() as int] == m);
            assert forall|k: int| 0 <= k < next.len() implies (#[trigger] next[k]) == m
                || catalog.contains(next[k]) by {
                if k < catalog.len() {
                    assert(next[k] == catalog[k]);
                }
            }
            assert forall|x: ModelInfoView| #[trigger]
                catalog.contains(x) && x.slug != m.slug implies next.contains(x) by {
                let k = choose|k: int| 0 <= k < catalog.len() && catalog[k] == x;
                assert(next[k] == x);
            }
            if slugs_distinct(catalog) {
                assert forall|a: int, b: int| 0 <= a < b < next.len() implies (
                #[trigger] next[a]).slug != (#[trigger] next[b]).slug by {
                    if b == catalog.len() {
                        assert(!same(catalog[a]));
                    }
                }
            }
        },
    }
}

/// Putting models in a catalog keeps the place and the slug of every entry that was there, adds no
/// second entry of one slug, and adds nothing but the models.
pub proof fn law_merged_keeps_the_base(base: Seq<ModelInfoView>, models: Seq<ModelInfoView>)
    ensures
        ({
            let all = merged(base, models);
            &&& base.len() <= all.len()
            &&& forall|i: int| 0 <= i < base.len() ==> (#[trigger] all[i]).slug == base[i].slug
            &&& slugs_distinct(base) ==> slugs_distinct(all)
            &&& forall|i: int|
                0 <= i < all.len() ==> base.contains(#[trigger] all[i]) || models.contains(all[i])
        }),
    decreases models.len(),
{
    let all = merged(base, models);
    if models.len() > 0 {
        let short = models.drop_last();
        let before = merged(base, short);
        law_merged_keeps_the_base(base, short);
        lemma_upsert(before, models.last());
        assert forall|i: int| 0 <= i < all.len() implies base.contains(#[trigger] all[i])
            || models.contains(all[i]) by {
            if all[i] == models.last() {
                assert(models[models.len() - 1] == all[i]);
            } else {
                assert(before.contains(all[i]));
                let k = choose|k: int| 0 <= k < before.len() && before[k] == all[i];
                assert(base.contains(before[k]) || short.contains(before[k]));
                if short.contains(before[k]) {
                    let q = choose|q: int| 0 <= q < short.len() && short[q] == before[k];
                    assert(models[q] == all[i]);
                }
            }
        }
        assert forall|i: int| 0 <= i < base.len() implies (#[trigger] all[i]).slug
            == base[i].slug by {
            assert(before[i].slug == base[i].slug);
        }
    } else {
        assert forall|i: int| 0 <= i < all.len() implies base.contains(#[trigger] all[i]) by {
            assert(base[i] == all[i]);
        }
    }
}

/// Of the models that come in, the last one of each slug is in the catalog.
pub proof fn law_merged_takes_the_newest(
    base: Seq<ModelInfoView>,
    models: Seq<ModelInfoView>,
    i: int,
)
    requires
        0 <= i < models.len(),
        forall|j: int| i < j < models.len() ==> (#[trigger] models[j]).slug != models[i].slug,
    ensures
        merged(base, models).contains(models[i]),
    decreases models.len(),
{
    let short = models.drop_last();
    lemma_upsert(merged(base, short), models.last());
    if i < models.len() - 1 {
        assert(short[i] == models[i]);
        law_merged_takes_the_newest(base, short, i);
        assert(models[models.len() - 1].slug != models[i].slug);
        assert(merged(base, short).contains(models[i]));
    }
}

/// What a refresh puts in the catalog does not depend on what was in it before: the last refresh
/// wins, and repeating it changes nothing.
pub proof fn law_last_refresh_wins(
    m: ManagerView,
    earlier: Seq<ModelInfoView>,
    later: Seq<ModelInfoView>,
)
    ensures
        with_models(with_models(m, earlier), later) == with_models(m, later),
{
}

/// Where the provider says which models there are, a refresh leaves these alone: no bundled model
/// stands beside them.
pub proof fn law_authoritative_catalog_is_taken_as_it_is(m: ManagerView, models: Seq<ModelInfoView>)
    requires
        authoritative(m),
    ensures
        with_models(m, models).remote_models == models,
{
}

} // verus!

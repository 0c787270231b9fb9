//! From a catalog snapshot to picker entries: order by priority, filter by sign-in, mark a default.

use vstd::prelude::*;

use crate::model::infos;
use crate::model::presets;
use crate::model::ModelInfo;
use crate::model::ModelInfoView;
use crate::model::ModelPreset;
use crate::model::ModelPresetView;
use crate::model::ModelVisibility;
use crate::order::lemma_filter_members;
use crate::order::lemma_filter_push;

verus! {

/// `sorted` with `m` behind every model of the same or a smaller priority value.
pub open spec fn insert_by_priority(sorted: Seq<ModelInfoView>, m: ModelInfoView) -> Seq<
    ModelInfoView,
>
    decreases sorted.len(),
{
    if sorted.len() == 0 || sorted.last().priority <= m.priority {
        sorted.push(m)
    } else {
        insert_by_priority(sorted.drop_last(), m).push(sorted.last())
    }
}

/// `models` in ascending order of priority value; models of one priority keep their order.
pub open spec fn by_priority(models: Seq<ModelInfoView>) -> Seq<ModelInfoView>
    decreases models.len(),
{
    if models.len() == 0 {
        models
    } else {
        insert_by_priority(by_priority(models.drop_last()), models.last())
    }
}

/// The picker entry for a model, not yet marked as default.
pub open spec fn preset_of(m: ModelInfoView) -> ModelPresetView {
    ModelPresetView {
        model: m.slug,
        display_name: m.display_name,
        description: m.description,
        default_reasoning_level: m.default_reasoning_level,
        supported_reasoning_levels: m.supported_reasoning_levels,
        show_in_picker: m.visibility == ModelVisibility::List,
        supported_in_api: m.supported_in_api,
        is_default: false,
    }
}

/// The entries that a session may use: all of them in ChatGPT mode, else those the API serves.
pub open spec fn usable(all: Seq<ModelPresetView>, chatgpt_mode: bool) -> Seq<ModelPresetView> {
    all.filter(|p: ModelPresetView| chatgpt_mode || p.supported_in_api)
}

/// The number of entries in front of the first one that the picker shows.
pub open spec fn first_shown(all: Seq<ModelPresetView>) -> nat
    decreases all.len(),
{
    if all.len() == 0 || all[0].show_in_picker {
        0
    } else {
        1 + first_shown(all.drop_first())
    }
}

/// The position of the default: the first shown entry or, where none is shown, the first one.
pub open spec fn default_position(all: Seq<ModelPresetView>) -> nat {
    if first_shown(all) < all.len() {
        first_shown(all)
    } else {
        0
    }
}

/// `all` with exactly the entry at the default position marked.
pub open spec fn with_default(all: Seq<ModelPresetView>) -> Seq<ModelPresetView> {
    Seq::new(
        all.len(),
        |i: int| ModelPresetView { is_default: i == default_position(all), ..all[i] },
    )
}

/// The picker entries of a catalog.
pub open spec fn available(models: Seq<ModelInfoView>, chatgpt_mode: bool) -> Seq<ModelPresetView> {
    with_default(
        usable(by_priority(models).map_values(|m: ModelInfoView| preset_of(m)), chatgpt_mode),
    )
}

/// Whether the values do not descend.
pub open spec fn ascending(models: Seq<ModelInfoView>) -> bool {
    forall|i: int, j: int| 0 <= i <= j < models.len() ==> models[i].priority <= models[j].priority
}

/// The models of one priority value.
pub open spec fn of_priority(models: Seq<ModelInfoView>, priority: i32) -> Seq<ModelInfoView> {
    models.filter(|m: ModelInfoView| m.priority == priority)
}

proof fn lemma_insert_ascending(sorted: Seq<ModelInfoView>, m: ModelInfoView)
    requires
        ascending(sorted),
    ensures
        ascending(insert_by_priority(sorted, m)),
        insert_by_priority(sorted, m).len() == sorted.len() + 1,
        forall|i: int|
            0 <= i < sorted.len() + 1 ==> {
                ||| #[trigger] insert_by_priority(sorted, m)[i] == m
                ||| sorted.contains(insert_by_priority(sorted, m)[i])
            },
    decreases sorted.len(),
{
    let out = insert_by_priority(sorted, m);
    if sorted.len() == 0 || sorted.last().priority <= m.priority {
        assert forall|i: int| 0 <= i < sorted.len() + 1 implies {
            ||| #[trigger] out[i] == m
            ||| sorted.contains(out[i])
        } by {
            if i < sorted.len() {
                assert(out[i] == sorted[i]);
            }
        }
        assert forall|i: int, j: int| 0 <= i <= j < out.len() implies out[i].priority
            <= out[j].priority by {
            if j == sorted.len() && i < j {
                assert(sorted[i].priority <= sorted[sorted.len() - 1].priority);
            }
        }
    } else {
        let short = sorted.drop_last();
        let inner = insert_by_priority(short, m);
        lemma_insert_ascending(short, m);
        assert forall|i: int| 0 <= i < sorted.len() + 1 implies {
            ||| #[trigger] out[i] == m
            ||| sorted.contains(out[i])
        } by {
            if i < sorted.len() {
                assert(out[i] == inner[i]);
                if inner[i] != m {
                    let k = choose|k: int| 0 <= k < short.len() && short[k] == inner[i];
                    assert(sorted[k] == inner[i]);
                }
            } else {
                assert(sorted[sorted.len() - 1] == out[i]);
            }
        }
        assert forall|i: int, j: int| 0 <= i <= j < out.len() implies out[i].priority
            <= out[j].priority by {
            if j == sorted.len() && i < j {
                assert(out[i] == inner[i]);
                if inner[i] != m {
                    let k = choose|k: int| 0 <= k < short.len() && short[k] == inner[i];
                    assert(sorted[k].priority <= sorted[sorted.len() - 1].priority);
                }
            }
        }
    }
}

proof fn lemma_insert_stable(sorted: Seq<ModelInfoView>, m: ModelInfoView, priority: i32)
    requires
        ascending(sorted),
    ensures
        of_priority(insert_by_priority(sorted, m), priority) == of_priority(
            sorted.push(m),
            priority,
        ),
    decreases sorted.len(),
{
    let keep = |x: ModelInfoView| x.priority == priority;
    if sorted.len() > 0 && sorted.last().priority > m.priority {
        let short = sorted.drop_last();
        lemma_insert_stable(short, m, priority);
        lemma_filter_push(insert_by_priority(short, m), sorted.last(), keep);
        lemma_filter_push(short, m, keep);
        lemma_filter_push(short, sorted.last(), keep);
        assert(short.push(sorted.last()) =~= sorted);
        lemma_filter_push(sorted, m, keep);
    }
}

/// The order by priority ascends and keeps the order among models of one priority; nothing is
/// added and nothing is lost.
pub proof fn law_by_priority_is_a_stable_sort(models: Seq<ModelInfoView>)
    ensures
        ascending(by_priority(models)),
        by_priority(models).len() == models.len(),
        forall|p: i32| #[trigger]
            of_priority(by_priority(models), p) == of_priority(models, p),
    decreases models.len(),
{
    if models.len() > 0 {
        let short = models.drop_last();
        law_by_priority_is_a_stable_sort(short);
        lemma_insert_ascending(by_priority(short), models.last());
        assert(short.push(models.last()) =~= models);
        assert forall|p: i32| #[trigger]
            of_priority(by_priority(models), p) == of_priority(models, p) by {
            let keep = |x: ModelInfoView| x.priority == p;
            lemma_insert_stable(by_priority(short), models.last(), p);
            lemma_filter_push(by_priority(short), models.last(), keep);
            lemma_filter_push(short, models.last(), keep);
            assert(of_priority(by_priority(short), p) == of_priority(short, p));
        }
    }
}

proof fn lemma_first_shown(all: Seq<ModelPresetView>)
    ensures
        first_shown(all) <= all.len(),
        forall|j: int| 0 <= j < first_shown(all) ==> !(#[trigger] all[j]).show_in_picker,
        first_shown(all) < all.len() ==> all[first_shown(all) as int].show_in_picker,
    decreases all.len(),
{
    if all.len() > 0 && !all[0].show_in_picker {
        let rest = all.drop_first();
        lemma_first_shown(rest);
        assert forall|j: int| 0 <= j < first_shown(all) implies !(
        #[trigger] all[j]).show_in_picker by {
            if j > 0 {
                assert(all[j] == rest[j - 1]);
            }
        }
        if first_shown(all) < all.len() {
            assert(all[first_shown(all) as int] == rest[first_shown(rest) as int]);
        }
    }
}

/// A list that is not empty has exactly one default. The picker shows it wherever it shows
/// anything, and it is then the first entry shown; otherwise it is the first entry.
pub proof fn law_exactly_one_default(models: Seq<ModelInfoView>, chatgpt_mode: bool)
    ensures
        ({
            let list = available(models, chatgpt_mode);
            let d = default_position(list) as int;
            list.len() > 0 ==> {
                &&& 0 <= d < list.len()
                &&& forall|i: int|
                    0 <= i < list.len() ==> (#[trigger] list[i]).is_default == (i == d)
                &&& list[d].show_in_picker ==> forall|j: int|
                    0 <= j < d ==> !(#[trigger] list[j]).show_in_picker
                &&& !list[d].show_in_picker ==> d == 0 && forall|j: int|
                    0 <= j < list.len() ==> !(#[trigger] list[j]).show_in_picker
            }
        }),
{
    let all = usable(
        by_priority(models).map_values(|m: ModelInfoView| preset_of(m)),
        chatgpt_mode,
    );
    let list = with_default(all);
    lemma_first_shown(all);
    lemma_first_shown(list);
    assert forall|j: int| 0 <= j < list.len() implies (#[trigger] list[j]).show_in_picker
        == all[j].show_in_picker by {}
    let f = first_shown(all) as int;
    let g = first_shown(list) as int;
    if f < g && f < all.len() {
        assert(!list[f].show_in_picker);
    }
    if g < f && g < list.len() {
        assert(!all[g].show_in_picker);
    }
}

/// Sorting keeps the models, and adds none.
proof fn lemma_sorted_members(models: Seq<ModelInfoView>)
    ensures
        forall|m: ModelInfoView| #[trigger] by_priority(models).contains(m) <==> models.contains(m),
{
    law_by_priority_is_a_stable_sort(models);
    assert forall|m: ModelInfoView| #[trigger] by_priority(models).contains(m) <==> models.contains(
        m,
    ) by {
        let keep = |x: ModelInfoView| x.priority == m.priority;
        lemma_filter_members(by_priority(models), keep);
        lemma_filter_members(models, keep);
        assert(of_priority(by_priority(models), m.priority) == of_priority(models, m.priority));
        assert(by_priority(models).filter(keep).contains(m) <==> models.filter(keep).contains(m));
    }
}

/// `list` without the marks of the default.
pub open spec fn unmarked(list: Seq<ModelPresetView>) -> Seq<ModelPresetView> {
    list.map_values(|p: ModelPresetView| ModelPresetView { is_default: false, ..p })
}

/// The list holds an entry for each model that the sign-in allows, hidden ones too, and for no
/// other model.
pub proof fn law_available_lists_the_usable_models(models: Seq<ModelInfoView>, chatgpt_mode: bool)
    ensures
        forall|m: ModelInfoView| #[trigger]
            models.contains(m) && (chatgpt_mode || m.supported_in_api) ==> unmarked(
                available(models, chatgpt_mode),
            ).contains(preset_of(m)),
        forall|p: ModelPresetView| #[trigger]
            unmarked(available(models, chatgpt_mode)).contains(p) ==> exists|m: ModelInfoView|
                #[trigger] models.contains(m) && (chatgpt_mode || m.supported_in_api) && p
                    == preset_of(m),
{
    let sorted = by_priority(models);
    let entries = sorted.map_values(|m: ModelInfoView| preset_of(m));
    let keep = |p: ModelPresetView| chatgpt_mode || p.supported_in_api;
    let all = usable(entries, chatgpt_mode);
    lemma_sorted_members(models);
    lemma_filter_members(entries, keep);
    assert(unmarked(available(models, chatgpt_mode)) =~= all) by {
        assert forall|k: int| 0 <= k < all.len() implies !(#[trigger] all[k]).is_default by {
            assert(entries.filter(keep).contains(all[k]));
            let j = choose|j: int| 0 <= j < entries.len() && entries[j] == all[k];
            assert(entries[j] == preset_of(sorted[j]));
        }
    }
    assert forall|m: ModelInfoView| #[trigger]
        models.contains(m) && (chatgpt_mode || m.supported_in_api) implies all.contains(
        preset_of(m),
    ) by {
        assert(sorted.contains(m));
        let j = choose|j: int| 0 <= j < sorted.len() && sorted[j] == m;
        assert(entries[j] == preset_of(m));
        assert(entries.contains(preset_of(m)));
        assert(entries.filter(keep).contains(preset_of(m)));
    }
    assert forall|p: ModelPresetView| #[trigger] all.contains(p) implies exists|m: ModelInfoView|
        #[trigger] models.contains(m) && (chatgpt_mode || m.supported_in_api) && p == preset_of(
            m,
        ) by {
        assert(entries.filter(keep).contains(p));
        let j = choose|j: int| 0 <= j < entries.len() && entries[j] == p;
        assert(sorted.contains(sorted[j]));
        assert(models.contains(sorted[j]));
    }
}

/// Puts the models in ascending order of priority value, keeping the order within one priority.
pub fn sort_by_priority(models: Vec<ModelInfo>) -> (r: Vec<ModelInfo>)
    ensures
        infos(r@) == by_priority(infos(models@)),
{
    let ghost all = infos(models@);
    let mut sorted: Vec<ModelInfo> = Vec::new();
    assert(infos(sorted@) =~= by_priority(all.take(0)));
    for m in it: models
        invariant
            infos(it.seq()) == all,
            infos(sorted@) == by_priority(all.take(it.index() as int)),
    {
        let ghost before = sorted@;
        proof {
            let i = it.index() as int;
            assert(all[i] == m@);
            assert(all.take(i + 1).drop_last() =~= all.take(i));
            assert(all.take(i + 1).last() == m@);
        }
        let mut j: usize = sorted.len();
        proof {
            assert(infos(before).take(j as int) =~= infos(before));
            assert(infos(before).skip(j as int) =~= Seq::<ModelInfoView>::empty());
            assert(insert_by_priority(infos(before), m@) =~= insert_by_priority(
                infos(before).take(j as int),
                m@,
            ) + infos(before).skip(j as int));
        }
        while j > 0 && sorted[j - 1].priority > m.priority
            invariant
                j <= sorted@.len(),
                sorted@ == before,
                insert_by_priority(infos(before), m@) == insert_by_priority(
                    infos(before).take(j as int),
                    m@,
                ) + infos(before).skip(j as int),
            decreases j,
        {
            proof {
                let s = infos(before);
                assert(s.take(j as int).drop_last() =~= s.take(j - 1));
                assert(s.take(j as int).last() == s[j - 1]);
                assert(s.skip(j - 1) =~= seq![s[j - 1]] + s.skip(j as int));
                assert(insert_by_priority(s.take(j as int), m@) + s.skip(j as int)
                    =~= insert_by_priority(s.take(j - 1), m@) + s.skip(j - 1));
            }
            j = j - 1;
        }
        proof {
            let s = infos(before);
            if j > 0 {
                assert(s.take(j as int).last() == s[j - 1]);
            }
            assert(insert_by_priority(s.take(j as int), m@) == s.take(j as int).push(m@));
            assert(infos(before.insert(j as int, m)) =~= s.take(j as int).push(m@) + s.skip(
                j as int,
            ));
        }
        sorted.insert(j, m);
    }
    assert(all.take(all.len() as int) =~= all);
    sorted
}

impl ModelPreset {
    /// The picker entry for a model, not yet marked as default.
    pub fn from(info: ModelInfo) -> (r: ModelPreset)
        ensures
            r@ == preset_of(info@),
    {
        ModelPreset {
            model: info.slug,
            display_name: info.display_name,
            description: info.description,
            default_reasoning_level: info.default_reasoning_level,
            supported_reasoning_levels: info.supported_reasoning_levels,
            show_in_picker: info.visibility == ModelVisibility::List,
            supported_in_api: info.supported_in_api,
            is_default: false,
        }
    }

    /// Keeps the entries that the session may use.
    pub fn filter_by_auth(all: Vec<ModelPreset>, chatgpt_mode: bool) -> (r: Vec<ModelPreset>)
        ensures
            presets(r@) == usable(presets(all@), chatgpt_mode),
    {
        let ghost src = presets(all@);
        let ghost keep = |p: ModelPresetView| chatgpt_mode || p.supported_in_api;
        let mut out: Vec<ModelPreset> = Vec::new();
        proof {
            reveal(Seq::filter);
            assert(presets(out@) =~= src.take(0).filter(keep));
        }
        for p in it: all
            invariant
                presets(it.seq()) == src,
                keep == (|p: ModelPresetView| chatgpt_mode || p.supported_in_api),
                presets(out@) == src.take(it.index() as int).filter(keep),
        {
            let ghost i = it.index() as int;
            proof {
                assert(src[i] == p@);
                assert(src.take(i + 1) =~= src.take(i).push(p@));
                lemma_filter_push(src.take(i), p@, keep);
            }
            if chatgpt_mode || p.supported_in_api {
                let ghost before = out@;
                out.push(p);
                assert(presets(out@) =~= presets(before).push(p@));
            }
        }
        assert(src.take(src.len() as int) =~= src);
        out
    }

    /// Marks the first entry that the picker shows as default or, where it shows none, the first
    /// entry; no other entry stays marked.
    pub fn mark_default_by_picker_visibility(all: &mut Vec<ModelPreset>)
        ensures
            presets(final(all)@) == with_default(presets(old(all)@)),
    {
        let ghost src = presets(all@);
        let n = all.len();
        let mut shown: usize = 0;
        assert(src.skip(0) =~= src);
        while shown < n && !all[shown].show_in_picker
            invariant
                shown <= n,
                n == all@.len(),
                src == presets(all@),
                first_shown(src) == shown + first_shown(src.skip(shown as int)),
            decreases n - shown,
        {
            proof {
                assert(src.skip(shown as int)[0] == src[shown as int]);
                assert(src.skip(shown as int).drop_first() =~= src.skip(shown + 1));
            }
            shown = shown + 1;
        }
        proof {
            if shown < n {
                assert(src.skip(shown as int)[0] == src[shown as int]);
            }
        }
        let chosen: usize = if shown < n {
            shown
        } else {
            0
        };
        let mut i: usize = 0;
        while i < n
            invariant
                i <= n,
                n == all@.len(),
                n == src.len(),
                chosen == default_position(src),
                forall|j: int|
                    0 <= j < i ==> presets(all@)[j] == #[trigger] with_default(src)[j],
                forall|j: int| i <= j < n ==> #[trigger] presets(all@)[j] == src[j],
            decreases n - i,
        {
            let ghost before = all@;
            all[i].is_default = i == chosen;
            proof {
                assert(presets(before)[i as int] == src[i as int]);
                assert forall|j: int| 0 <= j < n && j != i implies #[trigger] presets(all@)[j]
                    == presets(before)[j] by {}
                assert(presets(all@)[i as int] == with_default(src)[i as int]);
            }
            i = i + 1;
        }
        assert(presets(all@) =~= with_default(src));
    }
}

/// Builds picker-ready entries from a catalog snapshot.
pub fn build_available(models: Vec<ModelInfo>, chatgpt_mode: bool) -> (r: Vec<ModelPreset>)
    ensures
        presets(r@) == available(infos(models@), chatgpt_mode),
{
    let sorted = sort_by_priority(models);
    let ghost src = infos(sorted@);
    let mut all: Vec<ModelPreset> = Vec::new();
    for m in it: sorted
        invariant
            infos(it.seq()) == src,
            presets(all@) =~= src.take(it.index() as int).map_values(
                |m: ModelInfoView| preset_of(m),
            ),
    {
        let ghost before = all@;
        proof {
            assert(src[it.index() as int] == m@);
        }
        let p = ModelPreset::from(m);
        all.push(p);
        proof {
            let i = it.index() as int;
            assert(presets(all@) =~= presets(before).push(p@));
            assert(src.take(i + 1) =~= src.take(i).push(src[i]));
        }
    }
    assert(src.take(src.len() as int) =~= src);
    let mut kept = ModelPreset::filter_by_auth(all, chatgpt_mode);
    ModelPreset::mark_default_by_picker_visibility(&mut kept);
    kept
}

} // verus!

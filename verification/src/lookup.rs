//! Finding the metadata that applies to a model name.

use vstd::prelude::*;
use vstd::string::*;

use crate::manager::ModelsManager;
use crate::model::infos;
use crate::model::ModelInfo;
use crate::model::ModelInfoView;
use crate::text::char_is_ascii_alnum;
use crate::text::chars_of;
use crate::text::find_char;
use crate::text::is_ascii_alnum;
use crate::text::starts_with;

verus! {

/// The metadata in an optional model.
pub open spec fn opt_info(m: Option<ModelInfo>) -> Option<ModelInfoView> {
    match m {
        Some(info) => Some(info@),
        None => None,
    }
}

/// Whether candidate `i` has the longest slug that `model` begins with; of several candidates with
/// that slug it is the first.
pub open spec fn is_longest_prefix(
    model: Seq<char>,
    candidates: Seq<ModelInfoView>,
    i: int,
) -> bool {
    &&& 0 <= i < candidates.len()
    &&& candidates[i].slug.is_prefix_of(model)
    &&& forall|j: int|
        0 <= j < candidates.len() && #[trigger] candidates[j].slug.is_prefix_of(model) ==> {
            &&& candidates[j].slug.len() <= candidates[i].slug.len()
            &&& j < i ==> candidates[j].slug.len() < candidates[i].slug.len()
        }
}

/// The candidate with the longest slug that `model` begins with.
pub open spec fn longest_prefix(model: Seq<char>, candidates: Seq<ModelInfoView>) -> Option<
    ModelInfoView,
> {
    if exists|i: int| is_longest_prefix(model, candidates, i) {
        Some(candidates[choose|i: int| is_longest_prefix(model, candidates, i)])
    } else {
        None
    }
}

/// Whether `c` may stand in a namespace.
pub open spec fn is_word(c: char) -> bool {
    is_ascii_alnum(c) || c == '_'
}

/// Whether `model` is a namespace of at least one word character, a slash at `k`, and a name
/// without a slash.
pub open spec fn is_namespaced_at(model: Seq<char>, k: int) -> bool {
    &&& 0 < k < model.len()
    &&& model[k] == '/'
    &&& forall|j: int| 0 <= j < k ==> is_word(#[trigger] model[j])
    &&& forall|j: int| k < j < model.len() ==> #[trigger] model[j] != '/'
}

/// The name behind the namespace of `model`.
pub open spec fn namespaced_suffix(model: Seq<char>) -> Option<Seq<char>> {
    if exists|k: int| is_namespaced_at(model, k) {
        Some(model.skip((choose|k: int| is_namespaced_at(model, k)) + 1))
    } else {
        None
    }
}

/// The candidate found by the name behind the namespace of `model`.
pub open spec fn suffix_match(model: Seq<char>, candidates: Seq<ModelInfoView>) -> Option<
    ModelInfoView,
> {
    match namespaced_suffix(model) {
        Some(suffix) => longest_prefix(suffix, candidates),
        None => None,
    }
}

/// The candidate whose metadata applies to `model`.
pub open spec fn metadata_candidate(model: Seq<char>, candidates: Seq<ModelInfoView>) -> Option<
    ModelInfoView,
> {
    match longest_prefix(model, candidates) {
        Some(m) => Some(m),
        None => suffix_match(model, candidates),
    }
}

/// The metadata for a model that no candidate applies to.
pub open spec fn fallback_for(fallback: ModelInfoView, model: Seq<char>) -> ModelInfoView {
    ModelInfoView { slug: model, used_fallback_model_metadata: true, ..fallback }
}

/// The metadata of `model`: that of the candidate that applies to it, under the name asked for, or
/// else the fallback.
pub open spec fn model_info(
    model: Seq<char>,
    candidates: Seq<ModelInfoView>,
    fallback: ModelInfoView,
) -> ModelInfoView {
    match metadata_candidate(model, candidates) {
        Some(m) => ModelInfoView { slug: model, used_fallback_model_metadata: false, ..m },
        None => fallback_for(fallback, model),
    }
}

proof fn lemma_longest_prefix_exists(model: Seq<char>, candidates: Seq<ModelInfoView>, j: int)
    requires
        0 <= j < candidates.len(),
        candidates[j].slug.is_prefix_of(model),
    ensures
        exists|i: int| is_longest_prefix(model, candidates, i),
    decreases candidates.len(),
{
    let short = candidates.drop_last();
    let last = candidates.len() - 1;
    if exists|k: int| 0 <= k < short.len() && #[trigger] short[k].slug.is_prefix_of(model) {
        let k = choose|k: int| 0 <= k < short.len() && #[trigger] short[k].slug.is_prefix_of(model);
        lemma_longest_prefix_exists(model, short, k);
        let i = choose|i: int| is_longest_prefix(model, short, i);
        assert(candidates[i] == short[i]);
        if candidates[last].slug.is_prefix_of(model) && candidates[last].slug.len()
            > candidates[i].slug.len() {
            assert forall|j: int|
                0 <= j < candidates.len() && #[trigger] candidates[j].slug.is_prefix_of(
                    model,
                ) implies {
                &&& candidates[j].slug.len() <= candidates[last].slug.len()
                &&& j < last ==> candidates[j].slug.len() < candidates[last].slug.len()
            } by {
                if j < last {
                    assert(short[j].slug.is_prefix_of(model));
                }
            }
            assert(is_longest_prefix(model, candidates, last));
        } else {
            assert forall|j: int|
                0 <= j < candidates.len() && #[trigger] candidates[j].slug.is_prefix_of(
                    model,
                ) implies {
                &&& candidates[j].slug.len() <= candidates[i].slug.len()
                &&& j < i ==> candidates[j].slug.len() < candidates[i].slug.len()
            } by {
                if j < last {
                    assert(short[j].slug.is_prefix_of(model));
                }
            }
            assert(is_longest_prefix(model, candidates, i));
        }
    } else {
        assert forall|j: int|
            0 <= j < candidates.len() && #[trigger] candidates[j].slug.is_prefix_of(
                model,
            ) implies j == last by {
            if j < last {
                assert(short[j].slug.is_prefix_of(model));
            }
        }
        assert(is_longest_prefix(model, candidates, last));
    }
}

/// A candidate is found exactly where the slug of one begins the name. No other such slug is
/// longer than that of the one found, which is the first of those with its slug.
pub proof fn law_longest_prefix(model: Seq<char>, candidates: Seq<ModelInfoView>)
    ensures
        longest_prefix(model, candidates) is Some <==> exists|j: int|
            0 <= j < candidates.len() && #[trigger] candidates[j].slug.is_prefix_of(model),
        longest_prefix(model, candidates) matches Some(m) ==> m.slug.is_prefix_of(model)
            && forall|j: int|
            0 <= j < candidates.len() && #[trigger] candidates[j].slug.is_prefix_of(model)
                ==> candidates[j].slug.len() <= m.slug.len(),
        longest_prefix(model, candidates) matches Some(m) ==> exists|i: int|
            0 <= i < candidates.len() && candidates[i] == m && forall|j: int|
                0 <= j < i ==> (#[trigger] candidates[j]).slug != m.slug,
{
    if exists|j: int|
        0 <= j < candidates.len() && #[trigger] candidates[j].slug.is_prefix_of(model) {
        let j = choose|j: int|
            0 <= j < candidates.len() && #[trigger] candidates[j].slug.is_prefix_of(model);
        lemma_longest_prefix_exists(model, candidates, j);
    }
    if exists|i: int| is_longest_prefix(model, candidates, i) {
        let i = choose|i: int| is_longest_prefix(model, candidates, i);
        assert(candidates[i].slug.is_prefix_of(model));
        assert forall|j: int| 0 <= j < i implies (#[trigger] candidates[j]).slug
            != candidates[i].slug by {
            if candidates[j].slug == candidates[i].slug {
                assert(candidates[j].slug.is_prefix_of(model));
            }
        }
    }
}

/// Behind a namespace of one or more letters, digits and underscores stands the name that is looked
/// up.
pub proof fn law_namespace_is_stripped(namespace: Seq<char>, name: Seq<char>)
    requires
        namespace.len() > 0,
        forall|i: int| 0 <= i < namespace.len() ==> is_word(#[trigger] namespace[i]),
        forall|i: int| 0 <= i < name.len() ==> #[trigger] name[i] != '/',
    ensures
        namespaced_suffix(namespace.push('/') + name) == Some(name),
{
    let model = namespace.push('/') + name;
    let k = namespace.len() as int;
    assert forall|j: int| 0 <= j < k implies is_word(#[trigger] model[j]) by {
        assert(model[j] == namespace[j]);
    }
    assert forall|j: int| k < j < model.len() implies #[trigger] model[j] != '/' by {
        assert(model[j] == name[j - k - 1]);
    }
    assert(is_namespaced_at(model, k));
    let c = choose|c: int| is_namespaced_at(model, c);
    assert(c == k) by {
        if c < k {
            assert(is_word(model[c]));
        }
    }
    assert(model.skip(k + 1) =~= name);
}

/// No more than one namespace is stripped: a name with two slashes is looked up as a whole or not
/// at all.
pub proof fn law_one_namespace_at_most(model: Seq<char>, i: int, j: int)
    requires
        0 <= i < j < model.len(),
        model[i] == '/',
        model[j] == '/',
    ensures
        namespaced_suffix(model) is None,
{
    assert forall|k: int| !is_namespaced_at(model, k) by {
        if is_namespaced_at(model, k) {
            if i < k {
                assert(is_word(model[i]));
            } else {
                assert(model[j] != '/');
            }
        }
    }
}

/// The metadata of a model carries the name asked for, and is marked as the fallback exactly where
/// no candidate applies.
pub proof fn law_model_info_carries_the_name(
    model: Seq<char>,
    candidates: Seq<ModelInfoView>,
    fallback: ModelInfoView,
)
    ensures
        model_info(model, candidates, fallback).slug == model,
        model_info(model, candidates, fallback).used_fallback_model_metadata <==>
            metadata_candidate(model, candidates) is None,
{
}

/// A model that the catalog lists under its very name has the metadata of its first entry there,
/// whatever shorter slugs begin the name.
pub proof fn law_exact_slug_wins(
    model: Seq<char>,
    candidates: Seq<ModelInfoView>,
    fallback: ModelInfoView,
    i: int,
)
    requires
        0 <= i < candidates.len(),
        candidates[i].slug == model,
        forall|j: int| 0 <= j < i ==> (#[trigger] candidates[j]).slug != model,
    ensures
        metadata_candidate(model, candidates) == Some(candidates[i]),
        model_info(model, candidates, fallback) == (ModelInfoView {
            used_fallback_model_metadata: false,
            ..candidates[i]
        }),
{
    assert(candidates[i].slug.is_prefix_of(model)) by {
        assert(model.take(model.len() as int) =~= model);
    }
    assert forall|j: int|
        0 <= j < candidates.len() && #[trigger] candidates[j].slug.is_prefix_of(model) implies {
        &&& candidates[j].slug.len() <= candidates[i].slug.len()
        &&& j < i ==> candidates[j].slug.len() < candidates[i].slug.len()
    } by {
        if j < i && candidates[j].slug.len() == model.len() {
            assert(candidates[j].slug =~= model);
        }
    }
    assert(is_longest_prefix(model, candidates, i));
    let k = choose|k: int| is_longest_prefix(model, candidates, k);
    law_longest_prefix_unique(model, candidates, i, k);
}

/// Of two candidates with the longest prefix one is the other.
pub proof fn law_longest_prefix_unique(
    model: Seq<char>,
    candidates: Seq<ModelInfoView>,
    i: int,
    j: int,
)
    requires
        is_longest_prefix(model, candidates, i),
        is_longest_prefix(model, candidates, j),
    ensures
        i == j,
{
    assert(candidates[i].slug.is_prefix_of(model));
    assert(candidates[j].slug.is_prefix_of(model));
}

proof fn lemma_namespace_end_unique(model: Seq<char>, i: int, j: int)
    requires
        is_namespaced_at(model, i),
        is_namespaced_at(model, j),
    ensures
        i == j,
{
    if i < j {
        assert(model[j] != '/');
    } else if j < i {
        assert(model[i] != '/');
    }
}

impl ModelsManager {
    /// The candidate with the longest slug that `model` begins with.
    pub fn find_model_by_longest_prefix(model: &str, candidates: &[ModelInfo]) -> (r: Option<
        ModelInfo,
    >)
        ensures
            opt_info(r) == longest_prefix(model@, infos(candidates@)),
    {
        let ghost all = infos(candidates@);
        let mut best: Option<usize> = None;
        let mut best_len: usize = 0;
        let mut i: usize = 0;
        while i < candidates.len()
            invariant
                i <= candidates@.len(),
                all == infos(candidates@),
                match best {
                    Some(b) => {
                        &&& b < i
                        &&& best_len == all[b as int].slug.len()
                        &&& all[b as int].slug.is_prefix_of(model@)
                        &&& forall|j: int|
                            0 <= j < i && #[trigger] all[j].slug.is_prefix_of(model@) ==> {
                                &&& all[j].slug.len() <= all[b as int].slug.len()
                                &&& j < b ==> all[j].slug.len() < all[b as int].slug.len()
                            }
                    },
                    None => forall|j: int|
                        0 <= j < i ==> !#[trigger] all[j].slug.is_prefix_of(model@),
                },
            decreases candidates@.len() - i,
        {
            let slug = candidates[i].slug.as_str();
            assert(slug@ == all[i as int].slug);
            if starts_with(model, slug) {
                let len = slug.unicode_len();
                if best.is_none() || len > best_len {
                    best = Some(i);
                    best_len = len;
                }
            }
            i = i + 1;
        }
        match best {
            Some(b) => {
                proof {
                    assert(is_longest_prefix(model@, all, b as int));
                    let k = choose|k: int| is_longest_prefix(model@, all, k);
                    law_longest_prefix_unique(model@, all, k, b as int);
                }
                Some(candidates[b].clone())
            },
            None => {
                assert(!exists|k: int| is_longest_prefix(model@, all, k));
                None
            },
        }
    }

    /// Retries the lookup for a name like `namespace/model-name`, without its namespace.
    ///
    /// One leading segment is taken off, and only where it is made of at least one ASCII letter,
    /// digit or underscore and the rest holds no further slash.
    pub fn find_model_by_namespaced_suffix(model: &str, candidates: &[ModelInfo]) -> (r: Option<
        ModelInfo,
    >)
        ensures
            opt_info(r) == suffix_match(model@, infos(candidates@)),
    {
        let k = match find_char(model, '/') {
            Some(k) => k,
            None => {
                proof {
                    assert forall|k: int| !is_namespaced_at(model@, k) by {
                        if is_namespaced_at(model@, k) {
                            assert(model@.contains(model@[k]));
                        }
                    }
                }
                return None;
            },
        };
        let chars = chars_of(model);
        let len = chars.len();
        let mut valid = k > 0;
        let mut i: usize = 0;
        while i < k
            invariant
                i <= k < len,
                len == chars@.len(),
                chars@ == model@,
                valid == (k > 0 && forall|j: int| 0 <= j < i ==> is_word(#[trigger] model@[j])),
            decreases k - i,
        {
            let c: char = chars[i];
            if !(char_is_ascii_alnum(c) || c == '_') {
                valid = false;
            }
            i = i + 1;
        }
        let suffix = model.substring_char(k + 1, len);
        assert(suffix@ =~= model@.skip(k + 1));
        if !valid || find_char(suffix, '/').is_some() {
            proof {
                assert forall|e: int| !is_namespaced_at(model@, e) by {
                    if is_namespaced_at(model@, e) {
                        if e < k {
                            assert(model@[e] != '/');
                        } else if e > k {
                            assert(is_word(model@[k as int]));
                        } else if valid {
                            let p = choose|p: int| 0 <= p < suffix@.len() && suffix@[p] == '/';
                            assert(model@[p + k + 1] == '/');
                        }
                    }
                }
            }
            return None;
        }
        proof {
            assert forall|j: int| k < j < model@.len() implies #[trigger] model@[j] != '/' by {
                assert(suffix@[j - k - 1] == model@[j]);
                assert(suffix@.contains(suffix@[j - k - 1]));
            }
            assert(is_namespaced_at(model@, k as int));
            let e = choose|e: int| is_namespaced_at(model@, e);
            lemma_namespace_end_unique(model@, k as int, e);
        }
        Self::find_model_by_longest_prefix(suffix, candidates)
    }

    /// The candidate whose metadata applies to `model`: by longest prefix and, where that misses,
    /// by the name behind its namespace.
    pub fn find_metadata_candidate(model: &str, candidates: &[ModelInfo]) -> (r: Option<ModelInfo>)
        ensures
            opt_info(r) == metadata_candidate(model@, infos(candidates@)),
    {
        match Self::find_model_by_longest_prefix(model, candidates) {
            Some(m) => Some(m),
            None => Self::find_model_by_namespaced_suffix(model, candidates),
        }
    }

    /// The metadata for a model that no candidate applies to.
    pub fn model_info_from_slug(fallback: &ModelInfo, model: &str) -> (r: ModelInfo)
        ensures
            r@ == fallback_for(fallback@, model@),
    {
        let mut info = fallback.clone();
        info.slug = model.to_string();
        info.used_fallback_model_metadata = true;
        info
    }

    /// The metadata of `model`, from the candidate that applies to it or else from the fallback.
    pub fn construct_model_info_from_candidates(
        model: &str,
        candidates: &[ModelInfo],
        fallback: &ModelInfo,
    ) -> (r: ModelInfo)
        ensures
            r@ == model_info(model@, infos(candidates@), fallback@),
    {
        match Self::find_metadata_candidate(model, candidates) {
            Some(m) => {
                let mut info = m;
                info.slug = model.to_string();
                info.used_fallback_model_metadata = false;
                info
            },
            None => Self::model_info_from_slug(fallback, model),
        }
    }
}

} // verus!

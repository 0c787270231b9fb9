//! Catalogs with test models, and answers that need no catalog state, for use in tests.

use vstd::prelude::*;

use crate::lookup::model_info;
use crate::manager::CollaborationModesConfig;
use crate::manager::ManagerView;
use crate::manager::ModelProviderInfo;
use crate::manager::ModelsManager;
use crate::model::infos;
use crate::model::ModelInfo;
use crate::model::ModelInfoView;
use crate::model::ModelVisibility;
use crate::order::first_where;
use crate::order::lemma_first_where_is;
use crate::order::lemma_first_where_none;
use crate::picker::by_priority;
use crate::picker::sort_by_priority;
use crate::session::opt_infos;
use crate::session::set_up;
use crate::session::Surroundings;
use crate::text::join3;
use crate::text::same_text;
use crate::text::texts;

verus! {

/// Having the slug.
pub open spec fn of_slug(slug: Seq<char>) -> spec_fn(ModelInfoView) -> bool {
    |m: ModelInfoView| m.slug == slug
}

/// Being shown in the picker.
pub open spec fn is_listed() -> spec_fn(ModelInfoView) -> bool {
    |m: ModelInfoView| m.visibility == ModelVisibility::List
}

/// `models` with a hidden copy of the model `base_slug` under the name `test_slug`, unless that name
/// is taken or there is no such model.
pub open spec fn with_test_model(
    models: Seq<ModelInfoView>,
    base_slug: Seq<char>,
    test_slug: Seq<char>,
    tools: Seq<Seq<char>>,
) -> Seq<ModelInfoView> {
    if first_where(models, of_slug(test_slug)) is Some {
        models
    } else {
        match first_where(models, of_slug(base_slug)) {
            Some(i) => models.push(
                ModelInfoView {
                    slug: test_slug,
                    display_name: test_slug,
                    description: Some("Test model derived from "@ + base_slug + "."@),
                    visibility: ModelVisibility::Hide,
                    experimental_supported_tools: tools,
                    ..models[i]
                },
            ),
            None => models,
        }
    }
}

/// `models` with the test models.
pub open spec fn with_test_models(models: Seq<ModelInfoView>) -> Seq<ModelInfoView> {
    with_test_model(
        with_test_model(
            with_test_model(
                models,
                "gpt-5.1-codex"@,
                "test-gpt-5.1-codex"@,
                seq!["grep_files"@],
            ),
            "gpt-5-codex"@,
            "test-gpt-5-codex"@,
            Seq::empty(),
        ),
        "gpt-5-codex"@,
        "test-gpt-5-remote"@,
        Seq::empty(),
    )
}

/// The model of a bundled catalog that is used where none is requested: the first one shown, in
/// order of priority, else the first one.
pub open spec fn offline_default(bundled: Seq<ModelInfoView>) -> Seq<char> {
    let sorted = by_priority(bundled);
    match first_where(sorted, is_listed()) {
        Some(i) => sorted[i].slug,
        None => if sorted.len() > 0 {
            sorted[0].slug
        } else {
            Seq::empty()
        },
    }
}

/// The model to use from a bundled catalog alone: the requested one, else its default.
pub open spec fn offline_model(requested: Option<Seq<char>>, bundled: Seq<ModelInfoView>) -> Seq<
    char,
> {
    match requested {
        Some(model) => model,
        None => offline_default(bundled),
    }
}

/// The models of a catalog that may be given; none where it is not.
pub open spec fn given_models(catalog: Option<Vec<ModelInfo>>) -> Seq<ModelInfoView> {
    match opt_infos(catalog) {
        Some(models) => models,
        None => Seq::empty(),
    }
}

impl ModelsManager {
    fn position_of_slug(models: &Vec<ModelInfo>, slug: &str) -> (r: Option<usize>)
        ensures
            match r {
                Some(i) => first_where(infos(models@), of_slug(slug@)) == Some(i as int) && i
                    < models@.len(),
                None => first_where(infos(models@), of_slug(slug@)) is None,
            },
    {
        let ghost all = infos(models@);
        let mut i: usize = 0;
        while i < models.len()
            invariant
                i <= models@.len(),
                all == infos(models@),
                forall|j: int| 0 <= j < i ==> !of_slug(slug@)(#[trigger] all[j]),
            decreases models@.len() - i,
        {
            assert(all[i as int].slug == models@[i as int].slug@);
            if same_text(models[i].slug.as_str(), slug) {
                proof {
                    lemma_first_where_is(all, of_slug(slug@), i as int);
                }
                return Some(i);
            }
            i = i + 1;
        }
        proof {
            lemma_first_where_none(all, of_slug(slug@));
        }
        None
    }

    /// Adds a hidden copy of the model `base_slug` under the name `test_slug`.
    pub fn add_test_model(
        models: &mut Vec<ModelInfo>,
        base_slug: &str,
        test_slug: &str,
        tools: Vec<String>,
    )
        ensures
            infos(final(models)@) == with_test_model(
                infos(old(models)@),
                base_slug@,
                test_slug@,
                texts(tools@),
            ),
    {
        let ghost before = models@;
        if Self::position_of_slug(models, test_slug).is_some() {
            return;
        }
        let i: usize = match Self::position_of_slug(models, base_slug) {
            Some(i) => i,
            None => {
                return;
            },
        };
        let mut test_model = models[i].clone();
        test_model.slug = test_slug.to_string();
        test_model.display_name = test_slug.to_string();
        test_model.description = Some(join3("Test model derived from ", base_slug, "."));
        test_model.visibility = ModelVisibility::Hide;
        test_model.experimental_supported_tools = tools;
        let ghost added = test_model@;
        models.push(test_model);
        assert(infos(models@) =~= infos(before).push(added));
    }

    /// Adds the test models.
    pub fn inject_test_models(models: &mut Vec<ModelInfo>)
        ensures
            infos(final(models)@) == with_test_models(infos(old(models)@)),
    {
        let mut tools: Vec<String> = Vec::new();
        tools.push("grep_files".to_string());
        assert(texts(tools@) =~= seq!["grep_files"@]);
        Self::add_test_model(models, "gpt-5.1-codex", "test-gpt-5.1-codex", tools);
        let none: Vec<String> = Vec::new();
        assert(texts(none@) =~= Seq::empty());
        Self::add_test_model(models, "gpt-5-codex", "test-gpt-5-codex", none);
        let none: Vec<String> = Vec::new();
        assert(texts(none@) =~= Seq::empty());
        Self::add_test_model(models, "gpt-5-codex", "test-gpt-5-remote", none);
    }

    /// Sets up a catalog for the provider, with the test models in it.
    pub fn with_provider_for_tests(surroundings: Surroundings, provider: ModelProviderInfo) -> (r:
        Self)
        ensures
            r@ == (ManagerView {
                remote_models: with_test_models(surroundings@.bundled_models),
                ..set_up(
                    surroundings@,
                    None,
                    CollaborationModesConfig { default_mode_request_user_input: false },
                    provider@,
                )
            }),
    {
        let mut manager = Self::new(
            surroundings,
            None,
            CollaborationModesConfig { default_mode_request_user_input: false },
            provider,
        );
        Self::inject_test_models(&mut manager.remote_models);
        manager
    }

    /// Sets up a catalog for the provider that reads the models.dev catalog from the given place.
    pub fn with_provider_and_models_dev_url_for_tests(
        surroundings: Surroundings,
        provider: ModelProviderInfo,
        models_dev_api_url: String,
    ) -> (r: Self)
        ensures
            r@ == (ManagerView {
                remote_models: with_test_models(surroundings@.bundled_models),
                models_dev_api_url_override: Some(models_dev_api_url@),
                ..set_up(
                    surroundings@,
                    None,
                    CollaborationModesConfig { default_mode_request_user_input: false },
                    provider@,
                )
            }),
    {
        let mut manager = Self::with_provider_for_tests(surroundings, provider);
        manager.models_dev_api_url_override = Some(models_dev_api_url);
        manager
    }

    /// The model to use, from the bundled catalog alone.
    pub fn get_model_offline_for_tests(model: Option<&str>, bundled_models: Vec<ModelInfo>) -> (r:
        String)
        ensures
            r@ == offline_model(
                match model {
                    Some(requested) => Some(requested@),
                    None => None,
                },
                infos(bundled_models@),
            ),
    {
        if let Some(requested) = model {
            return requested.to_string();
        }
        let sorted = sort_by_priority(bundled_models);
        let ghost all = infos(sorted@);
        let mut i: usize = 0;
        while i < sorted.len()
            invariant
                i <= sorted@.len(),
                model is None,
                all == infos(sorted@),
                all == by_priority(infos(bundled_models@)),
                forall|j: int| 0 <= j < i ==> !is_listed()(#[trigger] all[j]),
            decreases sorted@.len() - i,
        {
            assert(all[i as int].visibility == sorted@[i as int].visibility);
            if sorted[i].visibility == ModelVisibility::List {
                proof {
                    lemma_first_where_is(all, is_listed(), i as int);
                }
                return sorted[i].slug.clone();
            }
            i = i + 1;
        }
        proof {
            lemma_first_where_none(all, is_listed());
        }
        if sorted.len() > 0 {
            sorted[0].slug.clone()
        } else {
            String::new()
        }
    }

    /// The metadata of `model` from the catalog that the configuration gives, if any, with the
    /// overrides of the configuration applied.
    pub fn construct_model_info_offline_for_tests<F: FnOnce(ModelInfo) -> ModelInfo>(
        model: &str,
        model_catalog: &Option<Vec<ModelInfo>>,
        fallback: &ModelInfo,
        with_overrides: F,
    ) -> (r: ModelInfo)
        requires
            forall|info: ModelInfo|
                info@ == model_info(model@, given_models(*model_catalog), fallback@)
                    ==> #[trigger] with_overrides.requires((info,)),
        ensures
            exists|info: ModelInfo|
                info@ == model_info(model@, given_models(*model_catalog), fallback@)
                    && #[trigger] with_overrides.ensures((info,), r),
    {
        let info = match model_catalog {
            Some(models) => Self::construct_model_info_from_candidates(
                model,
                models.as_slice(),
                fallback,
            ),
            None => {
                let none: Vec<ModelInfo> = Vec::new();
                assert(infos(none@) =~= Seq::empty());
                Self::construct_model_info_from_candidates(model, none.as_slice(), fallback)
            },
        };
        with_overrides(info)
    }
}

} // verus!

//! Setting up a catalog, and what is asked of it: the picker entries, the default model, the
//! metadata of a model.

use vstd::prelude::*;
use vstd::string::*;

use crate::cache::DEFAULT_MODEL_CACHE_TTL_SECONDS;
use crate::lookup::model_info;
use crate::manager::outcome;
use crate::manager::AuthMode;
use crate::manager::CatalogMode;
use crate::manager::CodexErr;
use crate::manager::CodexErrView;
use crate::manager::CollaborationModesConfig;
use crate::manager::ManagerView;
use crate::manager::ModelProviderInfo;
use crate::manager::ModelsManager;
use crate::manager::ProviderView;
use crate::model::infos;
use crate::model::presets;
use crate::model::ModelInfo;
use crate::model::ModelInfoView;
use crate::model::ModelPreset;
use crate::model::ModelPresetView;
use crate::order::first_where;
use crate::order::law_first_where;
use crate::order::lemma_first_where_is;
use crate::order::lemma_first_where_none;
use crate::picker::available;
use crate::picker::build_available;
use crate::picker::law_exactly_one_default;
use crate::provider_catalog::authoritative;
use crate::text::join3;
use crate::text::opt_text;
use crate::text::same_text;

verus! {

/// What a catalog takes from its surroundings.
#[derive(Debug)]
pub struct Surroundings {
    /// The catalog that ships with the program.
    pub bundled_models: Vec<ModelInfo>,
    /// Metadata for models that no catalog knows.
    pub fallback_metadata: ModelInfo,
    /// How the session is signed in.
    pub auth_mode: Option<AuthMode>,
    /// The base URL under which the provider's API is reached, or why there is none.
    pub api_base_url: Result<String, CodexErr>,
    /// The version that requests and cache entries carry.
    pub client_version: String,
    /// What the environment says about where the models.dev catalog is read from.
    pub models_dev_api_url: Option<String>,
}

/// What a [`Surroundings`] holds.
pub ghost struct SurroundingsView {
    pub bundled_models: Seq<ModelInfoView>,
    pub fallback_metadata: ModelInfoView,
    pub auth_mode: Option<AuthMode>,
    pub api_base_url: Result<Seq<char>, CodexErrView>,
    pub client_version: Seq<char>,
    pub models_dev_api_url: Option<Seq<char>>,
}

impl View for Surroundings {
    type V = SurroundingsView;

    open spec fn view(&self) -> SurroundingsView {
        SurroundingsView {
            bundled_models: infos(self.bundled_models@),
            fallback_metadata: self.fallback_metadata@,
            auth_mode: self.auth_mode,
            api_base_url: outcome(self.api_base_url),
            client_version: self.client_version@,
            models_dev_api_url: opt_text(self.models_dev_api_url),
        }
    }
}

/// Whether the session is signed in with ChatGPT.
pub open spec fn in_chatgpt_mode(m: ManagerView) -> bool {
    m.auth_mode == Some(AuthMode::Chatgpt)
}

/// The picker entries of the active catalog.
pub open spec fn listed(m: ManagerView) -> Seq<ModelPresetView> {
    available(m.remote_models, in_chatgpt_mode(m))
}

/// Whether an entry is for `model`.
pub open spec fn is_for(model: Seq<char>) -> spec_fn(ModelPresetView) -> bool {
    |p: ModelPresetView| p.model == model
}

/// Whether an entry is marked as the default.
pub open spec fn is_marked() -> spec_fn(ModelPresetView) -> bool {
    |p: ModelPresetView| p.is_default
}

/// The model of the entry that is marked as the default, else of the first entry.
pub open spec fn preferred(all: Seq<ModelPresetView>) -> Option<Seq<char>> {
    match first_where(all, is_marked()) {
        Some(i) => Some(all[i].model),
        None => if all.len() > 0 {
            Some(all[0].model)
        } else {
            None
        },
    }
}

/// The model to use. A requested one is used unless the provider says which models there are, and
/// lists others only; without a request, or in place of an unlisted one, it is the preferred one.
pub open spec fn default_model(m: ManagerView, requested: Option<Seq<char>>) -> Seq<char> {
    match requested {
        Some(model) => if authoritative(m) && first_where(listed(m), is_for(model)) is None {
            match preferred(listed(m)) {
                Some(other) => other,
                None => model,
            }
        } else {
            model
        },
        None => match preferred(listed(m)) {
            Some(model) => model,
            None => Seq::empty(),
        },
    }
}

/// Whether a refresh comes before the choice of the model to use.
pub open spec fn needs_refresh(m: ManagerView, requested: Option<Seq<char>>) -> bool {
    requested is None || authoritative(m)
}

/// How the sign-in is written in the key of a cache entry.
pub open spec fn auth_words(mode: Option<AuthMode>) -> Seq<char> {
    match mode {
        None => "None"@,
        Some(AuthMode::ApiKey) => "Some(ApiKey)"@,
        Some(AuthMode::Chatgpt) => "Some(Chatgpt)"@,
    }
}

/// The base URL in the key of a cache entry: that of the API, else the configured one.
pub open spec fn scope_base_url(m: ManagerView) -> Seq<char> {
    match m.api_base_url {
        Ok(url) => url,
        Err(_) => match m.provider.base_url {
            Some(url) => url,
            None => Seq::empty(),
        },
    }
}

/// The key of a cache entry, from the name of the provider, its base URL and the sign-in.
pub open spec fn scope_text(name: Seq<char>, base_url: Seq<char>, auth: Option<AuthMode>) -> Seq<
    char,
> {
    "provider_name="@ + name + ";base_url="@ + base_url + ";auth_mode="@ + auth_words(auth)
}

/// The key of the cache entries that serve this session.
pub open spec fn scope_key(m: ManagerView) -> Seq<char> {
    scope_text(m.provider.name, scope_base_url(m), m.auth_mode)
}

/// The manager that is set up from `s`: with the catalog that is given, which then stays, or with
/// the bundled one.
pub open spec fn set_up(
    s: SurroundingsView,
    catalog: Option<Seq<ModelInfoView>>,
    config: CollaborationModesConfig,
    provider: ProviderView,
) -> ManagerView {
    ManagerView {
        remote_models: match catalog {
            Some(models) => models,
            None => s.bundled_models,
        },
        bundled_models: s.bundled_models,
        fallback_metadata: s.fallback_metadata,
        catalog_mode: if catalog is Some {
            CatalogMode::Custom
        } else {
            CatalogMode::Default
        },
        collaboration_modes_config: config,
        auth_mode: s.auth_mode,
        api_base_url: s.api_base_url,
        etag: None,
        provider,
        client_version: s.client_version,
        cache_ttl: DEFAULT_MODEL_CACHE_TTL_SECONDS,
        models_dev_api_url_override: None,
        models_dev_api_url_env: s.models_dev_api_url,
    }
}

/// The models in an optional catalog.
pub open spec fn opt_infos(v: Option<Vec<ModelInfo>>) -> Option<Seq<ModelInfoView>> {
    match v {
        Some(models) => Some(infos(models@)),
        None => None,
    }
}

impl ModelsManager {
    /// Sets up the catalog of a session. Where `model_catalog` is given, it is the catalog, and no
    /// refresh alters it; otherwise the bundled one is, until a refresh.
    pub fn new(
        surroundings: Surroundings,
        model_catalog: Option<Vec<ModelInfo>>,
        collaboration_modes_config: CollaborationModesConfig,
        provider: ModelProviderInfo,
    ) -> (r: Self)
        ensures
            r@ == set_up(
                surroundings@,
                opt_infos(model_catalog),
                collaboration_modes_config,
                provider@,
            ),
    {
        let (remote_models, catalog_mode) = match model_catalog {
            Some(models) => (models, CatalogMode::Custom),
            None => {
                let models = surroundings.bundled_models.clone();
                assert(infos(models@) =~= infos(surroundings.bundled_models@));
                (models, CatalogMode::Default)
            },
        };
        ModelsManager {
            remote_models,
            bundled_models: surroundings.bundled_models,
            fallback_metadata: surroundings.fallback_metadata,
            catalog_mode,
            collaboration_modes_config,
            auth_mode: surroundings.auth_mode,
            api_base_url: surroundings.api_base_url,
            etag: None,
            provider,
            client_version: surroundings.client_version,
            cache_ttl: DEFAULT_MODEL_CACHE_TTL_SECONDS,
            models_dev_api_url_override: None,
            models_dev_api_url_env: surroundings.models_dev_api_url,
        }
    }

    /// Sets up the catalog of a session with the provider that refreshes ask.
    pub fn new_with_provider(
        surroundings: Surroundings,
        model_catalog: Option<Vec<ModelInfo>>,
        collaboration_modes_config: CollaborationModesConfig,
        provider: ModelProviderInfo,
    ) -> (r: Self)
        ensures
            r@ == set_up(
                surroundings@,
                opt_infos(model_catalog),
                collaboration_modes_config,
                provider@,
            ),
    {
        Self::new(surroundings, model_catalog, collaboration_modes_config, provider)
    }

    /// A copy of the active catalog.
    pub fn get_remote_models(&self) -> (r: Vec<ModelInfo>)
        ensures
            infos(r@) == self@.remote_models,
    {
        let models = self.remote_models.clone();
        assert(infos(models@) =~= self@.remote_models);
        models
    }

    /// The ETag of the active catalog.
    pub fn get_etag(&self) -> (r: Option<String>)
        ensures
            opt_text(r) == self@.etag,
    {
        self.etag.clone()
    }

    /// The picker entries of a catalog.
    pub fn build_available_models(&self, remote_models: Vec<ModelInfo>) -> (r: Vec<ModelPreset>)
        ensures
            presets(r@) == available(infos(remote_models@), in_chatgpt_mode(self@)),
    {
        let chatgpt_mode = match self.auth_mode {
            Some(mode) => mode == AuthMode::Chatgpt,
            None => false,
        };
        build_available(remote_models, chatgpt_mode)
    }

    /// The picker entries of the active catalog, in order of priority and as the sign-in allows.
    /// The refresh that the caller wants comes first; where it failed, the catalog is listed as it
    /// was left.
    pub fn list_models(&self) -> (r: Vec<ModelPreset>)
        ensures
            presets(r@) == listed(self@),
    {
        self.build_available_models(self.get_remote_models())
    }

    /// The picker entries of the active catalog as it is at present.
    pub fn try_list_models(&self) -> (r: Vec<ModelPreset>)
        ensures
            presets(r@) == listed(self@),
    {
        self.build_available_models(self.get_remote_models())
    }

    /// Whether a refresh comes before [`ModelsManager::get_default_model`]: where no model is
    /// requested, or where the provider says which models there are.
    pub fn default_model_needs_refresh(&self, model: &Option<String>) -> (r: bool)
        ensures
            r == needs_refresh(self@, opt_text(*model)),
    {
        match model {
            Some(_) => self.provider_catalog_is_authoritative(),
            None => true,
        }
    }

    /// The model to use, from the active catalog.
    pub fn get_default_model(&self, model: &Option<String>) -> (r: String)
        ensures
            r@ == default_model(self@, opt_text(*model)),
    {
        match model {
            Some(requested) => {
                if self.provider_catalog_is_authoritative() {
                    let all = self.list_models();
                    let ghost wanted = is_for(requested@);
                    let mut i: usize = 0;
                    while i < all.len()
                        invariant
                            i <= all@.len(),
                            *model == Some(*requested),
                            authoritative(self@),
                            presets(all@) == listed(self@),
                            wanted == is_for(requested@),
                            forall|j: int| 0 <= j < i ==> !wanted(#[trigger] listed(self@)[j]),
                        decreases all@.len() - i,
                    {
                        assert(presets(all@)[i as int].model == all@[i as int].model@);
                        if same_text(all[i].model.as_str(), requested.as_str()) {
                            proof {
                                lemma_first_where_is(listed(self@), wanted, i as int);
                            }
                            return requested.clone();
                        }
                        i = i + 1;
                    }
                    proof {
                        lemma_first_where_none(listed(self@), wanted);
                    }
                    match preferred_model(&all) {
                        Some(other) => other,
                        None => requested.clone(),
                    }
                } else {
                    requested.clone()
                }
            },
            None => {
                let all = self.list_models();
                match preferred_model(&all) {
                    Some(model) => model,
                    None => String::new(),
                }
            },
        }
    }

    /// The metadata of `model` from the active catalog, with the overrides of the configuration
    /// applied.
    pub fn get_model_info<F: FnOnce(ModelInfo) -> ModelInfo>(
        &self,
        model: &str,
        with_overrides: F,
    ) -> (r: ModelInfo)
        requires
            forall|info: ModelInfo|
                info@ == model_info(model@, self@.remote_models, self@.fallback_metadata)
                    ==> #[trigger] with_overrides.requires((info,)),
        ensures
            exists|info: ModelInfo|
                info@ == model_info(model@, self@.remote_models, self@.fallback_metadata)
                    && #[trigger] with_overrides.ensures((info,), r),
    {
        let info = Self::construct_model_info_from_candidates(
            model,
            self.remote_models.as_slice(),
            &self.fallback_metadata,
        );
        with_overrides(info)
    }

    /// The collaboration mode presets for the configured settings.
    pub fn list_collaboration_modes<M, F: FnOnce(CollaborationModesConfig) -> Vec<M>>(
        &self,
        builtin_presets: F,
    ) -> (r: Vec<M>)
        requires
            builtin_presets.requires((self@.collaboration_modes_config,)),
        ensures
            builtin_presets.ensures((self@.collaboration_modes_config,), r),
    {
        self.list_collaboration_modes_for_config(self.collaboration_modes_config, builtin_presets)
    }

    /// The collaboration mode presets for the given settings.
    pub fn list_collaboration_modes_for_config<M, F: FnOnce(CollaborationModesConfig) -> Vec<M>>(
        &self,
        collaboration_modes_config: CollaborationModesConfig,
        builtin_presets: F,
    ) -> (r: Vec<M>)
        requires
            builtin_presets.requires((collaboration_modes_config,)),
        ensures
            builtin_presets.ensures((collaboration_modes_config,), r),
    {
        builtin_presets(collaboration_modes_config)
    }

    /// The key of the cache entries that serve this session.
    pub fn cache_scope_key(&self) -> (r: String)
        ensures
            r@ == scope_key(self@),
    {
        let base_url = match &self.api_base_url {
            Ok(url) => url.as_str(),
            Err(_) => match &self.provider.base_url {
                Some(url) => url.as_str(),
                None => "",
            },
        };
        proof {
            reveal_strlit("");
            assert(""@ =~= Seq::empty());
        }
        let auth = match self.auth_mode {
            None => "None",
            Some(AuthMode::ApiKey) => "Some(ApiKey)",
            Some(AuthMode::Chatgpt) => "Some(Chatgpt)",
        };
        let mut key = join3("provider_name=", self.provider.name.as_str(), ";base_url=");
        key.append(base_url);
        key.append(";auth_mode=");
        key.append(auth);
        key
    }
}

/// The model of the entry that is marked as the default, else of the first entry.
pub fn preferred_model(all: &Vec<ModelPreset>) -> (r: Option<String>)
    ensures
        opt_text(r) == preferred(presets(all@)),
{
    let ghost src = presets(all@);
    let mut i: usize = 0;
    while i < all.len()
        invariant
            i <= all@.len(),
            src == presets(all@),
            forall|j: int| 0 <= j < i ==> !is_marked()(#[trigger] src[j]),
        decreases all@.len() - i,
    {
        assert(src[i as int].is_default == all@[i as int].is_default);
        if all[i].is_default {
            proof {
                lemma_first_where_is(src, is_marked(), i as int);
            }
            return Some(all[i].model.clone());
        }
        i = i + 1;
    }
    proof {
        lemma_first_where_none(src, is_marked());
    }
    if all.len() > 0 {
        Some(all[0].model.clone())
    } else {
        None
    }
}

/// A requested model is used as it is where the provider does not say which models there are.
pub proof fn law_requested_model_is_used(m: ManagerView, model: Seq<char>)
    requires
        !authoritative(m),
    ensures
        default_model(m, Some(model)) == model,
{
}

/// A requested model that is listed is used, whatever the provider.
pub proof fn law_listed_request_is_used(m: ManagerView, i: int)
    requires
        0 <= i < listed(m).len(),
    ensures
        default_model(m, Some(listed(m)[i].model)) == listed(m)[i].model,
{
    law_first_where(listed(m), is_for(listed(m)[i].model));
}

/// Where the provider says which models there are, and there are any, the model to use is one of
/// them, whatever was requested; without a request it is a listed one in any case.
pub proof fn law_default_model_is_listed(m: ManagerView, requested: Option<Seq<char>>)
    requires
        listed(m).len() > 0,
        requested is None || authoritative(m),
    ensures
        exists|i: int|
            0 <= i < listed(m).len() && (#[trigger] listed(m)[i]).model == default_model(
                m,
                requested,
            ),
{
    let all = listed(m);
    law_first_where(all, is_marked());
    if requested is Some {
        law_first_where(all, is_for(requested->0));
        match first_where(all, is_for(requested->0)) {
            Some(i) => {
                assert(all[i].model == requested->0);
            },
            None => {},
        }
    }
    match first_where(all, is_marked()) {
        Some(i) => {
            assert(Some(all[i].model) == preferred(all));
        },
        None => {
            assert(Some(all[0].model) == preferred(all));
        },
    }
}

/// Without a request the model to use is that of the one entry that is marked as the default.
pub proof fn law_default_model_is_the_marked_one(m: ManagerView, i: int)
    requires
        0 <= i < listed(m).len(),
        listed(m)[i].is_default,
    ensures
        default_model(m, None) == listed(m)[i].model,
{
    law_exactly_one_default(m.remote_models, in_chatgpt_mode(m));
    law_first_where(listed(m), is_marked());
}

/// Whether `part` occurs in `s`.
pub open spec fn occurs_in(part: Seq<char>, s: Seq<char>) -> bool {
    exists|i: int|
        0 <= i && i + part.len() <= s.len() && #[trigger] s.subrange(i, i + part.len()) == part
}

proof fn lemma_auth_words_end(mode: Option<AuthMode>)
    ensures
        ({
            let w = auth_words(mode);
            &&& w.len() >= 2
            &&& match mode {
                None => w[w.len() - 1] == 'e',
                Some(AuthMode::ApiKey) => w[w.len() - 1] == ')' && w[w.len() - 2] == 'y',
                Some(AuthMode::Chatgpt) => w[w.len() - 1] == ')' && w[w.len() - 2] == 't',
            }
        }),
{
    reveal_strlit("None");
    reveal_strlit("Some(ApiKey)");
    reveal_strlit("Some(Chatgpt)");
}

/// Cache entries of different sign-ins have different keys. Of one sign-in, those of one provider
/// name have one key exactly where their base URLs agree, and those of one base URL exactly where
/// the names do.
pub proof fn law_scope_keys_differ(
    name_a: Seq<char>,
    name_b: Seq<char>,
    url_a: Seq<char>,
    url_b: Seq<char>,
    auth_a: Option<AuthMode>,
    auth_b: Option<AuthMode>,
)
    requires
        scope_text(name_a, url_a, auth_a) == scope_text(name_b, url_b, auth_b),
    ensures
        auth_a == auth_b,
        name_a == name_b <==> url_a == url_b,
{
    let a = scope_text(name_a, url_a, auth_a);
    let b = scope_text(name_b, url_b, auth_b);
    let n = a.len() as int;
    lemma_auth_words_end(auth_a);
    lemma_auth_words_end(auth_b);
    assert(a[n - 1] == auth_words(auth_a)[auth_words(auth_a).len() - 1]);
    assert(b[n - 1] == auth_words(auth_b)[auth_words(auth_b).len() - 1]);
    assert(a[n - 2] == auth_words(auth_a)[auth_words(auth_a).len() - 2]);
    assert(b[n - 2] == auth_words(auth_b)[auth_words(auth_b).len() - 2]);
    assert(auth_a == auth_b);
    let head = "provider_name="@;
    let mid = ";base_url="@;
    assert(head.len() + name_a.len() + mid.len() + url_a.len() == head.len() + name_b.len()
        + mid.len() + url_b.len());
    if name_a == name_b {
        let k = head.len() + name_a.len() + mid.len();
        assert forall|i: int| 0 <= i < url_a.len() implies url_a[i] == url_b[i] by {
            assert(a[k + i] == url_a[i]);
            assert(b[k + i] == url_b[i]);
        }
        assert(url_a =~= url_b);
    }
    if url_a == url_b {
        assert forall|i: int| 0 <= i < name_a.len() implies name_a[i] == name_b[i] by {
            assert(a[head.len() + i] == name_a[i]);
            assert(b[head.len() + i] == name_b[i]);
        }
        assert(name_a =~= name_b);
    }
}

/// Where no provider name holds the text that separates it from the base URL, a key tells the
/// provider name, the base URL and the sign-in.
pub proof fn law_scope_key_tells_all(
    name_a: Seq<char>,
    name_b: Seq<char>,
    url_a: Seq<char>,
    url_b: Seq<char>,
    auth_a: Option<AuthMode>,
    auth_b: Option<AuthMode>,
)
    requires
        scope_text(name_a, url_a, auth_a) == scope_text(name_b, url_b, auth_b),
        !occurs_in(";base_url="@, name_a),
        !occurs_in(";base_url="@, name_b),
    ensures
        name_a == name_b,
        url_a == url_b,
        auth_a == auth_b,
{
    law_scope_keys_differ(name_a, name_b, url_a, url_b, auth_a, auth_b);
    if name_a.len() < name_b.len() {
        lemma_shorter_name(name_a, name_b, url_a, url_b, auth_a);
    } else if name_b.len() < name_a.len() {
        lemma_shorter_name(name_b, name_a, url_b, url_a, auth_a);
    } else {
        let a = scope_text(name_a, url_a, auth_a);
        let b = scope_text(name_b, url_b, auth_b);
        let head = "provider_name="@;
        assert forall|i: int| 0 <= i < name_a.len() implies name_a[i] == name_b[i] by {
            assert(a[head.len() + i] == name_a[i]);
            assert(b[head.len() + i] == name_b[i]);
        }
        assert(name_a =~= name_b);
    }
}

proof fn lemma_shorter_name(
    short: Seq<char>,
    long: Seq<char>,
    url_s: Seq<char>,
    url_l: Seq<char>,
    auth: Option<AuthMode>,
)
    requires
        scope_text(short, url_s, auth) == scope_text(long, url_l, auth),
        short.len() < long.len(),
    ensures
        occurs_in(";base_url="@, long),
{
    reveal_strlit(";base_url=");
    let mid = ";base_url="@;
    let head = "provider_name="@;
    let a = scope_text(short, url_s, auth);
    let b = scope_text(long, url_l, auth);
    let h = head.len() as int;
    let p = short.len() as int;
    let q = long.len() as int;
    assert forall|k: int| 0 <= k < mid.len() implies a[h + p + k] == mid[k] by {}
    if q - p < mid.len() {
        assert(b[h + q] == mid[0]);
        assert(a[h + p + (q - p)] == mid[q - p]);
        assert(false);
    }
    assert(long.subrange(p, p + mid.len()) =~= mid) by {
        assert forall|k: int| 0 <= k < mid.len() implies long[p + k] == mid[k] by {
            assert(b[h + p + k] == long[p + k]);
        }
    }
}

} // verus!

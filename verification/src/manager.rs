//! The model catalog of a session and what it is made from.

use vstd::prelude::*;

use crate::model::infos;
use crate::model::ModelInfo;
use crate::model::ModelInfoView;
use crate::text::opt_text;

verus! {

/// Strategy for refreshing available models.
#[derive(Clone, Copy, Debug, PartialEq, Eq, Structural)]
pub enum RefreshStrategy {
    /// Fetch from the network, ignoring the cache.
    Online,
    /// Use cached data alone and never fetch from the network.
    Offline,
    /// Use the cache where it is available and fresh, otherwise fetch from the network.
    OnlineIfUncached,
}

/// How the base catalog is sourced for the lifetime of the process.
#[derive(Clone, Copy, Debug, PartialEq, Eq, Structural)]
pub enum CatalogMode {
    /// Start from the bundled catalog and let the cache and the network update it.
    Default,
    /// Use a catalog given by the caller, which no refresh alters.
    Custom,
}

/// How the session is signed in.
#[derive(Clone, Copy, Debug, PartialEq, Eq, Structural)]
pub enum AuthMode {
    ApiKey,
    Chatgpt,
}

/// The settings that seed the collaboration mode presets.
#[derive(Clone, Copy, Debug, PartialEq, Eq, Structural)]
pub struct CollaborationModesConfig {
    pub default_mode_request_user_input: bool,
}

/// Why a refresh failed.
#[derive(Debug, PartialEq, Eq)]
pub enum CodexErr {
    /// No answer came in time.
    Timeout,
    /// An environment variable that holds a credential is missing.
    EnvVar(String),
    /// The exchange with the server failed.
    Stream(String),
    /// Anything else, with its message.
    Other(String),
}

/// What a [`CodexErr`] holds.
pub ghost enum CodexErrView {
    Timeout,
    EnvVar(Seq<char>),
    Stream(Seq<char>),
    Other(Seq<char>),
}

impl View for CodexErr {
    type V = CodexErrView;

    open spec fn view(&self) -> CodexErrView {
        match self {
            CodexErr::Timeout => CodexErrView::Timeout,
            CodexErr::EnvVar(m) => CodexErrView::EnvVar(m@),
            CodexErr::Stream(m) => CodexErrView::Stream(m@),
            CodexErr::Other(m) => CodexErrView::Other(m@),
        }
    }
}

impl Clone for CodexErr {
    fn clone(&self) -> (r: Self)
        ensures
            r == *self,
    {
        match self {
            CodexErr::Timeout => CodexErr::Timeout,
            CodexErr::EnvVar(m) => CodexErr::EnvVar(m.clone()),
            CodexErr::Stream(m) => CodexErr::Stream(m.clone()),
            CodexErr::Other(m) => CodexErr::Other(m.clone()),
        }
    }
}

/// The model provider, as far as the catalog depends on it.
#[derive(Debug, PartialEq, Eq)]
pub struct ModelProviderInfo {
    pub name: String,
    pub base_url: Option<String>,
    /// GitHub Copilot.
    pub github_copilot: bool,
    /// A server on this machine, such as Ollama or LM Studio.
    pub local_oss: bool,
    /// OpenAI itself.
    pub openai: bool,
    /// Whether the name or the base URL is that of an Azure deployment of the Responses API.
    pub azure_responses_wire: bool,
}

/// What a [`ModelProviderInfo`] holds.
pub ghost struct ProviderView {
    pub name: Seq<char>,
    pub base_url: Option<Seq<char>>,
    pub github_copilot: bool,
    pub local_oss: bool,
    pub openai: bool,
    pub azure_responses_wire: bool,
}

impl View for ModelProviderInfo {
    type V = ProviderView;

    open spec fn view(&self) -> ProviderView {
        ProviderView {
            name: self.name@,
            base_url: opt_text(self.base_url),
            github_copilot: self.github_copilot,
            local_oss: self.local_oss,
            openai: self.openai,
            azure_responses_wire: self.azure_responses_wire,
        }
    }
}

impl ModelProviderInfo {
    pub fn is_github_copilot_provider(&self) -> (r: bool)
        ensures
            r == self@.github_copilot,
    {
        self.github_copilot
    }

    pub fn is_local_oss_provider(&self) -> (r: bool)
        ensures
            r == self@.local_oss,
    {
        self.local_oss
    }

    pub fn is_openai(&self) -> (r: bool)
        ensures
            r == self@.openai,
    {
        self.openai
    }
}

/// The model catalog of a session.
#[derive(Debug)]
pub struct ModelsManager {
    /// The active catalog.
    pub remote_models: Vec<ModelInfo>,
    /// The catalog that ships with the program.
    pub bundled_models: Vec<ModelInfo>,
    /// Metadata for models that no catalog knows; the slug is filled in per model.
    pub fallback_metadata: ModelInfo,
    pub catalog_mode: CatalogMode,
    pub collaboration_modes_config: CollaborationModesConfig,
    /// How the session is signed in at present.
    pub auth_mode: Option<AuthMode>,
    /// The base URL under which the provider's API is reached at present, or why there is none.
    pub api_base_url: Result<String, CodexErr>,
    /// The ETag of the active catalog.
    pub etag: Option<String>,
    pub provider: ModelProviderInfo,
    /// The version that requests and cache entries carry.
    pub client_version: String,
    /// How long a cache entry stays fresh, in seconds.
    pub cache_ttl: i64,
    /// Where the models.dev catalog is read from, in place of what the environment says.
    pub models_dev_api_url_override: Option<String>,
    /// What the environment says about where the models.dev catalog is read from.
    pub models_dev_api_url_env: Option<String>,
}

/// The value in an outcome.
pub open spec fn outcome(r: Result<String, CodexErr>) -> Result<Seq<char>, CodexErrView> {
    match r {
        Ok(s) => Ok(s@),
        Err(e) => Err(e@),
    }
}

/// What a [`ModelsManager`] holds.
pub ghost struct ManagerView {
    pub remote_models: Seq<ModelInfoView>,
    pub bundled_models: Seq<ModelInfoView>,
    pub fallback_metadata: ModelInfoView,
    pub catalog_mode: CatalogMode,
    pub collaboration_modes_config: CollaborationModesConfig,
    pub auth_mode: Option<AuthMode>,
    pub api_base_url: Result<Seq<char>, CodexErrView>,
    pub etag: Option<Seq<char>>,
    pub provider: ProviderView,
    pub client_version: Seq<char>,
    pub cache_ttl: i64,
    pub models_dev_api_url_override: Option<Seq<char>>,
    pub models_dev_api_url_env: Option<Seq<char>>,
}

impl View for ModelsManager {
    type V = ManagerView;

    open spec fn view(&self) -> ManagerView {
        ManagerView {
            remote_models: infos(self.remote_models@),
            bundled_models: infos(self.bundled_models@),
            fallback_metadata: self.fallback_metadata@,
            catalog_mode: self.catalog_mode,
            collaboration_modes_config: self.collaboration_modes_config,
            auth_mode: self.auth_mode,
            api_base_url: outcome(self.api_base_url),
            etag: opt_text(self.etag),
            provider: self.provider@,
            client_version: self.client_version@,
            cache_ttl: self.cache_ttl,
            models_dev_api_url_override: opt_text(self.models_dev_api_url_override),
            models_dev_api_url_env: opt_text(self.models_dev_api_url_env),
        }
    }
}

} // verus!

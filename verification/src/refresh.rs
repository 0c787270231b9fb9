//! Refreshing the catalog, as steps: each step asks for one piece of outside work, and what came of
//! it leads to the next step.

use vstd::prelude::*;

use crate::cache::may_serve;
use crate::cache::opt_entry;
use crate::cache::CachedModels;
use crate::cache::CachedView;
use crate::exchange::both_failed;
use crate::exchange::both_failed_text;
use crate::exchange::catalog_attempt;
use crate::exchange::listing_attempt;
use crate::exchange::listing_attempt_text;
use crate::exchange::listing_url;
use crate::exchange::message_of;
use crate::exchange::models_url;
use crate::exchange::reading;
use crate::exchange::reply_view;
use crate::exchange::tags_url;
use crate::exchange::Reply;
use crate::exchange::ReplyView;
use crate::manager::AuthMode;
use crate::manager::CatalogMode;
use crate::manager::CodexErr;
use crate::manager::CodexErrView;
use crate::manager::ManagerView;
use crate::manager::ModelsManager;
use crate::manager::RefreshStrategy;
use crate::model::infos;
use crate::model::ModelInfo;
use crate::model::ModelInfoView;
use crate::models_dev::catalog_hosts;
use crate::models_dev::catalog_url;
use crate::models_dev::configured_url;
use crate::models_dev::dev_entries;
use crate::models_dev::host_of_opt;
use crate::models_dev::law_selected_provider;
use crate::models_dev::provider_aliases;
use crate::models_dev::selected_provider;
use crate::provider_catalog::authoritative;
use crate::provider_catalog::compat_ids;
use crate::provider_catalog::provider_entries;
use crate::provider_catalog::tags_ids;
use crate::provider_catalog::with_models;
use crate::session::in_chatgpt_mode;
use crate::session::scope_key;
use crate::text::join2;
use crate::text::opt_text;
use crate::text::same_text;
use crate::wire::compat_entries;
use crate::wire::dev_catalog;
use crate::wire::tags_entries;
use crate::wire::CompatView;
use crate::wire::DevProviderView;
use crate::wire::ModelsDevEntry;
use crate::wire::OllamaTagsModel;
use crate::wire::OpenAiCompatModel;
use crate::wire::TagsView;

verus! {

/// What a bearer token is needed for.
#[derive(Clone, Copy, Debug, PartialEq, Eq, Structural)]
pub enum TokenUse {
    /// GitHub Copilot's listing.
    Copilot,
    /// The listing of an OpenAI-compatible provider.
    ProviderListing,
    /// OpenAI's own models API.
    ModelsApi,
}

/// The outside work that a refresh waits for.
#[derive(Debug)]
pub enum RefreshAction {
    /// Read the cache entry. Where none may serve, `fetch_on_miss` says whether to fetch.
    LoadCache { fetch_on_miss: bool },
    /// Find the bearer token of the provider.
    ResolveToken { needed_for: TokenUse, base_url: String },
    /// Ask GitHub Copilot for its listing, with the headers of
    /// [`crate::exchange::listing_headers`].
    GetCopilotModels { url: String, bearer: String, client_version: String },
    /// Ask a local server for its OpenAI-compatible listing.
    GetLocalModels { url: String, base_url: String },
    /// Ask a local server for Ollama's listing; `primary` is why the other one could not be had.
    GetOllamaTags { url: String, primary: CodexErr },
    /// Read the models.dev catalog.
    GetModelsDevCatalog { url: String, base_url: String },
    /// Ask an OpenAI-compatible provider for its listing.
    GetProviderModels { url: String, token: Option<String> },
    /// Ask OpenAI's models API under the base URL.
    ListApiModels { base_url: String, token: Option<String>, client_version: String },
    /// Write the cache entry.
    PersistCache {
        models: Vec<ModelInfo>,
        etag: Option<String>,
        client_version: String,
        provider_scope: String,
    },
    /// Nothing: the refresh has ended.
    Finished(Result<(), CodexErr>),
}

/// What came of a piece of outside work.
#[derive(Debug)]
pub enum RefreshEvent {
    /// The cache entry, where there is one, and the time in seconds since the epoch.
    CacheRead { entry: Option<CachedModels>, now: i64 },
    /// The bearer token, where there is one.
    Token(Result<Option<String>, CodexErr>),
    /// The reply to a request for an OpenAI-compatible listing.
    CompatReply(Reply<Vec<OpenAiCompatModel>>),
    /// The reply to a request for Ollama's listing.
    TagsReply(Reply<Vec<OllamaTagsModel>>),
    /// The reply to a request for the models.dev catalog.
    CatalogReply(Reply<Vec<ModelsDevEntry>>),
    /// What OpenAI's models API answered: the models and their ETag.
    ApiModels(Result<(Vec<ModelInfo>, Option<String>), CodexErr>),
    /// The cache entry was written, or the attempt was given up.
    CachePersisted,
}

/// What a [`RefreshAction`] holds.
pub ghost enum ActionView {
    LoadCache { fetch_on_miss: bool },
    ResolveToken { needed_for: TokenUse, base_url: Seq<char> },
    GetCopilotModels { url: Seq<char>, bearer: Seq<char>, client_version: Seq<char> },
    GetLocalModels { url: Seq<char>, base_url: Seq<char> },
    GetOllamaTags { url: Seq<char>, primary: CodexErrView },
    GetModelsDevCatalog { url: Seq<char>, base_url: Seq<char> },
    GetProviderModels { url: Seq<char>, token: Option<Seq<char>> },
    ListApiModels {
        base_url: Seq<char>,
        token: Option<Seq<char>>,
        client_version: Seq<char>,
    },
    PersistCache {
        models: Seq<ModelInfoView>,
        etag: Option<Seq<char>>,
        client_version: Seq<char>,
        provider_scope: Seq<char>,
    },
    Finished(Result<(), CodexErrView>),
}

/// What a [`RefreshEvent`] holds.
pub ghost enum EventView {
    CacheRead { entry: Option<CachedView>, now: i64 },
    Token(Result<Option<Seq<char>>, CodexErrView>),
    CompatReply(ReplyView<Seq<CompatView>>),
    TagsReply(ReplyView<Seq<TagsView>>),
    CatalogReply(ReplyView<Seq<(Seq<char>, DevProviderView)>>),
    ApiModels(Result<(Seq<ModelInfoView>, Option<Seq<char>>), CodexErrView>),
    CachePersisted,
}

impl View for RefreshAction {
    type V = ActionView;

    open spec fn view(&self) -> ActionView {
        match self {
            RefreshAction::LoadCache { fetch_on_miss } => ActionView::LoadCache {
                fetch_on_miss: *fetch_on_miss,
            },
            RefreshAction::ResolveToken { needed_for, base_url } => ActionView::ResolveToken {
                needed_for: *needed_for,
                base_url: base_url@,
            },
            RefreshAction::GetCopilotModels { url, bearer, client_version } =>
                ActionView::GetCopilotModels {
                url: url@,
                bearer: bearer@,
                client_version: client_version@,
            },
            RefreshAction::GetLocalModels { url, base_url } => ActionView::GetLocalModels {
                url: url@,
                base_url: base_url@,
            },
            RefreshAction::GetOllamaTags { url, primary } => ActionView::GetOllamaTags {
                url: url@,
                primary: primary@,
            },
            RefreshAction::GetModelsDevCatalog { url, base_url } =>
                ActionView::GetModelsDevCatalog { url: url@, base_url: base_url@ },
            RefreshAction::GetProviderModels { url, token } => ActionView::GetProviderModels {
                url: url@,
                token: opt_text(*token),
            },
            RefreshAction::ListApiModels { base_url, token, client_version } =>
                ActionView::ListApiModels {
                base_url: base_url@,
                token: opt_text(*token),
                client_version: client_version@,
            },
            RefreshAction::PersistCache { models, etag, client_version, provider_scope } =>
                ActionView::PersistCache {
                models: infos(models@),
                etag: opt_text(*etag),
                client_version: client_version@,
                provider_scope: provider_scope@,
            },
            RefreshAction::Finished(r) => ActionView::Finished(
                match r {
                    Ok(_) => Ok(()),
                    Err(e) => Err(e@),
                },
            ),
        }
    }
}

impl View for RefreshEvent {
    type V = EventView;

    open spec fn view(&self) -> EventView {
        match self {
            RefreshEvent::CacheRead { entry, now } => EventView::CacheRead {
                entry: opt_entry(*entry),
                now: *now,
            },
            RefreshEvent::Token(r) => EventView::Token(
                match r {
                    Ok(token) => Ok(opt_text(*token)),
                    Err(e) => Err(e@),
                },
            ),
            RefreshEvent::CompatReply(reply) => EventView::CompatReply(
                reply_view(*reply, |p: Vec<OpenAiCompatModel>| compat_entries(p@)),
            ),
            RefreshEvent::TagsReply(reply) => EventView::TagsReply(
                reply_view(*reply, |p: Vec<OllamaTagsModel>| tags_entries(p@)),
            ),
            RefreshEvent::CatalogReply(reply) => EventView::CatalogReply(
                reply_view(*reply, |p: Vec<ModelsDevEntry>| dev_catalog(p@)),
            ),
            RefreshEvent::ApiModels(r) => EventView::ApiModels(
                match r {
                    Ok((models, etag)) => Ok((infos(models@), opt_text(*etag))),
                    Err(e) => Err(e@),
                },
            ),
            RefreshEvent::CachePersisted => EventView::CachePersisted,
        }
    }
}

/// The end of a fetch that failed: everything stays as it was.
pub open spec fn failed(m: ManagerView, e: CodexErrView) -> (ManagerView, ActionView) {
    (m, ActionView::Finished(Err(e)))
}

/// A step of a fetch under guard: where it fails and the provider says which models there are, none
/// are left, so that no bundled model is shown in their place.
pub open spec fn guarded(step: (ManagerView, ActionView)) -> (ManagerView, ActionView) {
    if step.1 matches ActionView::Finished(r) && r is Err && authoritative(step.0) {
        (with_models(step.0, Seq::empty()), step.1)
    } else {
        step
    }
}

/// The end of a fetch for which GitHub Copilot has no token: no models are left.
pub open spec fn signed_out(m: ManagerView) -> (ManagerView, ActionView) {
    (
        ManagerView { etag: None, ..with_models(m, Seq::empty()) },
        ActionView::Finished(Ok(())),
    )
}

/// `models` have come in: they are put in the catalog, and written to the cache.
pub open spec fn arrived(
    m: ManagerView,
    models: Seq<ModelInfoView>,
    etag: Option<Seq<char>>,
) -> (ManagerView, ActionView) {
    (
        ManagerView { etag, ..with_models(m, models) },
        ActionView::PersistCache {
            models,
            etag,
            client_version: m.client_version,
            provider_scope: scope_key(m),
        },
    )
}

/// `m` with the catalog and ETag of a cache entry.
pub open spec fn with_entry(m: ManagerView, entry: CachedView) -> ManagerView {
    ManagerView { etag: entry.etag, ..with_models(m, entry.models) }
}

/// The first piece of work of a fetch.
pub open spec fn fetch_started(m: ManagerView) -> (ManagerView, ActionView) {
    match m.api_base_url {
        Err(e) => failed(m, e),
        Ok(base_url) => (
            m,
            if m.provider.github_copilot {
                ActionView::ResolveToken { needed_for: TokenUse::Copilot, base_url }
            } else if m.provider.local_oss {
                ActionView::GetLocalModels { url: listing_url(base_url), base_url }
            } else if !m.provider.openai {
                ActionView::GetModelsDevCatalog { url: catalog_url(configured_url(m)), base_url }
            } else {
                ActionView::ResolveToken { needed_for: TokenUse::ModelsApi, base_url }
            },
        ),
    }
}

/// Whether a refresh may ask the network at all: in API-key mode OpenAI's models are the bundled
/// ones.
pub open spec fn asks_network(m: ManagerView) -> bool {
    in_chatgpt_mode(m) || authoritative(m)
}

/// The first piece of work of a refresh.
pub open spec fn refresh_started(m: ManagerView, strategy: RefreshStrategy) -> (
    ManagerView,
    ActionView,
) {
    if m.catalog_mode == CatalogMode::Custom {
        (m, ActionView::Finished(Ok(())))
    } else if !asks_network(m) {
        match strategy {
            RefreshStrategy::Online => (m, ActionView::Finished(Ok(()))),
            _ => (m, ActionView::LoadCache { fetch_on_miss: false }),
        }
    } else {
        match strategy {
            RefreshStrategy::Offline => (m, ActionView::LoadCache { fetch_on_miss: false }),
            RefreshStrategy::OnlineIfUncached => if m.provider.github_copilot {
                guarded(fetch_started(m))
            } else {
                (m, ActionView::LoadCache { fetch_on_miss: true })
            },
            RefreshStrategy::Online => guarded(fetch_started(m)),
        }
    }
}

/// Whether the cache entry, where there is one, may serve this session.
pub open spec fn cache_serves(m: ManagerView, entry: Option<CachedView>, now: i64) -> bool {
    entry is Some && may_serve(entry->0, now, m.cache_ttl, m.client_version, scope_key(m))
}

/// After the cache was read.
pub open spec fn after_cache(
    m: ManagerView,
    fetch_on_miss: bool,
    entry: Option<CachedView>,
    now: i64,
) -> (ManagerView, ActionView) {
    if cache_serves(m, entry, now) {
        (with_entry(m, entry->0), ActionView::Finished(Ok(())))
    } else if fetch_on_miss {
        guarded(fetch_started(m))
    } else {
        (m, ActionView::Finished(Ok(())))
    }
}

/// After the token was looked up.
pub open spec fn after_token(
    m: ManagerView,
    needed_for: TokenUse,
    base_url: Seq<char>,
    token: Result<Option<Seq<char>>, CodexErrView>,
) -> (ManagerView, ActionView) {
    match needed_for {
        TokenUse::Copilot => match token {
            Ok(Some(token)) => (
                m,
                ActionView::GetCopilotModels {
                    url: listing_url(base_url),
                    bearer: token,
                    client_version: m.client_version,
                },
            ),
            Ok(None) => signed_out(m),
            Err(CodexErrView::EnvVar(_)) => signed_out(m),
            Err(e) => failed(m, e),
        },
        TokenUse::ProviderListing => match token {
            Ok(token) => (
                m,
                ActionView::GetProviderModels { url: listing_url(base_url), token },
            ),
            Err(e) => failed(m, e),
        },
        TokenUse::ModelsApi => match token {
            Ok(token) => (
                m,
                ActionView::ListApiModels { base_url, token, client_version: m.client_version },
            ),
            Err(e) => failed(m, e),
        },
    }
}

/// The models of an OpenAI-compatible listing.
pub open spec fn compat_models(m: ManagerView, entries: Seq<CompatView>) -> Seq<ModelInfoView> {
    provider_entries(compat_ids(entries), m.bundled_models, m.fallback_metadata)
}

/// The models of an Ollama listing.
pub open spec fn tags_models(m: ManagerView, entries: Seq<TagsView>) -> Seq<ModelInfoView> {
    provider_entries(tags_ids(entries), m.bundled_models, m.fallback_metadata)
}

/// After a listing that nothing stands in for came in.
pub open spec fn after_listing(
    m: ManagerView,
    label: Seq<char>,
    reply: ReplyView<Seq<CompatView>>,
) -> (ManagerView, ActionView) {
    match reading(reply, listing_attempt(label)) {
        Ok((entries, etag)) => arrived(m, compat_models(m, entries), etag),
        Err(e) => failed(m, e),
    }
}

/// After the listing of a local server came in: where it failed, Ollama's listing stands in.
pub open spec fn after_local_listing(
    m: ManagerView,
    base_url: Seq<char>,
    reply: ReplyView<Seq<CompatView>>,
) -> (ManagerView, ActionView) {
    match reading(reply, listing_attempt("local-oss"@)) {
        Ok((entries, etag)) => arrived(m, compat_models(m, entries), etag),
        Err(e) => (m, ActionView::GetOllamaTags { url: tags_url(base_url), primary: e }),
    }
}

/// After Ollama's listing came in.
pub open spec fn after_tags(
    m: ManagerView,
    primary: CodexErrView,
    reply: ReplyView<Seq<TagsView>>,
) -> (ManagerView, ActionView) {
    match reading(reply, "failed to fetch models from ollama /api/tags"@) {
        Ok((entries, etag)) => arrived(m, tags_models(m, entries), etag),
        Err(e) => failed(
            m,
            CodexErrView::Stream(both_failed(message_of(primary), message_of(e))),
        ),
    }
}

/// The provider of a models.dev catalog that is the configured one.
pub open spec fn own_provider(
    m: ManagerView,
    catalog: Seq<(Seq<char>, DevProviderView)>,
) -> Option<int> {
    selected_provider(
        catalog,
        provider_aliases(m),
        catalog_hosts(catalog),
        host_of_opt(m.provider.base_url),
    )
}

/// After the models.dev catalog came in: where it failed or does not list the provider, the
/// provider's own listing stands in.
pub open spec fn after_catalog(
    m: ManagerView,
    url: Seq<char>,
    base_url: Seq<char>,
    reply: ReplyView<Seq<(Seq<char>, DevProviderView)>>,
) -> (ManagerView, ActionView) {
    let own_listing = ActionView::ResolveToken { needed_for: TokenUse::ProviderListing, base_url };
    match reading(reply, catalog_attempt(url)) {
        Ok((catalog, etag)) => match own_provider(m, catalog) {
            Some(i) => arrived(
                m,
                dev_entries(catalog[i].1, m.bundled_models, m.fallback_metadata),
                etag,
            ),
            None => (m, own_listing),
        },
        Err(_) => (m, own_listing),
    }
}

/// The step of a fetch that follows where `event` came while it waited for `pending`. An event that
/// does not belong to the pending work changes nothing, nor does one that makes the fetch fail.
pub open spec fn next_fetch_step(m: ManagerView, pending: ActionView, event: EventView) -> (
    ManagerView,
    ActionView,
) {
    match (pending, event) {
        (ActionView::ResolveToken { needed_for, base_url }, EventView::Token(token)) => after_token(
            m,
            needed_for,
            base_url,
            token,
        ),
        (ActionView::GetCopilotModels { .. }, EventView::CompatReply(reply)) => after_listing(
            m,
            "github-copilot"@,
            reply,
        ),
        (ActionView::GetProviderModels { .. }, EventView::CompatReply(reply)) => after_listing(
            m,
            "openai-compatible-provider"@,
            reply,
        ),
        (ActionView::GetLocalModels { url, base_url }, EventView::CompatReply(reply)) =>
            after_local_listing(m, base_url, reply),
        (ActionView::GetOllamaTags { url, primary }, EventView::TagsReply(reply)) => after_tags(
            m,
            primary,
            reply,
        ),
        (ActionView::GetModelsDevCatalog { url, base_url }, EventView::CatalogReply(reply)) =>
            after_catalog(m, url, base_url, reply),
        (ActionView::ListApiModels { .. }, EventView::ApiModels(r)) => match r {
            Ok((models, etag)) => arrived(m, models, etag),
            Err(e) => failed(m, e),
        },
        (ActionView::PersistCache { .. }, EventView::CachePersisted) => (
            m,
            ActionView::Finished(Ok(())),
        ),
        _ => (m, pending),
    }
}

/// The step that follows where `event` came while a refresh waited for `pending`: the cache is tried,
/// or the fetch goes on under guard. What has ended stays as it is.
pub open spec fn next_step(m: ManagerView, pending: ActionView, event: EventView) -> (
    ManagerView,
    ActionView,
) {
    match (pending, event) {
        (ActionView::LoadCache { fetch_on_miss }, EventView::CacheRead { entry, now }) =>
            after_cache(m, fetch_on_miss, entry, now),
        (ActionView::Finished(_), _) => (m, pending),
        _ => guarded(next_fetch_step(m, pending, event)),
    }
}

/// Where an answer that carries an ETag leads: nowhere where the active catalog has it, else to a
/// refresh.
pub open spec fn after_etag(m: ManagerView, etag: Seq<char>) -> Option<(ManagerView, ActionView)> {
    if m.etag == Some(etag) {
        None
    } else {
        Some(refresh_started(m, RefreshStrategy::Online))
    }
}

/// What an answer that carries an ETag calls for.
#[derive(Debug)]
pub enum EtagAction {
    /// The catalog is current: let its cache entry count as fetched now.
    RenewCacheTtl,
    /// The catalog is out of date: go on with a refresh.
    Refresh(RefreshAction),
}

impl ModelsManager {
    fn sign_out(&mut self) -> (r: RefreshAction)
        ensures
            (final(self)@, r@) == signed_out(old(self)@),
    {
        let none: Vec<ModelInfo> = Vec::new();
        assert(infos(none@) =~= Seq::empty());
        self.apply_remote_models(none);
        self.etag = None;
        RefreshAction::Finished(Ok(()))
    }

    fn arrive(&mut self, models: Vec<ModelInfo>, etag: Option<String>) -> (r: RefreshAction)
        ensures
            (final(self)@, r@) == arrived(old(self)@, infos(models@), opt_text(etag)),
    {
        let kept = models.clone();
        assert(infos(kept@) =~= infos(models@));
        self.apply_remote_models(models);
        self.etag = etag.clone();
        RefreshAction::PersistCache {
            models: kept,
            etag,
            client_version: self.client_version.clone(),
            provider_scope: self.cache_scope_key(),
        }
    }

    /// Starts a fetch, whatever the cache holds. Where it fails, nothing changes. It goes on with
    /// [`ModelsManager::resume_fetch`].
    pub fn fetch_and_update_models(&mut self) -> (r: RefreshAction)
        ensures
            (final(self)@, r@) == fetch_started(old(self)@),
            r@ matches ActionView::Finished(e) && e is Err ==> final(self)@ == old(self)@,
    {
        let base_url = match &self.api_base_url {
            Ok(url) => url.clone(),
            Err(e) => {
                return RefreshAction::Finished(Err(e.clone()));
            },
        };
        if self.provider.is_github_copilot_provider() {
            RefreshAction::ResolveToken { needed_for: TokenUse::Copilot, base_url }
        } else if self.provider.is_local_oss_provider() {
            RefreshAction::GetLocalModels { url: models_url(base_url.as_str()), base_url }
        } else if !self.provider.is_openai() {
            RefreshAction::GetModelsDevCatalog { url: self.models_dev_api_url(), base_url }
        } else {
            RefreshAction::ResolveToken { needed_for: TokenUse::ModelsApi, base_url }
        }
    }

    fn guard(&mut self, action: RefreshAction) -> (r: RefreshAction)
        ensures
            (final(self)@, r@) == guarded((old(self)@, action@)),
    {
        match &action {
            RefreshAction::Finished(Err(_)) => {
                if self.provider_catalog_is_authoritative() {
                    let none: Vec<ModelInfo> = Vec::new();
                    assert(infos(none@) =~= Seq::empty());
                    self.apply_remote_models(none);
                }
            },
            _ => {},
        }
        action
    }

    /// Starts a fetch under guard, whatever the cache holds: where it fails, the catalog of a
    /// provider that says which models there are is cleared. It goes on with
    /// [`ModelsManager::resume_refresh`].
    pub fn fetch_and_update_models_with_guard(&mut self) -> (r: RefreshAction)
        ensures
            (final(self)@, r@) == guarded(fetch_started(old(self)@)),
    {
        let action = self.fetch_and_update_models();
        self.guard(action)
    }

    /// Starts a refresh by the given strategy.
    pub fn refresh_available_models(&mut self, refresh_strategy: RefreshStrategy) -> (r:
        RefreshAction)
        ensures
            (final(self)@, r@) == refresh_started(old(self)@, refresh_strategy),
    {
        if self.catalog_mode == CatalogMode::Custom {
            return RefreshAction::Finished(Ok(()));
        }
        let chatgpt_mode = match self.auth_mode {
            Some(mode) => mode == AuthMode::Chatgpt,
            None => false,
        };
        if !chatgpt_mode && !self.provider_catalog_is_authoritative() {
            return match refresh_strategy {
                RefreshStrategy::Online => RefreshAction::Finished(Ok(())),
                _ => RefreshAction::LoadCache { fetch_on_miss: false },
            };
        }
        match refresh_strategy {
            RefreshStrategy::Offline => RefreshAction::LoadCache { fetch_on_miss: false },
            RefreshStrategy::OnlineIfUncached => {
                if self.provider.is_github_copilot_provider() {
                    self.fetch_and_update_models_with_guard()
                } else {
                    RefreshAction::LoadCache { fetch_on_miss: true }
                }
            },
            RefreshStrategy::Online => self.fetch_and_update_models_with_guard(),
        }
    }

    /// Refreshes where an answer carries an ETag other than that of the active catalog.
    pub fn refresh_if_new_etag(&mut self, etag: String) -> (r: EtagAction)
        ensures
            match after_etag(old(self)@, etag@) {
                None => r is RenewCacheTtl && final(self)@ == old(self)@,
                Some(step) => r is Refresh && (final(self)@, r->Refresh_0@) == step,
            },
    {
        let current = match &self.etag {
            Some(known) => same_text(known.as_str(), etag.as_str()),
            None => false,
        };
        if current {
            EtagAction::RenewCacheTtl
        } else {
            EtagAction::Refresh(self.refresh_available_models(RefreshStrategy::Online))
        }
    }

    /// Takes in the cache entry, where there is one that may serve this session, and says whether
    /// there was.
    pub fn try_load_cache(&mut self, entry: Option<CachedModels>, now: i64) -> (r: bool)
        ensures
            r == cache_serves(old(self)@, opt_entry(entry), now),
            final(self)@ == if r {
                with_entry(old(self)@, entry->0@)
            } else {
                old(self)@
            },
    {
        if let Some(cached) = entry {
            if cached.may_serve(
                now,
                self.cache_ttl,
                self.client_version.as_str(),
                self.cache_scope_key().as_str(),
            ) {
                self.etag = cached.etag;
                self.apply_remote_models(cached.models);
                return true;
            }
        }
        false
    }

    fn use_token(
        &mut self,
        needed_for: TokenUse,
        base_url: String,
        token: Result<Option<String>, CodexErr>,
    ) -> (r: RefreshAction)
        ensures
            (final(self)@, r@) == after_token(
                old(self)@,
                needed_for,
                base_url@,
                match token {
                    Ok(token) => Ok(opt_text(token)),
                    Err(e) => Err(e@),
                },
            ),
    {
        match needed_for {
            TokenUse::Copilot => match token {
                Ok(Some(token)) => RefreshAction::GetCopilotModels {
                    url: models_url(base_url.as_str()),
                    bearer: token,
                    client_version: self.client_version.clone(),
                },
                Ok(None) => self.sign_out(),
                Err(CodexErr::EnvVar(_)) => self.sign_out(),
                Err(e) => RefreshAction::Finished(Err(e)),
            },
            TokenUse::ProviderListing => match token {
                Ok(token) => RefreshAction::GetProviderModels {
                    url: models_url(base_url.as_str()),
                    token,
                },
                Err(e) => RefreshAction::Finished(Err(e)),
            },
            TokenUse::ModelsApi => match token {
                Ok(token) => RefreshAction::ListApiModels {
                    base_url,
                    token,
                    client_version: self.client_version.clone(),
                },
                Err(e) => RefreshAction::Finished(Err(e)),
            },
        }
    }

    /// Takes in the OpenAI-compatible listing of a provider.
    pub fn fetch_openai_compat_models(
        &self,
        reply: Reply<Vec<OpenAiCompatModel>>,
        provider_label: &str,
    ) -> (r: Result<(Vec<ModelInfo>, Option<String>), CodexErr>)
        ensures
            match (
                r,
                reading(
                    reply_view(reply, |p: Vec<OpenAiCompatModel>| compat_entries(p@)),
                    listing_attempt(provider_label@),
                ),
            ) {
                (Ok((models, etag)), Ok((entries, tag))) => infos(models@) == compat_models(
                    self@,
                    entries,
                ) && opt_text(etag) == tag,
                (Err(e), Err(why)) => e@ == why,
                _ => false,
            },
    {
        let attempt = listing_attempt_text(provider_label);
        match reply.read(attempt.as_str()) {
            Ok((data, etag)) => Ok((self.map_openai_compat_models(data), etag)),
            Err(e) => Err(e),
        }
    }

    /// Takes in the listing of an Ollama server.
    pub fn fetch_ollama_tags_models(&self, reply: Reply<Vec<OllamaTagsModel>>) -> (r: Result<
        (Vec<ModelInfo>, Option<String>),
        CodexErr,
    >)
        ensures
            match (
                r,
                reading(
                    reply_view(reply, |p: Vec<OllamaTagsModel>| tags_entries(p@)),
                    "failed to fetch models from ollama /api/tags"@,
                ),
            ) {
                (Ok((models, etag)), Ok((entries, tag))) => infos(models@) == tags_models(
                    self@,
                    entries,
                ) && opt_text(etag) == tag,
                (Err(e), Err(why)) => e@ == why,
                _ => false,
            },
    {
        match reply.read("failed to fetch models from ollama /api/tags") {
            Ok((models, etag)) => Ok((self.map_ollama_tags_models(models), etag)),
            Err(e) => Err(e),
        }
    }

    /// Takes in the models.dev catalog that was read from `catalog_url`: the models of the
    /// configured provider, where the catalog lists it.
    pub fn fetch_models_from_models_dev(
        &self,
        reply: Reply<Vec<ModelsDevEntry>>,
        catalog_url: &str,
    ) -> (r: Result<Option<(Vec<ModelInfo>, Option<String>)>, CodexErr>)
        ensures
            match (
                r,
                reading(
                    reply_view(reply, |p: Vec<ModelsDevEntry>| dev_catalog(p@)),
                    catalog_attempt(catalog_url@),
                ),
            ) {
                (Ok(found), Ok((catalog, tag))) => match (found, own_provider(self@, catalog)) {
                    (Some((models, etag)), Some(i)) => infos(models@) == dev_entries(
                        catalog[i].1,
                        self@.bundled_models,
                        self@.fallback_metadata,
                    ) && opt_text(etag) == tag,
                    (None, None) => true,
                    _ => false,
                },
                (Err(e), Err(why)) => e@ == why,
                _ => false,
            },
    {
        let attempt = join2("failed to fetch models.dev catalog from ", catalog_url);
        match reply.read(attempt.as_str()) {
            Ok((catalog, etag)) => match self.match_models_dev_provider(&catalog) {
                Some(i) => {
                    proof {
                        let all = dev_catalog(catalog@);
                        law_selected_provider(
                            all,
                            provider_aliases(self@),
                            catalog_hosts(all),
                            host_of_opt(self@.provider.base_url),
                        );
                        assert(all[i as int].1 == catalog@[i as int].provider@);
                    }
                    Ok(Some((self.map_models_dev_provider(&catalog[i].provider), etag)))
                },
                None => Ok(None),
            },
            Err(e) => Err(e),
        }
    }

    /// Goes on with a fetch that waited for `pending`, now that `event` came. Where it fails, nothing
    /// changes.
    pub fn resume_fetch(&mut self, pending: RefreshAction, event: RefreshEvent) -> (r: RefreshAction)
        ensures
            (final(self)@, r@) == next_fetch_step(old(self)@, pending@, event@),
            r@ matches ActionView::Finished(e) && e is Err ==> final(self)@ == old(self)@,
    {
        match (pending, event) {
            (
                RefreshAction::ResolveToken { needed_for, base_url },
                RefreshEvent::Token(token),
            ) => self.use_token(needed_for, base_url, token),
            (RefreshAction::GetCopilotModels { .. }, RefreshEvent::CompatReply(reply)) => {
                match self.fetch_openai_compat_models(reply, "github-copilot") {
                    Ok((models, etag)) => self.arrive(models, etag),
                    Err(e) => RefreshAction::Finished(Err(e)),
                }
            },
            (RefreshAction::GetProviderModels { .. }, RefreshEvent::CompatReply(reply)) => {
                match self.fetch_openai_compat_models(reply, "openai-compatible-provider") {
                    Ok((models, etag)) => self.arrive(models, etag),
                    Err(e) => RefreshAction::Finished(Err(e)),
                }
            },
            (
                RefreshAction::GetLocalModels { url: _, base_url },
                RefreshEvent::CompatReply(reply),
            ) => match self.fetch_openai_compat_models(reply, "local-oss") {
                Ok((models, etag)) => self.arrive(models, etag),
                Err(primary) => RefreshAction::GetOllamaTags {
                    url: Self::ollama_tags_url(base_url.as_str()),
                    primary,
                },
            },
            (
                RefreshAction::GetOllamaTags { url: _, primary },
                RefreshEvent::TagsReply(reply),
            ) => match self.fetch_ollama_tags_models(reply) {
                Ok((models, etag)) => self.arrive(models, etag),
                Err(fallback) => {
                    let text = both_failed_text(
                        primary.message().as_str(),
                        fallback.message().as_str(),
                    );
                    RefreshAction::Finished(Err(CodexErr::Stream(text)))
                },
            },
            (
                RefreshAction::GetModelsDevCatalog { url, base_url },
                RefreshEvent::CatalogReply(reply),
            ) => match self.fetch_models_from_models_dev(reply, url.as_str()) {
                Ok(Some((models, etag))) => self.arrive(models, etag),
                _ => RefreshAction::ResolveToken {
                    needed_for: TokenUse::ProviderListing,
                    base_url,
                },
            },
            (RefreshAction::ListApiModels { .. }, RefreshEvent::ApiModels(r)) => match r {
                Ok((models, etag)) => self.arrive(models, etag),
                Err(e) => RefreshAction::Finished(Err(e)),
            },
            (RefreshAction::PersistCache { .. }, RefreshEvent::CachePersisted) => {
                RefreshAction::Finished(Ok(()))
            },
            (pending, _) => pending,
        }
    }

    /// Goes on with a refresh that waited for `pending`, now that `event` came.
    pub fn resume_refresh(&mut self, pending: RefreshAction, event: RefreshEvent) -> (r:
        RefreshAction)
        ensures
            (final(self)@, r@) == next_step(old(self)@, pending@, event@),
    {
        match (pending, event) {
            (
                RefreshAction::LoadCache { fetch_on_miss },
                RefreshEvent::CacheRead { entry, now },
            ) => {
                if !self.try_load_cache(entry, now) && fetch_on_miss {
                    self.fetch_and_update_models_with_guard()
                } else {
                    RefreshAction::Finished(Ok(()))
                }
            },
            (RefreshAction::Finished(r), _) => RefreshAction::Finished(r),
            (pending, event) => {
                let action = self.resume_fetch(pending, event);
                self.guard(action)
            },
        }
    }
}

} // verus!

//! What holds of every refresh, whatever comes of the outside work.

use vstd::prelude::*;

use crate::cache::CachedView;
use crate::cache::is_fresh;
use crate::exchange::both_failed;
use crate::exchange::listing_url;
use crate::exchange::message_of;
use crate::exchange::reading;
use crate::exchange::tags_url;
use crate::exchange::reply_view;
use crate::exchange::ReplyView;
use crate::manager::AuthMode;
use crate::manager::CatalogMode;
use crate::manager::CodexErrView;
use crate::manager::ManagerView;
use crate::manager::RefreshStrategy;
use crate::model::infos;
use crate::model::ModelInfoView;
use crate::models_dev::catalog_hosts;
use crate::models_dev::catalog_url;
use crate::models_dev::dev_entries;
use crate::models_dev::host_of_opt;
use crate::models_dev::provider_aliases;
use crate::models_dev::selected_provider;
use crate::provider_catalog::authoritative;
use crate::provider_catalog::compat_ids;
use crate::provider_catalog::merged;
use crate::provider_catalog::next_catalog;
use crate::provider_catalog::provider_entries;
use crate::provider_catalog::tags_ids;
use crate::refresh::after_cache;
use crate::refresh::after_etag;
use crate::refresh::arrived;
use crate::refresh::asks_network;
use crate::refresh::fetch_started;
use crate::refresh::guarded;
use crate::refresh::next_fetch_step;
use crate::refresh::next_step;
use crate::refresh::refresh_started;
use crate::refresh::ActionView;
use crate::refresh::EventView;
use crate::refresh::RefreshAction;
use crate::refresh::RefreshEvent;
use crate::refresh::TokenUse;
use crate::session::scope_key;
use crate::text::opt_text;
use crate::wire::compat_entries;
use crate::wire::dev_catalog;
use crate::wire::tags_entries;
use crate::wire::CompatView;
use crate::wire::DevProviderView;
use crate::wire::ModelsDevEntry;
use crate::wire::OllamaTagsModel;
use crate::wire::OpenAiCompatModel;
use crate::wire::TagsView;

verus! {

/// Where a refresh that waited for `pending` stands after the events.
pub open spec fn after_events(m: ManagerView, pending: ActionView, events: Seq<EventView>) -> (
    ManagerView,
    ActionView,
)
    decreases events.len(),
{
    if events.len() == 0 {
        (m, pending)
    } else {
        let (now, action) = after_events(m, pending, events.drop_last());
        next_step(now, action, events.last())
    }
}

/// Where a refresh by the given strategy stands after the events.
pub open spec fn refreshed(m: ManagerView, strategy: RefreshStrategy, events: Seq<EventView>) -> (
    ManagerView,
    ActionView,
) {
    let (now, action) = refresh_started(m, strategy);
    after_events(now, action, events)
}

/// Whether the work is a request to a server.
pub open spec fn is_request(a: ActionView) -> bool {
    match a {
        ActionView::GetCopilotModels { .. } => true,
        ActionView::GetLocalModels { .. } => true,
        ActionView::GetOllamaTags { .. } => true,
        ActionView::GetModelsDevCatalog { .. } => true,
        ActionView::GetProviderModels { .. } => true,
        ActionView::ListApiModels { .. } => true,
        _ => false,
    }
}

/// Whether the event is what comes of the work.
pub open spec fn answers(a: ActionView, e: EventView) -> bool {
    match a {
        ActionView::LoadCache { .. } => e is CacheRead,
        ActionView::ResolveToken { .. } => e is Token,
        ActionView::GetCopilotModels { .. } => e is CompatReply,
        ActionView::GetLocalModels { .. } => e is CompatReply,
        ActionView::GetOllamaTags { .. } => e is TagsReply,
        ActionView::GetModelsDevCatalog { .. } => e is CatalogReply,
        ActionView::GetProviderModels { .. } => e is CompatReply,
        ActionView::ListApiModels { .. } => e is ApiModels,
        ActionView::PersistCache { .. } => e is CachePersisted,
        ActionView::Finished(_) => false,
    }
}

/// How many pieces of work are left at most.
pub open spec fn work_left(a: ActionView) -> nat {
    match a {
        ActionView::LoadCache { .. } => 5,
        ActionView::GetModelsDevCatalog { .. } => 4,
        ActionView::ResolveToken { .. } => 3,
        ActionView::GetLocalModels { .. } => 3,
        ActionView::GetOllamaTags { .. } => 2,
        ActionView::GetCopilotModels { .. } => 2,
        ActionView::GetProviderModels { .. } => 2,
        ActionView::ListApiModels { .. } => 2,
        ActionView::PersistCache { .. } => 1,
        ActionView::Finished(_) => 0,
    }
}

/// A refresh is at most five pieces of work. Each event that answers the pending work brings the
/// end nearer; any other event changes nothing.
pub proof fn law_refresh_ends(
    m: ManagerView,
    strategy: RefreshStrategy,
    pending: ActionView,
    event: EventView,
)
    ensures
        work_left(refresh_started(m, strategy).1) <= 5,
        answers(pending, event) ==> work_left(next_step(m, pending, event).1) < work_left(pending),
        !answers(pending, event) ==> next_step(m, pending, event) == (m, pending),
        work_left(pending) == 0 <==> pending is Finished,
{
}

/// No refresh alters a catalog that the caller gave, or does anything for it.
pub proof fn law_custom_catalog_stays(
    m: ManagerView,
    strategy: RefreshStrategy,
    events: Seq<EventView>,
)
    requires
        m.catalog_mode == CatalogMode::Custom,
    ensures
        refreshed(m, strategy, events) == (m, ActionView::Finished(Ok(()))),
    decreases events.len(),
{
    if events.len() > 0 {
        law_custom_catalog_stays(m, strategy, events.drop_last());
    }
}

/// An offline refresh asks no server, and it does not fail.
pub proof fn law_offline_asks_no_server(m: ManagerView, events: Seq<EventView>)
    ensures
        ({
            let action = refreshed(m, RefreshStrategy::Offline, events).1;
            &&& !is_request(action)
            &&& action == (ActionView::LoadCache { fetch_on_miss: false })
                || action == ActionView::Finished(Ok(()))
        }),
    decreases events.len(),
{
    if events.len() > 0 {
        law_offline_asks_no_server(m, events.drop_last());
    }
}

/// With OpenAI and an API key no refresh asks a server, whatever the strategy.
pub proof fn law_api_key_mode_asks_no_server(
    m: ManagerView,
    strategy: RefreshStrategy,
    events: Seq<EventView>,
)
    requires
        !asks_network(m),
    ensures
        ({
            let action = refreshed(m, strategy, events).1;
            &&& !is_request(action)
            &&& action == (ActionView::LoadCache { fetch_on_miss: false })
                || action == ActionView::Finished(Ok(()))
        }),
    decreases events.len(),
{
    if events.len() > 0 {
        law_api_key_mode_asks_no_server(m, strategy, events.drop_last());
    }
}

/// A refresh touches the active catalog and its ETag, and nothing else.
pub proof fn law_refresh_keeps_the_settings(
    m: ManagerView,
    strategy: RefreshStrategy,
    events: Seq<EventView>,
)
    ensures
        ({
            let now = refreshed(m, strategy, events).0;
            now == (ManagerView { remote_models: now.remote_models, etag: now.etag, ..m })
        }),
    decreases events.len(),
{
    if events.len() > 0 {
        law_refresh_keeps_the_settings(m, strategy, events.drop_last());
    }
}

/// A refresh that failed leaves no models where the provider says which there are, so that no
/// bundled model is shown in their place. Otherwise it leaves the catalog as it was. The ETag stays in
/// either case.
pub proof fn law_failed_refresh(
    m: ManagerView,
    strategy: RefreshStrategy,
    events: Seq<EventView>,
    e: CodexErrView,
)
    requires
        refreshed(m, strategy, events).1 == ActionView::Finished(Err(e)),
    ensures
        refreshed(m, strategy, events).0.remote_models == if authoritative(m) {
            Seq::empty()
        } else {
            m.remote_models
        },
        refreshed(m, strategy, events).0.etag == m.etag,
    decreases events.len(),
{
    if events.len() > 0 {
        let short = events.drop_last();
        let (now, action) = refreshed(m, strategy, short);
        law_refresh_keeps_the_settings(m, strategy, short);
        if action == ActionView::Finished(Err(e)) {
            law_failed_refresh(m, strategy, short, e);
        } else {
            lemma_catalog_untouched(m, strategy, short);
        }
    }
}

/// Where a fetch without guard stands after the events.
pub open spec fn fetched(m: ManagerView, events: Seq<EventView>) -> (ManagerView, ActionView)
    decreases events.len(),
{
    if events.len() == 0 {
        fetch_started(m)
    } else {
        let (now, action) = fetched(m, events.drop_last());
        next_fetch_step(now, action, events.last())
    }
}

proof fn lemma_fetch_untouched(m: ManagerView, events: Seq<EventView>)
    ensures
        ({
            let (now, action) = fetched(m, events);
            ||| now == m
            ||| action is PersistCache
            ||| action == ActionView::Finished(Ok(()))
        }),
    decreases events.len(),
{
    if events.len() > 0 {
        lemma_fetch_untouched(m, events.drop_last());
    }
}

proof fn lemma_written_entry_ends_well(m: ManagerView, events: Seq<EventView>, i: int)
    requires
        0 <= i <= events.len(),
        fetched(m, events.take(i)).1 is PersistCache,
    ensures
        fetched(m, events).1 is PersistCache || fetched(m, events).1 == ActionView::Finished(Ok(())),
    decreases events.len(),
{
    if i == events.len() {
        assert(events.take(i) =~= events);
    } else {
        let short = events.drop_last();
        assert(short.take(i) =~= events.take(i));
        lemma_written_entry_ends_well(m, short, i);
    }
}

/// A fetch that fails, for whatever reason, leaves everything as it was, the catalog and its ETag
/// among it, and at no point asks for the cache entry to be written.
pub proof fn law_failed_fetch_changes_nothing(
    m: ManagerView,
    events: Seq<EventView>,
    e: CodexErrView,
)
    requires
        fetched(m, events).1 == ActionView::Finished(Err(e)),
    ensures
        fetched(m, events).0 == m,
        forall|i: int|
            0 <= i <= events.len() ==> !((#[trigger] fetched(m, events.take(i))).1 is PersistCache),
{
    lemma_fetch_untouched(m, events);
    assert forall|i: int| 0 <= i <= events.len() implies !((#[trigger] fetched(
        m,
        events.take(i),
    )).1 is PersistCache) by {
        if fetched(m, events.take(i)).1 is PersistCache {
            lemma_written_entry_ends_well(m, events, i);
        }
    }
}

/// A refresh from the network is the fetch, but for the guard: it asks for the same work and ends the
/// same way, and where it has not failed it leaves the same catalog and ETag.
pub proof fn law_refresh_is_a_guarded_fetch(m: ManagerView, events: Seq<EventView>)
    requires
        m.catalog_mode == CatalogMode::Default,
        asks_network(m),
    ensures
        refreshed(m, RefreshStrategy::Online, events) == guarded(fetched(m, events)),
    decreases events.len(),
{
    if events.len() > 0 {
        let short = events.drop_last();
        law_refresh_is_a_guarded_fetch(m, short);
        assert(!(fetched(m, short).1 is LoadCache)) by {
            lemma_fetch_reads_no_cache(m, short);
        }
    }
}

proof fn lemma_fetch_reads_no_cache(m: ManagerView, events: Seq<EventView>)
    ensures
        !(fetched(m, events).1 is LoadCache),
    decreases events.len(),
{
    if events.len() > 0 {
        lemma_fetch_reads_no_cache(m, events.drop_last());
    }
}

/// Until models arrive, or the refresh ends, the catalog and its ETag stay as they were.
proof fn lemma_catalog_untouched(
    m: ManagerView,
    strategy: RefreshStrategy,
    events: Seq<EventView>,
)
    ensures
        ({
            let (now, action) = refreshed(m, strategy, events);
            !(action is Finished) && !(action is PersistCache) ==> now == m
        }),
    decreases events.len(),
{
    if events.len() > 0 {
        lemma_catalog_untouched(m, strategy, events.drop_last());
    }
}

/// What is written to the cache is what has just become the catalog: the models that came in, with
/// their ETag, under the version and scope of this session.
pub proof fn law_cache_entry_matches_catalog(
    m: ManagerView,
    strategy: RefreshStrategy,
    events: Seq<EventView>,
)
    ensures
        refreshed(m, strategy, events).1 matches ActionView::PersistCache {
            models,
            etag,
            client_version,
            provider_scope,
        } ==> {
            let now = refreshed(m, strategy, events).0;
            &&& now.remote_models == next_catalog(m, models)
            &&& now.etag == etag
            &&& client_version == m.client_version
            &&& provider_scope == scope_key(m)
        },
    decreases events.len(),
{
    if events.len() > 0 {
        let short = events.drop_last();
        law_cache_entry_matches_catalog(m, strategy, short);
        lemma_catalog_untouched(m, strategy, short);
    }
}

/// A session of the same version, provider, base URL and sign-in that reads, before it has gone
/// stale, the cache entry that another one wrote ends up with the same catalog and ETag.
pub proof fn law_cache_round_trip(
    writer: ManagerView,
    reader: ManagerView,
    models: Seq<ModelInfoView>,
    etag: Option<Seq<char>>,
    entry: CachedView,
    now: i64,
    fetch_on_miss: bool,
)
    requires
        entry.client_version is Some,
        entry.provider_scope is Some,
        arrived(writer, models, etag).1 == (ActionView::PersistCache {
            models: entry.models,
            etag: entry.etag,
            client_version: entry.client_version->0,
            provider_scope: entry.provider_scope->0,
        }),
        is_fresh(entry, now, reader.cache_ttl),
        reader.client_version == writer.client_version,
        scope_key(reader) == scope_key(writer),
        authoritative(reader) == authoritative(writer),
        reader.bundled_models == writer.bundled_models,
    ensures
        ({
            let (after, action) = after_cache(reader, fetch_on_miss, Some(entry), now);
            &&& action == ActionView::Finished(Ok(()))
            &&& after.remote_models == arrived(writer, models, etag).0.remote_models
            &&& after.etag == arrived(writer, models, etag).0.etag
        }),
{
}

/// A cache entry that is stale, or of another version or scope, is not used: an offline refresh
/// then leaves everything as it was.
pub proof fn law_unusable_cache_entry_is_ignored(m: ManagerView, entry: CachedView, now: i64)
    requires
        m.catalog_mode == CatalogMode::Default,
        !is_fresh(entry, now, m.cache_ttl) || entry.client_version != Some(m.client_version)
            || entry.provider_scope != Some(scope_key(m)),
    ensures
        refreshed(
            m,
            RefreshStrategy::Offline,
            seq![EventView::CacheRead { entry: Some(entry), now }],
        ) == (m, ActionView::Finished(Ok(()))),
{
    let event = EventView::CacheRead { entry: Some(entry), now };
    let (start, action) = refresh_started(m, RefreshStrategy::Offline);
    assert(seq![event].drop_last() =~= Seq::empty());
    assert(after_events(start, action, seq![event].drop_last()) == (start, action));
}

/// GitHub Copilot's catalog is fetched anew even where the cache might serve.
pub proof fn law_copilot_bypasses_the_cache(m: ManagerView)
    requires
        m.provider.github_copilot,
    ensures
        refresh_started(m, RefreshStrategy::OnlineIfUncached) == refresh_started(
            m,
            RefreshStrategy::Online,
        ),
{
}

/// Whether the models that there are come from the provider: GitHub Copilot, a local server, or any
/// provider but OpenAI.
pub open spec fn lists_its_own(m: ManagerView) -> bool {
    !(m.provider.openai && !m.provider.local_oss && !m.provider.github_copilot)
}

/// The catalog once `models` have come in: they alone where the provider lists its own, otherwise
/// the bundled catalog with them put in.
pub open spec fn catalog_of(m: ManagerView, models: Seq<ModelInfoView>) -> Seq<ModelInfoView> {
    if lists_its_own(m) {
        models
    } else {
        merged(m.bundled_models, models)
    }
}

/// Where a fetch stands once `models` have come in: they are in the catalog, under their ETag, and
/// are to be written to the cache under the version and scope of the session.
pub open spec fn taken_in(
    m: ManagerView,
    models: Seq<ModelInfoView>,
    etag: Option<Seq<char>>,
) -> (ManagerView, ActionView) {
    (
        ManagerView { remote_models: catalog_of(m, models), etag, ..m },
        ActionView::PersistCache {
            models,
            etag,
            client_version: m.client_version,
            provider_scope: scope_key(m),
        },
    )
}

/// Whether the entry was fetched by this version for this scope and has not outlived the session's
/// lifetime for entries.
pub open spec fn usable_entry(m: ManagerView, entry: Option<CachedView>, now: i64) -> bool {
    match entry {
        Some(c) => c.client_version == Some(m.client_version) && c.provider_scope == Some(
            scope_key(m),
        ) && m.cache_ttl > 0 && now <= c.fetched_at + m.cache_ttl,
        None => false,
    }
}

/// Where the provider lists its own models, whoever is signed in, and where ChatGPT is signed in, an
/// online refresh starts with the fetch. One that may use the cache does so too for GitHub Copilot;
/// for any other provider it reads the cache, and goes on to the fetch where no entry is usable.
pub proof fn law_network_refresh_fetches(m: ManagerView, entry: Option<CachedView>, now: i64)
    requires
        m.catalog_mode == CatalogMode::Default,
        m.provider.github_copilot || m.provider.local_oss || !m.provider.openai || m.auth_mode
            == Some(AuthMode::Chatgpt),
    ensures
        refresh_started(m, RefreshStrategy::Online) == guarded(fetch_started(m)),
        m.provider.github_copilot ==> refresh_started(m, RefreshStrategy::OnlineIfUncached)
            == guarded(fetch_started(m)),
        !m.provider.github_copilot ==> refresh_started(m, RefreshStrategy::OnlineIfUncached) == (
            m,
            ActionView::LoadCache { fetch_on_miss: true },
        ),
        refresh_started(m, RefreshStrategy::Offline) == (
            m,
            ActionView::LoadCache { fetch_on_miss: false },
        ),
        !usable_entry(m, entry, now) ==> next_step(
            m,
            ActionView::LoadCache { fetch_on_miss: true },
            EventView::CacheRead { entry, now },
        ) == guarded(fetch_started(m)),
{
}

/// OpenAI without a ChatGPT sign-in is not asked: an online refresh ends at once, any other one
/// reads the cache and ends.
pub proof fn law_bundled_catalog_needs_no_network(m: ManagerView)
    requires
        m.catalog_mode == CatalogMode::Default,
        m.provider.openai,
        !m.provider.github_copilot,
        !m.provider.local_oss,
        m.auth_mode != Some(AuthMode::Chatgpt),
    ensures
        refresh_started(m, RefreshStrategy::Online) == (m, ActionView::Finished(Ok(()))),
        refresh_started(m, RefreshStrategy::Offline) == (
            m,
            ActionView::LoadCache { fetch_on_miss: false },
        ),
        refresh_started(m, RefreshStrategy::OnlineIfUncached) == (
            m,
            ActionView::LoadCache { fetch_on_miss: false },
        ),
{
}

/// A usable cache entry gives the catalog and its ETag, and ends the refresh; any other one is left
/// alone, and the refresh ends unless it is to fetch on a miss.
pub proof fn law_cache_entry_is_used(
    m: ManagerView,
    fetch_on_miss: bool,
    entry: Option<CachedView>,
    now: i64,
)
    ensures
        ({
            let step = next_step(
                m,
                ActionView::LoadCache { fetch_on_miss },
                EventView::CacheRead { entry, now },
            );
            &&& usable_entry(m, entry, now) ==> step == (
                ManagerView {
                    remote_models: catalog_of(m, entry->0.models),
                    etag: entry->0.etag,
                    ..m
                },
                ActionView::Finished(Ok(())),
            )
            &&& !usable_entry(m, entry, now) && !fetch_on_miss ==> step == (
                m,
                ActionView::Finished(Ok(())),
            )
        }),
{
}

/// Where a fetch begins: with the token for GitHub Copilot and for OpenAI, with the server itself
/// for a local one, with the models.dev catalog for any other provider. Without a base URL it fails.
pub proof fn law_fetch_begins(m: ManagerView, base_url: Seq<char>, e: CodexErrView)
    ensures
        m.api_base_url == Err::<Seq<char>, CodexErrView>(e) ==> fetch_started(m) == (
            m,
            ActionView::Finished(Err(e)),
        ),
        m.api_base_url == Ok::<Seq<char>, CodexErrView>(base_url) ==> fetch_started(m).0 == m && {
            let action = fetch_started(m).1;
            &&& m.provider.github_copilot ==> action == (ActionView::ResolveToken {
                needed_for: TokenUse::Copilot,
                base_url,
            })
            &&& m.provider.local_oss && !m.provider.github_copilot ==> action == (
            ActionView::GetLocalModels { url: listing_url(base_url), base_url })
            &&& !m.provider.openai && !m.provider.local_oss && !m.provider.github_copilot
                ==> action == (ActionView::GetModelsDevCatalog {
                url: catalog_url(
                    match m.models_dev_api_url_override {
                        Some(url) => Some(url),
                        None => m.models_dev_api_url_env,
                    },
                ),
                base_url,
            })
            &&& m.provider.openai && !m.provider.local_oss && !m.provider.github_copilot
                ==> action == (ActionView::ResolveToken {
                needed_for: TokenUse::ModelsApi,
                base_url,
            })
        },
{
}

/// The guard clears the catalog of a provider that lists its own models where a step fails, and
/// changes nothing else, and nothing at all where no step fails or the provider does not.
pub proof fn law_guard(m: ManagerView, action: ActionView, e: CodexErrView)
    ensures
        lists_its_own(m) ==> guarded((m, ActionView::Finished(Err(e)))) == (
            ManagerView { remote_models: Seq::empty(), ..m },
            ActionView::Finished(Err(e)),
        ),
        !lists_its_own(m) ==> guarded((m, action)) == (m, action),
        !(action is Finished) || action == ActionView::Finished(Ok(())) ==> guarded((m, action)) == (
            m,
            action,
        ),
{
}

/// Once it has left the cache, a refresh is the fetch with the guard around each step.
pub proof fn law_refresh_goes_on_as_the_fetch(
    m: ManagerView,
    pending: ActionView,
    event: EventView,
)
    requires
        !(pending is LoadCache),
        !(pending is Finished),
    ensures
        next_step(m, pending, event) == guarded(next_fetch_step(m, pending, event)),
{
}

/// A token that was found is the one that the next request carries, to the place that the token was
/// needed for and with the version of the session where that is asked for.
pub proof fn law_found_token_is_sent(m: ManagerView, base_url: Seq<char>, token: Seq<char>)
    ensures
        next_fetch_step(
            m,
            ActionView::ResolveToken { needed_for: TokenUse::Copilot, base_url },
            EventView::Token(Ok(Some(token))),
        ) == (
            m,
            ActionView::GetCopilotModels {
                url: listing_url(base_url),
                bearer: token,
                client_version: m.client_version,
            },
        ),
        next_fetch_step(
            m,
            ActionView::ResolveToken { needed_for: TokenUse::ProviderListing, base_url },
            EventView::Token(Ok(Some(token))),
        ) == (
            m,
            ActionView::GetProviderModels { url: listing_url(base_url), token: Some(token) },
        ),
        next_fetch_step(
            m,
            ActionView::ResolveToken { needed_for: TokenUse::ModelsApi, base_url },
            EventView::Token(Ok(Some(token))),
        ) == (
            m,
            ActionView::ListApiModels {
                base_url,
                token: Some(token),
                client_version: m.client_version,
            },
        ),
{
}

/// Where there is no token, the request goes without one, but for GitHub Copilot: its catalog and
/// ETag are dropped, and the fetch ends well. So it does where the variable with its token is
/// missing; any other failure to find a token ends the fetch.
pub proof fn law_missing_token(
    m: ManagerView,
    base_url: Seq<char>,
    variable: Seq<char>,
    needed_for: TokenUse,
    e: CodexErrView,
)
    ensures
        next_fetch_step(
            m,
            ActionView::ResolveToken { needed_for: TokenUse::ProviderListing, base_url },
            EventView::Token(Ok(None)),
        ) == (m, ActionView::GetProviderModels { url: listing_url(base_url), token: None }),
        next_fetch_step(
            m,
            ActionView::ResolveToken { needed_for: TokenUse::ModelsApi, base_url },
            EventView::Token(Ok(None)),
        ) == (
            m,
            ActionView::ListApiModels { base_url, token: None, client_version: m.client_version },
        ),
        m.provider.github_copilot ==> next_fetch_step(
            m,
            ActionView::ResolveToken { needed_for: TokenUse::Copilot, base_url },
            EventView::Token(Ok(None)),
        ) == (
            ManagerView { remote_models: Seq::empty(), etag: None, ..m },
            ActionView::Finished(Ok(())),
        ),
        m.provider.github_copilot ==> next_fetch_step(
            m,
            ActionView::ResolveToken { needed_for: TokenUse::Copilot, base_url },
            EventView::Token(Err(CodexErrView::EnvVar(variable))),
        ) == (
            ManagerView { remote_models: Seq::empty(), etag: None, ..m },
            ActionView::Finished(Ok(())),
        ),
        needed_for != TokenUse::Copilot || !(e is EnvVar) ==> next_fetch_step(
            m,
            ActionView::ResolveToken { needed_for, base_url },
            EventView::Token(Err(e)),
        ) == (m, ActionView::Finished(Err(e))),
{
}

/// The listing of GitHub Copilot, or of an OpenAI-compatible provider, becomes the catalog; where it
/// cannot be read, the fetch ends with the reason.
pub proof fn law_listing_becomes_the_catalog(
    m: ManagerView,
    url: Seq<char>,
    bearer: Seq<char>,
    token: Option<Seq<char>>,
    client_version: Seq<char>,
    reply: ReplyView<Seq<CompatView>>,
)
    ensures
        next_fetch_step(
            m,
            ActionView::GetCopilotModels { url, bearer, client_version },
            EventView::CompatReply(reply),
        ) == match reading(reply, "failed to fetch models from "@ + "github-copilot"@ + " provider"@) {
            Ok((entries, etag)) => taken_in(
                m,
                provider_entries(compat_ids(entries), m.bundled_models, m.fallback_metadata),
                etag,
            ),
            Err(e) => (m, ActionView::Finished(Err(e))),
        },
        next_fetch_step(
            m,
            ActionView::GetProviderModels { url, token },
            EventView::CompatReply(reply),
        ) == match reading(
            reply,
            "failed to fetch models from "@ + "openai-compatible-provider"@ + " provider"@,
        ) {
            Ok((entries, etag)) => taken_in(
                m,
                provider_entries(compat_ids(entries), m.bundled_models, m.fallback_metadata),
                etag,
            ),
            Err(e) => (m, ActionView::Finished(Err(e))),
        },
{
}

/// The listing of a local server becomes the catalog; where it cannot be read, Ollama's own listing
/// is asked for, and where that fails too, both reasons are told.
pub proof fn law_local_server_has_two_listings(
    m: ManagerView,
    url: Seq<char>,
    base_url: Seq<char>,
    primary: CodexErrView,
    reply: ReplyView<Seq<CompatView>>,
    tags: ReplyView<Seq<TagsView>>,
)
    ensures
        next_fetch_step(
            m,
            ActionView::GetLocalModels { url, base_url },
            EventView::CompatReply(reply),
        ) == match reading(reply, "failed to fetch models from "@ + "local-oss"@ + " provider"@) {
            Ok((entries, etag)) => taken_in(
                m,
                provider_entries(compat_ids(entries), m.bundled_models, m.fallback_metadata),
                etag,
            ),
            Err(e) => (m, ActionView::GetOllamaTags { url: tags_url(base_url), primary: e }),
        },
        next_fetch_step(
            m,
            ActionView::GetOllamaTags { url, primary },
            EventView::TagsReply(tags),
        ) == match reading(tags, "failed to fetch models from ollama /api/tags"@) {
            Ok((entries, etag)) => taken_in(
                m,
                provider_entries(tags_ids(entries), m.bundled_models, m.fallback_metadata),
                etag,
            ),
            Err(e) => (
                m,
                ActionView::Finished(
                    Err(CodexErrView::Stream(both_failed(message_of(primary), message_of(e)))),
                ),
            ),
        },
{
}

/// The models that the models.dev catalog lists for the configured provider become the catalog;
/// where it cannot be read, or does not list the provider, the provider's own listing is next.
pub proof fn law_models_dev_goes_before_the_provider(
    m: ManagerView,
    url: Seq<char>,
    base_url: Seq<char>,
    reply: ReplyView<Seq<(Seq<char>, DevProviderView)>>,
)
    ensures
        next_fetch_step(
            m,
            ActionView::GetModelsDevCatalog { url, base_url },
            EventView::CatalogReply(reply),
        ) == match reading(reply, "failed to fetch models.dev catalog from "@ + url) {
            Ok((catalog, etag)) => match selected_provider(
                catalog,
                provider_aliases(m),
                catalog_hosts(catalog),
                host_of_opt(m.provider.base_url),
            ) {
                Some(i) => taken_in(
                    m,
                    dev_entries(catalog[i].1, m.bundled_models, m.fallback_metadata),
                    etag,
                ),
                None => (
                    m,
                    ActionView::ResolveToken { needed_for: TokenUse::ProviderListing, base_url },
                ),
            },
            Err(_) => (
                m,
                ActionView::ResolveToken { needed_for: TokenUse::ProviderListing, base_url },
            ),
        },
{
}

/// What OpenAI's models API lists is put in the catalog as it is; once the cache entry is written,
/// the fetch has ended well.
pub proof fn law_models_api_and_cache_end_the_fetch(
    m: ManagerView,
    base_url: Seq<char>,
    token: Option<Seq<char>>,
    client_version: Seq<char>,
    models: Seq<ModelInfoView>,
    etag: Option<Seq<char>>,
    provider_scope: Seq<char>,
    e: CodexErrView,
)
    ensures
        next_fetch_step(
            m,
            ActionView::ListApiModels { base_url, token, client_version },
            EventView::ApiModels(Ok((models, etag))),
        ) == taken_in(m, models, etag),
        next_fetch_step(
            m,
            ActionView::ListApiModels { base_url, token, client_version },
            EventView::ApiModels(Err(e)),
        ) == (m, ActionView::Finished(Err(e))),
        next_fetch_step(
            m,
            ActionView::PersistCache { models, etag, client_version, provider_scope },
            EventView::CachePersisted,
        ) == (m, ActionView::Finished(Ok(()))),
{
}

/// A local server that is asked and answers gives its models, whoever is signed in: from the first
/// step to the last, with nothing of the bundled catalog beside them.
pub proof fn law_local_refresh_run(
    m: ManagerView,
    base_url: Seq<char>,
    entries: Seq<CompatView>,
    etag: Option<Seq<char>>,
    status: u16,
    body: Seq<char>,
)
    requires
        m.catalog_mode == CatalogMode::Default,
        m.provider.local_oss,
        !m.provider.github_copilot,
        m.api_base_url == Ok::<Seq<char>, CodexErrView>(base_url),
        status / 100 == 2,
    ensures
        refreshed(
            m,
            RefreshStrategy::Online,
            seq![
                EventView::CompatReply(
                    ReplyView::Answered { status, etag, body, payload: Ok(entries) },
                ),
                EventView::CachePersisted,
            ],
        ) == (
            ManagerView {
                remote_models: provider_entries(
                    compat_ids(entries),
                    m.bundled_models,
                    m.fallback_metadata,
                ),
                etag,
                ..m
            },
            ActionView::Finished(Ok(())),
        ),
{
    let reply = EventView::CompatReply(
        ReplyView::Answered { status, etag, body, payload: Ok(entries) },
    );
    let both = seq![reply, EventView::CachePersisted];
    let (start, first) = refresh_started(m, RefreshStrategy::Online);
    assert(both.drop_last() =~= seq![reply]);
    assert(seq![reply].drop_last() =~= Seq::empty());
    assert(after_events(start, first, seq![reply].drop_last()) == (start, first));
    assert(after_events(start, first, both.drop_last()) == next_step(start, first, reply));
}

/// Actions are seen with all that they hold.
pub proof fn law_action_view(action: RefreshAction)
    ensures
        match (action, action@) {
            (
                RefreshAction::LoadCache { fetch_on_miss },
                ActionView::LoadCache { fetch_on_miss: seen },
            ) => fetch_on_miss == seen,
            (
                RefreshAction::ResolveToken { needed_for, base_url },
                ActionView::ResolveToken { needed_for: seen_use, base_url: seen_url },
            ) => needed_for == seen_use && base_url@ == seen_url,
            (
                RefreshAction::GetCopilotModels { url, bearer, client_version },
                ActionView::GetCopilotModels { url: u, bearer: b, client_version: v },
            ) => url@ == u && bearer@ == b && client_version@ == v,
            (
                RefreshAction::GetLocalModels { url, base_url },
                ActionView::GetLocalModels { url: u, base_url: b },
            ) => url@ == u && base_url@ == b,
            (
                RefreshAction::GetOllamaTags { url, primary },
                ActionView::GetOllamaTags { url: u, primary: p },
            ) => url@ == u && primary@ == p,
            (
                RefreshAction::GetModelsDevCatalog { url, base_url },
                ActionView::GetModelsDevCatalog { url: u, base_url: b },
            ) => url@ == u && base_url@ == b,
            (
                RefreshAction::GetProviderModels { url, token },
                ActionView::GetProviderModels { url: u, token: t },
            ) => url@ == u && opt_text(token) == t,
            (
                RefreshAction::ListApiModels { base_url, token, client_version },
                ActionView::ListApiModels { base_url: b, token: t, client_version: v },
            ) => base_url@ == b && opt_text(token) == t && client_version@ == v,
            (
                RefreshAction::PersistCache { models, etag, client_version, provider_scope },
                ActionView::PersistCache {
                    models: ms,
                    etag: t,
                    client_version: v,
                    provider_scope: s,
                },
            ) => infos(models@) == ms && opt_text(etag) == t && client_version@ == v
                && provider_scope@ == s,
            (RefreshAction::Finished(Ok(_)), ActionView::Finished(Ok(_))) => true,
            (RefreshAction::Finished(Err(e)), ActionView::Finished(Err(seen))) => e@ == seen,
            _ => false,
        },
{
}

/// Events are seen with all that they hold.
pub proof fn law_event_view(event: RefreshEvent)
    ensures
        match (event, event@) {
            (
                RefreshEvent::CacheRead { entry: Some(c), now },
                EventView::CacheRead { entry: Some(seen), now: n },
            ) => c@ == seen && now == n,
            (
                RefreshEvent::CacheRead { entry: None, now },
                EventView::CacheRead { entry: None, now: n },
            ) => now == n,
            (RefreshEvent::Token(Ok(t)), EventView::Token(Ok(seen))) => opt_text(t) == seen,
            (RefreshEvent::Token(Err(e)), EventView::Token(Err(seen))) => e@ == seen,
            (RefreshEvent::CompatReply(r), EventView::CompatReply(seen)) => seen == reply_view(
                r,
                |p: Vec<OpenAiCompatModel>| compat_entries(p@),
            ),
            (RefreshEvent::TagsReply(r), EventView::TagsReply(seen)) => seen == reply_view(
                r,
                |p: Vec<OllamaTagsModel>| tags_entries(p@),
            ),
            (RefreshEvent::CatalogReply(r), EventView::CatalogReply(seen)) => seen == reply_view(
                r,
                |p: Vec<ModelsDevEntry>| dev_catalog(p@),
            ),
            (
                RefreshEvent::ApiModels(Ok((models, etag))),
                EventView::ApiModels(Ok((seen, tag))),
            ) => infos(models@) == seen && opt_text(etag) == tag,
            (RefreshEvent::ApiModels(Err(e)), EventView::ApiModels(Err(seen))) => e@ == seen,
            (RefreshEvent::CachePersisted, EventView::CachePersisted) => true,
            _ => false,
        },
{
}

/// An answer with the ETag of the active catalog starts no refresh. One with any other ETag, or any
/// at all where the catalog has none, starts an online one.
pub proof fn law_new_etag_refreshes(m: ManagerView, known: Seq<char>, etag: Seq<char>)
    ensures
        m.etag == Some(known) && known == etag ==> after_etag(m, etag) is None,
        m.etag == Some(known) && known != etag ==> after_etag(m, etag) == Some(
            refresh_started(m, RefreshStrategy::Online),
        ),
        m.etag is None ==> after_etag(m, etag) == Some(refresh_started(m, RefreshStrategy::Online)),
{
}

/// An event that does not answer the pending work of a fetch changes nothing.
pub proof fn law_stray_events_are_ignored(m: ManagerView, pending: ActionView, event: EventView)
    requires
        pending is LoadCache || !answers(pending, event),
    ensures
        next_fetch_step(m, pending, event) == (m, pending),
{
}

} // verus!

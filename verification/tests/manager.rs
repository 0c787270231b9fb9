use codex_models::cache::CachedModels;
use codex_models::exchange::listing_headers;
use codex_models::exchange::Reply;
use codex_models::manager::AuthMode;
use codex_models::manager::CodexErr;
use codex_models::manager::CollaborationModesConfig;
use codex_models::manager::ModelProviderInfo;
use codex_models::manager::ModelsManager;
use codex_models::manager::RefreshStrategy;
use codex_models::model::ModelInfo;
use codex_models::model::ModelPreset;
use codex_models::model::ModelVisibility;
use codex_models::model::ReasoningLevel;
use codex_models::model::TruncationPolicy;
use codex_models::refresh::EtagAction;
use codex_models::refresh::RefreshAction;
use codex_models::refresh::RefreshEvent;
use codex_models::session::Surroundings;
use codex_models::wire::ModelsDevEntry;
use codex_models::wire::ModelsDevModel;
use codex_models::wire::ModelsDevModelEntry;
use codex_models::wire::ModelsDevProvider;
use codex_models::wire::OllamaTagsModel;
use codex_models::wire::OpenAiCompatModel;

const CLIENT_VERSION: &str = "0.1.0";

fn remote_model(slug: &str, display: &str, priority: i32) -> ModelInfo {
    remote_model_with_visibility(slug, display, priority, ModelVisibility::List)
}

fn remote_model_with_visibility(
    slug: &str,
    display: &str,
    priority: i32,
    visibility: ModelVisibility,
) -> ModelInfo {
    ModelInfo {
        slug: slug.to_string(),
        display_name: display.to_string(),
        description: Some(format!("{display} desc")),
        default_reasoning_level: Some("medium".to_string()),
        supported_reasoning_levels: vec![
            ReasoningLevel { effort: "low".to_string(), description: "low".to_string() },
            ReasoningLevel { effort: "medium".to_string(), description: "medium".to_string() },
        ],
        shell_type: "shell_command".to_string(),
        visibility,
        supported_in_api: true,
        priority,
        upgrade: None,
        base_instructions: "base instructions".to_string(),
        supports_reasoning_summaries: false,
        support_verbosity: false,
        default_verbosity: None,
        apply_patch_tool_type: None,
        truncation_policy: TruncationPolicy { mode: "bytes".to_string(), limit: 10_000 },
        supports_parallel_tool_calls: false,
        supports_image_detail_original: false,
        context_window: Some(272_000),
        experimental_supported_tools: vec![],
        used_fallback_model_metadata: false,
    }
}

fn bundled() -> Vec<ModelInfo> {
    vec![
        remote_model("gpt-5.1-codex", "GPT-5.1 Codex", 1),
        remote_model("gpt-5-codex", "GPT-5 Codex", 2),
        remote_model("gpt-5", "GPT-5", 3),
    ]
}

fn fallback() -> ModelInfo {
    let mut info = remote_model("", "", 99);
    info.used_fallback_model_metadata = true;
    info
}

fn surroundings(auth_mode: Option<AuthMode>, base_url: &str) -> Surroundings {
    Surroundings {
        bundled_models: bundled(),
        fallback_metadata: fallback(),
        auth_mode,
        api_base_url: Ok(base_url.to_string()),
        client_version: CLIENT_VERSION.to_string(),
        models_dev_api_url: None,
    }
}

fn assert_models_contain(actual: &[ModelInfo], expected: &[ModelInfo]) {
    for model in expected {
        assert!(
            actual.iter().any(|candidate| candidate.slug == model.slug),
            "expected model {} in cached list",
            model.slug
        );
    }
}

fn provider_for(base_url: String) -> ModelProviderInfo {
    ModelProviderInfo {
        name: "OpenAI".into(),
        base_url: Some(base_url),
        github_copilot: false,
        local_oss: false,
        openai: true,
        azure_responses_wire: false,
    }
}

fn copilot_provider(base_url: &str) -> ModelProviderInfo {
    ModelProviderInfo {
        name: "GitHub Copilot".into(),
        base_url: Some(base_url.to_string()),
        github_copilot: true,
        local_oss: false,
        openai: false,
        azure_responses_wire: false,
    }
}

fn oss_provider(base_url: &str) -> ModelProviderInfo {
    ModelProviderInfo {
        name: "gpt-oss".into(),
        base_url: Some(base_url.to_string()),
        github_copilot: false,
        local_oss: true,
        openai: false,
        azure_responses_wire: false,
    }
}

fn other_provider(name: &str, base_url: &str) -> ModelProviderInfo {
    ModelProviderInfo {
        name: name.to_string(),
        base_url: Some(base_url.to_string()),
        github_copilot: false,
        local_oss: false,
        openai: false,
        azure_responses_wire: false,
    }
}

/// The work outside the library, with what comes of it fixed by each test.
struct World {
    now: i64,
    cache: Option<CachedModels>,
    token: Option<String>,
    token_error: Option<CodexErr>,
    compat: fn(&str) -> Reply<Vec<OpenAiCompatModel>>,
    tags: fn(&str) -> Reply<Vec<OllamaTagsModel>>,
    catalog: fn(&str) -> Reply<Vec<ModelsDevEntry>>,
    api: Vec<ModelInfo>,
    requests: Vec<String>,
}

fn world() -> World {
    World {
        now: 1_000_000,
        cache: None,
        token: None,
        token_error: None,
        compat: |_| Reply::Failed("connection refused".to_string()),
        tags: |_| Reply::Failed("connection refused".to_string()),
        catalog: |_| Reply::Failed("connection refused".to_string()),
        api: vec![],
        requests: vec![],
    }
}

fn copy_of(entry: &CachedModels) -> CachedModels {
    CachedModels {
        fetched_at: entry.fetched_at,
        etag: entry.etag.clone(),
        client_version: entry.client_version.clone(),
        provider_scope: entry.provider_scope.clone(),
        models: entry.models.clone(),
    }
}

fn finish(
    manager: &mut ModelsManager,
    world: &mut World,
    first: RefreshAction,
) -> Result<(), CodexErr> {
    let mut action = first;
    loop {
        let event = match &action {
            RefreshAction::Finished(_) => break,
            RefreshAction::LoadCache { .. } => RefreshEvent::CacheRead {
                entry: world.cache.as_ref().map(copy_of),
                now: world.now,
            },
            RefreshAction::ResolveToken { .. } => {
                RefreshEvent::Token(match world.token_error.clone() {
                    Some(err) => Err(err),
                    None => Ok(world.token.clone()),
                })
            }
            RefreshAction::GetCopilotModels { url, bearer, client_version } => {
                assert_eq!(client_version, CLIENT_VERSION);
                assert_eq!(bearer, "copilot-test-token");
                world.requests.push(url.clone());
                RefreshEvent::CompatReply((world.compat)(url))
            }
            RefreshAction::GetLocalModels { url, .. } => {
                world.requests.push(url.clone());
                RefreshEvent::CompatReply((world.compat)(url))
            }
            RefreshAction::GetProviderModels { url, .. } => {
                world.requests.push(url.clone());
                RefreshEvent::CompatReply((world.compat)(url))
            }
            RefreshAction::GetOllamaTags { url, .. } => {
                world.requests.push(url.clone());
                RefreshEvent::TagsReply((world.tags)(url))
            }
            RefreshAction::GetModelsDevCatalog { url, .. } => {
                world.requests.push(url.clone());
                RefreshEvent::CatalogReply((world.catalog)(url))
            }
            RefreshAction::ListApiModels { base_url, client_version, .. } => {
                assert_eq!(base_url, "http://models.test");
                assert_eq!(client_version, CLIENT_VERSION);
                world.requests.push("api".to_string());
                RefreshEvent::ApiModels(Ok((world.api.clone(), Some("tag-1".to_string()))))
            }
            RefreshAction::PersistCache { models, etag, client_version, provider_scope } => {
                world.cache = Some(CachedModels {
                    fetched_at: world.now,
                    etag: etag.clone(),
                    client_version: Some(client_version.clone()),
                    provider_scope: Some(provider_scope.clone()),
                    models: models.clone(),
                });
                RefreshEvent::CachePersisted
            }
        };
        action = manager.resume_refresh(action, event);
    }
    match action {
        RefreshAction::Finished(r) => r,
        _ => unreachable!(),
    }
}

fn refresh(
    manager: &mut ModelsManager,
    world: &mut World,
    strategy: RefreshStrategy,
) -> Result<(), CodexErr> {
    let first = manager.refresh_available_models(strategy);
    finish(manager, world, first)
}

fn compat(id: &str) -> OpenAiCompatModel {
    OpenAiCompatModel {
        id: id.to_string(),
        model_picker_enabled: None,
        supported_endpoints: vec![],
    }
}

fn compat_with(id: &str, enabled: Option<bool>, endpoints: &[&str]) -> OpenAiCompatModel {
    OpenAiCompatModel {
        id: id.to_string(),
        model_picker_enabled: enabled,
        supported_endpoints: endpoints.iter().map(|e| e.to_string()).collect(),
    }
}

fn answered<P>(payload: P) -> Reply<P> {
    Reply::Answered { status: 200, etag: None, body: String::new(), payload: Ok(payload) }
}

fn refused<P>(status: u16, body: &str) -> Reply<P> {
    Reply::Answered {
        status,
        etag: None,
        body: body.to_string(),
        payload: Err("no payload".to_string()),
    }
}

fn lists(available: &[ModelPreset], model: &str) -> bool {
    available.iter().any(|preset| preset.model == model)
}

fn lists_bundled(available: &[ModelPreset]) -> bool {
    available.iter().any(|preset| preset.model.starts_with("gpt-"))
}

fn api_key_manager(catalog: Option<Vec<ModelInfo>>) -> ModelsManager {
    ModelsManager::new(
        surroundings(Some(AuthMode::ApiKey), "https://api.openai.com/v1"),
        catalog,
        CollaborationModesConfig { default_mode_request_user_input: false },
        provider_for("https://api.openai.com/v1".to_string()),
    )
}

fn chatgpt_manager() -> ModelsManager {
    ModelsManager::with_provider_for_tests(
        surroundings(Some(AuthMode::Chatgpt), "http://models.test"),
        provider_for("http://models.test".to_string()),
    )
}

fn copilot_manager() -> ModelsManager {
    ModelsManager::with_provider_for_tests(
        surroundings(Some(AuthMode::ApiKey), "http://copilot.test"),
        copilot_provider("http://copilot.test"),
    )
}

fn copilot_world(listing: fn(&str) -> Reply<Vec<OpenAiCompatModel>>) -> World {
    World { token: Some("copilot-test-token".to_string()), compat: listing, ..world() }
}

fn tracks_fallback_usage() {
    let manager = api_key_manager(None);
    let known_slug = manager.get_remote_models()[0].slug.clone();

    let known = manager.get_model_info(known_slug.as_str(), |info| info);
    assert!(!known.used_fallback_model_metadata);
    assert_eq!(known.slug, known_slug);

    let unknown = manager.get_model_info("model-that-does-not-exist", |info| info);
    assert!(unknown.used_fallback_model_metadata);
    assert_eq!(unknown.slug, "model-that-does-not-exist");
}

#[test]
fn manager_get_model_info_tracks_fallback_usage() {
    tracks_fallback_usage();
}

#[test]
fn manager_tests_get_model_info_tracks_fallback_usage() {
    tracks_fallback_usage();
}

fn uses_custom_catalog() {
    let mut overlay = remote_model("gpt-overlay", "Overlay", 0);
    overlay.supports_image_detail_original = true;
    let manager = api_key_manager(Some(vec![overlay]));

    let model_info = manager.get_model_info("gpt-overlay-experiment", |info| info);

    assert_eq!(model_info.slug, "gpt-overlay-experiment");
    assert_eq!(model_info.display_name, "Overlay");
    assert_eq!(model_info.context_window, Some(272_000));
    assert!(model_info.supports_image_detail_original);
    assert!(!model_info.supports_parallel_tool_calls);
    assert!(!model_info.used_fallback_model_metadata);
}

#[test]
fn manager_get_model_info_uses_custom_catalog() {
    uses_custom_catalog();
}

#[test]
fn manager_tests_get_model_info_uses_custom_catalog() {
    uses_custom_catalog();
}

fn matches_namespaced_suffix() {
    let mut remote = remote_model("gpt-image", "Image", 0);
    remote.supports_image_detail_original = true;
    let manager = api_key_manager(Some(vec![remote]));
    let namespaced_model = "custom/gpt-image".to_string();

    let model_info = manager.get_model_info(&namespaced_model, |info| info);

    assert_eq!(model_info.slug, namespaced_model);
    assert!(model_info.supports_image_detail_original);
    assert!(!model_info.used_fallback_model_metadata);
}

#[test]
fn manager_get_model_info_matches_namespaced_suffix() {
    matches_namespaced_suffix();
}

#[test]
fn manager_tests_get_model_info_matches_namespaced_suffix() {
    matches_namespaced_suffix();
}

fn rejects_multi_segment_namespace_suffix_matching() {
    let manager = api_key_manager(None);
    let known_slug = manager.get_remote_models()[0].slug.clone();
    let namespaced_model = format!("ns1/ns2/{known_slug}");

    let model_info = manager.get_model_info(&namespaced_model, |info| info);

    assert_eq!(model_info.slug, namespaced_model);
    assert!(model_info.used_fallback_model_metadata);
}

#[test]
fn manager_get_model_info_rejects_multi_segment_namespace_suffix_matching() {
    rejects_multi_segment_namespace_suffix_matching();
}

#[test]
fn manager_tests_get_model_info_rejects_multi_segment_namespace_suffix_matching() {
    rejects_multi_segment_namespace_suffix_matching();
}

#[test]
fn namespace_needs_a_word() {
    let manager = api_key_manager(Some(vec![remote_model("gpt-image", "Image", 0)]));
    assert!(manager.get_model_info("/gpt-image", |info| info).used_fallback_model_metadata);
    assert!(manager.get_model_info("my-ns/gpt-image", |info| info).used_fallback_model_metadata);
    assert!(!manager.get_model_info("my_ns1/gpt-image", |info| info).used_fallback_model_metadata);
}

#[test]
fn overrides_apply_to_the_metadata_found() {
    let manager = api_key_manager(None);
    let info = manager.get_model_info("gpt-5-codex", |mut info| {
        info.context_window = Some(1);
        info
    });
    assert_eq!(info.context_window, Some(1));
    assert_eq!(info.display_name, "GPT-5 Codex");
}

fn sorts_by_priority() {
    let remote_models =
        vec![remote_model("priority-low", "Low", 1), remote_model("priority-high", "High", 0)];
    let mut manager = chatgpt_manager();
    let mut world = World { api: remote_models.clone(), ..world() };

    refresh(&mut manager, &mut world, RefreshStrategy::OnlineIfUncached).expect("refresh succeeds");
    assert_models_contain(&manager.get_remote_models(), &remote_models);

    refresh(&mut manager, &mut world, RefreshStrategy::OnlineIfUncached).expect("refresh succeeds");
    let available = manager.list_models();
    let high_idx = available
        .iter()
        .position(|model| model.model == "priority-high")
        .expect("priority-high should be listed");
    let low_idx = available
        .iter()
        .position(|model| model.model == "priority-low")
        .expect("priority-low should be listed");
    assert!(high_idx < low_idx, "higher priority should be listed before lower priority");
    assert_eq!(world.requests.len(), 1, "expected a single /models request");
}

#[test]
fn manager_refresh_available_models_sorts_by_priority() {
    sorts_by_priority();
}

#[test]
fn manager_tests_refresh_available_models_sorts_by_priority() {
    sorts_by_priority();
}

fn uses_cache_when_fresh() {
    let remote_models = vec![remote_model("cached", "Cached", 5)];
    let mut manager = chatgpt_manager();
    let mut world = World { api: remote_models.clone(), ..world() };

    refresh(&mut manager, &mut world, RefreshStrategy::OnlineIfUncached)
        .expect("first refresh succeeds");
    assert_models_contain(&manager.get_remote_models(), &remote_models);

    refresh(&mut manager, &mut world, RefreshStrategy::OnlineIfUncached)
        .expect("cached refresh succeeds");
    assert_models_contain(&manager.get_remote_models(), &remote_models);
    assert_eq!(world.requests.len(), 1, "cache hit should avoid a second /models request");
}

#[test]
fn manager_refresh_available_models_uses_cache_when_fresh() {
    uses_cache_when_fresh();
}

#[test]
fn manager_tests_refresh_available_models_uses_cache_when_fresh() {
    uses_cache_when_fresh();
}

fn refetches_when_cache_stale() {
    let mut manager = chatgpt_manager();
    let mut world = World { api: vec![remote_model("stale", "Stale", 1)], ..world() };
    refresh(&mut manager, &mut world, RefreshStrategy::OnlineIfUncached)
        .expect("initial refresh succeeds");
    assert_eq!(world.requests.len(), 1, "initial refresh should only hit /models once");

    world.now += 3600;
    let updated_models = vec![remote_model("fresh", "Fresh", 9)];
    world.api = updated_models.clone();
    refresh(&mut manager, &mut world, RefreshStrategy::OnlineIfUncached)
        .expect("second refresh succeeds");
    assert_models_contain(&manager.get_remote_models(), &updated_models);
    assert_eq!(world.requests.len(), 2, "stale cache refresh should fetch /models once");
}

#[test]
fn manager_refresh_available_models_refetches_when_cache_stale() {
    refetches_when_cache_stale();
}

#[test]
fn manager_tests_refresh_available_models_refetches_when_cache_stale() {
    refetches_when_cache_stale();
}

fn refetches_when_version_mismatch() {
    let mut manager = chatgpt_manager();
    let mut world = World { api: vec![remote_model("old", "Old", 1)], ..world() };
    refresh(&mut manager, &mut world, RefreshStrategy::OnlineIfUncached)
        .expect("initial refresh succeeds");
    assert_eq!(world.requests.len(), 1, "initial refresh should only hit /models once");

    world.cache.as_mut().expect("cache entry").client_version =
        Some(format!("{CLIENT_VERSION}-mismatch"));
    let updated_models = vec![remote_model("new", "New", 2)];
    world.api = updated_models.clone();
    refresh(&mut manager, &mut world, RefreshStrategy::OnlineIfUncached)
        .expect("second refresh succeeds");
    assert_models_contain(&manager.get_remote_models(), &updated_models);
    assert_eq!(world.requests.len(), 2, "version mismatch should fetch /models once");
}

#[test]
fn manager_refresh_available_models_refetches_when_version_mismatch() {
    refetches_when_version_mismatch();
}

#[test]
fn manager_tests_refresh_available_models_refetches_when_version_mismatch() {
    refetches_when_version_mismatch();
}

fn drops_removed_remote_models() {
    let mut manager = chatgpt_manager();
    manager.cache_ttl = 0;
    let mut world = World { api: vec![remote_model("remote-old", "Remote Old", 1)], ..world() };
    refresh(&mut manager, &mut world, RefreshStrategy::OnlineIfUncached)
        .expect("initial refresh succeeds");
    assert_eq!(world.requests.len(), 1, "initial refresh should only hit /models once");

    world.api = vec![remote_model("remote-new", "Remote New", 1)];
    refresh(&mut manager, &mut world, RefreshStrategy::OnlineIfUncached)
        .expect("second refresh succeeds");

    let available = manager.try_list_models();
    assert!(lists(&available, "remote-new"), "new remote model should be listed");
    assert!(!lists(&available, "remote-old"), "removed remote model should not be listed");
    assert_eq!(world.requests.len(), 2, "second refresh should only hit /models once");
}

#[test]
fn manager_refresh_available_models_drops_removed_remote_models() {
    drops_removed_remote_models();
}

#[test]
fn manager_tests_refresh_available_models_drops_removed_remote_models() {
    drops_removed_remote_models();
}

fn skips_network_without_chatgpt_auth() {
    let dynamic_slug = "dynamic-model-only-for-test-noauth";
    let mut manager = ModelsManager::with_provider_for_tests(
        surroundings(None, "http://models.test"),
        provider_for("http://models.test".to_string()),
    );
    let mut world = World { api: vec![remote_model(dynamic_slug, "No Auth", 1)], ..world() };

    refresh(&mut manager, &mut world, RefreshStrategy::Online)
        .expect("refresh should no-op without chatgpt auth");
    assert!(
        !manager.get_remote_models().iter().any(|candidate| candidate.slug == dynamic_slug),
        "remote refresh should be skipped without chatgpt auth"
    );
    assert_eq!(world.requests.len(), 0, "no auth should avoid /models requests");
}

#[test]
fn manager_refresh_available_models_skips_network_without_chatgpt_auth() {
    skips_network_without_chatgpt_auth();
}

#[test]
fn manager_tests_refresh_available_models_skips_network_without_chatgpt_auth() {
    skips_network_without_chatgpt_auth();
}

#[test]
fn refresh_available_models_fetches_for_github_copilot_with_stored_token() {
    let mut manager = copilot_manager();
    let mut world =
        copilot_world(|_| answered(vec![compat("gpt-4.1"), compat("sonnet-3.7")]));

    refresh(&mut manager, &mut world, RefreshStrategy::Online)
        .expect("github copilot refresh should succeed");
    let available = manager.try_list_models();
    assert!(lists(&available, "gpt-4.1"), "expected gpt-4.1 to be listed");
    assert!(lists(&available, "sonnet-3.7"), "expected sonnet-3.7 to be listed");
    assert_eq!(world.requests, vec!["http://copilot.test/models".to_string()]);
}

#[test]
fn refresh_available_models_clears_copilot_catalog_when_token_is_unavailable() {
    let mut manager = copilot_manager();
    let mut world = world();
    refresh(&mut manager, &mut world, RefreshStrategy::OnlineIfUncached)
        .expect("refresh should complete even without token");
    assert!(manager.try_list_models().is_empty());

    let mut manager = copilot_manager();
    manager.etag = Some("old".to_string());
    world.token_error = Some(CodexErr::EnvVar("missing".to_string()));
    refresh(&mut manager, &mut world, RefreshStrategy::OnlineIfUncached)
        .expect("refresh should complete where the variable is missing");
    assert!(manager.try_list_models().is_empty());
    assert_eq!(manager.get_etag(), None);
    assert!(world.requests.is_empty());
}

#[test]
fn copilot_token_failure_ends_the_refresh() {
    let mut manager = copilot_manager();
    manager.etag = Some("old".to_string());
    let mut world =
        World { token_error: Some(CodexErr::Other("broken store".to_string())), ..world() };
    let err = refresh(&mut manager, &mut world, RefreshStrategy::Online).unwrap_err();
    assert_eq!(err, CodexErr::Other("broken store".to_string()));
    assert!(manager.try_list_models().is_empty());
    assert_eq!(manager.get_etag(), Some("old".to_string()));
}

#[test]
fn online_if_uncached_bypasses_cache_for_github_copilot_provider() {
    let stale_cache_slug = "cached-openai-only-model-for-copilot-test";
    let mut manager = ModelsManager::new(
        surroundings(Some(AuthMode::ApiKey), "http://copilot.test"),
        None,
        CollaborationModesConfig { default_mode_request_user_input: false },
        copilot_provider("http://copilot.test"),
    );
    let bundled_slug_not_in_endpoint = bundled()[0].slug.clone();
    let mut world =
        copilot_world(|_| answered(vec![compat("gpt-4.1"), compat("sonnet-3.7")]));
    world.cache = Some(CachedModels {
        fetched_at: world.now,
        etag: None,
        client_version: Some(CLIENT_VERSION.to_string()),
        provider_scope: Some(
            "provider_name=other;base_url=http://other.invalid;auth_mode=None".to_string(),
        ),
        models: vec![remote_model(stale_cache_slug, "Stale", 0)],
    });

    refresh(&mut manager, &mut world, RefreshStrategy::OnlineIfUncached).expect("refresh");
    let available = manager.list_models();
    assert!(lists(&available, "sonnet-3.7"), "expected Copilot model to be fetched online");
    assert!(!lists(&available, stale_cache_slug));
    assert!(!lists(&available, &bundled_slug_not_in_endpoint));
}

#[test]
fn copilot_models_request_omits_openai_intent_header_and_returns_all_families() {
    let mut headers = http::HeaderMap::new();
    headers.insert("openai-intent", http::HeaderValue::from_static("conversation-panel"));
    headers.insert("editor-version", http::HeaderValue::from_static("codex/1"));
    let sent = listing_headers(headers);
    assert!(sent.get("openai-intent").is_none());
    assert_eq!(sent.get("editor-version").unwrap(), "codex/1");

    let mut manager = copilot_manager();
    let mut world = copilot_world(|_| {
        answered(vec![
            compat("gpt-5.3-codex"),
            compat("gpt-5.1"),
            compat("sonnet-4.5"),
            compat("gemini-2.5-pro"),
            compat("gemini-2.5-flash"),
        ])
    });
    refresh(&mut manager, &mut world, RefreshStrategy::Online)
        .expect("copilot refresh should succeed");
    assert_eq!(world.requests.len(), 1, "expected exactly one /models request");

    let available = manager.try_list_models();
    let expected_models =
        ["gpt-5.3-codex", "gpt-5.1", "sonnet-4.5", "gemini-2.5-pro", "gemini-2.5-flash"];
    for expected in &expected_models {
        assert!(lists(&available, expected), "expected {expected} in model picker");
    }
}

#[test]
fn copilot_models_excludes_entries_disabled_for_picker() {
    let mut manager = copilot_manager();
    let mut world = copilot_world(|_| {
        answered(vec![
            compat_with("gpt-5.1", Some(true), &[]),
            compat_with("opus-4.6", Some(false), &[]),
        ])
    });
    refresh(&mut manager, &mut world, RefreshStrategy::Online)
        .expect("copilot refresh should succeed");
    let available = manager.try_list_models();
    assert!(lists(&available, "gpt-5.1"), "expected picker-enabled model to be listed");
    assert!(!lists(&available, "opus-4.6"));
}

fn mixed_endpoints(_: &str) -> Reply<Vec<OpenAiCompatModel>> {
    answered(vec![
        compat_with("gpt-5.3-codex", Some(true), &["/responses"]),
        compat_with("opus-4.6", Some(true), &["/v1/messages", "/chat/completions"]),
    ])
}

#[test]
fn copilot_models_includes_entries_without_responses_endpoint() {
    let mut manager = copilot_manager();
    let mut world = copilot_world(mixed_endpoints);
    refresh(&mut manager, &mut world, RefreshStrategy::Online)
        .expect("copilot refresh should succeed");
    let available = manager.try_list_models();
    assert!(lists(&available, "gpt-5.3-codex"));
    assert!(lists(&available, "opus-4.6"));
}

#[test]
fn responses_models_come_first() {
    let mut manager = copilot_manager();
    let mut world = copilot_world(|_| {
        answered(vec![
            compat_with("chat-a", None, &["/chat/completions"]),
            compat_with("both", None, &["/chat/completions", "/v1/responses/"]),
            compat_with("chat-b", None, &["/v1/messages"]),
            compat_with("open", None, &[]),
        ])
    });
    refresh(&mut manager, &mut world, RefreshStrategy::Online).expect("refresh");
    let order: Vec<String> = manager.list_models().into_iter().map(|p| p.model).collect();
    assert_eq!(order, vec!["both", "open", "chat-a", "chat-b"]);
}

#[test]
fn get_default_model_falls_back_for_unavailable_copilot_model() {
    let mut manager = copilot_manager();
    let mut world = copilot_world(mixed_endpoints);
    let requested = Some("opus-4.6".to_string());
    assert!(manager.default_model_needs_refresh(&requested));
    refresh(&mut manager, &mut world, RefreshStrategy::OnlineIfUncached).expect("refresh");
    assert_eq!(manager.get_default_model(&requested), "opus-4.6");
    assert_eq!(manager.get_default_model(&Some("gpt-9".to_string())), "gpt-5.3-codex");
    assert_eq!(manager.get_default_model(&None), "gpt-5.3-codex");
}

#[test]
fn get_default_model_falls_back_after_initial_models_refresh() {
    let mut manager = copilot_manager();
    let mut world = copilot_world(mixed_endpoints);
    refresh(&mut manager, &mut world, RefreshStrategy::OnlineIfUncached).expect("refresh");
    let _ = manager.list_models();
    refresh(&mut manager, &mut world, RefreshStrategy::OnlineIfUncached).expect("refresh");
    let selected = manager.get_default_model(&Some("opus-4.6".to_string()));
    assert_eq!(selected, "opus-4.6");
    assert_eq!(world.requests.len(), 2);
}

#[test]
fn requested_model_is_kept_without_an_authoritative_provider() {
    let manager = api_key_manager(None);
    assert!(!manager.default_model_needs_refresh(&Some("anything".to_string())));
    assert!(manager.default_model_needs_refresh(&None));
    assert_eq!(manager.get_default_model(&Some("anything".to_string())), "anything");
    assert_eq!(manager.get_default_model(&None), "gpt-5.1-codex");
}

#[test]
fn default_model_of_an_empty_catalog() {
    let mut manager = copilot_manager();
    manager.remote_models = vec![];
    assert_eq!(manager.get_default_model(&None), "");
    assert_eq!(manager.get_default_model(&Some("wanted".to_string())), "wanted");
}

fn picks_default_after_hiding_hidden_models() {
    let manager = ModelsManager::with_provider_for_tests(
        surroundings(Some(AuthMode::ApiKey), "http://example.test"),
        provider_for("http://example.test".to_string()),
    );
    let hidden_model =
        remote_model_with_visibility("hidden", "Hidden", 0, ModelVisibility::Hide);
    let visible_model =
        remote_model_with_visibility("visible", "Visible", 1, ModelVisibility::List);

    let expected_hidden = ModelPreset::from(hidden_model.clone());
    let mut expected_visible = ModelPreset::from(visible_model.clone());
    expected_visible.is_default = true;

    let available = manager.build_available_models(vec![hidden_model, visible_model]);

    assert_eq!(available, vec![expected_hidden, expected_visible]);
}

#[test]
fn manager_build_available_models_picks_default_after_hiding_hidden_models() {
    picks_default_after_hiding_hidden_models();
}

#[test]
fn manager_tests_build_available_models_picks_default_after_hiding_hidden_models() {
    picks_default_after_hiding_hidden_models();
}

#[test]
fn api_key_mode_leaves_out_models_that_the_api_does_not_serve() {
    let mut chat_only = remote_model("chat-only", "Chat only", 0);
    chat_only.supported_in_api = false;
    let served = remote_model("served", "Served", 1);

    let manager = api_key_manager(None);
    let listed = manager.build_available_models(vec![chat_only.clone(), served.clone()]);
    assert!(!lists(&listed, "chat-only"));
    assert!(listed[0].is_default);

    let manager = chatgpt_manager();
    let listed = manager.build_available_models(vec![served, chat_only]);
    let order: Vec<&str> = listed.iter().map(|p| p.model.as_str()).collect();
    assert_eq!(order, vec!["chat-only", "served"]);
}

#[test]
fn models_of_one_priority_keep_their_order() {
    let manager = api_key_manager(None);
    let listed = manager.build_available_models(vec![
        remote_model("b", "B", 1),
        remote_model("a", "A", 1),
        remote_model("c", "C", 0),
    ]);
    let order: Vec<&str> = listed.iter().map(|p| p.model.as_str()).collect();
    assert_eq!(order, vec!["c", "b", "a"]);
    assert_eq!(listed.iter().filter(|p| p.is_default).count(), 1);
}

#[test]
fn without_shown_models_the_first_one_is_the_default() {
    let manager = api_key_manager(None);
    let listed = manager.build_available_models(vec![
        remote_model_with_visibility("x", "X", 1, ModelVisibility::Hide),
        remote_model_with_visibility("y", "Y", 0, ModelVisibility::Hide),
    ]);
    assert_eq!(listed[0].model, "y");
    assert!(listed[0].is_default);
    assert!(!listed[1].is_default);
}

fn oss_manager() -> ModelsManager {
    ModelsManager::with_provider_for_tests(
        surroundings(Some(AuthMode::ApiKey), "http://local.test/v1"),
        oss_provider("http://local.test/v1"),
    )
}

#[test]
fn oss_provider_fetches_models_from_local_server() {
    let mut manager = oss_manager();
    assert!(manager.provider.is_local_oss_provider());
    let mut world = World {
        compat: |_| {
            answered(vec![
                compat("smollm2:135m"),
                compat("llama3.2:latest"),
                compat("qwen2.5-coder:7b"),
            ])
        },
        ..world()
    };
    refresh(&mut manager, &mut world, RefreshStrategy::OnlineIfUncached)
        .expect("OSS refresh should succeed");

    let available = manager.try_list_models();
    let expected = ["smollm2:135m", "llama3.2:latest", "qwen2.5-coder:7b"];
    for model in &expected {
        assert!(lists(&available, model), "expected {model} in picker");
    }
    assert!(!lists_bundled(&available), "bundled GPT models should not appear");
    assert_eq!(world.requests, vec!["http://local.test/v1/models".to_string()]);
}

#[test]
fn oss_provider_falls_back_to_ollama_api_tags() {
    let mut manager = oss_manager();
    let mut world = World {
        compat: |_| refused(404, ""),
        tags: |_| {
            answered(vec![
                OllamaTagsModel { name: "llama3.2:latest".to_string(), model_picker_enabled: None },
                OllamaTagsModel { name: "qwen2.5-coder:7b".to_string(), model_picker_enabled: None },
                OllamaTagsModel { name: "off".to_string(), model_picker_enabled: Some(false) },
            ])
        },
        ..world()
    };
    refresh(&mut manager, &mut world, RefreshStrategy::OnlineIfUncached)
        .expect("OSS refresh should succeed via /api/tags fallback");

    let available = manager.try_list_models();
    assert!(lists(&available, "llama3.2:latest"));
    assert!(lists(&available, "qwen2.5-coder:7b"));
    assert!(!lists(&available, "off"));
    assert!(!lists_bundled(&available));
    assert_eq!(
        world.requests,
        vec![
            "http://local.test/v1/models".to_string(),
            "http://local.test/api/tags".to_string()
        ]
    );
}

fn dev_model(id: &str, name: &str) -> ModelsDevModel {
    ModelsDevModel {
        id: Some(id.to_string()),
        name: Some(name.to_string()),
        status: None,
        model_picker_enabled: None,
        options: vec![],
    }
}

fn dev_provider(
    id: &str,
    name: &str,
    api: Option<&str>,
    models: Vec<ModelsDevModel>,
) -> ModelsDevEntry {
    ModelsDevEntry {
        id: id.to_string(),
        provider: ModelsDevProvider {
            name: name.to_string(),
            api: api.map(str::to_string),
            models: models
                .into_iter()
                .map(|model| ModelsDevModelEntry {
                    key: model.id.clone().unwrap_or_default(),
                    model,
                })
                .collect(),
        },
    }
}

fn ignores_cross_provider_cache_and_uses_models_dev_catalog() {
    let copilot = ModelsManager::with_provider_for_tests(
        surroundings(Some(AuthMode::ApiKey), "https://api.githubcopilot.com"),
        copilot_provider("https://api.githubcopilot.com"),
    );
    let leaked_slug = "copilot-cache-only-model";
    let mut azure = ModelsManager::with_provider_and_models_dev_url_for_tests(
        surroundings(Some(AuthMode::ApiKey), "https://azure.example.com/openai"),
        other_provider("Azure", "https://azure.example.com/openai"),
        "http://models-dev.test/api.json".to_string(),
    );
    let mut world = World {
        catalog: |_| {
            answered(vec![dev_provider(
                "azure",
                "Azure",
                Some("https://azure.example.com/openai"),
                vec![dev_model("azure-model-a", "Azure Model A")],
            )])
        },
        ..world()
    };
    world.cache = Some(CachedModels {
        fetched_at: world.now,
        etag: None,
        client_version: Some(CLIENT_VERSION.to_string()),
        provider_scope: Some(copilot.cache_scope_key()),
        models: vec![remote_model(leaked_slug, "Leaked", 0)],
    });

    refresh(&mut azure, &mut world, RefreshStrategy::OnlineIfUncached).expect("refresh");
    let available = azure.list_models();
    assert!(!lists(&available, leaked_slug));
    assert!(lists(&available, "azure-model-a"));
    assert!(!lists_bundled(&available));
    assert_eq!(available[0].display_name, "Azure Model A");
    assert_eq!(world.requests, vec!["http://models-dev.test/api.json".to_string()]);
}

#[test]
fn manager_non_openai_provider_ignores_cross_provider_cache_and_uses_models_dev_catalog() {
    ignores_cross_provider_cache_and_uses_models_dev_catalog();
}

#[test]
fn manager_tests_non_openai_provider_ignores_cross_provider_cache_and_uses_models_dev_catalog() {
    ignores_cross_provider_cache_and_uses_models_dev_catalog();
}

fn match_uses_base_url_host_when_name_is_custom() {
    let mut manager = ModelsManager::with_provider_and_models_dev_url_for_tests(
        surroundings(Some(AuthMode::ApiKey), "https://api.anthropic.com/v1"),
        other_provider("Internal Anthropic Proxy", "https://api.anthropic.com/v1"),
        "http://models-dev.test/api.json".to_string(),
    );
    let mut world = World {
        catalog: |_| {
            answered(vec![dev_provider(
                "anthropic",
                "Anthropic",
                Some("https://api.anthropic.com/v1"),
                vec![dev_model("host-match", "Host Match")],
            )])
        },
        ..world()
    };
    refresh(&mut manager, &mut world, RefreshStrategy::OnlineIfUncached).expect("refresh");
    assert!(lists(&manager.list_models(), "host-match"));
}

#[test]
fn manager_models_dev_provider_match_uses_base_url_host_when_name_is_custom() {
    match_uses_base_url_host_when_name_is_custom();
}

#[test]
fn manager_tests_models_dev_provider_match_uses_base_url_host_when_name_is_custom() {
    match_uses_base_url_host_when_name_is_custom();
}

#[test]
fn models_dev_provider_match_accepts_azure_openai_alias() {
    let mut manager = ModelsManager::with_provider_and_models_dev_url_for_tests(
        surroundings(Some(AuthMode::ApiKey), "http://127.0.0.1:9/openai"),
        other_provider("Azure OpenAI", "http://127.0.0.1:9/openai"),
        "http://models-dev.test/api.json".to_string(),
    );
    let mut world = World {
        catalog: |_| {
            answered(vec![dev_provider(
                "azure",
                "Azure",
                None,
                vec![dev_model("azure-model-a", "Azure Model A")],
            )])
        },
        ..world()
    };
    refresh(&mut manager, &mut world, RefreshStrategy::OnlineIfUncached).expect("refresh");
    assert!(lists(&manager.list_models(), "azure-model-a"));
}

fn falls_back_to_provider_models_when_models_dev_has_no_match() {
    let mut manager = ModelsManager::with_provider_and_models_dev_url_for_tests(
        surroundings(Some(AuthMode::ApiKey), "http://provider.test/v1"),
        other_provider("Custom Provider", "http://provider.test/v1"),
        "http://models-dev.test/api.json".to_string(),
    );
    let mut world = World {
        token: Some("provider-token".to_string()),
        catalog: |_| {
            answered(vec![dev_provider(
                "unrelated",
                "Unrelated Provider",
                Some("https://unrelated.example.com/v1"),
                vec![],
            )])
        },
        compat: |_| answered(vec![compat("provider-fallback-a"), compat("provider-fallback-b")]),
        ..world()
    };
    refresh(&mut manager, &mut world, RefreshStrategy::OnlineIfUncached).expect("refresh");
    let available = manager.list_models();
    assert!(lists(&available, "provider-fallback-a"));
    assert!(!lists_bundled(&available));
    assert_eq!(
        world.requests,
        vec![
            "http://models-dev.test/api.json".to_string(),
            "http://provider.test/v1/models".to_string()
        ]
    );
}

#[test]
fn manager_non_openai_provider_falls_back_to_provider_models_when_models_dev_has_no_match() {
    falls_back_to_provider_models_when_models_dev_has_no_match();
}

#[test]
fn manager_tests_non_openai_provider_falls_back_to_provider_models_when_models_dev_has_no_match() {
    falls_back_to_provider_models_when_models_dev_has_no_match();
}

#[test]
fn failing_models_dev_catalog_leads_to_the_provider_listing() {
    let mut manager = ModelsManager::with_provider_and_models_dev_url_for_tests(
        surroundings(Some(AuthMode::ApiKey), "http://provider.test/v1/"),
        other_provider("Custom Provider", "http://provider.test/v1/"),
        "http://models-dev.test".to_string(),
    );
    let mut world = World { compat: |_| refused(401, "who are you"), ..world() };
    let err = refresh(&mut manager, &mut world, RefreshStrategy::Online).unwrap_err();
    assert_eq!(
        err,
        CodexErr::Stream(
            "failed to fetch models from openai-compatible-provider provider: 401 Unauthorized; body: who are you"
                .to_string()
        )
    );
    assert!(manager.list_models().is_empty());
    assert_eq!(
        world.requests,
        vec![
            "http://models-dev.test/api.json".to_string(),
            "http://provider.test/v1/models".to_string()
        ]
    );
}

#[test]
fn local_oss_provider_ignores_cache_from_other_provider() {
    let openai = ModelsManager::with_provider_for_tests(
        surroundings(Some(AuthMode::Chatgpt), "https://api.openai.com/v1"),
        provider_for("https://api.openai.com/v1".to_string()),
    );
    let leaked_slug = "openai-cache-only-model";
    let mut manager = oss_manager();
    let mut world =
        World { compat: |_| answered(vec![compat("qwen2.5-coder:7b")]), ..world() };
    world.cache = Some(CachedModels {
        fetched_at: world.now,
        etag: None,
        client_version: Some(CLIENT_VERSION.to_string()),
        provider_scope: Some(openai.cache_scope_key()),
        models: vec![remote_model(leaked_slug, "Leaked", 0)],
    });
    refresh(&mut manager, &mut world, RefreshStrategy::OnlineIfUncached).expect("refresh");
    let available = manager.list_models();
    assert!(!lists(&available, leaked_slug));
    assert!(lists(&available, "qwen2.5-coder:7b"));
}

#[test]
fn local_oss_provider_does_not_fall_back_to_bundled_models_when_fetch_fails() {
    let mut manager = oss_manager();
    let mut world =
        World { compat: |_| refused(500, "a"), tags: |_| refused(500, "b"), ..world() };
    let err = refresh(&mut manager, &mut world, RefreshStrategy::OnlineIfUncached).unwrap_err();
    assert!(manager.list_models().is_empty());
    assert_eq!(world.requests.len(), 2);
    let prefix = "stream disconnected before completion: ";
    assert_eq!(
        err.message(),
        format!(
            "{prefix}failed to fetch local-oss models from /v1/models ({prefix}failed to fetch models from local-oss provider: 500 Internal Server Error; body: a) and /api/tags ({prefix}failed to fetch models from ollama /api/tags: 500 Internal Server Error; body: b)"
        )
    );
}

#[test]
fn refresh_available_models_fetches_github_copilot_catalog_with_api_key_auth() {
    let mut manager = copilot_manager();
    let mut world = copilot_world(|_| {
        answered(vec![compat("copilot-only-model-123"), compat("copilot-only-model-123")])
    });
    refresh(&mut manager, &mut world, RefreshStrategy::OnlineIfUncached).expect("refresh");
    let available = manager.list_models();
    assert!(lists(&available, "copilot-only-model-123"));
    assert_eq!(
        available.iter().filter(|preset| preset.model == "copilot-only-model-123").count(),
        1,
        "duplicate Copilot catalog entries should be deduplicated"
    );
}

#[test]
fn custom_catalog_is_never_refreshed() {
    for strategy in
        [RefreshStrategy::Online, RefreshStrategy::Offline, RefreshStrategy::OnlineIfUncached]
    {
        let mut manager = ModelsManager::new_with_provider(
            surroundings(Some(AuthMode::Chatgpt), "http://copilot.test"),
            Some(vec![remote_model("mine", "Mine", 0)]),
            CollaborationModesConfig { default_mode_request_user_input: false },
            copilot_provider("http://copilot.test"),
        );
        let mut world = copilot_world(mixed_endpoints);
        refresh(&mut manager, &mut world, strategy).expect("refresh");
        assert_eq!(manager.get_remote_models(), vec![remote_model("mine", "Mine", 0)]);
        assert!(world.requests.is_empty());
    }
}

#[test]
fn offline_refresh_reads_the_cache_only() {
    let mut manager = oss_manager();
    let mut world = world();
    refresh(&mut manager, &mut world, RefreshStrategy::Offline).expect("refresh");
    assert!(world.requests.is_empty());
    assert_models_contain(&manager.get_remote_models(), &bundled());

    world.cache = Some(CachedModels {
        fetched_at: world.now - 300,
        etag: Some("e".to_string()),
        client_version: Some(CLIENT_VERSION.to_string()),
        provider_scope: Some(manager.cache_scope_key()),
        models: vec![remote_model("from-cache", "From cache", 0)],
    });
    refresh(&mut manager, &mut world, RefreshStrategy::Offline).expect("refresh");
    assert!(world.requests.is_empty());
    assert_eq!(manager.get_remote_models(), vec![remote_model("from-cache", "From cache", 0)]);
    assert_eq!(manager.get_etag(), Some("e".to_string()));
}

#[test]
fn cache_entry_goes_stale_after_its_lifetime() {
    let entry = CachedModels {
        fetched_at: 1000,
        etag: None,
        client_version: Some("v".to_string()),
        provider_scope: Some("s".to_string()),
        models: vec![],
    };
    assert!(entry.is_fresh(1300, 300));
    assert!(!entry.is_fresh(1301, 300));
    assert!(!entry.is_fresh(1000, 0));
    assert!(entry.may_serve(1000, 300, "v", "s"));
    assert!(!entry.may_serve(1000, 300, "w", "s"));
    assert!(!entry.may_serve(1000, 300, "v", "t"));
}

#[test]
fn cached_catalog_equals_the_fetched_one() {
    let mut writer = chatgpt_manager();
    let mut world = World { api: vec![remote_model("gpt-5", "Newer GPT-5", 0)], ..world() };
    refresh(&mut writer, &mut world, RefreshStrategy::Online).expect("refresh");
    let mut reader = chatgpt_manager();
    refresh(&mut reader, &mut world, RefreshStrategy::OnlineIfUncached).expect("refresh");
    assert_eq!(reader.get_remote_models(), writer.get_remote_models());
    assert_eq!(reader.get_etag(), Some("tag-1".to_string()));
    assert_eq!(world.requests.len(), 1);
    assert_eq!(writer.get_remote_models().len(), bundled().len());
    assert_eq!(writer.get_remote_models()[2].display_name, "Newer GPT-5");
}

#[test]
fn new_etag_leads_to_a_refresh() {
    let mut manager = chatgpt_manager();
    manager.etag = Some("known".to_string());
    assert!(matches!(
        manager.refresh_if_new_etag("known".to_string()),
        EtagAction::RenewCacheTtl
    ));
    let mut world = World { api: vec![remote_model("fresh", "Fresh", 0)], ..world() };
    match manager.refresh_if_new_etag("other".to_string()) {
        EtagAction::Refresh(first) => finish(&mut manager, &mut world, first).expect("refresh"),
        EtagAction::RenewCacheTtl => panic!("the tag is new"),
    }
    assert!(lists(&manager.list_models(), "fresh"));
    assert_eq!(manager.get_etag(), Some("tag-1".to_string()));
}

#[test]
fn missing_base_url_fails_a_fetch() {
    let mut manager = oss_manager();
    manager.api_base_url = Err(CodexErr::Other("no base url".to_string()));
    let mut world = world();
    let err = refresh(&mut manager, &mut world, RefreshStrategy::Online).unwrap_err();
    assert_eq!(err.message(), "no base url");
    assert!(manager.list_models().is_empty());
}

#[test]
fn failed_fetch_keeps_the_catalog_of_openai() {
    let mut manager = chatgpt_manager();
    let before = manager.get_remote_models();
    let mut world = World { token_error: Some(CodexErr::Timeout), ..world() };
    let err = refresh(&mut manager, &mut world, RefreshStrategy::Online).unwrap_err();
    assert_eq!(err, CodexErr::Timeout);
    assert_eq!(manager.get_remote_models(), before);
}

#[test]
fn event_that_does_not_belong_changes_nothing() {
    let mut manager = oss_manager();
    let before = manager.get_remote_models();
    let pending = manager.refresh_available_models(RefreshStrategy::Online);
    let still = manager.resume_refresh(pending, RefreshEvent::CachePersisted);
    assert!(matches!(still, RefreshAction::GetLocalModels { .. }));
    assert_eq!(manager.get_remote_models(), before);
}

#[test]
fn scope_key_names_provider_base_url_and_sign_in() {
    assert_eq!(
        chatgpt_manager().cache_scope_key(),
        "provider_name=OpenAI;base_url=http://models.test;auth_mode=Some(Chatgpt)"
    );
    let mut manager = oss_manager();
    assert_eq!(
        manager.cache_scope_key(),
        "provider_name=gpt-oss;base_url=http://local.test/v1;auth_mode=Some(ApiKey)"
    );
    manager.auth_mode = None;
    manager.api_base_url = Err(CodexErr::Timeout);
    manager.provider.base_url = None;
    assert_eq!(manager.cache_scope_key(), "provider_name=gpt-oss;base_url=;auth_mode=None");
}

#[test]
fn listed_ids_take_bundled_metadata() {
    let manager = copilot_manager();
    let ids = vec!["gpt-5-codex-mini".to_string(), "unknown".to_string()];
    let mapped = manager.map_provider_model_ids(ids);
    assert_eq!(mapped[0].slug, "gpt-5-codex-mini");
    assert_eq!(mapped[0].display_name, "GPT-5 Codex");
    assert_eq!(mapped[0].priority, 0);
    assert_eq!(mapped[1].display_name, "unknown");
    assert_eq!(mapped[1].priority, 1);
    assert!(!mapped[1].used_fallback_model_metadata);
}

#[test]
fn test_models_are_added_once_and_hidden() {
    let mut models = bundled();
    ModelsManager::inject_test_models(&mut models);
    ModelsManager::inject_test_models(&mut models);
    assert_eq!(models.len(), bundled().len() + 3);
    let added = &models[3];
    assert_eq!(added.slug, "test-gpt-5.1-codex");
    assert_eq!(added.description.as_deref(), Some("Test model derived from gpt-5.1-codex."));
    assert_eq!(added.visibility, ModelVisibility::Hide);
    assert_eq!(added.experimental_supported_tools, vec!["grep_files".to_string()]);

    let mut none: Vec<ModelInfo> = vec![];
    ModelsManager::inject_test_models(&mut none);
    assert!(none.is_empty());
}

#[test]
fn offline_answers_come_from_what_is_given() {
    let hidden = remote_model_with_visibility("hidden", "Hidden", 0, ModelVisibility::Hide);
    let mut models = bundled();
    models.push(hidden.clone());
    assert_eq!(ModelsManager::get_model_offline_for_tests(Some("m"), models.clone()), "m");
    assert_eq!(ModelsManager::get_model_offline_for_tests(None, models), "gpt-5.1-codex");
    assert_eq!(ModelsManager::get_model_offline_for_tests(None, vec![hidden]), "hidden");
    assert_eq!(ModelsManager::get_model_offline_for_tests(None, vec![]), "");

    let catalog = Some(bundled());
    let info = ModelsManager::construct_model_info_offline_for_tests(
        "gpt-5",
        &catalog,
        &fallback(),
        |info| info,
    );
    assert_eq!(info.display_name, "GPT-5");
    let info = ModelsManager::construct_model_info_offline_for_tests(
        "gpt-5",
        &None,
        &fallback(),
        |info| info,
    );
    assert!(info.used_fallback_model_metadata);
}

#[test]
fn collaboration_modes_come_from_the_settings() {
    let manager = ModelsManager::new(
        surroundings(None, "http://models.test"),
        None,
        CollaborationModesConfig { default_mode_request_user_input: true },
        provider_for("http://models.test".to_string()),
    );
    let modes = manager
        .list_collaboration_modes(|config| vec![config.default_mode_request_user_input]);
    assert_eq!(modes, vec![true]);
    let modes = manager.list_collaboration_modes_for_config(
        CollaborationModesConfig { default_mode_request_user_input: false },
        |config| vec![config.default_mode_request_user_input],
    );
    assert_eq!(modes, vec![false]);
}

#[test]
fn incoming_models_take_the_place_of_their_slug() {
    let mut manager = chatgpt_manager();
    manager.apply_remote_models(vec![
        remote_model("gpt-5-codex", "First", 7),
        remote_model("extra", "Extra", 8),
        remote_model("gpt-5-codex", "Second", 9),
    ]);
    let shown: Vec<(String, String)> = manager
        .get_remote_models()
        .into_iter()
        .map(|m| (m.slug, m.display_name))
        .collect();
    let expected = [
        ("gpt-5.1-codex", "GPT-5.1 Codex"),
        ("gpt-5-codex", "Second"),
        ("gpt-5", "GPT-5"),
        ("extra", "Extra"),
    ];
    let expected: Vec<(String, String)> =
        expected.iter().map(|(a, b)| (a.to_string(), b.to_string())).collect();
    assert_eq!(shown, expected);

    manager.apply_remote_models(vec![remote_model("later", "Later", 0)]);
    let slugs: Vec<String> = manager.get_remote_models().into_iter().map(|m| m.slug).collect();
    assert_eq!(slugs, vec!["gpt-5.1-codex", "gpt-5-codex", "gpt-5", "later"]);
}

#[test]
fn longest_slug_that_begins_the_name_is_taken() {
    let candidates = vec![
        remote_model("gpt-5", "Short", 0),
        remote_model("gpt-5-codex", "Long", 0),
        remote_model("gpt-5-codex", "Again", 0),
    ];
    let found = ModelsManager::find_model_by_longest_prefix("gpt-5-codex-mini", &candidates);
    assert_eq!(found.map(|m| m.display_name), Some("Long".to_string()));
    let found = ModelsManager::find_model_by_longest_prefix("gpt-5", &candidates);
    assert_eq!(found.map(|m| m.display_name), Some("Short".to_string()));
    assert!(ModelsManager::find_model_by_longest_prefix("gpt-4", &candidates).is_none());
    let found = ModelsManager::find_model_by_namespaced_suffix("ns/gpt-5x", &candidates);
    assert_eq!(found.map(|m| m.display_name), Some("Short".to_string()));
    assert!(ModelsManager::find_model_by_namespaced_suffix("gpt-5x", &candidates).is_none());
}

fn carry_out_fetch(
    manager: &mut ModelsManager,
    events: Vec<RefreshEvent>,
) -> (RefreshAction, bool) {
    let mut action = manager.fetch_and_update_models();
    let mut wrote = false;
    for event in events {
        action = manager.resume_fetch(action, event);
        wrote = wrote || matches!(action, RefreshAction::PersistCache { .. });
    }
    (action, wrote)
}

#[test]
fn failed_fetch_leaves_catalog_and_etag_alone() {
    let mut manager = oss_manager();
    manager.etag = Some("kept".to_string());
    let before = manager.get_remote_models();
    let (action, wrote) = carry_out_fetch(
        &mut manager,
        vec![
            RefreshEvent::CompatReply(refused(500, "a")),
            RefreshEvent::TagsReply(Reply::TimedOut),
        ],
    );
    assert!(matches!(action, RefreshAction::Finished(Err(CodexErr::Stream(_)))));
    assert!(!wrote);
    assert_eq!(manager.get_remote_models(), before);
    assert_eq!(manager.get_etag(), Some("kept".to_string()));

    manager.api_base_url = Err(CodexErr::Other("no base url".to_string()));
    let (action, _) = carry_out_fetch(&mut manager, vec![]);
    assert!(matches!(action, RefreshAction::Finished(Err(CodexErr::Other(_)))));
    assert_eq!(manager.get_remote_models(), before);

    let guarded = manager.fetch_and_update_models_with_guard();
    assert!(matches!(guarded, RefreshAction::Finished(Err(CodexErr::Other(_)))));
    assert!(manager.get_remote_models().is_empty());
    assert_eq!(manager.get_etag(), Some("kept".to_string()));
}

#[test]
fn guard_leaves_the_catalog_of_openai_alone() {
    let mut manager = chatgpt_manager();
    manager.api_base_url = Err(CodexErr::Timeout);
    let before = manager.get_remote_models();
    let action = manager.fetch_and_update_models_with_guard();
    assert!(matches!(action, RefreshAction::Finished(Err(CodexErr::Timeout))));
    assert_eq!(manager.get_remote_models(), before);
}

#[test]
fn unguarded_fetch_puts_models_in_the_catalog() {
    let mut manager = oss_manager();
    let (action, wrote) = carry_out_fetch(
        &mut manager,
        vec![
            RefreshEvent::CompatReply(answered(vec![compat("smollm2:135m")])),
            RefreshEvent::CachePersisted,
        ],
    );
    assert!(matches!(action, RefreshAction::Finished(Ok(()))));
    assert!(wrote);
    assert_eq!(manager.get_remote_models()[0].slug, "smollm2:135m");
}

#[test]
fn cache_entry_is_taken_in_where_it_may_serve() {
    let mut manager = oss_manager();
    let entry = |scope: String| {
        Some(CachedModels {
            fetched_at: 1000,
            etag: Some("e".to_string()),
            client_version: Some(CLIENT_VERSION.to_string()),
            provider_scope: Some(scope),
            models: vec![remote_model("from-cache", "From cache", 0)],
        })
    };
    let before = manager.get_remote_models();
    assert!(!manager.try_load_cache(None, 1000));
    assert!(!manager.try_load_cache(entry("elsewhere".to_string()), 1000));
    assert_eq!(manager.get_remote_models(), before);
    let scope = manager.cache_scope_key();
    assert!(manager.try_load_cache(entry(scope), 1000));
    assert_eq!(manager.get_remote_models()[0].slug, "from-cache");
    assert_eq!(manager.get_etag(), Some("e".to_string()));
}

#[test]
fn listed_ids_keep_the_place_of_their_first_occurrence() {
    let manager = copilot_manager();
    let ids = ["b", "a", "b", "c"].iter().map(|id| id.to_string()).collect();
    let shown: Vec<(String, i32)> = manager
        .map_provider_model_ids(ids)
        .into_iter()
        .map(|m| (m.slug, m.priority))
        .collect();
    let expected = vec![("b".to_string(), 0), ("a".to_string(), 1), ("c".to_string(), 3)];
    assert_eq!(shown, expected);
}

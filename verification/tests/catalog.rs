use codex_models::exchange::etag_of;
use codex_models::exchange::is_success_status;
use codex_models::exchange::listing_headers;
use codex_models::exchange::models_url;
use codex_models::exchange::status_text;
use codex_models::exchange::Reply;
use codex_models::manager::AuthMode;
use codex_models::manager::CodexErr;
use codex_models::manager::CollaborationModesConfig;
use codex_models::manager::ModelProviderInfo;
use codex_models::manager::ModelsManager;
use codex_models::model::ModelInfo;
use codex_models::model::ModelVisibility;
use codex_models::model::TruncationPolicy;
use codex_models::order::sort_texts;
use codex_models::session::Surroundings;
use codex_models::text;
use codex_models::wire::ModelOption;
use codex_models::wire::ModelsDevEntry;
use codex_models::wire::ModelsDevModel;
use codex_models::wire::ModelsDevModelEntry;
use codex_models::wire::ModelsDevProvider;
use codex_models::wire::OllamaTagsModel;
use codex_models::wire::OpenAiCompatModel;
use codex_models::wire::OptionValue;

fn model(slug: &str, display: &str) -> ModelInfo {
    ModelInfo {
        slug: slug.to_string(),
        display_name: display.to_string(),
        description: None,
        default_reasoning_level: None,
        supported_reasoning_levels: vec![],
        shell_type: "shell_command".to_string(),
        visibility: ModelVisibility::List,
        supported_in_api: true,
        priority: 0,
        upgrade: None,
        base_instructions: String::new(),
        supports_reasoning_summaries: false,
        support_verbosity: false,
        default_verbosity: None,
        apply_patch_tool_type: None,
        truncation_policy: TruncationPolicy { mode: "bytes".to_string(), limit: 1 },
        supports_parallel_tool_calls: false,
        supports_image_detail_original: false,
        context_window: None,
        experimental_supported_tools: vec![],
        used_fallback_model_metadata: false,
    }
}

fn manager(name: &str, base_url: Option<&str>) -> ModelsManager {
    ModelsManager::new(
        Surroundings {
            bundled_models: vec![model("gpt-5", "GPT-5")],
            fallback_metadata: model("", ""),
            auth_mode: Some(AuthMode::ApiKey),
            api_base_url: Ok("http://x".to_string()),
            client_version: "1".to_string(),
            models_dev_api_url: None,
        },
        None,
        CollaborationModesConfig { default_mode_request_user_input: false },
        ModelProviderInfo {
            name: name.to_string(),
            base_url: base_url.map(str::to_string),
            github_copilot: false,
            local_oss: false,
            openai: false,
            azure_responses_wire: false,
        },
    )
}

fn entry(id: &str, name: &str, api: Option<&str>) -> ModelsDevEntry {
    ModelsDevEntry {
        id: id.to_string(),
        provider: ModelsDevProvider {
            name: name.to_string(),
            api: api.map(str::to_string),
            models: vec![],
        },
    }
}

fn dev_model(id: Option<&str>, name: Option<&str>) -> ModelsDevModel {
    ModelsDevModel {
        id: id.map(str::to_string),
        name: name.map(str::to_string),
        status: None,
        model_picker_enabled: None,
        options: vec![],
    }
}

#[test]
fn provider_key_is_normalized() {
    let key = ModelsManager::normalize_provider_key;
    assert_eq!(key("Azure OpenAI"), "azure-openai");
    assert_eq!(key("--My__Provider (EU)!"), "my-provider-eu");
    assert_eq!(key("a-b"), "a-b");
    assert_eq!(key("x2Y"), "x2y");
    assert_eq!(key("x. .2Y "), "x-2y");
    assert_eq!(key("\u{e9}"), "");
    assert_eq!(key(&key("Fire Works.AI")), key("Fire Works.AI"));
    assert_eq!(key("OPENROUTER"), key("OpenRouter"));
}

#[test]
fn aliases_name_azure_where_it_fits() {
    assert_eq!(manager("Azure OpenAI", None).models_dev_provider_aliases(), ["azure-openai", "azure"]);
    assert_eq!(manager("My Azure OpenAI EU", None).models_dev_provider_aliases()[1], "azure");
    assert_eq!(manager("Azure", None).models_dev_provider_aliases(), ["azure"]);
    assert_eq!(manager("OpenAI Azure", None).models_dev_provider_aliases(), ["openai-azure"]);
    let mut wired = manager("Contoso", None);
    wired.provider.azure_responses_wire = true;
    assert_eq!(wired.models_dev_provider_aliases(), ["contoso", "azure"]);
}

#[test]
fn catalog_url_follows_override_and_environment() {
    let mut m = manager("p", None);
    assert_eq!(m.models_dev_api_url(), "https://models.dev/api.json");
    m.models_dev_api_url_env = Some(" http://mirror/// ".to_string());
    assert_eq!(m.models_dev_api_url(), "http://mirror/api.json");
    m.models_dev_api_url_override = Some("http://x/list.json".to_string());
    assert_eq!(m.models_dev_api_url(), "http://x/list.json");
    m.models_dev_api_url_override = Some("  ".to_string());
    assert_eq!(m.models_dev_api_url(), "https://models.dev/api.json");
}

#[test]
fn host_is_read_from_urls() {
    let host = ModelsManager::extract_host_from_url;
    assert_eq!(host("https://API.Example.com:8443/v1"), Some("api.example.com".to_string()));
    assert_eq!(host("foo://MiXed/x"), Some("mixed".to_string()));
    assert_eq!(host("not a url"), None);
    assert_eq!(host("mailto:x@y"), None);
}

#[test]
fn provider_is_matched_by_id_name_and_single_host() {
    let m = manager("Acme", Some("https://api.acme.test/v1"));
    let by_id = vec![entry("x", "Acme", None), entry("acme", "Other", None)];
    assert_eq!(m.match_models_dev_provider(&by_id), Some(1));
    let by_name = vec![entry("x", "ACME!", None), entry("y", "Other", None)];
    assert_eq!(m.match_models_dev_provider(&by_name), Some(0));
    let by_host = vec![
        entry("x", "X", Some("https://other.test")),
        entry("y", "Y", Some("https://API.acme.test/v2")),
    ];
    assert_eq!(m.match_models_dev_provider(&by_host), Some(1));
    let twice = vec![
        entry("x", "X", Some("https://api.acme.test")),
        entry("y", "Y", Some("https://api.acme.test/v2")),
    ];
    assert_eq!(m.match_models_dev_provider(&twice), None);
    assert_eq!(manager("Acme", None).match_models_dev_provider(&by_host), None);
}

#[test]
fn provider_is_selected_from_known_hosts() {
    let catalog = vec![entry("x", "X", None), entry("y", "Y", None)];
    let host = Some("h".to_string());
    let select = |hosts: Vec<Option<String>>| {
        ModelsManager::select_models_dev_provider(&catalog, &vec!["z".to_string()], &hosts, &host)
    };
    assert_eq!(select(vec![None, Some("h".to_string())]), Some(1));
    assert_eq!(select(vec![Some("h".to_string()), Some("h".to_string())]), None);
    assert_eq!(select(vec![None, None]), None);
}

#[test]
fn offered_models_are_sorted_and_named() {
    let m = manager("p", None);
    let mut deprecated = dev_model(Some("old"), None);
    deprecated.status = Some("DEPRECATED".to_string());
    let mut off = dev_model(Some("off"), None);
    off.options = vec![ModelOption {
        key: "model_picker_enabled".to_string(),
        value: OptionValue::Bool(false),
    }];
    let provider = ModelsDevProvider {
        name: "P".to_string(),
        api: None,
        models: vec![
            ModelsDevModelEntry { key: "z".to_string(), model: dev_model(None, Some("Zed")) },
            ModelsDevModelEntry { key: "k".to_string(), model: dev_model(Some(" a "), Some(" ")) },
            ModelsDevModelEntry { key: "o".to_string(), model: deprecated },
            ModelsDevModelEntry { key: "f".to_string(), model: off },
            ModelsDevModelEntry { key: "e".to_string(), model: dev_model(Some(" "), None) },
            ModelsDevModelEntry { key: "g".to_string(), model: dev_model(Some("gpt-5"), None) },
        ],
    };
    let mapped = m.map_models_dev_provider(&provider);
    let shown: Vec<(&str, &str)> =
        mapped.iter().map(|m| (m.slug.as_str(), m.display_name.as_str())).collect();
    assert_eq!(shown, vec![("a", "a"), ("gpt-5", "GPT-5"), ("z", "Zed")]);
}

#[test]
fn picker_flags_are_read() {
    let mut compat = OpenAiCompatModel {
        id: "m".to_string(),
        model_picker_enabled: None,
        supported_endpoints: vec![],
    };
    assert!(compat.is_picker_enabled());
    assert!(compat.supports_responses_endpoint());
    compat.model_picker_enabled = Some(false);
    compat.supported_endpoints = vec!["/v1/responses//".to_string()];
    assert!(!compat.is_picker_enabled());
    assert!(compat.supports_responses_endpoint());
    compat.supported_endpoints = vec!["/responses/compact".to_string()];
    assert!(!compat.supports_responses_endpoint());
    let tags = OllamaTagsModel { name: "n".to_string(), model_picker_enabled: Some(true) };
    assert!(tags.is_picker_enabled());

    let mut dev = dev_model(None, None);
    dev.options = vec![ModelOption {
        key: "model_picker_enabled".to_string(),
        value: OptionValue::Bool(false),
    }];
    assert!(!dev.is_picker_enabled());
    dev.model_picker_enabled = Some(true);
    assert!(dev.is_picker_enabled());
    dev.model_picker_enabled = None;
    dev.options[0].value = OptionValue::Other;
    assert!(dev.is_picker_enabled());
    assert_eq!(dev.resolved_id(" key "), Some("key".to_string()));
}

#[test]
fn listing_urls_ignore_trailing_slashes() {
    assert_eq!(models_url("http://h/v1//"), "http://h/v1/models");
    assert_eq!(ModelsManager::ollama_tags_url("http://h/v1/"), "http://h/api/tags");
    assert_eq!(ModelsManager::ollama_tags_url("http://h"), "http://h/api/tags");
}

#[test]
fn etag_is_read_from_the_headers() {
    let mut headers = http::HeaderMap::new();
    assert_eq!(etag_of(&headers), None);
    headers.append("etag", http::HeaderValue::from_static("W/\"one\""));
    headers.append("etag", http::HeaderValue::from_static("two"));
    assert_eq!(etag_of(&headers), Some("W/\"one\"".to_string()));
    headers.insert("etag", http::HeaderValue::from_bytes(&[b'a', 0xe9]).unwrap());
    assert_eq!(etag_of(&headers), None);
}

#[test]
fn intent_header_is_dropped_with_all_its_values() {
    let mut headers = http::HeaderMap::new();
    headers.append("Openai-Intent", http::HeaderValue::from_static("a"));
    headers.append("openai-intent", http::HeaderValue::from_static("b"));
    headers.append("accept", http::HeaderValue::from_static("c"));
    let sent = listing_headers(headers);
    assert_eq!(sent.len(), 1);
    assert_eq!(sent.get("accept").unwrap(), "c");
}

#[test]
fn status_is_shown_with_its_reason() {
    assert_eq!(status_text(404), "404 Not Found");
    assert_eq!(status_text(99), "99");
    assert_eq!(status_text(1000), "1000");
    assert!(is_success_status(200) && is_success_status(299));
    assert!(!is_success_status(199) && !is_success_status(300));
}

#[test]
fn replies_are_read() {
    let timed_out: Reply<u8> = Reply::TimedOut;
    assert_eq!(timed_out.read("try"), Err(CodexErr::Timeout));
    let failed: Reply<u8> = Reply::Failed("no route".to_string());
    assert_eq!(failed.read("try"), Err(CodexErr::Stream("no route".to_string())));
    let garbled: Reply<u8> = Reply::Answered {
        status: 200,
        etag: None,
        body: String::new(),
        payload: Err("eof".to_string()),
    };
    assert_eq!(garbled.read("try"), Err(CodexErr::Stream("eof".to_string())));
    let refused = Reply::Answered {
        status: 500,
        etag: None,
        body: "b".to_string(),
        payload: Ok(7u8),
    };
    assert_eq!(
        refused.read("try"),
        Err(CodexErr::Stream("try: 500 Internal Server Error; body: b".to_string()))
    );
    let good = Reply::Answered {
        status: 204,
        etag: Some("t".to_string()),
        body: String::new(),
        payload: Ok(7u8),
    };
    assert_eq!(good.read("try"), Ok((7, Some("t".to_string()))));
    assert_eq!(CodexErr::Timeout.message(), "timeout waiting for child process to exit");
    assert_eq!(CodexErr::EnvVar("VAR".to_string()).message(), "VAR");
}

#[test]
fn texts_are_trimmed_split_and_ordered() {
    assert_eq!(text::trim("\u{3000} a b\u{a0}\n"), "a b");
    assert_eq!(text::trim_char("--a-b--", '-'), "a-b");
    assert_eq!(text::split_text("a--b", '-'), ["a", "", "b"]);
    assert_eq!(text::split_text("", '-'), [""]);
    assert_eq!(text::text_after("xaby", "ab"), Some("y"));
    assert_eq!(text::text_after("x", "ab"), None);
    assert_eq!(text::trim_end_text("a.git.git", ".git"), "a");
    assert_eq!(text::decimal_text(0), "0");
    assert_eq!(text::decimal_text(90210), "90210");
    assert_eq!(text::to_lower("A\u{c9}z"), "a\u{c9}z");
    let sorted = sort_texts(vec!["b".to_string(), "a-".to_string(), "a".to_string(), "B".to_string()]);
    assert_eq!(sorted, ["B", "a", "a-", "b"]);
    assert!(text::text_at_most("", "a") && !text::text_at_most("b", "a"));
}

#[test]
fn walk_order_of_the_table_does_not_matter() {
    let m = manager("p", None);
    let table = |order: &[&str]| ModelsDevProvider {
        name: "P".to_string(),
        api: None,
        models: order
            .iter()
            .map(|id| ModelsDevModelEntry {
                key: id.to_string(),
                model: dev_model(Some(id), Some(&format!("Model {id}"))),
            })
            .collect(),
    };
    let one = m.map_models_dev_provider(&table(&["c", "a", "b"]));
    let other = m.map_models_dev_provider(&table(&["b", "c", "a"]));
    assert_eq!(one, other);
    assert_eq!(one[2].display_name, "Model c");
}

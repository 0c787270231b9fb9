use codex_models::reload_mcp_servers::FunctionCallError;
use codex_models::reload_mcp_servers::ReloadMcpServersHandler;
use codex_models::reload_mcp_servers::ToolKind;
use codex_models::reload_mcp_servers::ToolOutput;
use codex_models::reload_mcp_servers::ToolPayload;

#[test]
fn handler_rejects_non_function_payload() {
    let payload = ToolPayload::Custom { input: "reload".to_string() };
    let err = ReloadMcpServersHandler
        .handle(payload, || panic!("no reload"))
        .expect_err("payload should be rejected");
    assert_eq!(
        err,
        FunctionCallError::RespondToModel(
            "reload_mcp_servers handler received unsupported payload".to_string()
        )
    );
    assert!(ReloadMcpServersHandler.accept(&ToolPayload::Other).is_err());
}

#[test]
fn handler_reloads_mcp_servers_from_config_immediately() {
    let payload = ToolPayload::Function { arguments: "{}".to_string() };
    let output =
        ReloadMcpServersHandler.handle(payload, || 0).expect("reload handler should succeed");
    let ToolOutput::Function { body, success } = output;
    assert_eq!(success, Some(true));
    let parsed: serde_json::Value =
        serde_json::from_str(&body).expect("reload tool should return JSON text");
    assert_eq!(parsed["status"], "ok");
    assert_eq!(parsed["configured_server_count"], 0);
    assert_eq!(
        parsed["message"],
        "Reloaded MCP servers from config.toml and reconnected active MCP sessions."
    );
}

#[test]
fn report_is_compact_json() {
    let ToolOutput::Function { body, .. } = ReloadMcpServersHandler.report(12);
    assert_eq!(
        body,
        "{\"configured_server_count\":12,\"message\":\"Reloaded MCP servers from config.toml and reconnected active MCP sessions.\",\"status\":\"ok\"}"
    );
}

#[test]
fn arguments_are_blank_or_json() {
    let accept = |arguments: &str| {
        ReloadMcpServersHandler
            .accept(&ToolPayload::Function { arguments: arguments.to_string() })
    };
    assert!(accept("").is_ok());
    assert!(accept(" \n\t").is_ok());
    assert!(accept("[1, null]").is_ok());
    match accept("{nope") {
        Err(FunctionCallError::RespondToModel(text)) => {
            assert!(text.starts_with("failed to parse function arguments: "));
            assert!(text.contains("line 1 column 2"));
        }
        Ok(()) => panic!("these are not JSON"),
    }
    assert_eq!(ReloadMcpServersHandler.kind(), ToolKind::Function);
    assert_eq!(
        ReloadMcpServersHandler::argument_error(Some("why".to_string())),
        Err(FunctionCallError::RespondToModel(
            "failed to parse function arguments: why".to_string()
        ))
    );
    assert_eq!(ReloadMcpServersHandler::argument_error(None), Ok(()));
}

#[test]
fn call_with_a_known_count_is_carried_out() {
    let call = |arguments: &str| {
        ReloadMcpServersHandler
            .handle_with_count(ToolPayload::Function { arguments: arguments.to_string() }, 3)
    };
    assert_eq!(call("{}"), Ok(ReloadMcpServersHandler.report(3)));
    assert!(call("{nope").is_err());
    assert!(ReloadMcpServersHandler.handle_with_count(ToolPayload::Other, 3).is_err());
}

#[test]
fn rejected_arguments_do_not_reload() {
    let payload = ToolPayload::Function { arguments: "not json".to_string() };
    assert!(ReloadMcpServersHandler.handle(payload, || panic!("no reload")).is_err());
}

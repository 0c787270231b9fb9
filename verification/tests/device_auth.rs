use codex_models::device_auth::default_expires_in_seconds;
use codex_models::device_auth::default_poll_interval_seconds;
use codex_models::device_auth::device_code_prompt;
use codex_models::device_auth::format_error_details;
use codex_models::device_auth::interval_stays_in_range;
use codex_models::device_auth::next_poll_sleep_duration;
use codex_models::device_auth::read_token_reply;
use codex_models::device_auth::run_github_copilot_login;
use codex_models::device_auth::run_github_copilot_login_with_options;
use codex_models::device_auth::AccessTokenResponse;
use codex_models::device_auth::DeviceCodeReply;
use codex_models::device_auth::DeviceCodeResponse;
use codex_models::device_auth::GithubCopilotDeviceAuthOptions;
use codex_models::device_auth::LoginAction;
use codex_models::device_auth::LoginError;
use codex_models::device_auth::LoginErrorKind;
use codex_models::device_auth::LoginEvent;
use codex_models::device_auth::PollOutcome;
use codex_models::device_auth::TokenReply;

fn test_options() -> GithubCopilotDeviceAuthOptions {
    GithubCopilotDeviceAuthOptions {
        client_id: "test-client-id".to_string(),
        device_code_url: "http://auth.test/login/device/code".to_string(),
        access_token_url: "http://auth.test/login/oauth/access_token".to_string(),
        user_agent: "codex/test".to_string(),
    }
}

fn device_code(interval: u64) -> DeviceCodeReply {
    DeviceCodeReply::Answered {
        status: 200,
        body: String::new(),
        payload: Ok(DeviceCodeResponse {
            device_code: "device-code-123".to_string(),
            user_code: "ABCD-EFGH".to_string(),
            verification_uri: "https://github.com/login/device".to_string(),
            interval,
            expires_in: 120,
        }),
    }
}

fn answer(
    access_token: Option<&str>,
    error: Option<&str>,
    error_description: Option<&str>,
    interval: Option<u64>,
) -> TokenReply {
    TokenReply::Answered {
        status: 200,
        body: String::new(),
        parsed: Some(AccessTokenResponse {
            access_token: access_token.map(str::to_string),
            error: error.map(str::to_string),
            error_description: error_description.map(str::to_string),
            interval,
        }),
    }
}

/// Signs in with the given device code, the polls bringing the replies in turn. The clock stands
/// still but for the waits. Tells what came of it, and the waits.
fn login(code: DeviceCodeReply, polls: Vec<TokenReply>) -> (Result<String, LoginError>, Vec<u128>) {
    let (mut state, mut action) = run_github_copilot_login_with_options(test_options());
    let mut code = Some(code);
    let mut polls = polls.into_iter();
    let mut now: u64 = 1_000;
    let mut waits = vec![];
    loop {
        let event = match &action {
            LoginAction::RequestDeviceCode { url, user_agent, client_id, scope } => {
                assert_eq!(url, "http://auth.test/login/device/code");
                assert_eq!(user_agent, "codex/test");
                assert_eq!(client_id, "test-client-id");
                assert_eq!(scope, "read:user");
                LoginEvent::DeviceCode(code.take().expect("one device code"))
            }
            LoginAction::ShowPrompt { text, expires_in } => {
                assert!(text.contains("ABCD-EFGH"));
                assert!(text.contains("https://github.com/login/device"));
                assert_eq!(*expires_in, 120);
                LoginEvent::PromptShown { now }
            }
            LoginAction::RequestToken { url, client_id, device_code, grant_type, .. } => {
                assert_eq!(url, "http://auth.test/login/oauth/access_token");
                assert_eq!(client_id, "test-client-id");
                assert_eq!(device_code, "device-code-123");
                assert_eq!(grant_type, "urn:ietf:params:oauth:grant-type:device_code");
                LoginEvent::Token { reply: polls.next().expect("a reply"), now }
            }
            LoginAction::Sleep { nanoseconds } => {
                waits.push(*nanoseconds);
                now += *nanoseconds as u64;
                LoginEvent::Slept
            }
            LoginAction::Finished(_) => break,
        };
        action = state.resume_login(action, event);
    }
    match action {
        LoginAction::Finished(r) => (r, waits),
        _ => unreachable!(),
    }
}

#[test]
fn github_copilot_device_auth_succeeds_after_authorization_pending() {
    let (result, waits) = login(
        device_code(0),
        vec![
            answer(None, Some("authorization_pending"), None, None),
            answer(Some("gho_test_copilot_token"), None, None, None),
        ],
    );
    assert_eq!(result.expect("login should succeed"), "gho_test_copilot_token");
    assert_eq!(waits, vec![0]);
}

#[test]
fn github_copilot_device_auth_returns_permission_denied_on_access_denied() {
    let (result, _) = login(
        device_code(0),
        vec![answer(None, Some("access_denied"), Some("The user denied this request"), None)],
    );
    let err = result.expect_err("access_denied should fail login");
    assert_eq!(err.kind, LoginErrorKind::PermissionDenied);
    assert!(err.message.contains("access_denied"));
    assert_eq!(
        err.message,
        "GitHub device authorization denied: access_denied: The user denied this request"
    );
}

#[test]
fn github_copilot_device_auth_surfaces_device_code_http_failure() {
    let (result, _) = login(
        DeviceCodeReply::Answered {
            status: 503,
            body: "service unavailable".to_string(),
            payload: Err(String::new()),
        },
        vec![],
    );
    let err = result.expect_err("503 should fail login");
    assert!(err.message.contains("GitHub device code request failed with status 503"));
    assert_eq!(
        err.message,
        "GitHub device code request failed with status 503 Service Unavailable: service unavailable"
    );
    assert_eq!(err.kind, LoginErrorKind::Other);
}

#[test]
fn failed_exchanges_end_the_login() {
    let (result, _) = login(DeviceCodeReply::Failed("no route".to_string()), vec![]);
    assert_eq!(result.unwrap_err().message, "no route");
    let (result, _) = login(
        DeviceCodeReply::Answered {
            status: 200,
            body: String::new(),
            payload: Err("not json".to_string()),
        },
        vec![],
    );
    assert_eq!(result.unwrap_err().message, "not json");
    let (result, _) = login(device_code(1), vec![TokenReply::Failed("reset".to_string())]);
    assert_eq!(result.unwrap_err().message, "reset");
}

#[test]
fn slow_down_stretches_the_interval() {
    let (result, waits) = login(
        device_code(2),
        vec![
            answer(None, Some("slow_down"), None, None),
            answer(None, Some("authorization_pending"), None, None),
            answer(None, Some("slow_down"), None, Some(3)),
            answer(Some("token"), Some("access_denied"), None, None),
        ],
    );
    assert_eq!(result.unwrap(), "token");
    assert_eq!(waits, vec![7_000_000_000, 7_000_000_000, 3_000_000_000]);
}

#[test]
fn polling_stops_at_the_deadline() {
    let polls = (0..4).map(|_| answer(None, Some("authorization_pending"), None, None)).collect();
    let (result, waits) = login(device_code(50), polls);
    let err = result.unwrap_err();
    assert_eq!(err.kind, LoginErrorKind::TimedOut);
    assert_eq!(err.message, "GitHub device authorization timed out before completion");
    assert_eq!(waits, vec![50_000_000_000, 50_000_000_000, 20_000_000_000]);
}

#[test]
fn error_codes_lead_to_their_failures() {
    let failure = |reply| match read_token_reply(reply, 5) {
        PollOutcome::Failed(err) => err,
        _ => panic!("expected a failure"),
    };
    let err = failure(answer(None, Some("expired_token"), None, None));
    assert_eq!(err.kind, LoginErrorKind::TimedOut);
    assert_eq!(
        err.message,
        "GitHub device authorization expired; run `codex login --github-copilot` again"
    );
    let err = failure(answer(None, Some("bad_verification_code"), Some("  "), None));
    assert_eq!(err.kind, LoginErrorKind::Other);
    assert_eq!(err.message, "GitHub device authorization failed: bad_verification_code");
    let err = failure(answer(None, None, None, None));
    assert_eq!(err.message, "GitHub access token response did not include an access token");
    let err = failure(TokenReply::Answered {
        status: 502,
        body: "oops".to_string(),
        parsed: None,
    });
    assert_eq!(
        err.message,
        "GitHub access token request failed with status 502 Bad Gateway: oops"
    );
    let err = failure(TokenReply::Answered {
        status: 799,
        body: "odd".to_string(),
        parsed: None,
    });
    assert_eq!(
        err.message,
        "GitHub access token request failed with status 799 <unknown status code>: odd"
    );
}

#[test]
fn sleep_is_cut_at_the_deadline() {
    assert_eq!(next_poll_sleep_duration(10, 20, 5), Ok(5));
    assert_eq!(next_poll_sleep_duration(10, 20, 10), Ok(10));
    assert_eq!(next_poll_sleep_duration(10, 20, 11), Ok(10));
    assert_eq!(next_poll_sleep_duration(20, 20, 0).unwrap_err().kind, LoginErrorKind::TimedOut);
}

#[test]
fn error_details_hold_a_description_that_is_not_blank() {
    assert_eq!(format_error_details("e", None), "e");
    assert_eq!(format_error_details("e", Some(" \t")), "e");
    assert_eq!(format_error_details("e", Some(" why ")), "e: why");
}

#[test]
fn defaults_stand_in() {
    assert_eq!(default_poll_interval_seconds(), 5);
    assert_eq!(default_expires_in_seconds(), 900);
    let (state, action) = run_github_copilot_login();
    assert_eq!(state.options.client_id, "Ov23li8tweQw6odWQebz");
    assert_eq!(state.options.user_agent, "codex/0.1.0");
    match action {
        LoginAction::RequestDeviceCode { url, .. } => {
            assert_eq!(url, "https://github.com/login/device/code");
        }
        _ => panic!("a device code comes first"),
    }
    let options = GithubCopilotDeviceAuthOptions::default().clone();
    assert_eq!(options.access_token_url, "https://github.com/login/oauth/access_token");
}

#[test]
fn prompt_shows_link_code_and_lifetime() {
    assert_eq!(
        device_code_prompt("https://x", "CODE", 900),
        "\nWelcome to Codex [v\x1b[90m0.1.0\x1b[0m]\n\x1b[90mOpenAI's command-line coding agent\x1b[0m\n\
\nFollow these steps to sign in with GitHub Copilot:\n\
\n1. Open this link in your browser and authorize the Codex CLI\n   \x1b[94mhttps://x\x1b[0m\n\
\n2. Enter this one-time code \x1b[90m(expires in about 15 minutes)\x1b[0m\n   \x1b[94mCODE\x1b[0m\n\
\n\x1b[90mDevice codes are a common phishing target. Never share this code.\x1b[0m\n"
    );
    assert!(device_code_prompt("u", "c", 30).contains("about 1 minutes"));
    assert!(device_code_prompt("u", "c", 119).contains("about 1 minutes"));
    assert!(device_code_prompt("u", "c", 120).contains("about 2 minutes"));
}

#[test]
fn finished_login_stays_finished() {
    let (mut state, _) = run_github_copilot_login_with_options(test_options());
    let done = LoginAction::Finished(Ok("token".to_string()));
    match state.resume_login(done, LoginEvent::Slept) {
        LoginAction::Finished(Ok(token)) => assert_eq!(token, "token"),
        _ => panic!("it had ended"),
    }
}

#[test]
fn interval_that_would_leave_the_range_is_told() {
    let open = answer(None, Some("slow_down"), None, None);
    assert!(interval_stays_in_range(&open, u64::MAX - 5));
    assert!(!interval_stays_in_range(&open, u64::MAX - 4));
    let named = answer(None, Some("slow_down"), None, Some(1));
    assert!(interval_stays_in_range(&named, u64::MAX));
    let token = answer(Some("t"), Some("slow_down"), None, None);
    assert!(interval_stays_in_range(&token, u64::MAX));
    assert!(interval_stays_in_range(&TokenReply::Failed(String::new()), u64::MAX));
    let pending = answer(None, Some("authorization_pending"), None, None);
    assert!(interval_stays_in_range(&pending, u64::MAX));
}

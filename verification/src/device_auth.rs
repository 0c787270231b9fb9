//! Signing in with GitHub Copilot by a device code: asking for a code, showing it, and polling for
//! the access token, as steps with one piece of outside work each.

use vstd::prelude::*;
use vstd::string::*;

use crate::exchange::is_success;
use crate::exchange::is_success_status;
use crate::exchange::status_text;
use crate::exchange::status_words;
use crate::text::decimal;
use crate::text::decimal_text;
use crate::text::join2;
use crate::text::join3;
use crate::text::opt_text;
use crate::text::same_text;
use crate::text::space;
use crate::text::trim;
use crate::text::trim_by;

verus! {

pub const ANSI_BLUE: &'static str = "\x1b[94m";

pub const ANSI_GRAY: &'static str = "\x1b[90m";

pub const ANSI_RESET: &'static str = "\x1b[0m";

pub const GITHUB_COPILOT_OAUTH_CLIENT_ID: &'static str = "Ov23li8tweQw6odWQebz";

pub const GITHUB_DEVICE_CODE_URL: &'static str = "https://github.com/login/device/code";

pub const GITHUB_ACCESS_TOKEN_URL: &'static str = "https://github.com/login/oauth/access_token";

pub const GITHUB_DEVICE_CODE_GRANT_TYPE: &'static str =
    "urn:ietf:params:oauth:grant-type:device_code";

pub const GITHUB_COPILOT_SCOPE: &'static str = "read:user";

pub const DEFAULT_POLL_INTERVAL_SECONDS: u64 = 5;

pub const DEFAULT_EXPIRES_IN_SECONDS: u64 = 900;

/// By how many seconds the interval grows where the server asks to slow down and names none.
pub const SLOW_DOWN_SECONDS: u64 = 5;

pub const NANOSECONDS_PER_SECOND: u128 = 1_000_000_000;

/// The version that requests and the prompt carry: that of this crate.
pub const CLIENT_VERSION: &'static str = "0.1.0";

/// Where to sign in, and as which client.
#[derive(Debug)]
pub struct GithubCopilotDeviceAuthOptions {
    pub client_id: String,
    pub device_code_url: String,
    pub access_token_url: String,
    pub user_agent: String,
}

/// What a [`GithubCopilotDeviceAuthOptions`] holds.
pub ghost struct OptionsView {
    pub client_id: Seq<char>,
    pub device_code_url: Seq<char>,
    pub access_token_url: Seq<char>,
    pub user_agent: Seq<char>,
}

impl View for GithubCopilotDeviceAuthOptions {
    type V = OptionsView;

    open spec fn view(&self) -> OptionsView {
        OptionsView {
            client_id: self.client_id@,
            device_code_url: self.device_code_url@,
            access_token_url: self.access_token_url@,
            user_agent: self.user_agent@,
        }
    }
}

/// The options for GitHub itself.
pub open spec fn default_options() -> OptionsView {
    OptionsView {
        client_id: GITHUB_COPILOT_OAUTH_CLIENT_ID@,
        device_code_url: GITHUB_DEVICE_CODE_URL@,
        access_token_url: GITHUB_ACCESS_TOKEN_URL@,
        user_agent: "codex/"@ + CLIENT_VERSION@,
    }
}

impl Default for GithubCopilotDeviceAuthOptions {
    fn default() -> (r: Self)
        ensures
            r@ == default_options(),
    {
        GithubCopilotDeviceAuthOptions {
            client_id: GITHUB_COPILOT_OAUTH_CLIENT_ID.to_string(),
            device_code_url: GITHUB_DEVICE_CODE_URL.to_string(),
            access_token_url: GITHUB_ACCESS_TOKEN_URL.to_string(),
            user_agent: join2("codex/", CLIENT_VERSION),
        }
    }
}

impl Clone for GithubCopilotDeviceAuthOptions {
    fn clone(&self) -> (r: Self)
        ensures
            r == *self,
    {
        GithubCopilotDeviceAuthOptions {
            client_id: self.client_id.clone(),
            device_code_url: self.device_code_url.clone(),
            access_token_url: self.access_token_url.clone(),
            user_agent: self.user_agent.clone(),
        }
    }
}

/// The answer to a request for a device code. Where it names no interval or lifetime, the defaults
/// stand in.
#[derive(Debug)]
pub struct DeviceCodeResponse {
    pub device_code: String,
    pub user_code: String,
    pub verification_uri: String,
    /// Seconds to wait between polls.
    pub interval: u64,
    /// Seconds that the code stays valid.
    pub expires_in: u64,
}

/// What a [`DeviceCodeResponse`] holds.
pub ghost struct DeviceCodeView {
    pub device_code: Seq<char>,
    pub user_code: Seq<char>,
    pub verification_uri: Seq<char>,
    pub interval: u64,
    pub expires_in: u64,
}

impl View for DeviceCodeResponse {
    type V = DeviceCodeView;

    open spec fn view(&self) -> DeviceCodeView {
        DeviceCodeView {
            device_code: self.device_code@,
            user_code: self.user_code@,
            verification_uri: self.verification_uri@,
            interval: self.interval,
            expires_in: self.expires_in,
        }
    }
}

/// The answer to a request for the access token.
#[derive(Debug)]
pub struct AccessTokenResponse {
    pub access_token: Option<String>,
    pub error: Option<String>,
    pub error_description: Option<String>,
    pub interval: Option<u64>,
}

/// What an [`AccessTokenResponse`] holds.
pub ghost struct AccessTokenView {
    pub access_token: Option<Seq<char>>,
    pub error: Option<Seq<char>>,
    pub error_description: Option<Seq<char>>,
    pub interval: Option<u64>,
}

impl View for AccessTokenResponse {
    type V = AccessTokenView;

    open spec fn view(&self) -> AccessTokenView {
        AccessTokenView {
            access_token: opt_text(self.access_token),
            error: opt_text(self.error),
            error_description: opt_text(self.error_description),
            interval: self.interval,
        }
    }
}

/// The kind of a failure to sign in.
#[derive(Clone, Copy, Debug, PartialEq, Eq, Structural)]
pub enum LoginErrorKind {
    TimedOut,
    PermissionDenied,
    Other,
}

/// Why signing in failed.
#[derive(Debug, PartialEq, Eq)]
pub struct LoginError {
    pub kind: LoginErrorKind,
    pub message: String,
}

/// What a [`LoginError`] holds.
pub ghost struct LoginErrorView {
    pub kind: LoginErrorKind,
    pub message: Seq<char>,
}

impl View for LoginError {
    type V = LoginErrorView;

    open spec fn view(&self) -> LoginErrorView {
        LoginErrorView { kind: self.kind, message: self.message@ }
    }
}

/// What came of the request for a device code.
#[derive(Debug)]
pub enum DeviceCodeReply {
    /// The exchange failed; the text says why.
    Failed(String),
    /// An answer came. The body matters where the status is no success, the payload where it is
    /// one; the text in place of a payload says why the body could not be read.
    Answered { status: u16, body: String, payload: Result<DeviceCodeResponse, String> },
}

/// What came of a request for the access token.
#[derive(Debug)]
pub enum TokenReply {
    /// The exchange failed; the text says why.
    Failed(String),
    /// An answer came; it is read where it has the expected form.
    Answered { status: u16, body: String, parsed: Option<AccessTokenResponse> },
}

/// The outside work that signing in waits for.
#[derive(Debug)]
pub enum LoginAction {
    /// Ask for a device code for the client and scope.
    RequestDeviceCode { url: String, user_agent: String, client_id: String, scope: String },
    /// Show the text to the user.
    ShowPrompt { text: String, expires_in: u64 },
    /// Ask for the access token.
    RequestToken {
        url: String,
        user_agent: String,
        client_id: String,
        device_code: String,
        grant_type: String,
    },
    /// Wait for that many nanoseconds.
    Sleep { nanoseconds: u128 },
    /// Nothing: signing in has ended.
    Finished(Result<String, LoginError>),
}

/// What came of a piece of outside work. Times are nanoseconds of one clock that does not go back.
#[derive(Debug)]
pub enum LoginEvent {
    DeviceCode(DeviceCodeReply),
    PromptShown { now: u64 },
    Token { reply: TokenReply, now: u64 },
    Slept,
}

/// What a [`LoginAction`] holds.
pub ghost enum LoginActionView {
    RequestDeviceCode {
        url: Seq<char>,
        user_agent: Seq<char>,
        client_id: Seq<char>,
        scope: Seq<char>,
    },
    ShowPrompt { text: Seq<char>, expires_in: u64 },
    RequestToken {
        url: Seq<char>,
        user_agent: Seq<char>,
        client_id: Seq<char>,
        device_code: Seq<char>,
        grant_type: Seq<char>,
    },
    Sleep { nanoseconds: u128 },
    Finished(Result<Seq<char>, LoginErrorView>),
}

/// What a [`DeviceCodeReply`] holds.
pub ghost enum DeviceReplyView {
    Failed(Seq<char>),
    Answered { status: u16, body: Seq<char>, payload: Result<DeviceCodeView, Seq<char>> },
}

/// What a [`TokenReply`] holds.
pub ghost enum TokenReplyView {
    Failed(Seq<char>),
    Answered { status: u16, body: Seq<char>, parsed: Option<AccessTokenView> },
}

/// What a [`LoginEvent`] holds.
pub ghost enum LoginEventView {
    DeviceCode(DeviceReplyView),
    PromptShown { now: u64 },
    Token { reply: TokenReplyView, now: u64 },
    Slept,
}

impl View for LoginAction {
    type V = LoginActionView;

    open spec fn view(&self) -> LoginActionView {
        match self {
            LoginAction::RequestDeviceCode { url, user_agent, client_id, scope } =>
                LoginActionView::RequestDeviceCode {
                url: url@,
                user_agent: user_agent@,
                client_id: client_id@,
                scope: scope@,
            },
            LoginAction::ShowPrompt { text, expires_in } => LoginActionView::ShowPrompt {
                text: text@,
                expires_in: *expires_in,
            },
            LoginAction::RequestToken { url, user_agent, client_id, device_code, grant_type } =>
                LoginActionView::RequestToken {
                url: url@,
                user_agent: user_agent@,
                client_id: client_id@,
                device_code: device_code@,
                grant_type: grant_type@,
            },
            LoginAction::Sleep { nanoseconds } => LoginActionView::Sleep {
                nanoseconds: *nanoseconds,
            },
            LoginAction::Finished(r) => LoginActionView::Finished(
                match r {
                    Ok(token) => Ok(token@),
                    Err(e) => Err(e@),
                },
            ),
        }
    }
}

impl View for DeviceCodeReply {
    type V = DeviceReplyView;

    open spec fn view(&self) -> DeviceReplyView {
        match self {
            DeviceCodeReply::Failed(text) => DeviceReplyView::Failed(text@),
            DeviceCodeReply::Answered { status, body, payload } => DeviceReplyView::Answered {
                status: *status,
                body: body@,
                payload: match payload {
                    Ok(code) => Ok(code@),
                    Err(text) => Err(text@),
                },
            },
        }
    }
}

impl View for TokenReply {
    type V = TokenReplyView;

    open spec fn view(&self) -> TokenReplyView {
        match self {
            TokenReply::Failed(text) => TokenReplyView::Failed(text@),
            TokenReply::Answered { status, body, parsed } => TokenReplyView::Answered {
                status: *status,
                body: body@,
                parsed: match parsed {
                    Some(p) => Some(p@),
                    None => None,
                },
            },
        }
    }
}

impl View for LoginEvent {
    type V = LoginEventView;

    open spec fn view(&self) -> LoginEventView {
        match self {
            LoginEvent::DeviceCode(reply) => LoginEventView::DeviceCode(reply@),
            LoginEvent::PromptShown { now } => LoginEventView::PromptShown { now: *now },
            LoginEvent::Token { reply, now } => LoginEventView::Token { reply: reply@, now: *now },
            LoginEvent::Slept => LoginEventView::Slept,
        }
    }
}

/// A sign-in under way.
#[derive(Debug)]
pub struct GithubCopilotLogin {
    pub options: GithubCopilotDeviceAuthOptions,
    /// The device code, once it is there.
    pub device_code: String,
    /// Seconds to wait between polls.
    pub poll_interval: u64,
    /// When the device code goes stale, in nanoseconds.
    pub deadline: u128,
}

/// What a [`GithubCopilotLogin`] holds.
pub ghost struct LoginView {
    pub options: OptionsView,
    pub device_code: Seq<char>,
    pub poll_interval: u64,
    pub deadline: u128,
}

impl View for GithubCopilotLogin {
    type V = LoginView;

    open spec fn view(&self) -> LoginView {
        LoginView {
            options: self.options@,
            device_code: self.device_code@,
            poll_interval: self.poll_interval,
            deadline: self.deadline,
        }
    }
}

/// A failure of the kind that has no name of its own.
pub open spec fn other(message: Seq<char>) -> LoginErrorView {
    LoginErrorView { kind: LoginErrorKind::Other, message }
}

/// The failure where the device code went stale while it was polled for.
pub open spec fn timed_out() -> LoginErrorView {
    LoginErrorView {
        kind: LoginErrorKind::TimedOut,
        message: "GitHub device authorization timed out before completion"@,
    }
}

/// An error code with its description, where that is not blank.
pub open spec fn error_details(error: Seq<char>, description: Option<Seq<char>>) -> Seq<char> {
    match description {
        Some(text) => if trim_by(text, space()).len() > 0 {
            error + ": "@ + trim_by(text, space())
        } else {
            error
        },
        None => error,
    }
}

/// How many minutes a code is said to stay valid: at least one.
pub open spec fn minutes_shown(expires_in: u64) -> nat {
    if expires_in >= 60 {
        (expires_in / 60) as nat
    } else {
        1
    }
}

/// What the user is shown.
pub open spec fn prompt(verification_uri: Seq<char>, user_code: Seq<char>, expires_in: u64) -> Seq<
    char,
> {
    "\nWelcome to Codex [v"@ + ANSI_GRAY@ + CLIENT_VERSION@ + ANSI_RESET@ + "]\n"@ + ANSI_GRAY@
        + "OpenAI's command-line coding agent"@ + ANSI_RESET@
        + "\n\nFollow these steps to sign in with GitHub Copilot:\n"@
        + "\n1. Open this link in your browser and authorize the Codex CLI\n   "@ + ANSI_BLUE@
        + verification_uri + ANSI_RESET@ + "\n\n2. Enter this one-time code "@ + ANSI_GRAY@
        + "(expires in about "@ + decimal(minutes_shown(expires_in)) + " minutes)"@ + ANSI_RESET@
        + "\n   "@ + ANSI_BLUE@ + user_code + ANSI_RESET@ + "\n\n"@ + ANSI_GRAY@
        + "Device codes are a common phishing target. Never share this code."@ + ANSI_RESET@
        + "\n"@
}

/// How long to wait before the next poll: for the interval, but not past the deadline.
pub open spec fn poll_sleep(now: int, deadline: int, interval: int) -> Result<int, LoginErrorView> {
    if now >= deadline {
        Err(timed_out())
    } else if interval <= deadline - now {
        Ok(interval)
    } else {
        Ok(deadline - now)
    }
}

/// What a poll led to.
pub ghost enum PollView {
    /// The access token.
    Token(Seq<char>),
    /// Poll again after that many seconds.
    Wait(int),
    /// Signing in failed.
    Failed(LoginErrorView),
}

/// What an error code in an answer leads to.
pub open spec fn polled_error(error: Seq<char>, answer: AccessTokenView, interval: u64) -> PollView {
    if error == "authorization_pending"@ {
        PollView::Wait(interval as int)
    } else if error == "slow_down"@ {
        match answer.interval {
            Some(seconds) => PollView::Wait(seconds as int),
            None => PollView::Wait(interval + SLOW_DOWN_SECONDS),
        }
    } else if error == "expired_token"@ {
        PollView::Failed(
            LoginErrorView {
                kind: LoginErrorKind::TimedOut,
                message:
                    "GitHub device authorization expired; run `codex login --github-copilot` again"@,
            },
        )
    } else if error == "access_denied"@ {
        PollView::Failed(
            LoginErrorView {
                kind: LoginErrorKind::PermissionDenied,
                message: "GitHub device authorization denied: "@ + error_details(
                    error,
                    answer.error_description,
                ),
            },
        )
    } else {
        PollView::Failed(
            other(
                "GitHub device authorization failed: "@ + error_details(
                    error,
                    answer.error_description,
                ),
            ),
        )
    }
}

/// What an answer leads to that holds neither a token nor an error code.
pub open spec fn polled_nothing(status: u16, body: Seq<char>) -> PollView {
    if is_success(status) {
        PollView::Failed(other("GitHub access token response did not include an access token"@))
    } else {
        PollView::Failed(
            other(
                "GitHub access token request failed with status "@ + status_words(status) + ": "@
                    + body,
            ),
        )
    }
}

/// What a reply to a request for the access token leads to. A token counts whatever else the answer
/// holds, an error code whatever the status is.
pub open spec fn polled(reply: TokenReplyView, interval: u64) -> PollView {
    match reply {
        TokenReplyView::Failed(text) => PollView::Failed(other(text)),
        TokenReplyView::Answered { status, body, parsed } => match parsed {
            Some(answer) => match answer.access_token {
                Some(token) => PollView::Token(token),
                None => match answer.error {
                    Some(error) => polled_error(error, answer, interval),
                    None => polled_nothing(status, body),
                },
            },
            None => polled_nothing(status, body),
        },
    }
}

/// Whether a reply asks to slow down and leaves open by how much.
pub open spec fn asks_to_slow_down(reply: TokenReplyView) -> bool {
    reply matches TokenReplyView::Answered { status, body, parsed } && parsed matches Some(answer)
        && answer.access_token is None && answer.error == Some("slow_down"@) && answer.interval
        is None
}

/// Whether the interval that a reply leads to stays in range.
pub open spec fn interval_fits(reply: TokenReplyView, interval: u64) -> bool {
    asks_to_slow_down(reply) ==> interval + SLOW_DOWN_SECONDS <= u64::MAX
}

/// The request for the access token.
pub open spec fn token_request(l: LoginView) -> LoginActionView {
    LoginActionView::RequestToken {
        url: l.options.access_token_url,
        user_agent: l.options.user_agent,
        client_id: l.options.client_id,
        device_code: l.device_code,
        grant_type: GITHUB_DEVICE_CODE_GRANT_TYPE@,
    }
}

/// The first piece of work of a sign-in.
pub open spec fn login_started(options: OptionsView) -> (LoginView, LoginActionView) {
    (
        LoginView {
            options,
            device_code: Seq::empty(),
            poll_interval: DEFAULT_POLL_INTERVAL_SECONDS,
            deadline: 0,
        },
        LoginActionView::RequestDeviceCode {
            url: options.device_code_url,
            user_agent: options.user_agent,
            client_id: options.client_id,
            scope: GITHUB_COPILOT_SCOPE@,
        },
    )
}

/// The device code in a reply, or why there is none.
pub open spec fn device_code_in(reply: DeviceReplyView) -> Result<DeviceCodeView, LoginErrorView> {
    match reply {
        DeviceReplyView::Failed(text) => Err(other(text)),
        DeviceReplyView::Answered { status, body, payload } => if is_success(status) {
            match payload {
                Ok(code) => Ok(code),
                Err(text) => Err(other(text)),
            }
        } else {
            Err(
                other(
                    "GitHub device code request failed with status "@ + status_words(status) + ": "@
                        + body,
                ),
            )
        },
    }
}

/// After the device code was asked for.
pub open spec fn after_device_code(l: LoginView, reply: DeviceReplyView) -> (
    LoginView,
    LoginActionView,
) {
    match device_code_in(reply) {
        Ok(code) => (
            LoginView { device_code: code.device_code, poll_interval: code.interval, ..l },
            LoginActionView::ShowPrompt {
                text: prompt(code.verification_uri, code.user_code, code.expires_in),
                expires_in: code.expires_in,
            },
        ),
        Err(e) => (l, LoginActionView::Finished(Err(e))),
    }
}

/// After the access token was asked for.
pub open spec fn after_poll(l: LoginView, reply: TokenReplyView, now: u64) -> (
    LoginView,
    LoginActionView,
) {
    match polled(reply, l.poll_interval) {
        PollView::Token(token) => (l, LoginActionView::Finished(Ok(token))),
        PollView::Failed(e) => (l, LoginActionView::Finished(Err(e))),
        PollView::Wait(seconds) => (
            LoginView { poll_interval: seconds as u64, ..l },
            match poll_sleep(now as int, l.deadline as int, seconds * NANOSECONDS_PER_SECOND) {
                Ok(nanoseconds) => LoginActionView::Sleep { nanoseconds: nanoseconds as u128 },
                Err(e) => LoginActionView::Finished(Err(e)),
            },
        ),
    }
}

/// The step that follows where `event` came while a sign-in waited for `pending`. An event that
/// does not belong to the pending work changes nothing.
pub open spec fn next_login_step(l: LoginView, pending: LoginActionView, event: LoginEventView) -> (
    LoginView,
    LoginActionView,
) {
    match (pending, event) {
        (LoginActionView::RequestDeviceCode { .. }, LoginEventView::DeviceCode(reply)) =>
            after_device_code(l, reply),
        (
            LoginActionView::ShowPrompt { text, expires_in },
            LoginEventView::PromptShown { now },
        ) => {
            let started = LoginView {
                deadline: (now + expires_in * NANOSECONDS_PER_SECOND) as u128,
                ..l
            };
            (started, token_request(started))
        },
        (LoginActionView::RequestToken { .. }, LoginEventView::Token { reply, now }) => after_poll(
            l,
            reply,
            now,
        ),
        (LoginActionView::Sleep { .. }, LoginEventView::Slept) => (l, token_request(l)),
        _ => (l, pending),
    }
}

/// The interval between polls where the server names none, in seconds.
pub fn default_poll_interval_seconds() -> (r: u64)
    ensures
        r == 5,
{
    DEFAULT_POLL_INTERVAL_SECONDS
}

/// How long a device code stays valid where the server does not say, in seconds.
pub fn default_expires_in_seconds() -> (r: u64)
    ensures
        r == 900,
{
    DEFAULT_EXPIRES_IN_SECONDS
}

/// An error code with its description, where that is not blank.
pub fn format_error_details(error: &str, error_description: Option<&str>) -> (r: String)
    ensures
        r@ == error_details(
            error@,
            match error_description {
                Some(text) => Some(text@),
                None => None,
            },
        ),
{
    if let Some(text) = error_description {
        let description = trim(text);
        if !description.is_empty() {
            return join3(error, ": ", description);
        }
    }
    error.to_string()
}

/// The device code in the reply to the request for one, or why there is none.
pub fn request_device_code(reply: DeviceCodeReply) -> (r: Result<DeviceCodeResponse, LoginError>)
    ensures
        match r {
            Ok(code) => device_code_in(reply@) == Ok::<DeviceCodeView, LoginErrorView>(code@),
            Err(e) => device_code_in(reply@) == Err::<DeviceCodeView, LoginErrorView>(e@),
        },
{
    match reply {
        DeviceCodeReply::Failed(text) => Err(
            LoginError { kind: LoginErrorKind::Other, message: text },
        ),
        DeviceCodeReply::Answered { status, body, payload } => {
            if is_success_status(status) {
                match payload {
                    Ok(code) => Ok(code),
                    Err(text) => Err(LoginError { kind: LoginErrorKind::Other, message: text }),
                }
            } else {
                let mut message = join3(
                    "GitHub device code request failed with status ",
                    status_text(status).as_str(),
                    ": ",
                );
                message.append(body.as_str());
                Err(LoginError { kind: LoginErrorKind::Other, message })
            }
        },
    }
}

/// What the user is shown.
pub fn device_code_prompt(verification_uri: &str, user_code: &str, expires_in_seconds: u64) -> (r:
    String)
    ensures
        r@ == prompt(verification_uri@, user_code@, expires_in_seconds),
{
    let expires_minutes: u64 = if expires_in_seconds >= 60 {
        expires_in_seconds / 60
    } else {
        1
    };
    let mut out = "\nWelcome to Codex [v".to_string();
    out.append(ANSI_GRAY);
    out.append(CLIENT_VERSION);
    out.append(ANSI_RESET);
    out.append("]\n");
    out.append(ANSI_GRAY);
    out.append("OpenAI's command-line coding agent");
    out.append(ANSI_RESET);
    out.append("\n\nFollow these steps to sign in with GitHub Copilot:\n");
    out.append("\n1. Open this link in your browser and authorize the Codex CLI\n   ");
    out.append(ANSI_BLUE);
    out.append(verification_uri);
    out.append(ANSI_RESET);
    out.append("\n\n2. Enter this one-time code ");
    out.append(ANSI_GRAY);
    out.append("(expires in about ");
    out.append(decimal_text(expires_minutes).as_str());
    out.append(" minutes)");
    out.append(ANSI_RESET);
    out.append("\n   ");
    out.append(ANSI_BLUE);
    out.append(user_code);
    out.append(ANSI_RESET);
    out.append("\n\n");
    out.append(ANSI_GRAY);
    out.append("Device codes are a common phishing target. Never share this code.");
    out.append(ANSI_RESET);
    out.append("\n");
    out
}

/// How long to wait before the next poll, all times in nanoseconds.
pub fn next_poll_sleep_duration(now: u128, deadline: u128, interval: u128) -> (r: Result<
    u128,
    LoginError,
>)
    ensures
        match r {
            Ok(nanoseconds) => poll_sleep(now as int, deadline as int, interval as int) == Ok::<
                int,
                LoginErrorView,
            >(nanoseconds as int),
            Err(e) => poll_sleep(now as int, deadline as int, interval as int) == Err::<
                int,
                LoginErrorView,
            >(e@),
        },
{
    if now >= deadline {
        return Err(
            LoginError {
                kind: LoginErrorKind::TimedOut,
                message: "GitHub device authorization timed out before completion".to_string(),
            },
        );
    }
    let left: u128 = deadline - now;
    if interval <= left {
        Ok(interval)
    } else {
        Ok(left)
    }
}

/// Whether the interval that a reply leads to stays in range, where polls were `interval` seconds
/// apart so far. Where it does not, the reply is not to be taken in.
pub fn interval_stays_in_range(reply: &TokenReply, interval: u64) -> (r: bool)
    ensures
        r == interval_fits(reply@, interval),
{
    let asks_to_slow_down = match reply {
        TokenReply::Answered { status: _, body: _, parsed: Some(answer) } => {
            let slow_down = match &answer.error {
                Some(error) => same_text(error.as_str(), "slow_down"),
                None => false,
            };
            slow_down && answer.access_token.is_none() && answer.interval.is_none()
        },
        _ => false,
    };
    !asks_to_slow_down || interval <= u64::MAX - SLOW_DOWN_SECONDS
}

/// What a poll led to.
#[derive(Debug)]
pub enum PollOutcome {
    /// The access token.
    Token(String),
    /// Poll again after that many seconds.
    Wait(u64),
    /// Signing in failed.
    Failed(LoginError),
}

impl View for PollOutcome {
    type V = PollView;

    open spec fn view(&self) -> PollView {
        match self {
            PollOutcome::Token(token) => PollView::Token(token@),
            PollOutcome::Wait(seconds) => PollView::Wait(*seconds as int),
            PollOutcome::Failed(e) => PollView::Failed(e@),
        }
    }
}

fn read_error(error: &str, answer: &AccessTokenResponse, interval: u64) -> (r: PollOutcome)
    requires
        error@ == "slow_down"@ && answer@.interval is None ==> interval + SLOW_DOWN_SECONDS
            <= u64::MAX,
    ensures
        r@ == polled_error(error@, answer@, interval),
{
    let description = match &answer.error_description {
        Some(text) => Some(text.as_str()),
        None => None,
    };
    if same_text(error, "authorization_pending") {
        PollOutcome::Wait(interval)
    } else if same_text(error, "slow_down") {
        match answer.interval {
            Some(seconds) => PollOutcome::Wait(seconds),
            None => PollOutcome::Wait(interval + SLOW_DOWN_SECONDS),
        }
    } else if same_text(error, "expired_token") {
        PollOutcome::Failed(
            LoginError {
                kind: LoginErrorKind::TimedOut,
                message:
                    "GitHub device authorization expired; run `codex login --github-copilot` again".to_string(),
            },
        )
    } else if same_text(error, "access_denied") {
        let details = format_error_details(error, description);
        PollOutcome::Failed(
            LoginError {
                kind: LoginErrorKind::PermissionDenied,
                message: join2("GitHub device authorization denied: ", details.as_str()),
            },
        )
    } else {
        let details = format_error_details(error, description);
        PollOutcome::Failed(
            LoginError {
                kind: LoginErrorKind::Other,
                message: join2("GitHub device authorization failed: ", details.as_str()),
            },
        )
    }
}

fn read_nothing(status: u16, body: &str) -> (r: PollOutcome)
    ensures
        r@ == polled_nothing(status, body@),
{
    if is_success_status(status) {
        PollOutcome::Failed(
            LoginError {
                kind: LoginErrorKind::Other,
                message: "GitHub access token response did not include an access token".to_string(),
            },
        )
    } else {
        let mut message = join3(
            "GitHub access token request failed with status ",
            status_text(status).as_str(),
            ": ",
        );
        message.append(body);
        PollOutcome::Failed(LoginError { kind: LoginErrorKind::Other, message })
    }
}

/// What a reply to a request for the access token leads to, where polls were `interval` seconds
/// apart so far.
pub fn read_token_reply(reply: TokenReply, interval: u64) -> (r: PollOutcome)
    requires
        interval_fits(reply@, interval),
    ensures
        r@ == polled(reply@, interval),
{
    match reply {
        TokenReply::Failed(text) => PollOutcome::Failed(
            LoginError { kind: LoginErrorKind::Other, message: text },
        ),
        TokenReply::Answered { status, body, parsed } => {
            if let Some(answer) = parsed {
                if let Some(token) = answer.access_token {
                    return PollOutcome::Token(token);
                }
                if let Some(error) = &answer.error {
                    return read_error(error.as_str(), &answer, interval);
                }
            }
            read_nothing(status, body.as_str())
        },
    }
}

/// Starts a sign-in with GitHub.
pub fn run_github_copilot_login() -> (r: (GithubCopilotLogin, LoginAction))
    ensures
        (r.0@, r.1@) == login_started(default_options()),
{
    run_github_copilot_login_with_options(GithubCopilotDeviceAuthOptions::default())
}

/// Starts a sign-in with the given options.
pub fn run_github_copilot_login_with_options(options: GithubCopilotDeviceAuthOptions) -> (r: (
    GithubCopilotLogin,
    LoginAction,
))
    ensures
        (r.0@, r.1@) == login_started(options@),
{
    let action = LoginAction::RequestDeviceCode {
        url: options.device_code_url.clone(),
        user_agent: options.user_agent.clone(),
        client_id: options.client_id.clone(),
        scope: GITHUB_COPILOT_SCOPE.to_string(),
    };
    let login = GithubCopilotLogin {
        options,
        device_code: String::new(),
        poll_interval: DEFAULT_POLL_INTERVAL_SECONDS,
        deadline: 0,
    };
    assert(login.device_code@ =~= Seq::empty());
    (login, action)
}

impl GithubCopilotLogin {
    fn request_token(&self) -> (r: LoginAction)
        ensures
            r@ == token_request(self@),
    {
        LoginAction::RequestToken {
            url: self.options.access_token_url.clone(),
            user_agent: self.options.user_agent.clone(),
            client_id: self.options.client_id.clone(),
            device_code: self.device_code.clone(),
            grant_type: GITHUB_DEVICE_CODE_GRANT_TYPE.to_string(),
        }
    }

    fn take_device_code(&mut self, reply: DeviceCodeReply) -> (r: LoginAction)
        ensures
            (final(self)@, r@) == after_device_code(old(self)@, reply@),
    {
        match request_device_code(reply) {
            Ok(code) => {
                let text = device_code_prompt(
                    code.verification_uri.as_str(),
                    code.user_code.as_str(),
                    code.expires_in,
                );
                self.poll_interval = code.interval;
                self.device_code = code.device_code;
                LoginAction::ShowPrompt { text, expires_in: code.expires_in }
            },
            Err(e) => LoginAction::Finished(Err(e)),
        }
    }

    /// Takes in what a poll for the access token brought.
    pub fn poll_for_access_token(&mut self, reply: TokenReply, now: u64) -> (r: LoginAction)
        requires
            interval_fits(reply@, old(self)@.poll_interval),
        ensures
            (final(self)@, r@) == after_poll(old(self)@, reply@, now),
    {
        match read_token_reply(reply, self.poll_interval) {
            PollOutcome::Token(token) => LoginAction::Finished(Ok(token)),
            PollOutcome::Failed(e) => LoginAction::Finished(Err(e)),
            PollOutcome::Wait(seconds) => {
                self.poll_interval = seconds;
                let interval: u128 = seconds as u128 * NANOSECONDS_PER_SECOND;
                match next_poll_sleep_duration(now as u128, self.deadline, interval) {
                    Ok(nanoseconds) => LoginAction::Sleep { nanoseconds },
                    Err(e) => LoginAction::Finished(Err(e)),
                }
            },
        }
    }

    /// Goes on with a sign-in that waited for `pending`, now that `event` came.
    pub fn resume_login(&mut self, pending: LoginAction, event: LoginEvent) -> (r: LoginAction)
        requires
            event@ matches LoginEventView::Token { reply, now } ==> interval_fits(
                reply,
                old(self)@.poll_interval,
            ),
        ensures
            (final(self)@, r@) == next_login_step(old(self)@, pending@, event@),
    {
        match (pending, event) {
            (LoginAction::RequestDeviceCode { .. }, LoginEvent::DeviceCode(reply)) => {
                self.take_device_code(reply)
            },
            (LoginAction::ShowPrompt { text: _, expires_in }, LoginEvent::PromptShown { now }) => {
                self.deadline = now as u128 + expires_in as u128 * NANOSECONDS_PER_SECOND;
                self.request_token()
            },
            (LoginAction::RequestToken { .. }, LoginEvent::Token { reply, now }) => {
                self.poll_for_access_token(reply, now)
            },
            (LoginAction::Sleep { .. }, LoginEvent::Slept) => self.request_token(),
            (pending, _) => pending,
        }
    }
}

/// A wait before the next poll is no longer than the interval, and ends no later than the device
/// code goes stale. Once it has gone stale there is none.
pub proof fn law_sleep_ends_by_the_deadline(now: int, deadline: int, interval: int)
    requires
        interval >= 0,
    ensures
        match poll_sleep(now, deadline, interval) {
            Ok(wait) => now < deadline && 0 <= wait <= interval && now + wait <= deadline && (wait
                == interval || now + wait == deadline),
            Err(e) => now >= deadline && e == timed_out(),
        },
{
}

/// Where a sign-in stands after the events.
pub open spec fn login_after(l: LoginView, pending: LoginActionView, events: Seq<LoginEventView>) -> (
    LoginView,
    LoginActionView,
)
    decreases events.len(),
{
    if events.len() == 0 {
        (l, pending)
    } else {
        let (now, action) = login_after(l, pending, events.drop_last());
        next_login_step(now, action, events.last())
    }
}

/// Whether a reply brings the token.
pub open spec fn brings_token(event: LoginEventView, token: Seq<char>) -> bool {
    event matches LoginEventView::Token { reply, now }
        && reply matches TokenReplyView::Answered { status, body, parsed }
        && parsed matches Some(answer) && answer.access_token == Some(token)
}

/// A token in an answer ends the sign-in with it, whatever else the answer holds and however late
/// it is.
pub proof fn law_token_ends_the_login(
    l: LoginView,
    pending: LoginActionView,
    event: LoginEventView,
    token: Seq<char>,
)
    requires
        pending is RequestToken,
        brings_token(event, token),
    ensures
        next_login_step(l, pending, event) == (l, LoginActionView::Finished(Ok(token))),
{
}

/// A sign-in succeeds only with a token that an answer brought.
pub proof fn law_success_needs_a_token(
    options: OptionsView,
    events: Seq<LoginEventView>,
    token: Seq<char>,
)
    requires
        login_after(login_started(options).0, login_started(options).1, events).1
            == LoginActionView::Finished(Ok(token)),
    ensures
        exists|i: int| 0 <= i < events.len() && brings_token(#[trigger] events[i], token),
    decreases events.len(),
{
    let (start, first) = login_started(options);
    if events.len() > 0 {
        let short = events.drop_last();
        let (now, action) = login_after(start, first, short);
        if action == LoginActionView::Finished(Ok(token)) {
            law_success_needs_a_token(options, short, token);
            let i = choose|i: int| 0 <= i < short.len() && brings_token(#[trigger] short[i], token);
            assert(events[i] == short[i]);
        } else {
            assert(brings_token(events[events.len() - 1], token));
        }
    }
}

/// What has ended stays ended, and the options stay as they were given.
pub proof fn law_login_is_stable(
    l: LoginView,
    pending: LoginActionView,
    event: LoginEventView,
)
    ensures
        pending is Finished ==> next_login_step(l, pending, event) == (l, pending),
        next_login_step(l, pending, event).0.options == l.options,
{
}

/// While the user has not answered yet, the interval between polls stays. A request to slow down
/// sets the interval that it names, or adds five seconds where it names none. From the deadline on,
/// either ends the sign-in; before it, the next poll follows after the interval or at the deadline,
/// whichever comes first.
pub proof fn law_polling_goes_on_until_the_deadline(
    l: LoginView,
    answer: AccessTokenView,
    status: u16,
    body: Seq<char>,
    now: u64,
)
    requires
        answer.access_token is None,
        answer.error == Some("authorization_pending"@) || answer.error == Some("slow_down"@),
        interval_fits(
            TokenReplyView::Answered { status, body, parsed: Some(answer) },
            l.poll_interval,
        ),
    ensures
        ({
            let reply = TokenReplyView::Answered { status, body, parsed: Some(answer) };
            let (after, action) = after_poll(l, reply, now);
            let wait = after.poll_interval * NANOSECONDS_PER_SECOND;
            &&& after == (LoginView { poll_interval: after.poll_interval, ..l })
            &&& answer.error == Some("authorization_pending"@) ==> after.poll_interval
                == l.poll_interval
            &&& answer.error == Some("slow_down"@) ==> match answer.interval {
                Some(seconds) => after.poll_interval == seconds,
                None => after.poll_interval == l.poll_interval + 5,
            }
            &&& now >= l.deadline ==> action == LoginActionView::Finished(Err(timed_out()))
            &&& now < l.deadline ==> action is Sleep && action->nanoseconds == if wait <= l.deadline
                - now {
                wait
            } else {
                l.deadline - now
            }
        }),
{
    reveal_strlit("authorization_pending");
    reveal_strlit("slow_down");
    assert("authorization_pending"@.len() != "slow_down"@.len());
}

} // verus!

//! What a sign-in by device code promises, from the first request to its end.

use vstd::prelude::*;
use vstd::string::*;

use crate::device_auth::default_options;
use crate::device_auth::device_code_in;
use crate::device_auth::error_details;
use crate::device_auth::interval_fits;
use crate::device_auth::login_after;
use crate::device_auth::login_started;
use crate::device_auth::next_login_step;
use crate::device_auth::poll_sleep;
use crate::device_auth::polled;
use crate::device_auth::prompt;
use crate::device_auth::AccessTokenResponse;
use crate::device_auth::AccessTokenView;
use crate::device_auth::DeviceCodeReply;
use crate::device_auth::DeviceCodeResponse;
use crate::device_auth::DeviceCodeView;
use crate::device_auth::DeviceReplyView;
use crate::device_auth::GithubCopilotDeviceAuthOptions;
use crate::device_auth::GithubCopilotLogin;
use crate::device_auth::LoginAction;
use crate::device_auth::LoginActionView;
use crate::device_auth::LoginError;
use crate::device_auth::LoginErrorView;
use crate::device_auth::LoginEvent;
use crate::device_auth::LoginEventView;
use crate::device_auth::LoginView;
use crate::device_auth::OptionsView;
use crate::device_auth::PollOutcome;
use crate::device_auth::PollView;
use crate::device_auth::TokenReply;
use crate::device_auth::TokenReplyView;
use crate::exchange::status_words;
use crate::text::decimal;
use crate::text::opt_text;
use crate::text::space;
use crate::text::trim_by;

verus! {

/// The options for GitHub itself.
pub proof fn law_github_options()
    ensures
        default_options().client_id == "Ov23li8tweQw6odWQebz"@,
        default_options().device_code_url == "https://github.com/login/device/code"@,
        default_options().access_token_url == "https://github.com/login/oauth/access_token"@,
        default_options().user_agent == "codex/0.1.0"@,
{
    reveal_strlit("codex/");
    reveal_strlit("0.1.0");
    reveal_strlit("codex/0.1.0");
    assert("codex/"@ + "0.1.0"@ =~= "codex/0.1.0"@);
}

/// A sign-in begins with a request for a device code that may read the user, as the client and at the
/// address that the options name. There is no code yet and no time in which it is valid.
pub proof fn law_login_begins(options: OptionsView)
    ensures
        login_started(options).0.options == options,
        login_started(options).0.device_code.len() == 0,
        login_started(options).0.poll_interval == 5,
        login_started(options).0.deadline == 0,
        match login_started(options).1 {
            LoginActionView::RequestDeviceCode { url, user_agent, client_id, scope } => {
                &&& url == options.device_code_url
                &&& user_agent == options.user_agent
                &&& client_id == options.client_id
                &&& scope == "read:user"@
            },
            _ => false,
        },
{
}

/// A failure of the general kind with the message.
pub open spec fn general_failure(e: LoginErrorView, message: Seq<char>) -> bool {
    e.kind is Other && e.message == message
}

/// A request for a device code brings the code where the status is a success and the answer can be
/// read. Else it fails with the reason at hand.
pub proof fn law_device_code_reply(
    status: u16,
    body: Seq<char>,
    code: DeviceCodeView,
    reason: Seq<char>,
    payload: Result<DeviceCodeView, Seq<char>>,
)
    ensures
        200 <= status < 300 ==> device_code_in(
            DeviceReplyView::Answered { status, body, payload: Ok(code) },
        ) == Ok::<DeviceCodeView, LoginErrorView>(code),
        200 <= status < 300 ==> match device_code_in(
            DeviceReplyView::Answered { status, body, payload: Err(reason) },
        ) {
            Ok(_) => false,
            Err(e) => general_failure(e, reason),
        },
        !(200 <= status < 300) ==> match device_code_in(
            DeviceReplyView::Answered { status, body, payload },
        ) {
            Ok(_) => false,
            Err(e) => general_failure(
                e,
                "GitHub device code request failed with status "@ + status_words(status) + ": "@
                    + body,
            ),
        },
        match device_code_in(DeviceReplyView::Failed(reason)) {
            Ok(_) => false,
            Err(e) => general_failure(e, reason),
        },
{
}

/// Where no device code comes, the sign-in ends with the reason.
pub proof fn law_no_device_code_ends_the_login(l: LoginView, p: LoginActionView, reply: DeviceReplyView)
    requires
        p is RequestDeviceCode,
        device_code_in(reply) is Err,
    ensures
        next_login_step(l, p, LoginEventView::DeviceCode(reply)) == (
            l,
            LoginActionView::Finished(Err(device_code_in(reply)->Err_0)),
        ),
{
}

/// The prompt names the address, the code and how many whole minutes the code stays valid, where a
/// part of a first minute counts as one.
pub proof fn law_prompt(uri: Seq<char>, code: Seq<char>, expires_in: u64, minutes: nat)
    requires
        minutes >= 1,
        expires_in < 60 ==> minutes == 1,
        expires_in >= 60 ==> minutes * 60 <= expires_in < (minutes + 1) * 60,
    ensures
        prompt(uri, code, expires_in) == "\nWelcome to Codex [v"@ + "\x1b[90m"@ + "0.1.0"@
            + "\x1b[0m"@ + "]\n"@ + "\x1b[90m"@ + "OpenAI's command-line coding agent"@
            + "\x1b[0m"@ + "\n\nFollow these steps to sign in with GitHub Copilot:\n"@
            + "\n1. Open this link in your browser and authorize the Codex CLI\n   "@
            + "\x1b[94m"@ + uri + "\x1b[0m"@ + "\n\n2. Enter this one-time code "@ + "\x1b[90m"@
            + "(expires in about "@ + decimal(minutes) + " minutes)"@ + "\x1b[0m"@ + "\n   "@
            + "\x1b[94m"@ + code + "\x1b[0m"@ + "\n\n"@ + "\x1b[90m"@
            + "Device codes are a common phishing target. Never share this code."@ + "\x1b[0m"@
            + "\n"@,
{
    assert(crate::device_auth::minutes_shown(expires_in) == minutes);
}

/// The request for the token that a sign-in makes for a device code.
pub open spec fn asks_for_token(
    action: LoginActionView,
    options: OptionsView,
    device_code: Seq<char>,
) -> bool {
    action matches LoginActionView::RequestToken {
        url,
        user_agent,
        client_id,
        device_code: sent,
        grant_type,
    } && url == options.access_token_url && user_agent == options.user_agent && client_id
        == options.client_id && sent == device_code && grant_type
        == "urn:ietf:params:oauth:grant-type:device_code"@
}

/// A device code is kept with its interval, and shown. Once it was shown, it is good for the time that
/// was shown with it, and the token is asked for. Nothing else changes.
pub proof fn law_code_is_shown(
    l: LoginView,
    pending: LoginActionView,
    reply: DeviceReplyView,
    text: Seq<char>,
    expires_in: u64,
    now: u64,
)
    requires
        pending is RequestDeviceCode,
    ensures
        device_code_in(reply) is Ok ==> ({
            let code = device_code_in(reply)->Ok_0;
            let (after, action) = next_login_step(l, pending, LoginEventView::DeviceCode(reply));
            &&& after == (LoginView {
                device_code: code.device_code,
                poll_interval: code.interval,
                ..l
            })
            &&& action is ShowPrompt
            &&& action->text == prompt(code.verification_uri, code.user_code, code.expires_in)
            &&& action->expires_in == code.expires_in
        }),
        ({
            let (after, action) = next_login_step(
                l,
                LoginActionView::ShowPrompt { text, expires_in },
                LoginEventView::PromptShown { now },
            );
            &&& after == (LoginView { deadline: after.deadline, ..l })
            &&& after.deadline == now + expires_in * 1_000_000_000
            &&& asks_for_token(action, l.options, l.device_code)
        }),
{
}

/// The answer that brings a device code.
pub open spec fn code_arrives(status: u16, body: Seq<char>, code: DeviceCodeView) -> LoginEventView {
    LoginEventView::DeviceCode(DeviceReplyView::Answered { status, body, payload: Ok(code) })
}

/// A device code is shown with its lifetime. Once it was shown, at `shown`, the sign-in asks for the
/// token, and goes on for the whole lifetime of the code, counted from then: no less and no more,
/// however long that is. Polls are as far apart as the code says.
pub proof fn law_code_is_polled_for_its_lifetime(
    options: OptionsView,
    status: u16,
    body: Seq<char>,
    code: DeviceCodeView,
    shown: u64,
)
    requires
        200 <= status < 300,
    ensures
        ({
            let (l, first) = login_started(options);
            let arrival = code_arrives(status, body, code);
            let (before, to_show) = login_after(l, first, seq![arrival]);
            let (polling, action) = login_after(
                l,
                first,
                seq![arrival, LoginEventView::PromptShown { now: shown }],
            );
            &&& to_show matches LoginActionView::ShowPrompt { text, expires_in } && text == prompt(
                code.verification_uri,
                code.user_code,
                code.expires_in,
            ) && expires_in == code.expires_in
            &&& asks_for_token(action, options, code.device_code)
            &&& polling.options == options
            &&& polling.device_code == code.device_code
            &&& polling.poll_interval == code.interval
            &&& polling.deadline == shown + code.expires_in * 1_000_000_000
        }),
{
    let (l, first) = login_started(options);
    let arrival = code_arrives(status, body, code);
    let shown_event = LoginEventView::PromptShown { now: shown };
    reveal_with_fuel(login_after, 3);
    assert(seq![arrival].drop_last() =~= Seq::<LoginEventView>::empty());
    assert(seq![arrival, shown_event].drop_last() =~= seq![arrival]);
}

/// A reply with an error code and no token.
pub open spec fn answers_error(
    status: u16,
    body: Seq<char>,
    error: Seq<char>,
    description: Option<Seq<char>>,
    interval: Option<u64>,
) -> TokenReplyView {
    TokenReplyView::Answered {
        status,
        body,
        parsed: Some(
            AccessTokenView {
                access_token: None,
                error: Some(error),
                error_description: description,
                interval,
            },
        ),
    }
}

/// While the user has not answered, the sign-in waits and asks again until the lifetime of the code,
/// counted from when it was shown, is over. A wait is the interval of the code, or what is left of
/// the lifetime. Once it is over, the sign-in has timed out.
pub proof fn law_pending_answer_within_the_lifetime(
    options: OptionsView,
    status: u16,
    body: Seq<char>,
    code: DeviceCodeView,
    shown: u64,
    poll_status: u16,
    poll_body: Seq<char>,
    description: Option<Seq<char>>,
    named: Option<u64>,
    now: u64,
)
    requires
        200 <= status < 300,
    ensures
        ({
            let (l, first) = login_started(options);
            let reply = answers_error(
                poll_status,
                poll_body,
                "authorization_pending"@,
                description,
                named,
            );
            let events = seq![
                code_arrives(status, body, code),
                LoginEventView::PromptShown { now: shown },
                LoginEventView::Token { reply, now },
            ];
            let (_, action) = login_after(l, first, events);
            let (_, again) = login_after(l, first, events.push(LoginEventView::Slept));
            let left = shown + code.expires_in * 1_000_000_000 - now;
            &&& left > 0 ==> {
                &&& action matches LoginActionView::Sleep { nanoseconds } && nanoseconds == if left
                    < code.interval * 1_000_000_000 {
                    left
                } else {
                    code.interval * 1_000_000_000
                }
                &&& asks_for_token(again, options, code.device_code)
            }
            &&& left <= 0 ==> match action {
                LoginActionView::Finished(Err(e)) => e.kind is TimedOut && e.message
                    == "GitHub device authorization timed out before completion"@,
                _ => false,
            }
        }),
{
    let (l, first) = login_started(options);
    let reply = answers_error(
        poll_status,
        poll_body,
        "authorization_pending"@,
        description,
        named,
    );
    let start = seq![
        code_arrives(status, body, code),
        LoginEventView::PromptShown { now: shown },
    ];
    let events = seq![
        code_arrives(status, body, code),
        LoginEventView::PromptShown { now: shown },
        LoginEventView::Token { reply, now },
    ];
    law_code_is_polled_for_its_lifetime(options, status, body, code, shown);
    assert(events.drop_last() =~= start);
    assert(events.push(LoginEventView::Slept).drop_last() =~= events);
}

/// Once the token is asked for, the deadline and the device code stay as they are, whatever comes.
pub proof fn law_deadline_stays(l: LoginView, pending: LoginActionView, events: Seq<LoginEventView>)
    requires
        pending is RequestToken || pending is Sleep || pending is Finished,
    ensures
        login_after(l, pending, events).0.deadline == l.deadline,
        login_after(l, pending, events).0.device_code == l.device_code,
        login_after(l, pending, events).0.options == l.options,
        ({
            let action = login_after(l, pending, events).1;
            action is RequestToken || action is Sleep || action is Finished
        }),
    decreases events.len(),
{
    if events.len() > 0 {
        law_deadline_stays(l, pending, events.drop_last());
    }
}

/// A request to slow down sets the interval that it names, or adds five seconds to the one before;
/// a pending answer keeps it. Any other error code ends the polls, for the reason that it gives.
pub proof fn law_error_codes(
    status: u16,
    body: Seq<char>,
    error: Seq<char>,
    description: Option<Seq<char>>,
    named: Option<u64>,
    interval: u64,
)
    ensures
        ({
            let outcome = polled(
                answers_error(status, body, error, description, named),
                interval,
            );
            &&& error == "authorization_pending"@ ==> outcome == PollView::Wait(interval as int)
            &&& error == "slow_down"@ && named is Some ==> outcome == PollView::Wait(
                named->0 as int,
            )
            &&& error == "slow_down"@ && named is None ==> outcome == PollView::Wait(interval + 5)
            &&& error == "expired_token"@ ==> match outcome {
                PollView::Failed(e) => e.kind is TimedOut && e.message
                    == "GitHub device authorization expired; run `codex login --github-copilot` again"@,
                _ => false,
            }
            &&& error == "access_denied"@ ==> match outcome {
                PollView::Failed(e) => e.kind is PermissionDenied && e.message
                    == "GitHub device authorization denied: "@ + error_details(error, description),
                _ => false,
            }
            &&& error != "authorization_pending"@ && error != "slow_down"@ && error
                != "expired_token"@ && error != "access_denied"@ ==> match outcome {
                PollView::Failed(e) => general_failure(
                    e,
                    "GitHub device authorization failed: "@ + error_details(error, description),
                ),
                _ => false,
            }
        }),
{
    reveal_strlit("authorization_pending");
    reveal_strlit("slow_down");
    reveal_strlit("expired_token");
    reveal_strlit("access_denied");
    assert("authorization_pending"@.len() == 21);
    assert("slow_down"@.len() == 9);
    assert("expired_token"@.len() == 13);
    assert("access_denied"@.len() == 13);
    assert("expired_token"@[0] == 'e');
    assert("access_denied"@[0] == 'a');
}

/// A token counts whatever else the answer holds. An answer with neither a token nor an error code,
/// or one that cannot be read, and an exchange that failed, end the polls.
pub proof fn law_other_answers(
    status: u16,
    body: Seq<char>,
    token: Seq<char>,
    error: Option<Seq<char>>,
    description: Option<Seq<char>>,
    named: Option<u64>,
    interval: u64,
    reason: Seq<char>,
)
    ensures
        polled(
            TokenReplyView::Answered {
                status,
                body,
                parsed: Some(
                    AccessTokenView {
                        access_token: Some(token),
                        error,
                        error_description: description,
                        interval: named,
                    },
                ),
            },
            interval,
        ) == PollView::Token(token),
        match polled(TokenReplyView::Failed(reason), interval) {
            PollView::Failed(e) => general_failure(e, reason),
            _ => false,
        },
        match polled(TokenReplyView::Answered { status, body, parsed: None }, interval) {
            PollView::Failed(e) => general_failure(
                e,
                if 200 <= status < 300 {
                    "GitHub access token response did not include an access token"@
                } else {
                    "GitHub access token request failed with status "@ + status_words(status)
                        + ": "@ + body
                },
            ),
            _ => false,
        },
        polled(
            TokenReplyView::Answered {
                status,
                body,
                parsed: Some(
                    AccessTokenView {
                        access_token: None,
                        error: None,
                        error_description: description,
                        interval: named,
                    },
                ),
            },
            interval,
        ) == polled(TokenReplyView::Answered { status, body, parsed: None }, interval),
{
}

/// A poll ends the sign-in with the token or the failure that it led to. Where it led to a wait, the
/// next one follows after it, unless the deadline comes first.
pub proof fn law_poll_decides(l: LoginView, pending: LoginActionView, reply: TokenReplyView, now: u64)
    requires
        pending is RequestToken,
    ensures
        ({
            let (after, action) = next_login_step(
                l,
                pending,
                LoginEventView::Token { reply, now },
            );
            match polled(reply, l.poll_interval) {
                PollView::Token(token) => after == l && action == LoginActionView::Finished(
                    Ok(token),
                ),
                PollView::Failed(e) => after == l && action == LoginActionView::Finished(Err(e)),
                PollView::Wait(seconds) => 0 <= seconds <= u64::MAX ==> {
                    &&& after == (LoginView { poll_interval: seconds as u64, ..l })
                    &&& now < l.deadline ==> action is Sleep && action->nanoseconds == if l.deadline - now < seconds * 1_000_000_000 {
                        l.deadline - now
                    } else {
                        seconds * 1_000_000_000
                    }
                    &&& now >= l.deadline ==> match action {
                        LoginActionView::Finished(Err(e)) => e.kind is TimedOut && e.message
                            == "GitHub device authorization timed out before completion"@,
                        _ => false,
                    }
                },
            }
        }),
{
}

/// After a wait the token is asked for again, with nothing changed.
pub proof fn law_wait_is_followed_by_a_poll(l: LoginView, pending: LoginActionView)
    requires
        pending is Sleep,
    ensures
        next_login_step(l, pending, LoginEventView::Slept).0 == l,
        asks_for_token(
            next_login_step(l, pending, LoginEventView::Slept).1,
            l.options,
            l.device_code,
        ),
{
}

/// An event that does not answer the pending work changes nothing.
pub proof fn law_stray_events(l: LoginView, pending: LoginActionView, event: LoginEventView)
    requires
        !(pending is RequestDeviceCode && event is DeviceCode),
        !(pending is ShowPrompt && event is PromptShown),
        !(pending is RequestToken && event is Token),
        !(pending is Sleep && event is Slept),
    ensures
        next_login_step(l, pending, event) == (l, pending),
{
}

/// A wait before the next poll is the shorter of the interval and the time that is left. Where none is
/// left there is no wait.
pub proof fn law_wait(now: int, deadline: int, interval: int)
    ensures
        now < deadline && interval <= deadline - now ==> poll_sleep(now, deadline, interval) == Ok::<
            int,
            LoginErrorView,
        >(interval),
        now < deadline && interval > deadline - now ==> poll_sleep(now, deadline, interval) == Ok::<
            int,
            LoginErrorView,
        >(deadline - now),
        now >= deadline ==> match poll_sleep(now, deadline, interval) {
            Ok(_) => false,
            Err(e) => e.kind is TimedOut && e.message
                == "GitHub device authorization timed out before completion"@,
        },
{
}

/// An error code stands alone where its description is blank or missing; else the description, without
/// the white space around it, follows.
pub proof fn law_error_details(error: Seq<char>, description: Seq<char>)
    ensures
        error_details(error, None) == error,
        trim_by(description, space()).len() == 0 ==> error_details(error, Some(description))
            == error,
        trim_by(description, space()).len() > 0 ==> error_details(error, Some(description)) == error
            + ": "@ + trim_by(description, space()),
{
}

/// The interval that an answer leads to stays in range, but where a request to slow down that names
/// none adds five seconds to one that has no room for them.
pub proof fn law_interval_range(
    status: u16,
    body: Seq<char>,
    answer: AccessTokenView,
    interval: u64,
    reason: Seq<char>,
)
    ensures
        interval_fits(TokenReplyView::Failed(reason), interval),
        interval_fits(TokenReplyView::Answered { status, body, parsed: None }, interval),
        !interval_fits(TokenReplyView::Answered { status, body, parsed: Some(answer) }, interval)
            <==> answer.access_token is None && answer.error == Some("slow_down"@)
            && answer.interval is None && interval > 0xffff_ffff_ffff_ffff - 5,
{
}

/// Options, codes, answers, errors and sign-ins are seen with all that they hold.
pub proof fn law_login_views(
    o: GithubCopilotDeviceAuthOptions,
    c: DeviceCodeResponse,
    a: AccessTokenResponse,
    e: LoginError,
    l: GithubCopilotLogin,
)
    ensures
        o@.client_id == o.client_id@,
        o@.device_code_url == o.device_code_url@,
        o@.access_token_url == o.access_token_url@,
        o@.user_agent == o.user_agent@,
        c@.device_code == c.device_code@,
        c@.user_code == c.user_code@,
        c@.verification_uri == c.verification_uri@,
        c@.interval == c.interval,
        c@.expires_in == c.expires_in,
        a@.access_token == opt_text(a.access_token),
        a@.error == opt_text(a.error),
        a@.error_description == opt_text(a.error_description),
        a@.interval == a.interval,
        e@.kind == e.kind,
        e@.message == e.message@,
        l@.options == l.options@,
        l@.device_code == l.device_code@,
        l@.poll_interval == l.poll_interval,
        l@.deadline == l.deadline,
{
}

/// Replies, events, actions and outcomes are seen with all that they hold.
pub proof fn law_login_step_views(
    d: DeviceCodeReply,
    t: TokenReply,
    e: LoginEvent,
    a: LoginAction,
    p: PollOutcome,
)
    ensures
        match (d, d@) {
            (DeviceCodeReply::Failed(x), DeviceReplyView::Failed(y)) => x@ == y,
            (
                DeviceCodeReply::Answered { status, body, payload },
                DeviceReplyView::Answered { status: s, body: b, payload: q },
            ) => status == s && body@ == b && match (payload, q) {
                (Ok(x), Ok(y)) => x@ == y,
                (Err(x), Err(y)) => x@ == y,
                _ => false,
            },
            _ => false,
        },
        match (t, t@) {
            (TokenReply::Failed(x), TokenReplyView::Failed(y)) => x@ == y,
            (
                TokenReply::Answered { status, body, parsed },
                TokenReplyView::Answered { status: s, body: b, parsed: q },
            ) => status == s && body@ == b && match (parsed, q) {
                (Some(x), Some(y)) => x@ == y,
                (None, None) => true,
                _ => false,
            },
            _ => false,
        },
        match (e, e@) {
            (LoginEvent::DeviceCode(x), LoginEventView::DeviceCode(y)) => x@ == y,
            (LoginEvent::PromptShown { now: x }, LoginEventView::PromptShown { now: y }) => x == y,
            (
                LoginEvent::Token { reply: x, now: u },
                LoginEventView::Token { reply: y, now: v },
            ) => x@ == y && u == v,
            (LoginEvent::Slept, LoginEventView::Slept) => true,
            _ => false,
        },
        match (a, a@) {
            (
                LoginAction::RequestDeviceCode { url, user_agent, client_id, scope },
                LoginActionView::RequestDeviceCode {
                    url: u,
                    user_agent: g,
                    client_id: c,
                    scope: s,
                },
            ) => url@ == u && user_agent@ == g && client_id@ == c && scope@ == s,
            (
                LoginAction::ShowPrompt { text: x, expires_in: u },
                LoginActionView::ShowPrompt { text: y, expires_in: v },
            ) => x@ == y && u == v,
            (
                LoginAction::RequestToken { url, user_agent, client_id, device_code, grant_type },
                LoginActionView::RequestToken {
                    url: u,
                    user_agent: g,
                    client_id: c,
                    device_code: v,
                    grant_type: w,
                },
            ) => url@ == u && user_agent@ == g && client_id@ == c && device_code@ == v
                && grant_type@ == w,
            (
                LoginAction::Sleep { nanoseconds: x },
                LoginActionView::Sleep { nanoseconds: y },
            ) => x == y,
            (LoginAction::Finished(x), LoginActionView::Finished(y)) => match (x, y) {
                (Ok(token), Ok(seen)) => token@ == seen,
                (Err(failure), Err(seen)) => failure@ == seen,
                _ => false,
            },
            _ => false,
        },
        match (p, p@) {
            (PollOutcome::Token(x), PollView::Token(y)) => x@ == y,
            (PollOutcome::Wait(x), PollView::Wait(y)) => x == y,
            (PollOutcome::Failed(x), PollView::Failed(y)) => x@ == y,
            _ => false,
        },
{
}

} // verus!

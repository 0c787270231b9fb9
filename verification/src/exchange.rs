//! What requests for listings are made of, and how the answers to them are read.

use vstd::prelude::*;
use vstd::string::*;

use crate::manager::CodexErr;
use crate::manager::CodexErrView;
use crate::manager::ModelsManager;
use crate::outside::display_status;
use crate::outside::first_header;
use crate::outside::header_fields;
use crate::outside::remove_header;
use crate::outside::status_display;
use crate::text::decimal;
use crate::text::decimal_text;
use crate::text::ends_with;
use crate::text::join2;
use crate::text::join3;
use crate::text::only;
use crate::text::opt_text;
use crate::text::trim_end_by;
use crate::text::trim_end_char;

verus! {

/// The headers of a request for GitHub Copilot's listing are those of the provider without this
/// one: it narrows the listing to the models that suit the declared intent.
pub const OPENAI_INTENT_HEADER: &'static str = "openai-intent";

/// The header with the version tag of an answer.
pub const ETAG_HEADER: &'static str = "etag";

/// How long the answer to a request for a listing may take, in seconds.
pub const MODELS_REFRESH_TIMEOUT_SECONDS: u64 = 5;

/// Where an API under `base` lists its models.
pub open spec fn listing_url(base: Seq<char>) -> Seq<char> {
    trim_end_by(base, only('/')) + "/models"@
}

/// Where the Ollama server whose OpenAI-compatible API is under `base` lists its models.
pub open spec fn tags_url(base: Seq<char>) -> Seq<char> {
    let trimmed = trim_end_by(base, only('/'));
    if "/v1"@.is_suffix_of(trimmed) {
        trimmed.take(trimmed.len() - 3) + "/api/tags"@
    } else {
        trimmed + "/api/tags"@
    }
}

/// Whether a byte of a header is a visible character of ASCII, a space or a tab.
pub open spec fn is_visible(b: u8) -> bool {
    32 <= b < 127 || b == 9
}

/// The text of a header value, where each of its bytes is visible.
pub open spec fn header_text(value: Seq<u8>) -> Option<Seq<char>> {
    if forall|i: int| 0 <= i < value.len() ==> is_visible(#[trigger] value[i]) {
        Some(value.map_values(|b: u8| b as char))
    } else {
        None
    }
}

/// The version tag in the headers of an answer.
pub open spec fn etag_in(fields: Map<Seq<char>, Seq<Seq<u8>>>) -> Option<Seq<char>> {
    if fields.dom().contains(ETAG_HEADER@) {
        header_text(fields[ETAG_HEADER@][0])
    } else {
        None
    }
}

/// Whether a status says that the request succeeded.
pub open spec fn is_success(status: u16) -> bool {
    200 <= status < 300
}

/// A status as it is shown: the code with its reason phrase.
pub open spec fn status_words(status: u16) -> Seq<char> {
    if 100 <= status <= 999 {
        status_display(status)
    } else {
        decimal(status as nat)
    }
}

/// What is said of an answer that is no success.
pub open spec fn refusal(attempt: Seq<char>, status: u16, body: Seq<char>) -> Seq<char> {
    attempt + ": "@ + status_words(status) + ("; body: "@ + body)
}

/// What came of a request.
#[derive(Debug)]
pub enum Reply<P> {
    /// No answer came in time.
    TimedOut,
    /// The request could not be made; the text says why.
    Failed(String),
    /// An answer came. The body matters where the status is no success, the payload where it is
    /// one; the text in place of a payload says why the body could not be read.
    Answered { status: u16, etag: Option<String>, body: String, payload: Result<P, String> },
}

/// What a [`Reply`] holds.
pub ghost enum ReplyView<P> {
    TimedOut,
    Failed(Seq<char>),
    Answered {
        status: u16,
        etag: Option<Seq<char>>,
        body: Seq<char>,
        payload: Result<P, Seq<char>>,
    },
}

/// `reply` with its payload seen through `f`.
pub open spec fn reply_view<P, Q>(reply: Reply<P>, f: spec_fn(P) -> Q) -> ReplyView<Q> {
    match reply {
        Reply::TimedOut => ReplyView::TimedOut,
        Reply::Failed(text) => ReplyView::Failed(text@),
        Reply::Answered { status, etag, body, payload } => ReplyView::Answered {
            status,
            etag: opt_text(etag),
            body: body@,
            payload: match payload {
                Ok(p) => Ok(f(p)),
                Err(text) => Err(text@),
            },
        },
    }
}

/// The payload and version tag of a reply, or why there is none; `attempt` says what was attempted.
pub open spec fn reading<Q>(reply: ReplyView<Q>, attempt: Seq<char>) -> Result<
    (Q, Option<Seq<char>>),
    CodexErrView,
> {
    match reply {
        ReplyView::TimedOut => Err(CodexErrView::Timeout),
        ReplyView::Failed(text) => Err(CodexErrView::Stream(text)),
        ReplyView::Answered { status, etag, body, payload } => if is_success(status) {
            match payload {
                Ok(p) => Ok((p, etag)),
                Err(text) => Err(CodexErrView::Stream(text)),
            }
        } else {
            Err(CodexErrView::Stream(refusal(attempt, status, body)))
        },
    }
}

/// What was attempted where the listing of a provider was asked for.
pub open spec fn listing_attempt(label: Seq<char>) -> Seq<char> {
    "failed to fetch models from "@ + label + " provider"@
}

/// What was attempted where the models.dev catalog was asked for.
pub open spec fn catalog_attempt(url: Seq<char>) -> Seq<char> {
    "failed to fetch models.dev catalog from "@ + url
}

/// What is said where both listings of a local server failed.
pub open spec fn both_failed(primary: Seq<char>, fallback: Seq<char>) -> Seq<char> {
    "failed to fetch local-oss models from /v1/models ("@ + primary + ") and /api/tags ("@ + (
    fallback + ")"@)
}

/// How an error is shown.
pub open spec fn message_of(e: CodexErrView) -> Seq<char> {
    match e {
        CodexErrView::Timeout => "timeout waiting for child process to exit"@,
        CodexErrView::EnvVar(m) => m,
        CodexErrView::Stream(m) => "stream disconnected before completion: "@ + m,
        CodexErrView::Other(m) => m,
    }
}

impl CodexErr {
    /// How the error is shown.
    pub fn message(&self) -> (r: String)
        ensures
            r@ == message_of(self@),
    {
        match self {
            CodexErr::Timeout => "timeout waiting for child process to exit".to_string(),
            CodexErr::EnvVar(m) => m.clone(),
            CodexErr::Stream(m) => join2("stream disconnected before completion: ", m.as_str()),
            CodexErr::Other(m) => m.clone(),
        }
    }
}

/// Where an API under `base_url` lists its models.
pub fn models_url(base_url: &str) -> (r: String)
    ensures
        r@ == listing_url(base_url@),
{
    join2(trim_end_char(base_url, '/'), "/models")
}

/// The headers of a request for GitHub Copilot's listing, from those that the provider's requests
/// carry.
pub fn listing_headers(headers: http::HeaderMap) -> (r: http::HeaderMap)
    ensures
        header_fields(r) == header_fields(headers).remove(OPENAI_INTENT_HEADER@),
{
    let mut headers = headers;
    proof {
        reveal_strlit("openai-intent");
    }
    remove_header(&mut headers, OPENAI_INTENT_HEADER);
    headers
}

/// The version tag in the headers of an answer.
pub fn etag_of(headers: &http::HeaderMap) -> (r: Option<String>)
    ensures
        opt_text(r) == etag_in(header_fields(*headers)),
{
    proof {
        reveal_strlit("etag");
    }
    let value = match first_header(headers, ETAG_HEADER) {
        Some(value) => value,
        None => {
            return None;
        },
    };
    let mut out = String::new();
    let mut i: usize = 0;
    assert(out@ =~= value@.take(0).map_values(|b: u8| b as char));
    while i < value.len()
        invariant
            i <= value@.len(),
            header_fields(*headers).dom().contains(ETAG_HEADER@),
            value@ == header_fields(*headers)[ETAG_HEADER@][0],
            forall|j: int| 0 <= j < i ==> is_visible(#[trigger] value@[j]),
            out@ == value@.take(i as int).map_values(|b: u8| b as char),
        decreases value@.len() - i,
    {
        let b: u8 = value[i];
        if !((32 <= b && b < 127) || b == 9) {
            assert(!is_visible(value@[i as int]));
            return None;
        }
        let ghost before = out@;
        out.push(b as char);
        assert(out@ =~= value@.take(i + 1).map_values(|b: u8| b as char));
        i = i + 1;
    }
    assert(value@.take(i as int) =~= value@);
    Some(out)
}

/// Whether a status says that the request succeeded.
pub fn is_success_status(status: u16) -> (r: bool)
    ensures
        r == is_success(status),
{
    200 <= status && status < 300
}

/// A status as it is shown.
pub fn status_text(status: u16) -> (r: String)
    ensures
        r@ == status_words(status),
{
    match display_status(status) {
        Some(text) => text,
        None => decimal_text(status as u64),
    }
}

/// What is said of an answer that is no success.
pub fn refusal_text(attempt: &str, status: u16, body: &str) -> (r: String)
    ensures
        r@ == refusal(attempt@, status, body@),
{
    let head = join3(attempt, ": ", status_text(status).as_str());
    let tail = join2("; body: ", body);
    join2(head.as_str(), tail.as_str())
}

/// What was attempted where the listing of a provider was asked for.
pub fn listing_attempt_text(label: &str) -> (r: String)
    ensures
        r@ == listing_attempt(label@),
{
    join3("failed to fetch models from ", label, " provider")
}

/// What is said where both listings of a local server failed.
pub fn both_failed_text(primary: &str, fallback: &str) -> (r: String)
    ensures
        r@ == both_failed(primary@, fallback@),
{
    let head = join3(
        "failed to fetch local-oss models from /v1/models (",
        primary,
        ") and /api/tags (",
    );
    let tail = join2(fallback, ")");
    join2(head.as_str(), tail.as_str())
}

impl<P> Reply<P> {
    /// The payload and version tag of the reply, or why there is none; `attempt` says what was
    /// attempted.
    pub fn read(self, attempt: &str) -> (r: Result<(P, Option<String>), CodexErr>)
        ensures
            match r {
                Ok((p, etag)) => reading(reply_view(self, |p: P| p), attempt@) == Ok::<
                    (P, Option<Seq<char>>),
                    CodexErrView,
                >((p, opt_text(etag))),
                Err(e) => reading(reply_view(self, |p: P| p), attempt@) == Err::<
                    (P, Option<Seq<char>>),
                    CodexErrView,
                >(e@),
            },
    {
        match self {
            Reply::TimedOut => Err(CodexErr::Timeout),
            Reply::Failed(text) => Err(CodexErr::Stream(text)),
            Reply::Answered { status, etag, body, payload } => {
                if is_success_status(status) {
                    match payload {
                        Ok(p) => Ok((p, etag)),
                        Err(text) => Err(CodexErr::Stream(text)),
                    }
                } else {
                    Err(CodexErr::Stream(refusal_text(attempt, status, body.as_str())))
                }
            },
        }
    }
}

impl ModelsManager {
    /// Where the Ollama server whose OpenAI-compatible API is under `base_url` lists its models.
    pub fn ollama_tags_url(base_url: &str) -> (r: String)
        ensures
            r@ == tags_url(base_url@),
    {
        let trimmed = trim_end_char(base_url, '/');
        proof {
            reveal_strlit("/v1");
        }
        if ends_with(trimmed, "/v1") {
            let n = trimmed.unicode_len();
            let without_v1 = trimmed.substring_char(0, n - 3);
            assert(without_v1@ =~= trimmed@.take(trimmed@.len() - 3));
            join2(without_v1, "/api/tags")
        } else {
            join2(trimmed, "/api/tags")
        }
    }
}

/// The URL of a listing does not depend on slashes at the end of the base URL.
pub proof fn law_trailing_slash_is_ignored(base: Seq<char>)
    ensures
        listing_url(base.push('/')) == listing_url(base),
        tags_url(base.push('/')) == tags_url(base),
{
    assert(base.push('/').drop_last() =~= base);
}

} // verus!

//! What requests and the reading of replies promise.

use vstd::prelude::*;
use vstd::string::*;

use crate::cache::is_fresh;
use crate::cache::may_serve;
use crate::cache::CachedModels;
use crate::cache::CachedView;
use crate::cache::DEFAULT_MODEL_CACHE_TTL_SECONDS;
use crate::cache::MODEL_CACHE_FILE;
use crate::exchange::both_failed;
use crate::exchange::catalog_attempt;
use crate::exchange::etag_in;
use crate::exchange::is_success;
use crate::exchange::listing_attempt;
use crate::exchange::listing_url;
use crate::exchange::message_of;
use crate::exchange::reading;
use crate::exchange::refusal;
use crate::exchange::reply_view;
use crate::exchange::status_words;
use crate::exchange::tags_url;
use crate::exchange::Reply;
use crate::exchange::ReplyView;
use crate::exchange::ETAG_HEADER;
use crate::exchange::MODELS_REFRESH_TIMEOUT_SECONDS;
use crate::exchange::OPENAI_INTENT_HEADER;
use crate::manager::CodexErr;
use crate::manager::CodexErrView;
use crate::outside::status_display;
use crate::text::decimal;
use crate::text::only;
use crate::text::opt_text;
use crate::text::trim_end_by;
use crate::text_laws::law_decimal;
use crate::text_laws::law_trim_slashes;
use crate::text_laws::number;

verus! {

/// Any number of slashes.
pub open spec fn slashes(n: nat) -> Seq<char> {
    Seq::new(n, |i: int| '/')
}

pub proof fn lemma_slashes_cut(stem: Seq<char>, n: nat)
    requires
        stem.len() == 0 || stem.last() != '/',
    ensures
        trim_end_by(stem + slashes(n), only('/')) == stem,
{
    let s = stem + slashes(n);
    let t = trim_end_by(s, only('/'));
    law_trim_slashes(s);
    if t.len() > stem.len() {
        assert(t.last() == s[t.len() - 1]);
        assert(s[t.len() - 1] == slashes(n)[t.len() - 1 - stem.len()]);
    }
    if t.len() < stem.len() {
        assert(s[stem.len() - 1] == '/');
        assert(s[stem.len() - 1] == stem.last());
    }
    assert(t =~= stem);
}

/// A listing is asked for under the base URL, whatever slashes stand at its end: `/models` follows
/// the last character that is none.
pub proof fn law_listing_url(stem: Seq<char>, n: nat)
    requires
        stem.len() == 0 || stem.last() != '/',
    ensures
        listing_url(stem + slashes(n)) == stem + "/models"@,
{
    lemma_slashes_cut(stem, n);
}

/// Ollama's own listing stands beside the OpenAI-compatible API: a last path segment `v1` gives way
/// to `api/tags`, any other base URL is kept and `/api/tags` follows it.
pub proof fn law_tags_url(server: Seq<char>, stem: Seq<char>, n: nat)
    requires
        stem.len() == 0 || stem.last() != '/',
        !"/v1"@.is_suffix_of(stem),
    ensures
        tags_url(server + "/v1"@ + slashes(n)) == server + "/api/tags"@,
        tags_url(stem + slashes(n)) == stem + "/api/tags"@,
{
    reveal_strlit("/v1");
    let api = server + "/v1"@;
    assert(api.last() == '1');
    lemma_slashes_cut(api, n);
    lemma_slashes_cut(stem, n);
    assert(api.subrange(api.len() - 3, api.len() as int) =~= "/v1"@);
    assert("/v1"@.is_suffix_of(api));
    assert(api.take(api.len() - 3) =~= server);
}

/// The ETag is the text of the first value under `etag`, where every byte of it is a tab or lies
/// between 32 and 126; otherwise there is none.
pub proof fn law_etag(fields: Map<Seq<char>, Seq<Seq<u8>>>)
    ensures
        !fields.dom().contains("etag"@) ==> etag_in(fields) is None,
        fields.dom().contains("etag"@) ==> {
            let value = fields["etag"@][0];
            let readable = forall|i: int|
                0 <= i < value.len() ==> (#[trigger] value[i]) == 9 || (31 < value[i] && value[i]
                    <= 126);
            match etag_in(fields) {
                Some(text) => readable && text.len() == value.len() && forall|i: int|
                    0 <= i < value.len() ==> #[trigger] text[i] == value[i] as char,
                None => !readable,
            }
        },
        ETAG_HEADER@ == "etag"@,
{
    if fields.dom().contains("etag"@) {
        let value = fields["etag"@][0];
        let readable = forall|i: int|
            0 <= i < value.len() ==> (#[trigger] value[i]) == 9 || (31 < value[i] && value[i]
                <= 126);
        if !readable {
            let i = choose|i: int|
                0 <= i < value.len() && !((#[trigger] value[i]) == 9 || (31 < value[i] && value[i]
                    <= 126));
            assert(!crate::exchange::is_visible(value[i]));
        }
    }
}

/// The header that a listing of GitHub Copilot goes without is the declared intent.
pub proof fn law_intent_header()
    ensures
        OPENAI_INTENT_HEADER@ == "openai-intent"@,
{
}

/// A status is a success exactly where its first digit of three is a two.
pub proof fn law_success(status: u16)
    ensures
        is_success(status) <==> status / 100 == 2,
{
}

/// A status is shown as its protocol displays it, or by its number where it is none of three digits.
pub proof fn law_status_words(status: u16)
    ensures
        status / 100 >= 1 && status / 1000 == 0 ==> status_words(status) == status_display(status),
        status / 100 == 0 || status / 1000 >= 1 ==> status_words(status) == decimal(status as nat)
            && number(status_words(status)) == status,
{
    law_decimal(status as nat);
}

/// No time, no connection and no readable body are told apart; the body of a refused request is
/// quoted with its status.
pub proof fn law_reading<Q>(
    attempt: Seq<char>,
    status: u16,
    etag: Option<Seq<char>>,
    body: Seq<char>,
    payload: Result<Q, Seq<char>>,
    why: Seq<char>,
)
    ensures
        reading::<Q>(ReplyView::TimedOut, attempt) == Err::<(Q, Option<Seq<char>>), CodexErrView>(CodexErrView::Timeout),
        reading::<Q>(ReplyView::Failed(why), attempt) == Err::<(Q, Option<Seq<char>>), CodexErrView>(CodexErrView::Stream(why)),
        status / 100 == 2 ==> (reading(ReplyView::Answered { status, etag, body, payload }, attempt)
            == match payload {
            Ok(p) => Ok((p, etag)),
            Err(text) => Err(CodexErrView::Stream(text)),
        }),
        status / 100 != 2 ==> reading(ReplyView::Answered { status, etag, body, payload }, attempt)
            == Err::<(Q, Option<Seq<char>>), CodexErrView>(
            CodexErrView::Stream(attempt + ": "@ + status_words(status) + "; body: "@ + body),
        ),
{
    assert(refusal(attempt, status, body) =~= attempt + ": "@ + status_words(status) + "; body: "@
        + body);
}

/// A reply is seen with all that it holds, its payload through the given view.
pub proof fn law_reply_view<P, Q>(
    f: spec_fn(P) -> Q,
    status: u16,
    etag: Option<String>,
    body: String,
    payload: Result<P, String>,
    why: String,
)
    ensures
        reply_view(Reply::<P>::TimedOut, f) is TimedOut,
        reply_view(Reply::<P>::Failed(why), f) == ReplyView::<Q>::Failed(why@),
        reply_view(Reply::Answered { status, etag, body, payload }, f) == (ReplyView::Answered {
            status,
            etag: opt_text(etag),
            body: body@,
            payload: match payload {
                Ok(p) => Ok(f(p)),
                Err(text) => Err(text@),
            },
        }),
{
}

/// How failures are worded.
pub proof fn law_wording(a: Seq<char>, b: Seq<char>)
    ensures
        listing_attempt(a) == "failed to fetch models from "@ + a + " provider"@,
        catalog_attempt(a) == "failed to fetch models.dev catalog from "@ + a,
        both_failed(a, b) == "failed to fetch local-oss models from /v1/models ("@ + a
            + ") and /api/tags ("@ + b + ")"@,
        message_of(CodexErrView::Stream(a)) == "stream disconnected before completion: "@ + a,
        message_of(CodexErrView::EnvVar(a)) == a,
        message_of(CodexErrView::Other(a)) == a,
        message_of(CodexErrView::Timeout) == "timeout waiting for child process to exit"@,
{
    assert(both_failed(a, b) =~= "failed to fetch local-oss models from /v1/models ("@ + a
        + ") and /api/tags ("@ + b + ")"@);
}

/// An error is seen with its kind and its text.
pub proof fn law_error_view(text: String)
    ensures
        CodexErr::Timeout@ == CodexErrView::Timeout,
        CodexErr::EnvVar(text)@ == CodexErrView::EnvVar(text@),
        CodexErr::Stream(text)@ == CodexErrView::Stream(text@),
        CodexErr::Other(text)@ == CodexErrView::Other(text@),
{
}

/// A cache entry serves where it was fetched by the same version for the same scope no longer than
/// its lifetime ago; without a lifetime none serves.
pub proof fn law_cache_entry_serves(
    entry: CachedView,
    now: i64,
    ttl: i64,
    version: Seq<char>,
    scope: Seq<char>,
)
    ensures
        may_serve(entry, now, ttl, version, scope) <==> {
            &&& entry.client_version is Some
            &&& entry.client_version->0 == version
            &&& entry.provider_scope is Some
            &&& entry.provider_scope->0 == scope
            &&& ttl > 0
            &&& now <= entry.fetched_at + ttl
        },
        is_fresh(entry, now, ttl) <==> ttl > 0 && now <= entry.fetched_at + ttl,
{
}

/// A cache entry is seen with all that it holds.
pub proof fn law_cache_entry_view(entry: CachedModels)
    ensures
        entry@.fetched_at == entry.fetched_at,
        entry@.etag == opt_text(entry.etag),
        entry@.client_version == opt_text(entry.client_version),
        entry@.provider_scope == opt_text(entry.provider_scope),
        entry@.models.len() == entry.models@.len(),
        forall|i: int|
            0 <= i < entry.models@.len() ==> #[trigger] entry@.models[i] == entry.models@[i]@,
{
}

/// Entries live for five minutes in `models_cache.json`, and a request may take five seconds.
pub proof fn law_limits()
    ensures
        DEFAULT_MODEL_CACHE_TTL_SECONDS == 5 * 60,
        MODELS_REFRESH_TIMEOUT_SECONDS == 5,
        MODEL_CACHE_FILE@ == "models_cache.json"@,
{
}

} // verus!

//! Calls into other crates, each with the contract that it is relied on for.

use vstd::prelude::*;

use crate::text::decimal;
use crate::text::opt_text;
use crate::text::text_le;

verus! {

/// The host in a URL as `reqwest::Url` reads it; none where the text is no URL or has no host.
pub uninterp spec fn url_host(input: Seq<char>) -> Option<Seq<char>>;

/// `reqwest::Url::parse` followed by `Url::host_str`. The result depends on the text alone.
#[verifier::external_body]
pub(crate) fn parse_url_host(input: &str) -> (r: Option<String>)
    ensures
        opt_text(r) == url_host(input@),
{
    reqwest::Url::parse(input).ok().and_then(|url| url.host_str().map(str::to_string))
}

/// A status code and its reason phrase as `http::StatusCode` displays them.
pub uninterp spec fn status_display(code: u16) -> Seq<char>;

/// `http::StatusCode::from_u16`, which takes the codes from 100 to 999, and what it displays: the
/// code, a space, and a reason phrase that depends on the code alone.
#[verifier::external_body]
pub(crate) fn display_status(code: u16) -> (r: Option<String>)
    ensures
        r is Some == (100 <= code <= 999),
        r is Some ==> r->0@ == status_display(code),
        r is Some ==> (decimal(code as nat) + " "@).is_prefix_of(r->0@),
{
    http::StatusCode::from_u16(code).ok().map(|status| status.to_string())
}

/// The headers of a request: the values under each name, the names in lower case.
#[verifier::external_type_specification]
#[verifier::external_body]
#[verifier::reject_recursive_types(T)]
pub struct ExHeaderMap<T>(http::HeaderMap<T>);

/// The value of one header.
#[verifier::external_type_specification]
#[verifier::external_body]
pub struct ExHeaderValue(http::HeaderValue);

/// What a header map holds, as a lookup by text reaches it: for each such name, in lower case, the
/// bytes of its values in order.
pub uninterp spec fn header_fields(headers: http::HeaderMap) -> Map<Seq<char>, Seq<Seq<u8>>>;

/// `http::HeaderMap::remove` with a name in lower case: every value under the name is taken out,
/// and nothing else changes.
#[verifier::external_body]
pub(crate) fn remove_header(headers: &mut http::HeaderMap, name: &str)
    requires
        forall|i: int| 0 <= i < name@.len() ==> !('A' <= #[trigger] name@[i] <= 'Z'),
    ensures
        header_fields(*final(headers)) == header_fields(*old(headers)).remove(name@),
{
    headers.remove(name);
}

/// `http::HeaderMap::get` with a name in lower case: the bytes of the first value under the name,
/// where there is one.
#[verifier::external_body]
pub(crate) fn first_header(headers: &http::HeaderMap, name: &str) -> (r: Option<Vec<u8>>)
    requires
        forall|i: int| 0 <= i < name@.len() ==> !('A' <= #[trigger] name@[i] <= 'Z'),
    ensures
        r is Some == header_fields(*headers).dom().contains(name@),
        r is Some ==> header_fields(*headers)[name@].len() > 0,
        r is Some ==> r->0@ == header_fields(*headers)[name@][0],
{
    headers.get(name).map(|value| value.as_bytes().to_vec())
}

/// What `serde_json` objects to in a text that is no JSON; none where it is JSON.
pub uninterp spec fn json_error(text: Seq<char>) -> Option<Seq<char>>;

/// `serde_json::from_str` to a `serde_json::Value`: the message of the error that it gives, if any.
/// The result depends on the text alone.
#[verifier::external_body]
pub(crate) fn find_json_error(text: &str) -> (r: Option<String>)
    ensures
        opt_text(r) == json_error(text@),
{
    serde_json::from_str::<serde_json::Value>(text).err().map(|err| err.to_string())
}

/// Whether JSON writes each character of `s` as it is: no control character, quote or backslash.
pub open spec fn json_plain(s: Seq<char>) -> bool {
    forall|i: int|
        0 <= i < s.len() ==> {
            &&& #[trigger] s[i] as u32 >= 0x20
            &&& s[i] != '"'
            &&& s[i] != '\\'
        }
}

/// `s` between quotes.
pub open spec fn quoted(s: Seq<char>) -> Seq<char> {
    "\""@ + s + "\""@
}

/// A `serde_json::Value` object of one number and two texts, as it displays: compact, the keys in
/// ascending order, the number in decimal.
#[verifier::external_body]
pub(crate) fn json_object(
    number_key: &str,
    number: u64,
    first_key: &str,
    first: &str,
    second_key: &str,
    second: &str,
) -> (r: String)
    requires
        json_plain(number_key@),
        json_plain(first_key@),
        json_plain(first@),
        json_plain(second_key@),
        json_plain(second@),
        number_key@ != first_key@ && text_le(number_key@, first_key@),
        first_key@ != second_key@ && text_le(first_key@, second_key@),
    ensures
        r@ == "{"@ + quoted(number_key@) + ":"@ + decimal(number as nat) + ","@ + quoted(first_key@)
            + ":"@ + quoted(first@) + ","@ + quoted(second_key@) + ":"@ + quoted(second@) + "}"@,
{
    let mut fields = serde_json::Map::new();
    fields.insert(number_key.to_string(), serde_json::Value::from(number));
    fields.insert(first_key.to_string(), serde_json::Value::from(first));
    fields.insert(second_key.to_string(), serde_json::Value::from(second));
    serde_json::Value::Object(fields).to_string()
}

} // verus!

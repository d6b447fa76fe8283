//! Authentication: the bearer key that every request presents.
use crate::error::{status_number, ApiError, ApiErrorView, HttpStatus};
use crate::text::{after_prefix, chars_of, same_text, strip_text_prefix};
use axum::http::{HeaderMap, HeaderValue};
use vstd::prelude::*;
use vstd::string::*;

verus! {

/// The headers of a request: `http::HeaderMap`.
#[verifier::external_type_specification]
#[verifier::external_body]
#[verifier::reject_recursive_types(T)]
pub struct ExHeaderMap<T>(HeaderMap<T>);

/// The value of a header: `http::HeaderValue`.
#[verifier::external_type_specification]
#[verifier::external_body]
pub struct ExHeaderValue(HeaderValue);

/// The values that `headers` holds of the `Authorization` header, as bytes, in the order in which
/// they were added.
pub uninterp spec fn authorization_values(headers: HeaderMap<HeaderValue>) -> Seq<Seq<u8>>;

/// The bytes of a header value.
pub uninterp spec fn header_value_bytes(value: HeaderValue) -> Seq<u8>;

/// The first value of the `Authorization` header: `HeaderMap::get`, which gives the first of
/// several values and `None` where there is none.
#[verifier::external_body]
fn authorization_header(headers: &HeaderMap<HeaderValue>) -> (value: Option<&HeaderValue>)
    ensures
        match value {
            Some(value) => {
                &&& authorization_values(*headers).len() > 0
                &&& header_value_bytes(*value) == authorization_values(*headers)[0]
            },
            None => authorization_values(*headers).len() == 0,
        },
{
    headers.get(axum::http::header::AUTHORIZATION)
}

/// Whether `byte` is a visible ASCII character, a space or a tab.
pub open spec fn is_visible(byte: u8) -> bool {
    32 <= byte < 127 || byte == 9
}

/// The text of a header value: its bytes taken as ASCII, where all of them are visible.
pub open spec fn header_text(bytes: Seq<u8>) -> Option<Seq<char>> {
    if forall|i: int| 0 <= i < bytes.len() ==> is_visible(#[trigger] bytes[i]) {
        Some(Seq::new(bytes.len(), |i: int| bytes[i] as char))
    } else {
        None
    }
}

/// The text of a header value: `HeaderValue::to_str`, which gives the bytes as text where each is
/// a visible ASCII character, a space or a tab, and fails on any other byte.
#[verifier::external_body]
fn header_value_text(value: &HeaderValue) -> (text: Option<&str>)
    ensures
        match text {
            Some(text) => header_text(header_value_bytes(*value)) == Some(text@),
            None => header_text(header_value_bytes(*value)) is None,
        },
{
    value.to_str().ok()
}

/// The token that a request presents by the values of its `Authorization` header: what follows
/// `Bearer ` in the first of them.
pub open spec fn presented_token(values: Seq<Seq<u8>>) -> Option<Seq<char>> {
    if values.len() == 0 {
        None
    } else {
        match header_text(values[0]) {
            Some(text) => after_prefix(text, "Bearer "@),
            None => None,
        }
    }
}

/// The token in the text of an `Authorization` header: what follows `Bearer `.
pub fn bearer_credentials(value: &str) -> (token: Option<&str>)
    ensures
        match token {
            Some(token) => after_prefix(value@, "Bearer "@) == Some(token@),
            None => after_prefix(value@, "Bearer "@) is None,
        },
{
    strip_text_prefix(value, "Bearer ")
}

/// The token that a request presents.
pub fn bearer_token(headers: &HeaderMap<HeaderValue>) -> (token: Option<&str>)
    ensures
        match token {
            Some(token) => presented_token(authorization_values(*headers)) == Some(token@),
            None => presented_token(authorization_values(*headers)) is None,
        },
{
    let value = match authorization_header(headers) {
        Some(value) => value,
        None => {
            return None;
        },
    };
    match header_value_text(value) {
        Some(text) => bearer_credentials(text),
        None => None,
    }
}

/// The mark of an authenticated request.
#[derive(Debug, Clone, Copy)]
pub struct Auth;

/// The refusal of a request that presents no token.
pub open spec fn missing_token() -> ApiErrorView {
    ApiErrorView {
        status: HttpStatus::Unauthorized,
        code: "unauthorized"@,
        message: "missing Authorization: Bearer token"@,
    }
}

/// The refusal of a request that presents another token than the key.
pub open spec fn invalid_key() -> ApiErrorView {
    ApiErrorView {
        status: HttpStatus::Unauthorized,
        code: "unauthorized"@,
        message: "invalid API key"@,
    }
}

/// The refusal of a request that presents `token` where the key is `api_key`, if it is refused.
pub open spec fn auth_refusal(token: Option<Seq<char>>, api_key: Seq<char>) -> Option<
    ApiErrorView,
> {
    match token {
        None => Some(missing_token()),
        Some(token) => if token == api_key {
            None
        } else {
            Some(invalid_key())
        },
    }
}

/// Admits a request that presents `token`, if the token is the key.
pub fn check_token(token: Option<&str>, api_key: &str) -> (auth: Result<Auth, ApiError>)
    ensures
        ({
            let presented = match token {
                Some(token) => Some(token@),
                None => None,
            };
            match auth {
                Ok(_) => auth_refusal(presented, api_key@) is None,
                Err(refusal) => auth_refusal(presented, api_key@) == Some(refusal@),
            }
        }),
{
    let token = match token {
        Some(token) => token,
        None => {
            return Err(
                ApiError {
                    status: HttpStatus::Unauthorized,
                    code: "unauthorized",
                    message: "missing Authorization: Bearer token".to_string(),
                },
            );
        },
    };
    if !same_text(token, api_key) {
        return Err(
            ApiError {
                status: HttpStatus::Unauthorized,
                code: "unauthorized",
                message: "invalid API key".to_string(),
            },
        );
    }
    Ok(Auth)
}

impl Auth {
    /// Admits a request with the headers `headers`, if the token that they present is the key.
    pub fn from_request_parts(headers: &HeaderMap<HeaderValue>, api_key: &str) -> (auth: Result<
        Auth,
        ApiError,
    >)
        ensures
            match auth {
                Ok(_) => auth_refusal(
                    presented_token(authorization_values(*headers)),
                    api_key@,
                ) is None,
                Err(refusal) => auth_refusal(
                    presented_token(authorization_values(*headers)),
                    api_key@,
                ) == Some(refusal@),
            },
    {
        check_token(bearer_token(headers), api_key)
    }
}

/// A request is admitted exactly where the first `Authorization` value is, byte for byte in
/// visible ASCII, the word `Bearer`, a space and the key.
pub proof fn law_admitted_iff_key_presented(values: Seq<Seq<u8>>, api_key: Seq<char>)
    ensures
        auth_refusal(presented_token(values), api_key) is None <==> values.len() > 0 && header_text(
            values[0],
        ) == Some("Bearer "@ + api_key),
{
    if values.len() > 0 && header_text(values[0]) is Some {
        let text = header_text(values[0])->0;
        let prefix = "Bearer "@;
        if prefix.is_prefix_of(text) && text.skip(prefix.len() as int) == api_key {
            assert(text =~= prefix + api_key);
        }
        if text == prefix + api_key {
            assert(text.take(prefix.len() as int) =~= prefix);
            assert(text.skip(prefix.len() as int) =~= api_key);
        }
    }
}

/// Every request that is not admitted is answered 401 with the code `unauthorized`.
pub proof fn law_refused_is_unauthorized(token: Option<Seq<char>>, api_key: Seq<char>)
    ensures
        auth_refusal(token, api_key) is Some ==> {
            let refusal = auth_refusal(token, api_key)->0;
            status_number(refusal.status) == 401 && refusal.code == "unauthorized"@
        },
{
}

/// Whether `c` has the Unicode property `White_Space`.
pub open spec fn is_white_space(c: char) -> bool {
    ||| '\u{9}' <= c <= '\u{d}'
    ||| c == ' '
    ||| c == '\u{85}'
    ||| c == '\u{a0}'
    ||| c == '\u{1680}'
    ||| '\u{2000}' <= c <= '\u{200a}'
    ||| c == '\u{2028}'
    ||| c == '\u{2029}'
    ||| c == '\u{202f}'
    ||| c == '\u{205f}'
    ||| c == '\u{3000}'
}

/// Whether `c` has the Unicode property `White_Space`.
fn char_is_whitespace(c: char) -> (r: bool)
    ensures
        r == is_white_space(c),
{
    match c {
        '\u{9}'..='\u{d}' | ' ' | '\u{85}' | '\u{a0}' | '\u{1680}' => true,
        '\u{2000}'..='\u{200a}' | '\u{2028}' | '\u{2029}' => true,
        '\u{202f}' | '\u{205f}' | '\u{3000}' => true,
        _ => false,
    }
}

/// Whether `key` holds nothing but white space.
pub open spec fn is_blank(key: Seq<char>) -> bool {
    forall|i: int| 0 <= i < key.len() ==> is_white_space(#[trigger] key[i])
}

/// Accepts an API key to serve with, unless it is blank.
pub fn check_api_key(key: &str) -> (r: Result<(), String>)
    ensures
        r is Err <==> is_blank(key@),
        r matches Err(message) ==> message@
            == "MSB_CLOUD_ADAPTER_API_KEY or --api-key must be non-empty"@,
{
    let chars = chars_of(key);
    let mut i: usize = 0;
    while i < chars.len()
        invariant
            i <= chars.len(),
            chars@ == key@,
            forall|j: int| 0 <= j < i ==> is_white_space(#[trigger] key@[j]),
        decreases chars.len() - i,
    {
        if !char_is_whitespace(chars[i]) {
            assert(!is_white_space(key@[i as int]));
            return Ok(());
        }
        i = i + 1;
    }
    Err("MSB_CLOUD_ADAPTER_API_KEY or --api-key must be non-empty".to_string())
}

/// A request is admitted exactly by the key itself: a token that differs from it anywhere, is
/// longer or shorter, or is missing is refused, and the refusal tells a missing token from a wrong
/// one.
pub proof fn law_only_the_key_itself_admits(token: Seq<char>, api_key: Seq<char>)
    ensures
        auth_refusal(Some(api_key), api_key) is None,
        token != api_key ==> auth_refusal(Some(token), api_key) is Some,
        token != api_key ==> auth_refusal(Some(token), api_key)->0.message == "invalid API key"@,
        auth_refusal(None, api_key) is Some,
        auth_refusal(None, api_key)->0.message == "missing Authorization: Bearer token"@,
{
}

/// A key is blank exactly where nothing but white space is in it: one other character anywhere
/// makes it none.
pub proof fn law_one_visible_character_is_enough(key: Seq<char>, i: int)
    requires
        0 <= i < key.len(),
        !is_white_space(key[i]),
    ensures
        !is_blank(key),
        is_blank(Seq::<char>::empty()),
{
}

} // verus!

use axum::http::header::AUTHORIZATION;
use axum::http::{HeaderMap, HeaderValue};
use msb_cloud_adapter::auth::{
    bearer_credentials, bearer_token, check_api_key, check_token, Auth,
};
use msb_cloud_adapter::error::HttpStatus;

fn headers(values: &[&[u8]]) -> HeaderMap<HeaderValue> {
    let mut headers = HeaderMap::new();
    for value in values {
        headers.append(AUTHORIZATION, HeaderValue::from_bytes(value).unwrap());
    }
    headers
}

#[test]
fn bearer_token_is_what_follows_the_scheme() {
    assert_eq!(bearer_token(&headers(&[b"Bearer key-1"])), Some("key-1"));
    assert_eq!(bearer_token(&headers(&[b"Bearer  key-1 "])), Some(" key-1 "));
    assert_eq!(bearer_token(&headers(&[b"Bearer "])), Some(""));
    assert_eq!(bearer_token(&headers(&[b"Bearer a\tb"])), Some("a\tb"));
}

#[test]
fn other_headers_present_no_token() {
    assert_eq!(bearer_token(&HeaderMap::new()), None);
    assert_eq!(bearer_token(&headers(&[b"Bearer"])), None);
    assert_eq!(bearer_token(&headers(&[b"bearer key-1"])), None);
    assert_eq!(bearer_token(&headers(&[b"Basic key-1"])), None);
    assert_eq!(bearer_token(&headers(&[b"Bearer k\xc3\xa9y"])), None);
    let mut elsewhere = HeaderMap::new();
    elsewhere.insert("x-api-key", HeaderValue::from_static("Bearer key-1"));
    assert_eq!(bearer_token(&elsewhere), None);
}

#[test]
fn first_authorization_value_counts() {
    assert_eq!(bearer_token(&headers(&[b"Bearer one", b"Bearer two"])), Some("one"));
    assert_eq!(bearer_token(&headers(&[b"Basic one", b"Bearer two"])), None);
}

#[test]
fn credentials_are_split_from_the_scheme() {
    assert_eq!(bearer_credentials("Bearer key-1"), Some("key-1"));
    assert_eq!(bearer_credentials("Bearer Bearer x"), Some("Bearer x"));
    assert_eq!(bearer_credentials("Bear"), None);
}

#[test]
fn request_with_the_key_is_admitted() {
    assert!(Auth::from_request_parts(&headers(&[b"Bearer key-1"]), "key-1").is_ok());
}

#[test]
fn request_without_a_token_is_refused() {
    let refusal = Auth::from_request_parts(&HeaderMap::new(), "key-1").unwrap_err();
    assert_eq!(refusal.status, HttpStatus::Unauthorized);
    assert_eq!(refusal.code, "unauthorized");
    assert_eq!(refusal.message, "missing Authorization: Bearer token");
}

#[test]
fn request_with_another_key_is_refused() {
    let refusal = Auth::from_request_parts(&headers(&[b"Bearer key-2"]), "key-1").unwrap_err();
    assert_eq!(refusal.status.as_u16(), 401);
    assert_eq!(refusal.code, "unauthorized");
    assert_eq!(refusal.message, "invalid API key");
    assert!(check_token(Some("KEY-1"), "key-1").is_err());
    assert!(check_token(Some("key-1 "), "key-1").is_err());
    assert!(check_token(Some("key-1"), "key-1").is_ok());
}

#[test]
fn blank_api_keys_are_not_accepted() {
    let blank = "\u{9}\u{a}\u{b}\u{c}\u{d} \u{85}\u{a0}\u{1680}\u{2000}\u{2001}\u{2002}\u{2003}\
        \u{2004}\u{2005}\u{2006}\u{2007}\u{2008}\u{2009}\u{200a}\u{2028}\u{2029}\u{202f}\u{205f}\
        \u{3000}";
    assert!(blank.trim().is_empty());
    for key in ["", " ", blank] {
        assert_eq!(
            check_api_key(key),
            Err("MSB_CLOUD_ADAPTER_API_KEY or --api-key must be non-empty".to_string()),
        );
    }
}

#[test]
fn white_space_is_that_of_unicode() {
    for code in 0..0x11_0000u32 {
        if let Some(c) = char::from_u32(code) {
            let key = c.to_string();
            assert_eq!(check_api_key(&key).is_err(), key.trim().is_empty());
        }
    }
}

#[test]
fn other_api_keys_are_accepted() {
    assert_eq!(check_api_key("k"), Ok(()));
    assert_eq!(check_api_key("  k  "), Ok(()));
    assert_eq!(check_api_key("\u{200b}"), Ok(()));
}

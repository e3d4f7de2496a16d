use axum::http::{HeaderMap, HeaderValue};
use bollwark::api::extract::{bearer_token, extract_bearer_token, is_secret};
use bollwark::error::CaptchaError;

fn with_auth(value: &str) -> HeaderMap {
    let mut h = HeaderMap::new();
    h.insert("authorization", HeaderValue::from_str(value).unwrap());
    h
}

fn token(value: &str) -> Option<String> {
    bearer_token(&with_auth(value))
}

#[test]
fn the_scheme_is_case_insensitive() {
    for header in ["Bearer secret", "bearer secret", "BEARER secret"] {
        assert_eq!(token(header).as_deref(), Some("secret"), "{header}");
    }
}

#[test]
fn the_token_itself_is_not_normalised() {
    // It's a secret; lowercasing it would shrink the keyspace.
    assert_eq!(token("Bearer SeCrEt").as_deref(), Some("SeCrEt"));
}

#[test]
fn another_scheme_with_the_same_payload_is_not_a_bearer() {
    assert_eq!(token("Basic secret"), None);
    assert_eq!(token("Bearerish secret"), None);
}

#[test]
fn a_missing_or_empty_token_is_none() {
    assert_eq!(bearer_token(&HeaderMap::new()), None);
    assert_eq!(token("Bearer"), None);
    assert_eq!(token("Bearer "), None);
    assert_eq!(token("Bearer    "), None);
}

#[test]
fn extra_whitespace_after_the_scheme_is_tolerated() {
    assert_eq!(token("Bearer   secret").as_deref(), Some("secret"));
}

#[test]
fn a_header_that_is_no_text_has_no_token() {
    let mut h = HeaderMap::new();
    h.insert("authorization", HeaderValue::from_bytes(b"Bearer \xFFsecret").unwrap());
    assert_eq!(bearer_token(&h), None);
}

#[test]
fn the_literal_form_takes_one_spelling() {
    assert_eq!(extract_bearer_token(&with_auth("Bearer secret")).unwrap(), "secret");
    assert_eq!(extract_bearer_token(&with_auth("Bearer  secret")).unwrap(), " secret");
    assert_eq!(extract_bearer_token(&with_auth("Bearer ")).unwrap(), "");
    assert!(matches!(
        extract_bearer_token(&with_auth("bearer secret")),
        Err(CaptchaError::Unauthorized)
    ));
    assert!(matches!(
        extract_bearer_token(&HeaderMap::new()),
        Err(CaptchaError::Unauthorized)
    ));
}

#[test]
fn secrets_are_compared_as_a_whole() {
    assert!(is_secret("s3cret", "s3cret"));
    assert!(is_secret("", ""));
    assert!(!is_secret("s3cret", "s3creT"));
    assert!(!is_secret("s3cre", "s3cret"));
    assert!(!is_secret("", "s"));
    assert!(!is_secret("é", "è"));
}

use bollwark::api::types::{DecodedToken, FailoverClaim, InfoUrls, ResolvedVerify, SolvedVerify,
    TokenPayload, VerifyRequest, VerifyResponse};
use bollwark::error::CaptchaError;
use serde_json::Value;
use uuid::Uuid;

/// A request with everything unset, so each test only states the fields it cares about.
fn req() -> VerifyRequest {
    VerifyRequest {
        token: None,
        challenge_id: None,
        nonce: 0,
        honeypot: None,
        behavior: None,
        failover: false,
        site_key: None,
        issued_at: None,
    }
}

fn key_of(v: &Value, name: &str) -> Option<u128> {
    v.get(name)
        .and_then(|k| k.as_str())
        .map(|k| Uuid::parse_str(k).unwrap().as_u128())
}

/// The document of a token as the service reads it.
fn decode(bytes: &[u8]) -> Option<TokenPayload> {
    match serde_json::from_slice::<Value>(bytes) {
        Ok(v) if v.is_object() => Some(TokenPayload {
            challenge_id: key_of(&v, "challenge_id"),
            nonce: v.get("nonce").and_then(|n| n.as_u64()).unwrap_or(0),
            honeypot: v.get("honeypot").and_then(|h| h.as_str()).map(|h| h.to_string()),
            behavior: None,
            failover: v.get("failover").and_then(|f| f.as_bool()).unwrap_or(false),
            site_key: key_of(&v, "site_key"),
            issued_at: v.get("issued_at").and_then(|n| n.as_i64()),
        }),
        _ => None,
    }
}

fn resolve(request: VerifyRequest) -> Result<ResolvedVerify, CaptchaError> {
    let payload = match request.token_bytes()? {
        None => None,
        Some(bytes) => decode(&bytes),
    };
    request.resolve_with(payload)
}

fn token_of(fields: Vec<(&str, Value)>) -> String {
    let mut m = serde_json::Map::new();
    for (name, value) in fields {
        m.insert(name.to_string(), value);
    }
    hex::encode(serde_json::to_vec(&Value::Object(m)).unwrap())
}

fn expect_solved(r: ResolvedVerify) -> SolvedVerify {
    match r {
        ResolvedVerify::Solved(s) => s,
        ResolvedVerify::Failover(_) => panic!("expected a solved verify"),
    }
}

fn expect_failover(r: ResolvedVerify) -> FailoverClaim {
    match r {
        ResolvedVerify::Failover(f) => f,
        ResolvedVerify::Solved(_) => panic!("expected a failover claim"),
    }
}

#[test]
fn resolve_empty_token_falls_through_to_explicit_fields() {
    // `"token": ""` must not shadow the explicit challenge_id/nonce.
    let cid = Uuid::new_v4().as_u128();
    let resolved = resolve(VerifyRequest {
        token: Some(String::new()),
        challenge_id: Some(cid),
        nonce: 42,
        ..req()
    })
    .expect("empty token falls through");
    let solved = expect_solved(resolved);
    assert_eq!(solved.challenge_id, cid);
    assert_eq!(solved.nonce, 42);
}

#[test]
fn resolve_whitespace_token_falls_through() {
    let cid = Uuid::new_v4().as_u128();
    let resolved = resolve(VerifyRequest {
        token: Some("   ".into()),
        challenge_id: Some(cid),
        nonce: 7,
        ..req()
    })
    .unwrap();
    assert_eq!(expect_solved(resolved).challenge_id, cid);
}

#[test]
fn resolve_missing_token_and_challenge_id_is_bad_request() {
    assert!(matches!(resolve(req()), Err(CaptchaError::BadRequest(_))));
}

#[test]
fn failover_token_resolves_to_a_claim_not_a_solve() {
    let site = Uuid::new_v4();
    let token = token_of(vec![
        ("failover", Value::from(true)),
        ("site_key", Value::from(site.to_string())),
        ("issued_at", Value::from(1_700_000_000_000i64)),
    ]);
    let claim = expect_failover(
        resolve(VerifyRequest {
            token: Some(token),
            ..req()
        })
        .unwrap(),
    );
    assert_eq!(claim.site_key, site.as_u128());
    assert_eq!(claim.issued_at_ms, 1_700_000_000_000);
}

#[test]
fn failover_token_without_site_key_is_rejected() {
    let token = token_of(vec![
        ("failover", Value::from(true)),
        ("issued_at", Value::from(1i64)),
    ]);
    assert!(matches!(
        resolve(VerifyRequest {
            token: Some(token),
            ..req()
        }),
        Err(CaptchaError::BadRequest(_))
    ));
}

#[test]
fn non_failover_token_without_challenge_id_is_rejected() {
    // A solved token that omits the challenge must be a hard error rather than
    // silently resolving to a nil identifier.
    let token = token_of(vec![("nonce", Value::from(5u64))]);
    assert!(matches!(
        resolve(VerifyRequest {
            token: Some(token),
            ..req()
        }),
        Err(CaptchaError::BadRequest(_))
    ));
}

#[test]
fn explicit_failover_fields_resolve_to_a_claim() {
    let site = Uuid::new_v4().as_u128();
    let claim = expect_failover(
        resolve(VerifyRequest {
            failover: true,
            site_key: Some(site),
            issued_at: Some(42),
            ..req()
        })
        .unwrap(),
    );
    assert_eq!(claim.site_key, site);
    assert_eq!(claim.issued_at_ms, 42);
}

#[test]
fn a_token_is_the_only_thing_that_counts() {
    let cid = Uuid::new_v4();
    let other = Uuid::new_v4().as_u128();
    let token = token_of(vec![
        ("challenge_id", Value::from(cid.to_string())),
        ("nonce", Value::from(9u64)),
    ]);
    let solved = expect_solved(
        resolve(VerifyRequest {
            token: Some(format!("  {token}\n")),
            challenge_id: Some(other),
            nonce: 1,
            failover: true,
            ..req()
        })
        .unwrap(),
    );
    assert_eq!(solved.challenge_id, cid.as_u128());
    assert_eq!(solved.nonce, 9);
}

#[test]
fn a_token_gives_its_document_back() {
    let request = VerifyRequest {
        token: Some("7b7d".into()),
        ..req()
    };
    assert_eq!(request.token_bytes().unwrap(), Some(b"{}".to_vec()));
    // Digits of either case are read.
    let request = VerifyRequest {
        token: Some("7B7D".into()),
        ..req()
    };
    assert_eq!(request.token_bytes().unwrap(), Some(b"{}".to_vec()));
}

#[test]
fn tokens_that_cannot_be_read_are_bad_requests() {
    for token in ["7b7", "zz", "5b5d", "00"] {
        let r = resolve(VerifyRequest {
            token: Some(token.into()),
            ..req()
        });
        match r {
            Err(e) => assert_eq!(e.message(), "Bad request: invalid captcha token", "{token}"),
            Ok(_) => panic!("{token} must not resolve"),
        }
    }
}

#[test]
fn each_refusal_names_what_is_missing() {
    let message = |r: Result<ResolvedVerify, CaptchaError>| match r {
        Err(e) => e.message(),
        Ok(_) => panic!("must not resolve"),
    };
    assert_eq!(
        message(resolve(req())),
        "Bad request: challenge_id or token is required"
    );
    assert_eq!(
        message(resolve(VerifyRequest {
            failover: true,
            ..req()
        })),
        "Bad request: failover requires site_key"
    );
    assert_eq!(
        message(resolve(VerifyRequest {
            token: Some(token_of(vec![("failover", Value::from(true))])),
            ..req()
        })),
        "Bad request: failover token requires site_key"
    );
}

#[test]
fn a_claim_without_a_time_is_of_the_epoch() {
    let claim = expect_failover(
        resolve(VerifyRequest {
            failover: true,
            site_key: Some(1),
            ..req()
        })
        .unwrap(),
    );
    assert_eq!(claim.issued_at_ms, 0);
}

#[test]
fn a_solution_is_never_a_failover_answer() {
    assert_eq!(
        VerifyResponse::solved(true),
        VerifyResponse {
            success: true,
            failover: false
        }
    );
}

#[test]
fn information_pages_that_are_missing_are_named() {
    let none = InfoUrls::default();
    assert!(none.is_empty());
    assert!(none.missing().is_empty());
    let some = InfoUrls {
        about: None,
        privacy: Some("https://op.example/privacy".into()),
        terms: None,
    };
    assert!(!some.is_empty());
    assert_eq!(some.missing(), vec!["INFO_ABOUT_URL", "INFO_TERMS_URL"]);
    let copy = some.clone();
    assert_eq!(copy.privacy.as_deref(), Some("https://op.example/privacy"));
}

#[test]
fn a_token_leaves_the_other_fields_without_a_say() {
    let payload = || TokenPayload {
        challenge_id: Some(7),
        nonce: 1,
        honeypot: None,
        behavior: None,
        failover: false,
        site_key: None,
        issued_at: None,
    };
    for failover in [false, true] {
        let request = |token: &str| VerifyRequest {
            token: Some(token.to_string()),
            challenge_id: Some(9),
            nonce: 2,
            failover,
            site_key: Some(3),
            ..req()
        };
        let r = request(" 7b7d ").resolve_with(Some(payload()));
        assert!(matches!(
            r,
            Ok(ResolvedVerify::Solved(SolvedVerify { challenge_id: 7, nonce: 1, .. }))
        ));
        // What is no token, and what does not parse, is refused.
        assert!(request("zz").resolve_with(Some(payload())).is_err());
        assert!(request("7b7d").resolve_with(None).is_err());
        // A blank one is none, whatever comes with it.
        match request("  ").resolve_with(Some(payload())) {
            Ok(ResolvedVerify::Solved(s)) => assert!(!failover && s.challenge_id == 9),
            Ok(ResolvedVerify::Failover(c)) => assert!(failover && c.site_key == 3),
            Err(_) => panic!("refused"),
        }
    }
    assert!(req().resolve(DecodedToken::Malformed).is_err());
}

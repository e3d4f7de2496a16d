use bollwark::api::types::VerifyResponse;
use bollwark::client::{admitted, submitted_token, Captcha, CaptchaRejection, Client, Error, Field,
    Verdict};

fn body(success: bool, failover: bool) -> Result<VerifyResponse, String> {
    Ok(VerifyResponse { success, failover })
}

#[test]
fn base_url_trailing_slash_does_not_double_up() {
    let a = Client::new("https://api.bollwark.eu", "s");
    let b = Client::new("https://api.bollwark.eu/", "s");
    assert_eq!(a.verify_url, "https://api.bollwark.eu/v1/verify");
    assert_eq!(a.verify_url, b.verify_url);
}

#[test]
fn empty_token_is_refused_without_a_round_trip() {
    let client = Client::new("http://127.0.0.1:1", "secret");
    assert_eq!(client.decided_without_asking(""), Some(Verdict::Replayed));
    assert_eq!(client.decided_without_asking("7b7d"), None);
}

#[test]
fn only_passed_is_accepted() {
    assert!(Verdict::Passed { failover: false }.accepted());
    assert!(Verdict::Passed { failover: true }.accepted());
    assert!(!Verdict::Blocked.accepted());
    assert!(!Verdict::Expired.accepted());
    assert!(!Verdict::Replayed.accepted());
}

#[test]
fn every_slash_at_the_end_goes() {
    assert_eq!(Client::new("http://h///", "s").verify_url, "http://h/v1/verify");
    assert_eq!(Client::new("", "s").verify_url, "/v1/verify");
    let c = Client::new("http://h/a", "key").clone();
    assert_eq!(c.verify_url, "http://h/a/v1/verify");
    assert_eq!(c.secret_key, "key");
}

#[test]
fn an_answer_means_what_its_status_says() {
    let c = Client::new("http://h", "s");
    assert_eq!(
        c.verdict(200, body(true, false)).unwrap(),
        Verdict::Passed { failover: false }
    );
    assert_eq!(
        c.verdict(200, body(true, true)).unwrap(),
        Verdict::Passed { failover: true }
    );
    assert_eq!(c.verdict(200, body(false, true)).unwrap(), Verdict::Blocked);
    assert_eq!(c.verdict(404, body(true, false)).unwrap(), Verdict::Replayed);
    assert_eq!(c.verdict(410, body(true, false)).unwrap(), Verdict::Expired);
    assert!(matches!(c.verdict(400, body(true, false)), Err(Error::MalformedToken)));
    assert!(matches!(c.verdict(401, body(true, false)), Err(Error::Unauthorized)));
    assert!(matches!(
        c.verdict(503, body(true, false)),
        Err(Error::Unexpected { status: 503 })
    ));
    // A success without a body that can be read is no answer; a status that needs none is.
    match c.verdict(200, Err("eof".into())) {
        Err(Error::Unreachable(e)) => assert_eq!(e, "eof"),
        other => panic!("{other:?}"),
    }
    assert_eq!(c.verdict(404, Err("eof".into())).unwrap(), Verdict::Replayed);
}

#[test]
fn errors_describe_themselves() {
    assert_eq!(
        Error::Unreachable("timed out".into()).message(),
        "bollwark unreachable: timed out"
    );
    assert_eq!(
        Error::Unauthorized.message(),
        "bollwark rejected the secret key (401) — check secret_key"
    );
    assert_eq!(
        Error::MalformedToken.message(),
        "bollwark rejected the token as malformed (400)"
    );
    assert_eq!(
        Error::Unexpected { status: 502 }.message(),
        "bollwark returned an unexpected status: 502"
    );
}

#[test]
fn a_token_is_found_under_either_name() {
    let text = |s: &str| Field::Text(s.to_string());
    assert_eq!(submitted_token(text("a"), text("b")).unwrap(), "a");
    assert_eq!(submitted_token(Field::Missing, text("b")).unwrap(), "b");
    // The first name decides where it is there, also with something that is no text.
    assert!(matches!(
        submitted_token(Field::Other, text("b")),
        Err(CaptchaRejection::MissingToken)
    ));
    assert!(matches!(
        submitted_token(Field::Missing, Field::Missing),
        Err(CaptchaRejection::MissingToken)
    ));
}

#[test]
fn nothing_but_a_pass_is_let_through() {
    let pass = Verdict::Passed { failover: true };
    assert_eq!(admitted(Ok(pass)).unwrap(), pass);
    assert_eq!(Captcha("body", pass).1, pass);
    assert!(matches!(
        admitted(Ok(Verdict::Blocked)),
        Err(CaptchaRejection::Refused(Verdict::Blocked))
    ));
    assert!(matches!(
        admitted(Err(Error::Unreachable("down".into()))),
        Err(CaptchaRejection::Failed(_))
    ));
}

#[test]
fn refusals_say_what_would_help() {
    assert_eq!(
        CaptchaRejection::InvalidBody.response(),
        (400, "Malformed request body.")
    );
    assert_eq!(
        CaptchaRejection::MissingToken.response(),
        (400, "Verification required.")
    );
    for v in [Verdict::Expired, Verdict::Replayed] {
        assert_eq!(
            CaptchaRejection::Refused(v).response(),
            (400, "Your verification expired. Please submit the form again.")
        );
    }
    assert_eq!(
        CaptchaRejection::Refused(Verdict::Blocked).response(),
        (400, "Verification failed. Please reload and try again.")
    );
    assert_eq!(
        CaptchaRejection::Failed(Error::Unauthorized).response(),
        (503, "Verification unavailable. Please try again in a moment.")
    );
}

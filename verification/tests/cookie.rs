use bollwark::risk::cookie::{
    CookieSameSite, CookieSigner, epoch_secs, extract_cookie, now_secs, set_cookie_header,
};
use bollwark::time::Timestamp;

#[test]
fn round_trip() {
    let signer = CookieSigner::new(b"secret".to_vec());
    let token = signer.issue(1_700_000_000);
    let issued = signer.verify(&token, 1_700_000_500).unwrap();
    assert_eq!(issued, 1_700_000_000);
}

#[test]
fn tampered_signature_rejected() {
    let signer = CookieSigner::new(b"secret".to_vec());
    let mut token = signer.issue(1_700_000_000);
    // Flip the last hex char of the signature.
    let last = token.pop().unwrap();
    let flipped = if last == 'f' { '0' } else { 'f' };
    token.push(flipped);
    assert!(signer.verify(&token, 1_700_000_500).is_none());
}

#[test]
fn wrong_key_rejected() {
    let a = CookieSigner::new(b"secret-a".to_vec());
    let b = CookieSigner::new(b"secret-b".to_vec());
    let token = a.issue(1_700_000_000);
    assert!(b.verify(&token, 1_700_000_500).is_none());
}

#[test]
fn malformed_rejected() {
    let signer = CookieSigner::new(b"secret".to_vec());
    assert!(signer.verify("not-a-token", 1_700_000_000).is_none());
    assert!(signer.verify("nodot", 1_700_000_000).is_none());
    assert!(signer.verify(".", 1_700_000_000).is_none());
    assert!(signer.verify("abcd.ef", 1_700_000_000).is_none()); // wrong length ts
}

#[test]
fn future_timestamp_rejected() {
    let signer = CookieSigner::new(b"secret".to_vec());
    let token = signer.issue(1_700_000_000);
    // Server clock is 2 hours behind cookie's claimed issuance — too far for skew.
    assert!(signer.verify(&token, 1_700_000_000 - 7200).is_none());
}

#[test]
fn small_clock_skew_tolerated() {
    let signer = CookieSigner::new(b"secret".to_vec());
    let token = signer.issue(1_700_000_000);
    // Within the 60s tolerance.
    assert_eq!(
        signer.verify(&token, 1_700_000_000 - 30),
        Some(1_700_000_000)
    );
}

#[test]
fn extract_cookie_finds_trust() {
    let h = "foo=bar; __captcha_trust=abc.def; baz=qux";
    assert_eq!(extract_cookie(h), Some("abc.def".to_string()));
}

#[test]
fn extract_cookie_returns_none_when_absent() {
    let h = "foo=bar; baz=qux";
    assert_eq!(extract_cookie(h), None);
}

#[test]
fn set_cookie_format() {
    let s = set_cookie_header("tok", false, CookieSameSite::Lax);
    assert!(s.contains("__captcha_trust=tok"));
    assert!(s.contains("HttpOnly"));
    assert!(s.contains("SameSite=Lax"));
    assert!(!s.contains("Secure"));

    let s2 = set_cookie_header("tok", true, CookieSameSite::Lax);
    assert!(s2.contains("Secure"));
}

#[test]
fn set_cookie_samesite_none() {
    let s = set_cookie_header("tok", true, CookieSameSite::CrossSite);
    assert!(s.contains("SameSite=None"));
    assert!(s.contains("Secure"));
}

#[test]
fn seconds_are_counted_from_the_epoch() {
    assert_eq!(epoch_secs(&Timestamp::new(1_700_000_000, 999_999_999)), 1_700_000_000);
    assert_eq!(epoch_secs(&Timestamp::new(0, 0)), 0);
    assert_eq!(epoch_secs(&Timestamp::new(-1, 0)), 0);
    assert!(now_secs() > 1_700_000_000);
}

#[test]
fn a_cookie_that_comes_back_is_accepted() {
    let signer = CookieSigner::new(b"key".to_vec());
    let token = signer.issue(1_000);
    let sent = format!("__captcha_trust={token}");
    assert_eq!(extract_cookie(&sent).as_deref(), Some(token.as_str()));
    assert_eq!(signer.verify(&extract_cookie(&sent).unwrap(), 1_000), Some(1_000));
}

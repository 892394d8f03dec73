use twitar::errors::TError;
use twitar::intercept::{intercept, v2_tokens, Json};

fn obj(members: Vec<(&str, Json)>) -> Json {
    Json::Object(members.into_iter().map(|(k, v)| (k.to_string(), v)).collect())
}

fn s(v: &str) -> Json {
    Json::Str(v.to_string())
}

fn rate_limit_body() -> Json {
    obj(vec![(
        "errors",
        Json::Array(vec![obj(vec![("code", Json::Int(88)), ("message", s("Rate limit exceeded"))])]),
    )])
}

fn headers(v: &[(&str, &str)]) -> Vec<(String, String)> {
    v.iter().map(|(k, v)| (k.to_string(), v.to_string())).collect()
}

#[test]
fn rate_limit_is_classified_before_provider_error() {
    let r = intercept(429, headers(&[("X-Rate-Limit-Reset", "1700000000")]), Some(rate_limit_body()));
    assert!(matches!(r, Err(TError::RateLimit)));
}

#[test]
fn rate_limit_header_name_ignores_case() {
    let r = intercept(429, headers(&[("x-rate-limit-reset", "1700000000")]), Some(rate_limit_body()));
    assert!(matches!(r, Err(TError::RateLimit)));
}

#[test]
fn rate_limit_code_without_header_is_provider_error() {
    let r = intercept(429, headers(&[("content-type", "application/json")]), Some(rate_limit_body()));
    match r {
        Err(TError::TwitterError(h, errors)) => {
            assert_eq!(h, headers(&[("content-type", "application/json")]));
            assert_eq!(errors.len(), 1);
            assert_eq!(errors[0].code, 88);
            assert_eq!(errors[0].message, "Rate limit exceeded");
        }
        other => panic!("unexpected {:?}", other),
    }
}

#[test]
fn other_error_code_is_provider_error() {
    let body = obj(vec![(
        "errors",
        Json::Array(vec![obj(vec![("code", Json::Int(89)), ("message", s("Invalid or expired token"))])]),
    )]);
    let r = intercept(401, headers(&[("X-Rate-Limit-Reset", "1")]), Some(body));
    assert!(matches!(r, Err(TError::TwitterError(_, _))));
}

#[test]
fn bad_status_without_envelope() {
    let r = intercept(500, vec![], Some(obj(vec![("detail", s("oops"))])));
    assert!(matches!(r, Err(TError::BadStatus(500))));
    let r = intercept(404, vec![], None);
    assert!(matches!(r, Err(TError::BadStatus(404))));
}

#[test]
fn success_returns_body() {
    let r = intercept(200, vec![], Some(obj(vec![("data", s("x"))])));
    match r {
        Ok(j) => assert_eq!(j.string_member("data"), Some("x".to_string())),
        other => panic!("unexpected {:?}", other),
    }
}

#[test]
fn success_without_json_is_decode_failure() {
    assert!(matches!(intercept(204, vec![], None), Err(TError::DecodeFailure)));
}

#[test]
fn malformed_envelope_is_not_an_envelope() {
    // an entry without `message` does not make an envelope
    let body = obj(vec![("errors", Json::Array(vec![obj(vec![("code", Json::Int(88))])]))]);
    let r = intercept(200, headers(&[("X-Rate-Limit-Reset", "1")]), Some(body));
    assert!(r.is_ok());
}

#[test]
fn token_body_without_refresh_token_fails() {
    let body = obj(vec![("access_token", s("AT"))]);
    assert!(matches!(v2_tokens(&body), Err(TError::InvalidCredentialError(_))));
}

#[test]
fn token_body_with_both_tokens() {
    let body = obj(vec![
        ("token_type", s("bearer")),
        ("expires_in", Json::Int(7200)),
        ("access_token", s("AT")),
        ("scope", s("tweet.read")),
        ("refresh_token", s("RT")),
    ]);
    let t = v2_tokens(&body).expect("both tokens");
    assert_eq!(t.access_token, "AT");
    assert_eq!(t.refresh_token, "RT");
    assert_eq!(t.token_type, Some("bearer".to_string()));
    assert_eq!(t.expires_in, Some(7200));
    assert_eq!(t.scope, Some("tweet.read".to_string()));
}

#[test]
fn token_that_is_not_a_string_fails() {
    let body = obj(vec![("access_token", s("AT")), ("refresh_token", Json::Int(1))]);
    assert!(v2_tokens(&body).is_err());
}

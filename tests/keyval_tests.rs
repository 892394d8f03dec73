use twitar::keyval::KeyVal;
use twitar::errors::TError;

fn pairs(m: &KeyVal) -> Vec<(String, String)> {
    m.copy().into_pairs()
}

#[test]
fn ampersand_string_reads_pairs() {
    let m = KeyVal::string_to_keyval("a=1&b=2".to_string()).expect("well formed");
    assert_eq!(m.get("a"), Some(&"1".to_string()));
    assert_eq!(m.get("b"), Some(&"2".to_string()));
    assert_eq!(m.len(), 2);
}

#[test]
fn ampersand_string_rejects_missing_value() {
    assert!(KeyVal::string_to_keyval("a=1&b".to_string()).is_none());
}

#[test]
fn ampersand_string_rejects_piece_without_equals() {
    // one more `=` than `&`, yet the second piece has none
    assert!(KeyVal::string_to_keyval("a==1&b".to_string()).is_none());
}

#[test]
fn ampersand_string_reads_provider_answer() {
    let m = KeyVal::string_to_keyval(
        "oauth_token=tok&oauth_token_secret=sec&user_id=42&screen_name=bob".to_string(),
    )
    .expect("well formed");
    assert_eq!(m.get("oauth_token"), Some(&"tok".to_string()));
    assert_eq!(m.get("user_id"), Some(&"42".to_string()));
    assert_eq!(m.get("missing"), None);
}

#[test]
fn encoding_escapes_reserved_characters() {
    let m = KeyVal::new_with_keyval("k".to_string(), "a b&=é/~".to_string());
    assert_eq!(m.to_urlencode(), "k=a%20b%26%3D%C3%A9%2F~");
    let m = KeyVal::new_with_keyval("AZaz09-._~".to_string(), "x".to_string());
    assert_eq!(m.to_urlencode(), "AZaz09-._~=x");
}

#[test]
fn decoding_reverses_encoding() {
    let m = KeyVal::from_query("k=a%20b%26%3D%C3%A9%2F~&p=100%&z=%zz&lower=%c3%a9").expect("decodes");
    assert_eq!(m.get("k"), Some(&"a b&=é/~".to_string()));
    assert_eq!(m.get("p"), Some(&"100%".to_string()));
    assert_eq!(m.get("z"), Some(&"%zz".to_string()));
    assert_eq!(m.get("lower"), Some(&"é".to_string()));
    assert!(KeyVal::from_query("k=%FF").is_none());
}

#[test]
fn urlencode_then_query_round_trips() {
    let m = KeyVal::new()
        .add_keyval("a&b".to_string(), "c=d".to_string())
        .add_keyval("space key".to_string(), "ünïcødé ✓".to_string())
        .add_keyval("plain".to_string(), "".to_string());
    let q = m.to_urlencode();
    assert_eq!(q, "a%26b=c%3Dd&space%20key=%C3%BCn%C3%AFc%C3%B8d%C3%A9%20%E2%9C%93&plain=");
    let back = KeyVal::from_query(&q).expect("decodes");
    assert_eq!(pairs(&back), pairs(&m));
}

#[test]
fn empty_map_round_trips() {
    let m = KeyVal::new();
    let q = m.to_urlencode();
    assert_eq!(q, "");
    assert_eq!(KeyVal::from_query(&q).expect("decodes").len(), 0);
}

#[test]
fn query_rejects_piece_without_equals() {
    assert!(KeyVal::from_query("a=1&b").is_none());
    assert!(KeyVal::from_query("a=%FF").is_none());
}

#[test]
fn query_keeps_first_two_fields() {
    let m = KeyVal::from_query("a=1=2").expect("decodes");
    assert_eq!(m.get("a"), Some(&"1".to_string()));
}

#[test]
fn insert_replaces_in_place() {
    let m = KeyVal::new()
        .add_keyval("k".to_string(), "1".to_string())
        .add_keyval("j".to_string(), "2".to_string())
        .add_keyval("k".to_string(), "3".to_string());
    assert_eq!(
        pairs(&m),
        vec![("k".to_string(), "3".to_string()), ("j".to_string(), "2".to_string())]
    );
}

#[test]
fn list_insert_and_single_constructor() {
    let m = KeyVal::new_with_keyval("x".to_string(), "1".to_string()).add_list_keyval(vec![
        ("y".to_string(), "2".to_string()),
        ("x".to_string(), "9".to_string()),
    ]);
    assert_eq!(
        pairs(&m),
        vec![("x".to_string(), "9".to_string()), ("y".to_string(), "2".to_string())]
    );
}

#[test]
fn validate_and_every() {
    let m = KeyVal::new()
        .add_keyval("oauth_token".to_string(), "t".to_string())
        .add_keyval("oauth_verifier".to_string(), "v".to_string());
    assert!(m.validate("oauth_token".to_string(), "t".to_string()));
    assert!(!m.validate("oauth_token".to_string(), "u".to_string()));
    assert!(!m.validate("code".to_string(), "t".to_string()));
    assert!(m.every(vec!["oauth_token".to_string(), "oauth_verifier".to_string()]).is_some());
    assert!(m.every(vec!["code".to_string(), "state".to_string()]).is_none());
    assert!(m.every(vec![]).is_some());
}

#[test]
fn uri_query_is_decoded() {
    let m = KeyVal::query_params_to_keyval("/oauth/callback?state=s%201&code=abc").expect("parses");
    assert_eq!(m.get("state"), Some(&"s 1".to_string()));
    assert_eq!(m.get("code"), Some(&"abc".to_string()));
}

#[test]
fn uri_without_query_is_empty() {
    let m = KeyVal::query_params_to_keyval("https://example.com/path").expect("parses");
    assert_eq!(m.len(), 0);
}

#[test]
fn uri_with_bad_query_is_malformed() {
    assert!(matches!(
        KeyVal::query_params_to_keyval("/cb?denied"),
        Err(TError::MalformedQuery)
    ));
}

#[test]
fn uri_that_does_not_parse_is_an_error() {
    assert!(matches!(
        KeyVal::query_params_to_keyval("https://[::1?a=1"),
        Err(TError::UrlParseError)
    ));
}
